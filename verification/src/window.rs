use vstd::prelude::*;

use crate::api::{
    AppSettingsSnapshot, BootstrapData, ConnectionDraft, ConnectionSession, ConnectionSummary,
    QuerySnapshot, TablePreview, TableSummary, ThemeMode, UiLanguage,
};
use crate::form::{
    draft_of_form, empty_form, form_of_draft, ConnectionForm, ConnectionFormView,
};
use crate::i18n::{autonym_of, language_index, message_text, I18n, LocaleBundleView, LocaleCatalog, ALL_LANGUAGES};
use crate::model::ServerInfo;
use crate::roster::{find_by_id, replace_or_append, retain_other_ids, sorted_by_name, upsert_into, without_id};
use crate::text::{trim, trim_spec};

verus! {

/// A call the window asks the backend to make.
pub enum Request {
    Bootstrap,
    LoadConnection(String),
    SaveConnection(ConnectionDraft),
    DeleteConnection(String),
    TestConnection(ConnectionDraft),
    Connect(String),
    Disconnect(String),
    ListDatabases(String),
    ListTables(String, String),
    PreviewTable(String, String, String),
    ExecuteQuery(String, String),
    SaveSettings(UiLanguage, ThemeMode),
}

/// What the main window shows and remembers, apart from its widgets.
pub struct WindowState {
    pub i18n: I18n,
    pub catalog: LocaleCatalog,
    pub theme: ThemeMode,
    pub form: ConnectionForm,
    pub connections: Vec<ConnectionSummary>,
    pub selected_connection_id: Option<String>,
    pub session: Option<ConnectionSession>,
    pub databases: Vec<String>,
    pub selected_database: Option<String>,
    pub tables: Vec<TableSummary>,
    pub selected_table: Option<String>,
    pub table_preview: Option<TablePreview>,
    pub query_result: Option<QuerySnapshot>,
    pub show_form: bool,
    pub busy_label: Option<String>,
    pub status: String,
    pub error: Option<String>,
}

/// The contents of a [`WindowState`], its texts as character sequences.
pub struct WindowView {
    pub language: UiLanguage,
    pub catalog: Seq<LocaleBundleView>,
    pub theme: ThemeMode,
    pub form: ConnectionFormView,
    pub connections: Seq<ConnectionSummary>,
    pub selected_connection_id: Option<Seq<char>>,
    pub session: Option<ConnectionSession>,
    pub databases: Seq<Seq<char>>,
    pub selected_database: Option<Seq<char>>,
    pub tables: Seq<TableSummary>,
    pub selected_table: Option<Seq<char>>,
    pub table_preview: Option<TablePreview>,
    pub query_result: Option<QuerySnapshot>,
    pub show_form: bool,
    pub busy_label: Option<Seq<char>>,
    pub status: Seq<char>,
    pub error: Option<Seq<char>>,
}

impl View for WindowState {
    type V = WindowView;

    open spec fn view(&self) -> WindowView {
        WindowView {
            language: self.i18n@,
            catalog: self.catalog@,
            theme: self.theme,
            form: self.form@,
            connections: self.connections@,
            selected_connection_id: self.selected_connection_id.deep_view(),
            session: self.session,
            databases: self.databases.deep_view(),
            selected_database: self.selected_database.deep_view(),
            tables: self.tables@,
            selected_table: self.selected_table.deep_view(),
            table_preview: self.table_preview,
            query_result: self.query_result,
            show_form: self.show_form,
            busy_label: self.busy_label.deep_view(),
            status: self.status@,
            error: self.error.deep_view(),
        }
    }
}

/// The text of a message key in the window's current language.
pub open spec fn label(w: WindowView, key: Seq<char>) -> Seq<char> {
    message_text(w.catalog, w.language, key)
}

/// The id of the first connection of a list, if any.
pub open spec fn first_id(list: Seq<ConnectionSummary>) -> Option<Seq<char>> {
    if list.len() > 0 {
        Some(list[0].id@)
    } else {
        None
    }
}

/// The status line after a server answered: `<connected>: <type> <version>`.
pub open spec fn connected_status(w: WindowView, server_type: Seq<char>, server_version: Seq<char>) -> Seq<char> {
    label(w, "status.connected"@) + ": "@ + server_type + " "@ + server_version
}

/// The window after an error: the error shown, nothing busy, status ready.
pub open spec fn after_error(w: WindowView, message: Seq<char>) -> WindowView {
    WindowView {
        error: Some(message),
        busy_label: None,
        status: label(w, "status.ready"@),
        ..w
    }
}

/// The window once its session is gone: no databases, tables, preview or
/// query result.
pub open spec fn without_session(w: WindowView) -> WindowView {
    WindowView {
        session: None,
        databases: Seq::empty(),
        tables: Seq::empty(),
        table_preview: None,
        query_result: None,
        ..w
    }
}

/// Dropping the session drops everything read through it: no session, no
/// databases or tables, no table preview and no query result remain; the
/// rest of the window stays as it was.
pub proof fn lemma_without_session_clears_results(w: WindowView)
    ensures
        without_session(w).session is None,
        without_session(w).databases.len() == 0,
        without_session(w).tables.len() == 0,
        without_session(w).table_preview is None,
        without_session(w).query_result is None,
        without_session(w).connections == w.connections,
        without_session(w).selected_connection_id == w.selected_connection_id,
        without_session(w).form == w.form,
        without_session(w).language == w.language,
        without_session(w).theme == w.theme,
{
}

fn first_string(list: &Vec<String>) -> (res: Option<String>)
    ensures
        res.deep_view() == (if list@.len() > 0 {
            Some(list@[0]@)
        } else {
            None::<Seq<char>>
        }),
{
    if list.len() > 0 {
        Some(list[0].clone())
    } else {
        None
    }
}

fn first_connection_id(list: &Vec<ConnectionSummary>) -> (res: Option<String>)
    ensures
        res.deep_view() == first_id(list@),
{
    if list.len() > 0 {
        Some(list[0].id.clone())
    } else {
        None
    }
}

fn first_table_name(list: &Vec<TableSummary>) -> (res: Option<String>)
    ensures
        res.deep_view() == (if list@.len() > 0 {
            Some(list@[0].name@)
        } else {
            None::<Seq<char>>
        }),
{
    if list.len() > 0 {
        Some(list[0].name.clone())
    } else {
        None
    }
}

impl WindowState {
    /// The window as it opens: English, graphite, nothing loaded yet.
    pub fn new(catalog: LocaleCatalog) -> (w: Self)
        ensures
            w@.language == UiLanguage::English,
            w@.catalog == catalog@,
            w@.theme == ThemeMode::Graphite,
            w@.form == empty_form(),
            w@.connections.len() == 0,
            w@.selected_connection_id is None,
            w@.session is None,
            w@.databases.len() == 0,
            w@.selected_database is None,
            w@.tables.len() == 0,
            w@.selected_table is None,
            w@.table_preview is None,
            w@.query_result is None,
            !w@.show_form,
            w@.busy_label == Some("Loading"@),
            w@.status == "Ready"@,
            w@.error is None,
    {
        WindowState {
            i18n: I18n::new(UiLanguage::English),
            catalog,
            theme: ThemeMode::Graphite,
            form: ConnectionForm::new(),
            connections: Vec::new(),
            selected_connection_id: None,
            session: None,
            databases: Vec::new(),
            selected_database: None,
            tables: Vec::new(),
            selected_table: None,
            table_preview: None,
            query_result: None,
            show_form: false,
            busy_label: Some("Loading".to_owned()),
            status: "Ready".to_owned(),
            error: None,
        }
    }

    /// The text of a message key in the current language.
    pub fn label(&self, key: &str) -> (text: String)
        ensures
            text@ == label(self@, key@),
    {
        self.i18n.tr(&self.catalog, key).to_owned()
    }

    /// Shows an error: nothing is busy any more and the status is ready.
    pub fn set_error(&mut self, message: String)
        ensures
            final(self)@ == after_error(old(self)@, message@),
    {
        self.error = Some(message);
        self.busy_label = None;
        self.status = self.label("status.ready");
    }

    /// Starts loading the saved connections and settings.
    pub fn begin_bootstrap(&mut self) -> (req: Request)
        ensures
            final(self)@ == (WindowView {
                busy_label: Some(label(old(self)@, "status.loading"@)),
                error: None,
                ..old(self)@
            }),
            req is Bootstrap,
    {
        self.busy_label = Some(self.label("status.loading"));
        self.error = None;
        Request::Bootstrap
    }

    /// Takes in the saved connections and settings: the first connection is
    /// selected, and language and theme are those saved.
    pub fn apply_bootstrap(&mut self, data: BootstrapData)
        ensures
            ({
                let w = WindowView {
                    connections: data.connections@,
                    selected_connection_id: first_id(data.connections@),
                    language: data.settings.language,
                    theme: data.settings.theme,
                    ..old(self)@
                };
                final(self)@ == (WindowView { status: label(w, "status.ready"@), ..w })
            }),
    {
        self.connections = data.connections;
        self.selected_connection_id = first_connection_id(&self.connections);
        self.i18n.set_language(data.settings.language);
        self.theme = data.settings.theme;
        self.status = self.label("status.ready");
    }

    /// Handles the answer to the loading of connections and settings.
    pub fn on_bootstrapped(&mut self, result: Result<BootstrapData, String>)
        ensures
            match result {
                Ok(data) => ({
                    let w = WindowView {
                        connections: data.connections@,
                        selected_connection_id: first_id(data.connections@),
                        language: data.settings.language,
                        theme: data.settings.theme,
                        ..old(self)@
                    };
                    final(self)@ == (WindowView { status: label(w, "status.ready"@), busy_label: None, ..w })
                }),
                Err(message) => final(self)@ == after_error(old(self)@, message@),
            },
    {
        match result {
            Ok(data) => {
                self.apply_bootstrap(data);
                self.busy_label = None;
            },
            Err(message) => self.set_error(message),
        }
    }

    /// Opens an empty form for a new connection.
    pub fn on_new_connection(&mut self)
        ensures
            final(self)@ == (WindowView { form: empty_form(), show_form: true, error: None, ..old(self)@ }),
    {
        self.form.clear();
        self.show_form = true;
        self.error = None;
    }

    /// Closes the form.
    pub fn on_cancel_form(&mut self)
        ensures
            final(self)@ == (WindowView { show_form: false, ..old(self)@ }),
    {
        self.show_form = false;
    }

    /// Puts a saved connection into the sorted list and selects it.
    pub fn upsert_connection(&mut self, connection: ConnectionSummary)
        ensures
            final(self)@ == (WindowView {
                connections: sorted_by_name(replace_or_append(old(self)@.connections, connection)),
                selected_connection_id: Some(connection.id@),
                ..old(self)@
            }),
    {
        let id = connection.id.clone();
        let mut list: Vec<ConnectionSummary> = Vec::new();
        std::mem::swap(&mut list, &mut self.connections);
        self.connections = upsert_into(list, connection);
        self.selected_connection_id = Some(id);
    }

    /// Starts saving the connection in the form.
    pub fn on_save_connection(&mut self) -> (req: Request)
        ensures
            final(self)@ == (WindowView {
                busy_label: Some(label(old(self)@, "status.saving"@)),
                error: None,
                ..old(self)@
            }),
            req matches Request::SaveConnection(draft) && draft@ == draft_of_form(old(self)@.form),
    {
        let draft = self.form.to_draft();
        self.busy_label = Some(self.label("status.saving"));
        self.error = None;
        Request::SaveConnection(draft)
    }

    /// Handles the answer to saving a connection: the saved connection is
    /// put in the list and selected, and the form closes.
    pub fn on_saved(&mut self, result: Result<ConnectionSummary, String>)
        ensures
            match result {
                Ok(connection) => final(self)@ == (WindowView {
                    connections: sorted_by_name(replace_or_append(old(self)@.connections, connection)),
                    selected_connection_id: Some(connection.id@),
                    show_form: false,
                    status: label(old(self)@, "status.ready"@),
                    busy_label: None,
                    ..old(self)@
                }),
                Err(message) => final(self)@ == after_error(old(self)@, message@),
            },
    {
        match result {
            Ok(connection) => {
                self.upsert_connection(connection);
                self.show_form = false;
                self.status = self.label("status.ready");
                self.busy_label = None;
            },
            Err(message) => self.set_error(message),
        }
    }

    /// Starts testing the connection in the form.
    pub fn on_test_connection(&mut self) -> (req: Request)
        ensures
            final(self)@ == (WindowView {
                busy_label: Some(label(old(self)@, "status.testing"@)),
                error: None,
                ..old(self)@
            }),
            req matches Request::TestConnection(draft) && draft@ == draft_of_form(old(self)@.form),
    {
        let draft = self.form.to_draft();
        self.busy_label = Some(self.label("status.testing"));
        self.error = None;
        Request::TestConnection(draft)
    }

    fn connected_status(&self, server_type: &String, server_version: &String) -> (text: String)
        ensures
            text@ == connected_status(self@, server_type@, server_version@),
    {
        let mut text = self.label("status.connected");
        text.append(": ");
        text.append(server_type.as_str());
        text.append(" ");
        text.append(server_version.as_str());
        text
    }

    /// Handles the answer to a connection test: the status names the
    /// server.
    pub fn on_tested(&mut self, result: Result<ServerInfo, String>)
        ensures
            match result {
                Ok(server) => final(self)@ == (WindowView {
                    status: connected_status(old(self)@, server.server_type@, server.server_version@),
                    busy_label: None,
                    ..old(self)@
                }),
                Err(message) => final(self)@ == after_error(old(self)@, message@),
            },
    {
        match result {
            Ok(server) => {
                self.status = self.connected_status(&server.server_type, &server.server_version);
                self.busy_label = None;
            },
            Err(message) => self.set_error(message),
        }
    }

    /// Starts loading the selected connection into the form; nothing
    /// happens when no connection is selected.
    pub fn on_edit_selected(&mut self) -> (req: Option<Request>)
        ensures
            match old(self)@.selected_connection_id {
                Some(id) => {
                    &&& final(self)@ == (WindowView {
                        busy_label: Some(label(old(self)@, "status.loading"@)),
                        ..old(self)@
                    })
                    &&& req matches Some(Request::LoadConnection(r)) && r@ == id
                },
                None => final(self)@ == old(self)@ && req is None,
            },
    {
        match &self.selected_connection_id {
            Some(id) => {
                let id = id.clone();
                self.busy_label = Some(self.label("status.loading"));
                Some(Request::LoadConnection(id))
            },
            None => None,
        }
    }

    /// Handles a loaded connection: the form shows it.
    pub fn on_loaded(&mut self, result: Result<ConnectionDraft, String>)
        ensures
            match result {
                Ok(draft) => final(self)@ == (WindowView {
                    form: form_of_draft(draft@),
                    show_form: true,
                    busy_label: None,
                    ..old(self)@
                }),
                Err(message) => final(self)@ == after_error(old(self)@, message@),
            },
    {
        match result {
            Ok(draft) => {
                self.form.populate(draft);
                self.show_form = true;
                self.busy_label = None;
            },
            Err(message) => self.set_error(message),
        }
    }

    /// Starts deleting the selected connection; nothing happens when no
    /// connection is selected.
    pub fn on_delete_selected(&mut self) -> (req: Option<Request>)
        ensures
            match old(self)@.selected_connection_id {
                Some(id) => {
                    &&& final(self)@ == (WindowView {
                        busy_label: Some(label(old(self)@, "status.loading"@)),
                        ..old(self)@
                    })
                    &&& req matches Some(Request::DeleteConnection(r)) && r@ == id
                },
                None => final(self)@ == old(self)@ && req is None,
            },
    {
        match &self.selected_connection_id {
            Some(id) => {
                let id = id.clone();
                self.busy_label = Some(self.label("status.loading"));
                Some(Request::DeleteConnection(id))
            },
            None => None,
        }
    }

    /// Handles the answer to a deletion: the deleted connection leaves the
    /// list, the first one left is selected, and the session is dropped.
    pub fn on_deleted(&mut self, result: Result<(), String>)
        ensures
            match result {
                Ok(()) => ({
                    let kept = match old(self)@.selected_connection_id {
                        Some(id) => without_id(old(self)@.connections, id),
                        None => old(self)@.connections,
                    };
                    final(self)@ == (WindowView {
                        connections: kept,
                        selected_connection_id: first_id(kept),
                        busy_label: None,
                        status: label(old(self)@, "status.ready"@),
                        ..without_session(old(self)@)
                    })
                }),
                Err(message) => final(self)@ == after_error(old(self)@, message@),
            },
            result is Ok ==> {
                &&& final(self)@.session is None
                &&& final(self)@.databases.len() == 0
                &&& final(self)@.tables.len() == 0
                &&& final(self)@.table_preview is None
                &&& final(self)@.query_result is None
            },
    {
        match result {
            Ok(()) => {
                if let Some(selected) = &self.selected_connection_id {
                    let mut list: Vec<ConnectionSummary> = Vec::new();
                    std::mem::swap(&mut list, &mut self.connections);
                    self.connections = retain_other_ids(list, selected.as_str());
                }
                self.selected_connection_id = first_connection_id(&self.connections);
                self.session = None;
                self.databases = Vec::new();
                assert(self.databases.deep_view() =~= Seq::<Seq<char>>::empty());
                self.tables = Vec::new();
                self.table_preview = None;
                self.query_result = None;
                self.busy_label = None;
                self.status = self.label("status.ready");
            },
            Err(message) => self.set_error(message),
        }
    }

    /// Starts connecting to the selected connection; nothing happens when
    /// no connection is selected.
    pub fn on_connect_selected(&mut self) -> (req: Option<Request>)
        ensures
            match old(self)@.selected_connection_id {
                Some(id) => {
                    &&& final(self)@ == (WindowView {
                        busy_label: Some(label(old(self)@, "status.connecting"@)),
                        ..old(self)@
                    })
                    &&& req matches Some(Request::Connect(r)) && r@ == id
                },
                None => final(self)@ == old(self)@ && req is None,
            },
    {
        match &self.selected_connection_id {
            Some(id) => {
                let id = id.clone();
                self.busy_label = Some(self.label("status.connecting"));
                Some(Request::Connect(id))
            },
            None => None,
        }
    }

    /// Starts listing the databases of the session; nothing happens without
    /// a session.
    pub fn load_databases(&mut self) -> (req: Option<Request>)
        ensures
            match old(self)@.session {
                Some(session) => {
                    &&& final(self)@ == (WindowView {
                        busy_label: Some(label(old(self)@, "status.loading"@)),
                        ..old(self)@
                    })
                    &&& req matches Some(Request::ListDatabases(r)) && r@ == session.session_id@
                },
                None => final(self)@ == old(self)@ && req is None,
            },
    {
        match &self.session {
            Some(session) => {
                let id = session.session_id.clone();
                self.busy_label = Some(self.label("status.loading"));
                Some(Request::ListDatabases(id))
            },
            None => None,
        }
    }

    /// Handles the answer to connecting: the session is kept, the status
    /// names the server, and the databases are listed next.
    pub fn on_connected(&mut self, result: Result<ConnectionSession, String>) -> (req: Option<Request>)
        ensures
            match result {
                Ok(session) => {
                    &&& final(self)@ == (WindowView {
                        status: connected_status(old(self)@, session.server_type@, session.server_version@),
                        session: Some(session),
                        busy_label: Some(label(old(self)@, "status.loading"@)),
                        error: None,
                        ..old(self)@
                    })
                    &&& req matches Some(Request::ListDatabases(r)) && r@ == session.session_id@
                },
                Err(message) => final(self)@ == after_error(old(self)@, message@) && req is None,
            },
    {
        match result {
            Ok(session) => {
                self.status = self.connected_status(&session.server_type, &session.server_version);
                self.session = Some(session);
                self.busy_label = None;
                self.error = None;
                self.load_databases()
            },
            Err(message) => {
                self.set_error(message);
                None
            },
        }
    }

    /// Starts closing the session; nothing happens without a session.
    pub fn on_disconnect(&mut self) -> (req: Option<Request>)
        ensures
            final(self)@ == old(self)@,
            match old(self)@.session {
                Some(session) => req matches Some(Request::Disconnect(r)) && r@ == session.session_id@,
                None => req is None,
            },
    {
        match &self.session {
            Some(session) => Some(Request::Disconnect(session.session_id.clone())),
            None => None,
        }
    }

    /// Handles the answer to closing the session.
    pub fn on_disconnected(&mut self, result: Result<(), String>)
        ensures
            match result {
                Ok(()) => final(self)@ == (WindowView {
                    busy_label: None,
                    status: label(old(self)@, "status.disconnected"@),
                    ..without_session(old(self)@)
                }),
                Err(message) => final(self)@ == after_error(old(self)@, message@),
            },
            result is Ok ==> {
                &&& final(self)@.session is None
                &&& final(self)@.databases.len() == 0
                &&& final(self)@.tables.len() == 0
                &&& final(self)@.table_preview is None
                &&& final(self)@.query_result is None
            },
    {
        match result {
            Ok(()) => {
                self.session = None;
                self.databases = Vec::new();
                assert(self.databases.deep_view() =~= Seq::<Seq<char>>::empty());
                self.tables = Vec::new();
                self.table_preview = None;
                self.query_result = None;
                self.busy_label = None;
                self.status = self.label("status.disconnected");
            },
            Err(message) => self.set_error(message),
        }
    }

    /// Starts listing the tables of the selected database; nothing happens
    /// without a session or a selected database.
    pub fn load_tables(&mut self) -> (req: Option<Request>)
        ensures
            match (old(self)@.session, old(self)@.selected_database) {
                (Some(session), Some(database)) => {
                    &&& final(self)@ == (WindowView {
                        busy_label: Some(label(old(self)@, "status.loading"@)),
                        ..old(self)@
                    })
                    &&& req matches Some(Request::ListTables(r, d)) && r@ == session.session_id@
                        && d@ == database
                },
                _ => final(self)@ == old(self)@ && req is None,
            },
    {
        match (&self.session, &self.selected_database) {
            (Some(session), Some(database)) => {
                let id = session.session_id.clone();
                let database = database.clone();
                self.busy_label = Some(self.label("status.loading"));
                Some(Request::ListTables(id, database))
            },
            _ => None,
        }
    }

    /// Handles the listed databases: the first is selected and its tables
    /// are listed next.
    pub fn on_databases(&mut self, result: Result<Vec<String>, String>) -> (req: Option<Request>)
        ensures
            match result {
                Ok(databases) => {
                    let w = WindowView {
                        databases: databases.deep_view(),
                        selected_database: if databases@.len() > 0 {
                            Some(databases@[0]@)
                        } else {
                            None
                        },
                        tables: Seq::empty(),
                        table_preview: None,
                        busy_label: None,
                        ..old(self)@
                    };
                    match (w.session, w.selected_database) {
                        (Some(session), Some(database)) => {
                            &&& final(self)@ == (WindowView {
                                busy_label: Some(label(w, "status.loading"@)),
                                ..w
                            })
                            &&& req matches Some(Request::ListTables(r, d)) && r@ == session.session_id@
                                && d@ == database
                        },
                        _ => final(self)@ == w && req is None,
                    }
                },
                Err(message) => final(self)@ == after_error(old(self)@, message@) && req is None,
            },
    {
        match result {
            Ok(databases) => {
                self.selected_database = first_string(&databases);
                self.databases = databases;
                self.tables = Vec::new();
                self.table_preview = None;
                self.busy_label = None;
                self.load_tables()
            },
            Err(message) => {
                self.set_error(message);
                None
            },
        }
    }

    /// Handles the listed tables: the first is selected.
    pub fn on_tables(&mut self, result: Result<Vec<TableSummary>, String>)
        ensures
            match result {
                Ok(tables) => final(self)@ == (WindowView {
                    tables: tables@,
                    selected_table: if tables@.len() > 0 {
                        Some(tables@[0].name@)
                    } else {
                        None
                    },
                    busy_label: None,
                    ..old(self)@
                }),
                Err(message) => final(self)@ == after_error(old(self)@, message@),
            },
    {
        match result {
            Ok(tables) => {
                self.selected_table = first_table_name(&tables);
                self.tables = tables;
                self.busy_label = None;
            },
            Err(message) => self.set_error(message),
        }
    }

    /// Starts loading the first page of the selected table; nothing happens
    /// without a session, a selected database and a selected table.
    pub fn on_preview_table(&mut self) -> (req: Option<Request>)
        ensures
            match (old(self)@.session, old(self)@.selected_database, old(self)@.selected_table) {
                (Some(session), Some(database), Some(table)) => {
                    &&& final(self)@ == (WindowView {
                        busy_label: Some(label(old(self)@, "status.loading"@)),
                        ..old(self)@
                    })
                    &&& req matches Some(Request::PreviewTable(r, d, t)) && r@ == session.session_id@
                        && d@ == database && t@ == table
                },
                _ => final(self)@ == old(self)@ && req is None,
            },
    {
        match (&self.session, &self.selected_database, &self.selected_table) {
            (Some(session), Some(database), Some(table)) => {
                let id = session.session_id.clone();
                let database = database.clone();
                let table = table.clone();
                self.busy_label = Some(self.label("status.loading"));
                Some(Request::PreviewTable(id, database, table))
            },
            _ => None,
        }
    }

    /// Handles a loaded table page.
    pub fn on_previewed(&mut self, result: Result<TablePreview, String>)
        ensures
            match result {
                Ok(preview) => final(self)@ == (WindowView {
                    table_preview: Some(preview),
                    busy_label: None,
                    ..old(self)@
                }),
                Err(message) => final(self)@ == after_error(old(self)@, message@),
            },
    {
        match result {
            Ok(preview) => {
                self.table_preview = Some(preview);
                self.busy_label = None;
            },
            Err(message) => self.set_error(message),
        }
    }

    /// Starts running a query; nothing happens without a session or when
    /// the query is only white space.
    pub fn on_run_query(&mut self, sql: String) -> (req: Option<Request>)
        ensures
            match old(self)@.session {
                Some(session) => if trim_spec(sql@).len() == 0 {
                    final(self)@ == old(self)@ && req is None
                } else {
                    &&& final(self)@ == (WindowView {
                        busy_label: Some(label(old(self)@, "status.loading"@)),
                        ..old(self)@
                    })
                    &&& req matches Some(Request::ExecuteQuery(r, q)) && r@ == session.session_id@
                        && q@ == sql@
                },
                None => final(self)@ == old(self)@ && req is None,
            },
    {
        let id = match &self.session {
            Some(session) => session.session_id.clone(),
            None => return None,
        };
        if trim(sql.as_str()).is_empty() {
            return None;
        }
        self.busy_label = Some(self.label("status.loading"));
        Some(Request::ExecuteQuery(id, sql))
    }

    /// Handles a query's result.
    pub fn on_query_ran(&mut self, result: Result<QuerySnapshot, String>)
        ensures
            match result {
                Ok(snapshot) => final(self)@ == (WindowView {
                    query_result: Some(snapshot),
                    busy_label: None,
                    ..old(self)@
                }),
                Err(message) => final(self)@ == after_error(old(self)@, message@),
            },
    {
        match result {
            Ok(snapshot) => {
                self.query_result = Some(snapshot);
                self.busy_label = None;
            },
            Err(message) => self.set_error(message),
        }
    }

    /// Starts saving a new interface language, with the current theme.
    pub fn cycle_language(&mut self, language: UiLanguage) -> (req: Request)
        ensures
            final(self)@ == (WindowView {
                busy_label: Some(label(old(self)@, "status.saving"@)),
                ..old(self)@
            }),
            req == Request::SaveSettings(language, old(self)@.theme),
    {
        self.busy_label = Some(self.label("status.saving"));
        Request::SaveSettings(language, self.theme)
    }

    /// Handles the saved settings: the interface takes their language and
    /// theme.
    pub fn on_settings_saved(&mut self, result: Result<AppSettingsSnapshot, String>)
        ensures
            match result {
                Ok(settings) => ({
                    let w = WindowView {
                        language: settings.language,
                        theme: settings.theme,
                        busy_label: None,
                        ..old(self)@
                    };
                    final(self)@ == (WindowView { status: label(w, "status.ready"@), ..w })
                }),
                Err(message) => final(self)@ == after_error(old(self)@, message@),
            },
    {
        match result {
            Ok(settings) => {
                self.i18n.set_language(settings.language);
                self.theme = settings.theme;
                self.busy_label = None;
                self.status = self.label("status.ready");
            },
            Err(message) => self.set_error(message),
        }
    }

    /// Selects a connection: the session, its databases, tables, preview
    /// and query result are dropped, and so is the error.
    pub fn select_connection(&mut self, id: String)
        ensures
            final(self)@ == (WindowView {
                selected_connection_id: Some(id@),
                selected_database: None,
                selected_table: None,
                error: None,
                ..without_session(old(self)@)
            }),
            final(self)@.session is None,
            final(self)@.databases.len() == 0,
            final(self)@.tables.len() == 0,
            final(self)@.table_preview is None,
            final(self)@.query_result is None,
    {
        self.selected_connection_id = Some(id);
        self.session = None;
        self.databases = Vec::new();
        assert(self.databases.deep_view() =~= Seq::<Seq<char>>::empty());
        self.tables = Vec::new();
        self.selected_database = None;
        self.selected_table = None;
        self.table_preview = None;
        self.query_result = None;
        self.error = None;
    }

    /// Selects a database and starts listing its tables.
    pub fn select_database(&mut self, database: String) -> (req: Option<Request>)
        ensures
            ({
                let w = WindowView {
                    selected_database: Some(database@),
                    tables: Seq::empty(),
                    table_preview: None,
                    ..old(self)@
                };
                match w.session {
                    Some(session) => {
                        &&& final(self)@ == (WindowView {
                            busy_label: Some(label(w, "status.loading"@)),
                            ..w
                        })
                        &&& req matches Some(Request::ListTables(r, d)) && r@ == session.session_id@
                            && d@ == database@
                    },
                    None => final(self)@ == w && req is None,
                }
            }),
    {
        self.selected_database = Some(database);
        self.tables = Vec::new();
        self.table_preview = None;
        self.load_tables()
    }

    /// Selects a table; the preview of the previous one is dropped.
    pub fn select_table(&mut self, table: String)
        ensures
            final(self)@ == (WindowView { selected_table: Some(table@), table_preview: None, ..old(self)@ }),
    {
        self.selected_table = Some(table);
        self.table_preview = None;
    }

    /// The status line: what the window is busy with, or else its status.
    pub fn status_label(&self) -> (text: String)
        ensures
            text@ == match self@.busy_label {
                Some(busy) => busy,
                None => self@.status,
            },
    {
        match &self.busy_label {
            Some(busy) => busy.clone(),
            None => self.status.clone(),
        }
    }

    /// The selected connection: the first in the list with the selected id.
    pub fn selected_connection(&self) -> (res: Option<&ConnectionSummary>)
        ensures
            res is Some <==> selected_entry(self@) is Some,
            res matches Some(c) ==> selected_entry(self@) == Some(*c),
    {
        match &self.selected_connection_id {
            Some(id) => {
                let found = find_by_id(&self.connections, id.as_str());
                proof {
                    if let Some(c) = found {
                        let k = choose|k: int|
                            0 <= k < self.connections@.len() && self.connections@[k] == *c
                                && self.connections@[k].id@ == id@ && (forall|j: int|
                                0 <= j < k ==> (#[trigger] self.connections@[j]).id@ != id@);
                        lemma_first_with_id(self.connections@, id@, k);
                    } else {
                        lemma_first_with_id(self.connections@, id@, self.connections@.len() as int);
                    }
                }
                found
            },
            None => None,
        }
    }

    /// Whether a connection id is the selected one.
    pub fn is_selected_connection(&self, id: &str) -> (res: bool)
        ensures
            res == (self@.selected_connection_id == Some(id@)),
    {
        match &self.selected_connection_id {
            Some(selected) => crate::text::same_text(selected.as_str(), id),
            None => false,
        }
    }

    /// The title above the content: the selected connection's name, or the
    /// application's title.
    pub fn header_title(&self) -> (text: String)
        ensures
            text@ == match selected_entry(self@) {
                Some(c) => c.name@,
                None => label(self@, "app.title"@),
            },
    {
        match self.selected_connection() {
            Some(c) => c.name.clone(),
            None => self.label("app.title"),
        }
    }

    /// The line under the title: the selected connection's host, or a hint
    /// to select a connection.
    pub fn header_subtitle(&self) -> (text: String)
        ensures
            text@ == match selected_entry(self@) {
                Some(c) => match c.host {
                    Some(host) => host@,
                    None => label(self@, "content.select_connection"@),
                },
                None => label(self@, "content.select_connection"@),
            },
    {
        match self.selected_connection() {
            Some(c) => match &c.host {
                Some(host) => host.clone(),
                None => self.label("content.select_connection"),
            },
            None => self.label("content.select_connection"),
        }
    }

    /// What the empty database list says: loading while connected, and
    /// otherwise that there is no connection.
    pub fn databases_notice(&self) -> (text: String)
        ensures
            text@ == if self@.session is Some {
                label(self@, "status.loading"@)
            } else {
                label(self@, "content.not_connected"@)
            },
    {
        if self.session.is_some() {
            self.label("status.loading")
        } else {
            self.label("content.not_connected")
        }
    }

    /// The language picker: each language in the order of
    /// [`ALL_LANGUAGES`], with the name it gives itself and whether it is
    /// the current one.
    pub fn language_choices(&self) -> (choices: Vec<(UiLanguage, String, bool)>)
        ensures
            choices@.len() == 11,
            forall|i: int|
                0 <= i < 11 ==> {
                    let (language, name, active) = #[trigger] choices@[i];
                    &&& language_index(language) == i
                    &&& name@ == autonym_of(self@.catalog, language)
                    &&& active == (language == self@.language)
                },
    {
        let mut choices: Vec<(UiLanguage, String, bool)> = Vec::new();
        let all = ALL_LANGUAGES;
        for i in 0..11usize
            invariant
                all == ALL_LANGUAGES,
                choices@.len() == i,
                forall|j: int|
                    0 <= j < i ==> {
                        let (language, name, active) = #[trigger] choices@[j];
                        &&& language_index(language) == j
                        &&& name@ == autonym_of(self@.catalog, language)
                        &&& active == (language == self@.language)
                    },
        {
            let language = all[i];
            let name = self.i18n.language_label(&self.catalog, language).to_owned();
            let active = language == self.i18n.language();
            choices.push((language, name, active));
        }
        choices
    }

    /// The title of the connection form: editing a saved connection, or a
    /// new one.
    pub fn form_title(&self) -> (text: String)
        ensures
            text@ == if self@.form.id is Some {
                label(self@, "form.edit"@)
            } else {
                label(self@, "form.new"@)
            },
    {
        if self.form.id.is_some() {
            self.label("form.edit")
        } else {
            self.label("form.new")
        }
    }
}

/// The first entry of a list with the given id.
pub open spec fn first_with_id(list: Seq<ConnectionSummary>, id: Seq<char>) -> Option<ConnectionSummary>
    decreases list.len(),
{
    if list.len() == 0 {
        None
    } else if list[0].id@ == id {
        Some(list[0])
    } else {
        first_with_id(list.drop_first(), id)
    }
}

/// The selected connection of a window, if the selection names one.
pub open spec fn selected_entry(w: WindowView) -> Option<ConnectionSummary> {
    match w.selected_connection_id {
        Some(id) => first_with_id(w.connections, id),
        None => None,
    }
}

proof fn lemma_first_with_id(list: Seq<ConnectionSummary>, id: Seq<char>, k: int)
    requires
        0 <= k <= list.len(),
        forall|j: int| 0 <= j < k ==> (#[trigger] list[j]).id@ != id,
        k == list.len() || list[k].id@ == id,
    ensures
        first_with_id(list, id) == if k == list.len() {
            None
        } else {
            Some(list[k])
        },
    decreases k,
{
    if k > 0 {
        let rest = list.drop_first();
        assert(list[0].id@ != id);
        assert forall|j: int| 0 <= j < k - 1 implies (#[trigger] rest[j]).id@ != id by {
            assert(rest[j] == list[j + 1]);
        }
        if k < list.len() {
            assert(rest[k - 1] == list[k]);
        }
        lemma_first_with_id(rest, id, k - 1);
    }
}

} // verus!
