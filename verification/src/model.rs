use vstd::prelude::*;

verus! {

/// The database engines as the drivers name them.
#[derive(Clone, Copy, Debug, PartialEq, Eq, Structural)]
pub enum DatabaseType {
    PostgreSQL,
    MySQL,
    MariaDB,
    SQLite,
    Redis,
}

/// How a connection asks the server for TLS.
#[derive(Clone, Copy, Debug, PartialEq, Eq, Structural)]
pub enum SslMode {
    Disable,
    Prefer,
    Require,
}

/// The TLS mode a new configuration gets: TLS when the server offers it.
pub open spec fn default_ssl_mode() -> SslMode {
    SslMode::Prefer
}

impl Default for SslMode {
    fn default() -> (mode: Self)
        ensures
            mode == default_ssl_mode(),
    {
        SslMode::Prefer
    }
}

/// How to reach the SSH host a tunnel would go through.
#[derive(Clone, Debug)]
pub struct SshTunnelConfig {
    pub host: String,
    pub port: u16,
    pub username: String,
}

/// A connection as the store keeps it.
#[derive(Clone, Debug)]
pub struct ConnectionConfig {
    pub id: String,
    pub name: String,
    pub database_type: DatabaseType,
    pub host: Option<String>,
    pub port: Option<u16>,
    pub database: Option<String>,
    pub username: Option<String>,
    pub password: Option<String>,
    pub ssl_mode: SslMode,
    pub connection_timeout: u64,
    pub ssh_tunnel: Option<SshTunnelConfig>,
    pub color_tag: Option<String>,
    pub group: Option<String>,
    pub last_connected_at: Option<String>,
}

/// The contents of a [`ConnectionConfig`], its texts as character
/// sequences.
pub struct ConnectionConfigView {
    pub id: Seq<char>,
    pub name: Seq<char>,
    pub database_type: DatabaseType,
    pub host: Option<Seq<char>>,
    pub port: Option<u16>,
    pub database: Option<Seq<char>>,
    pub username: Option<Seq<char>>,
    pub password: Option<Seq<char>>,
    pub ssl_mode: SslMode,
    pub connection_timeout: u64,
    pub ssh_tunnel: Option<(Seq<char>, u16, Seq<char>)>,
    pub color_tag: Option<Seq<char>>,
    pub group: Option<Seq<char>>,
    pub last_connected_at: Option<Seq<char>>,
}

/// The SSH settings of a connection as plain values.
pub open spec fn ssh_tunnel_view(t: Option<SshTunnelConfig>) -> Option<(Seq<char>, u16, Seq<char>)> {
    match t {
        Some(t) => Some((t.host@, t.port, t.username@)),
        None => None,
    }
}

impl View for ConnectionConfig {
    type V = ConnectionConfigView;

    open spec fn view(&self) -> ConnectionConfigView {
        ConnectionConfigView {
            id: self.id@,
            name: self.name@,
            database_type: self.database_type,
            host: self.host.deep_view(),
            port: self.port,
            database: self.database.deep_view(),
            username: self.username.deep_view(),
            password: self.password.deep_view(),
            ssl_mode: self.ssl_mode,
            connection_timeout: self.connection_timeout,
            ssh_tunnel: ssh_tunnel_view(self.ssh_tunnel),
            color_tag: self.color_tag.deep_view(),
            group: self.group.deep_view(),
            last_connected_at: self.last_connected_at.deep_view(),
        }
    }
}

/// The settings as the store keeps them: codes, not enums.
#[derive(Clone, Debug)]
pub struct StoredSettings {
    pub language: String,
    pub theme: String,
}

/// What a server says about itself.
#[derive(Clone, Debug)]
pub struct ServerInfo {
    pub server_type: String,
    pub server_version: String,
}

/// A table as a driver describes it; `table_type` is the name of the
/// driver's table kind (such as `Table` or `View`).
#[derive(Clone, Debug)]
pub struct TableInfo {
    pub name: String,
    pub table_type: String,
    pub row_count: Option<i64>,
}

/// A column of a result set.
#[derive(Clone, Debug)]
pub struct ColumnInfo {
    pub name: String,
}

/// A cell of a result set. A floating-point cell and a JSON cell hold
/// the text their value displays as.
#[derive(Clone, Debug)]
pub enum CellValue {
    Null,
    Bool(bool),
    Integer(i64),
    Float(String),
    String(String),
    Bytes(Vec<u8>),
    Timestamp(String),
    Json(String),
}

/// The raw result of a query; `None` cells are SQL NULLs.
#[derive(Clone, Debug)]
pub struct QueryResult {
    pub columns: Vec<ColumnInfo>,
    pub rows: Vec<Vec<Option<CellValue>>>,
    pub rows_affected: Option<u64>,
    pub execution_time_ms: u64,
}

/// One page of a table's rows.
#[derive(Clone, Debug)]
pub struct TableDataResult {
    pub columns: Vec<ColumnInfo>,
    pub rows: Vec<Vec<Option<CellValue>>>,
    pub total_rows: Option<i64>,
    pub page: u32,
    pub page_size: u32,
}

/// What a driver reports on failure.
#[derive(Clone, Debug)]
pub enum DriverError {
    SshTunnelError(String),
}

} // verus!
