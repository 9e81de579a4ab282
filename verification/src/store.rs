use vstd::prelude::*;

use crate::model::{ConnectionConfig, SshTunnelConfig, StoredSettings};
use crate::text::same_text;

verus! {

/// The first configuration of a list with the given id.
pub open spec fn first_config_with_id(list: Seq<ConnectionConfig>, id: Seq<char>) -> Option<ConnectionConfig>
    decreases list.len(),
{
    if list.len() == 0 {
        None
    } else if list[0].id@ == id {
        Some(list[0])
    } else {
        first_config_with_id(list.drop_first(), id)
    }
}

/// The list with the first configuration of the same id replaced, or with
/// the configuration appended when no entry has its id.
pub open spec fn saved_into(list: Seq<ConnectionConfig>, config: ConnectionConfig) -> Seq<ConnectionConfig>
    decreases list.len(),
{
    if list.len() == 0 {
        seq![config]
    } else if list[0].id@ == config.id@ {
        list.update(0, config)
    } else {
        seq![list[0]] + saved_into(list.drop_first(), config)
    }
}

/// Whether a configuration has another id than `id`.
pub open spec fn other_config_id(id: Seq<char>) -> spec_fn(ConnectionConfig) -> bool {
    |c: ConnectionConfig| c.id@ != id
}

/// The saved connections and settings, in the order they were first saved.
pub struct ConnectionStore {
    configs: Vec<ConnectionConfig>,
    settings: StoredSettings,
}

/// The contents of a [`ConnectionStore`].
pub struct ConnectionStoreView {
    pub configs: Seq<ConnectionConfig>,
    pub settings: StoredSettings,
}

impl View for ConnectionStore {
    type V = ConnectionStoreView;

    closed spec fn view(&self) -> ConnectionStoreView {
        ConnectionStoreView { configs: self.configs@, settings: self.settings }
    }
}

fn copy_text_option(value: &Option<String>) -> (res: Option<String>)
    ensures
        res == *value,
{
    match value {
        Some(text) => Some(text.clone()),
        None => None,
    }
}

/// A copy of a configuration.
pub fn copy_config(c: &ConnectionConfig) -> (res: ConnectionConfig)
    ensures
        res == *c,
{
    ConnectionConfig {
        id: c.id.clone(),
        name: c.name.clone(),
        database_type: c.database_type,
        host: copy_text_option(&c.host),
        port: c.port,
        database: copy_text_option(&c.database),
        username: copy_text_option(&c.username),
        password: copy_text_option(&c.password),
        ssl_mode: c.ssl_mode,
        connection_timeout: c.connection_timeout,
        ssh_tunnel: match &c.ssh_tunnel {
            Some(t) => Some(
                SshTunnelConfig { host: t.host.clone(), port: t.port, username: t.username.clone() },
            ),
            None => None,
        },
        color_tag: copy_text_option(&c.color_tag),
        group: copy_text_option(&c.group),
        last_connected_at: copy_text_option(&c.last_connected_at),
    }
}

proof fn lemma_first_config_at(list: Seq<ConnectionConfig>, id: Seq<char>, k: int)
    requires
        0 <= k <= list.len(),
        forall|j: int| 0 <= j < k ==> (#[trigger] list[j]).id@ != id,
        k == list.len() || list[k].id@ == id,
    ensures
        first_config_with_id(list, id) == if k == list.len() {
            None
        } else {
            Some(list[k])
        },
    decreases k,
{
    if k > 0 {
        let rest = list.drop_first();
        assert forall|j: int| 0 <= j < k - 1 implies (#[trigger] rest[j]).id@ != id by {
            assert(rest[j] == list[j + 1]);
        }
        if k < list.len() {
            assert(rest[k - 1] == list[k]);
        }
        lemma_first_config_at(rest, id, k - 1);
    }
}

proof fn lemma_saved_at(list: Seq<ConnectionConfig>, config: ConnectionConfig, i: int)
    requires
        0 <= i <= list.len(),
        forall|k: int| 0 <= k < i ==> (#[trigger] list[k]).id@ != config.id@,
        i == list.len() || list[i].id@ == config.id@,
    ensures
        saved_into(list, config) == if i == list.len() {
            list.push(config)
        } else {
            list.update(i, config)
        },
    decreases i,
{
    if list.len() == 0 {
        assert(list.push(config) =~= seq![config]);
    } else if i > 0 {
        let rest = list.drop_first();
        assert forall|k: int| 0 <= k < i - 1 implies (#[trigger] rest[k]).id@ != config.id@ by {
            assert(rest[k] == list[k + 1]);
        }
        if i < list.len() {
            assert(rest[i - 1] == list[i]);
        }
        lemma_saved_at(rest, config, i - 1);
        if i == list.len() {
            assert(seq![list[0]] + rest.push(config) =~= list.push(config));
        } else {
            assert(seq![list[0]] + rest.update(i - 1, config) =~= list.update(i, config));
        }
    }
}

impl ConnectionStore {
    /// A store with no connections and the given settings.
    pub fn new(settings: StoredSettings) -> (store: Self)
        ensures
            store@.configs.len() == 0,
            store@.settings == settings,
    {
        ConnectionStore { configs: Vec::new(), settings }
    }

    /// Copies of every saved configuration, in order.
    pub fn connections(&self) -> (list: Vec<ConnectionConfig>)
        ensures
            list@ == self@.configs,
    {
        let mut list: Vec<ConnectionConfig> = Vec::new();
        for i in 0..self.configs.len()
            invariant
                list@.len() == i,
                i <= self.configs@.len(),
                forall|j: int| 0 <= j < i ==> #[trigger] list@[j] == self.configs@[j],
        {
            list.push(copy_config(&self.configs[i]));
        }
        assert(list@ =~= self.configs@);
        list
    }

    /// The saved configuration with the given id, if any.
    pub fn get_connection(&self, id: &str) -> (found: Option<ConnectionConfig>)
        ensures
            found == first_config_with_id(self@.configs, id@),
    {
        let mut i: usize = 0;
        while i < self.configs.len()
            invariant
                i <= self.configs@.len(),
                forall|k: int| 0 <= k < i ==> (#[trigger] self.configs@[k]).id@ != id@,
            decreases self.configs@.len() - i,
        {
            if same_text(self.configs[i].id.as_str(), id) {
                proof {
                    lemma_first_config_at(self.configs@, id@, i as int);
                }
                return Some(copy_config(&self.configs[i]));
            }
            i = i + 1;
        }
        proof {
            lemma_first_config_at(self.configs@, id@, i as int);
        }
        None
    }

    /// Saves a configuration: it replaces the first saved one with its id,
    /// or is added at the end.
    pub fn save_connection(&mut self, config: ConnectionConfig)
        ensures
            final(self)@ == (ConnectionStoreView {
                configs: saved_into(old(self)@.configs, config),
                ..old(self)@
            }),
    {
        let mut i: usize = 0;
        while i < self.configs.len() && !same_text(self.configs[i].id.as_str(), config.id.as_str())
            invariant
                i <= self.configs@.len(),
                self.configs@ == old(self).configs@,
                self.settings == old(self).settings,
                forall|k: int| 0 <= k < i ==> (#[trigger] self.configs@[k]).id@ != config.id@,
            decreases self.configs@.len() - i,
        {
            i = i + 1;
        }
        proof {
            lemma_saved_at(self.configs@, config, i as int);
        }
        if i < self.configs.len() {
            self.configs.set(i, config);
        } else {
            self.configs.push(config);
        }
    }

    /// Deletes every saved configuration with the given id.
    pub fn delete_connection(&mut self, id: &str)
        ensures
            final(self)@ == (ConnectionStoreView {
                configs: old(self)@.configs.filter(other_config_id(id@)),
                ..old(self)@
            }),
    {
        let ghost all = self.configs@;
        let mut rest: Vec<ConnectionConfig> = Vec::new();
        std::mem::swap(&mut rest, &mut self.configs);
        let mut kept: Vec<ConnectionConfig> = Vec::new();
        let n = rest.len();
        let mut k: usize = 0;
        assert(all.take(0) =~= Seq::<ConnectionConfig>::empty());
        while rest.len() > 0
            invariant
                k + rest@.len() == all.len(),
                all.len() == n,
                rest@ == all.skip(k as int),
                kept@ == all.take(k as int).filter(other_config_id(id@)),
            decreases rest@.len(),
        {
            let item = rest.remove(0);
            assert(all[k as int] == item);
            assert(all.take(k + 1).drop_last() =~= all.take(k as int));
            reveal_with_fuel(Seq::filter, 1);
            if !same_text(item.id.as_str(), id) {
                kept.push(item);
            }
            k = k + 1;
            assert(rest@ =~= all.skip(k as int));
        }
        assert(all.take(k as int) =~= all);
        self.configs = kept;
    }

    /// The stored settings.
    pub fn settings(&self) -> (settings: &StoredSettings)
        ensures
            *settings == self@.settings,
    {
        &self.settings
    }

    /// The stored settings, to change them.
    pub fn settings_mut(&mut self) -> (settings: &mut StoredSettings)
        ensures
            *settings == old(self)@.settings,
            final(self)@ == (ConnectionStoreView { settings: *final(settings), ..old(self)@ }),
    {
        &mut self.settings
    }
}

/// Reading an id just after a configuration was saved gives back that
/// configuration; every other id reads as it did before the save.
pub proof fn lemma_read_after_save(list: Seq<ConnectionConfig>, config: ConnectionConfig, other: Seq<char>)
    ensures
        first_config_with_id(saved_into(list, config), config.id@) == Some(config),
        other != config.id@ ==> first_config_with_id(saved_into(list, config), other)
            == first_config_with_id(list, other),
    decreases list.len(),
{
    if list.len() == 0 {
        assert(seq![config].drop_first() =~= Seq::<ConnectionConfig>::empty());
        assert(first_config_with_id(Seq::<ConnectionConfig>::empty(), other) is None);
    } else if list[0].id@ == config.id@ {
        assert(list.update(0, config).drop_first() =~= list.drop_first());
    } else {
        let rest = list.drop_first();
        lemma_read_after_save(rest, config, other);
        let saved = seq![list[0]] + saved_into(rest, config);
        assert(saved[0] == list[0]);
        assert(saved.drop_first() =~= saved_into(rest, config));
    }
}

/// A second save under the same id overwrites the first: the list is as if
/// only the second had been saved.
pub proof fn lemma_save_overwrites(list: Seq<ConnectionConfig>, first: ConnectionConfig, second: ConnectionConfig)
    requires
        first.id@ == second.id@,
    ensures
        saved_into(saved_into(list, first), second) == saved_into(list, second),
    decreases list.len(),
{
    if list.len() == 0 {
        assert(seq![first].update(0, second) =~= seq![second]);
    } else if list[0].id@ == first.id@ {
        assert(list.update(0, first).update(0, second) =~= list.update(0, second));
    } else {
        let rest = list.drop_first();
        lemma_save_overwrites(rest, first, second);
        let once = seq![list[0]] + saved_into(rest, first);
        assert(once[0] == list[0]);
        assert(once.drop_first() =~= saved_into(rest, first));
    }
}

/// After an id was deleted nothing reads under it, and every other id
/// reads as it did before.
pub proof fn lemma_read_after_delete(list: Seq<ConnectionConfig>, id: Seq<char>, other: Seq<char>)
    ensures
        first_config_with_id(list.filter(other_config_id(id)), id) is None,
        other != id ==> first_config_with_id(list.filter(other_config_id(id)), other)
            == first_config_with_id(list, other),
    decreases list.len(),
{
    let keep = other_config_id(id);
    if list.len() == 0 {
        reveal_with_fuel(Seq::filter, 1);
        assert(list.filter(keep) =~= Seq::<ConnectionConfig>::empty());
    } else {
        let rest = list.drop_first();
        lemma_read_after_delete(rest, id, other);
        assert(list =~= seq![list[0]] + rest);
        rest.lemma_filter_prepend(list[0], keep);
        let kept = list.filter(keep);
        if keep(list[0]) {
            assert(kept == seq![list[0]] + rest.filter(keep));
            assert(kept[0] == list[0]);
            assert(kept.drop_first() =~= rest.filter(keep));
        } else {
            assert(kept =~= rest.filter(keep));
        }
    }
}

} // verus!
