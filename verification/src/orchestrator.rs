//! Node bootstrap: runtime configuration, the health snapshot reported to
//! clients, boot errors and the database requests the node issues.

use vstd::prelude::*;

use crate::json::JsonValue;
use crate::network::opt_str;
use crate::text::{ascii_lowercase, chars_eq, chars_of, lower_ascii};

verus! {

/// Health of the node as reported to clients.
#[derive(Clone, Debug)]
pub struct NodeHealthSnapshot {
    pub db_status: String,
    pub lok_status: String,
    pub lok_version: String,
    pub crypto_status: String,
    pub queue_backlog: usize,
    pub active_peers: usize,
}

impl Default for NodeHealthSnapshot {
    fn default() -> (h: Self)
        ensures
            h.db_status@ == "initializing"@,
            h.lok_status@ == "initializing"@,
            h.lok_version@ == "unknown"@,
            h.crypto_status@ == "initializing"@,
            h.queue_backlog == 0,
            h.active_peers == 0,
    {
        NodeHealthSnapshot {
            db_status: String::from_str("initializing"),
            lok_status: String::from_str("initializing"),
            lok_version: String::from_str("unknown"),
            crypto_status: String::from_str("initializing"),
            queue_backlog: 0,
            active_peers: 0,
        }
    }
}

/// The health after bootstrap: the database is connected, the runtime is
/// ready when its binary passed the hash check or its install directory
/// exists, and encryption is active when a key is configured.
pub fn boot_health(
    lok_version: &str,
    hash_ok: bool,
    stable_install_exists: bool,
    crypto_has_key: bool,
    queue_backlog: usize,
) -> (h: NodeHealthSnapshot)
    ensures
        h.db_status@ == "connected"@,
        h.lok_status@ == (if hash_ok || stable_install_exists { "ready"@ } else { "initializing"@ }),
        h.lok_version@ == lok_version@,
        h.crypto_status@ == (if crypto_has_key { "active"@ } else { "waiting_for_key"@ }),
        h.queue_backlog == queue_backlog,
        h.active_peers == 0,
{
    NodeHealthSnapshot {
        db_status: String::from_str("connected"),
        lok_status: if hash_ok || stable_install_exists {
            String::from_str("ready")
        } else {
            String::from_str("initializing")
        },
        lok_version: String::from_str(lok_version),
        crypto_status: if crypto_has_key {
            String::from_str("active")
        } else {
            String::from_str("waiting_for_key")
        },
        queue_backlog,
        active_peers: 0,
    }
}

/// The reported health: the stored snapshot with the live queue backlog and peer count.
pub fn get_node_health(base: NodeHealthSnapshot, queue_backlog: usize, active_peers: usize) -> (h: NodeHealthSnapshot)
    ensures
        h.db_status == base.db_status,
        h.lok_status == base.lok_status,
        h.lok_version == base.lok_version,
        h.crypto_status == base.crypto_status,
        h.queue_backlog == queue_backlog,
        h.active_peers == active_peers,
{
    NodeHealthSnapshot { queue_backlog, active_peers, ..base }
}

/// Why the node could not boot.
#[derive(Debug)]
pub enum BootError {
    Environment(String),
    Database(String),
    Queue(String),
    Network(String),
}

impl BootError {
    /// The text of the error: `<phase>_boot_error: <detail>`.
    pub fn message(&self) -> (m: String)
        ensures
            m@ == match self {
                BootError::Environment(v) => "environment_boot_error: "@ + v@,
                BootError::Database(v) => "database_boot_error: "@ + v@,
                BootError::Queue(v) => "queue_boot_error: "@ + v@,
                BootError::Network(v) => "network_boot_error: "@ + v@,
            },
    {
        match self {
            BootError::Environment(v) => String::from_str("environment_boot_error: ").concat(v.as_str()),
            BootError::Database(v) => String::from_str("database_boot_error: ").concat(v.as_str()),
            BootError::Queue(v) => String::from_str("queue_boot_error: ").concat(v.as_str()),
            BootError::Network(v) => String::from_str("network_boot_error: ").concat(v.as_str()),
        }
    }
}

/// Settings of the node.
#[derive(Clone, Debug)]
pub struct RuntimeConfig {
    pub rpc_bind_addr: String,
    pub db_engine: String,
    pub db_path: String,
    pub surreal_namespace: String,
    pub surreal_database: String,
}

/// A setting, or its default when unset.
pub open spec fn setting_or(v: Option<Seq<char>>, default: Seq<char>) -> Seq<char> {
    match v {
        Some(s) => s,
        None => default,
    }
}

fn setting(v: Option<&str>, default: &str) -> (s: String)
    ensures
        s@ == setting_or(opt_str(v), default@),
{
    match v {
        Some(x) => String::from_str(x),
        None => String::from_str(default),
    }
}

impl RuntimeConfig {
    /// The configuration from its settings, each with its default when unset.
    pub fn from_env(
        rpc_bind: Option<&str>,
        db_engine: Option<&str>,
        db_path: Option<&str>,
        namespace: Option<&str>,
        database: Option<&str>,
    ) -> (c: Self)
        ensures
            c.rpc_bind_addr@ == setting_or(opt_str(rpc_bind), "127.0.0.1:9001"@),
            c.db_engine@ == setting_or(opt_str(db_engine), "rocksdb"@),
            c.db_path@ == setting_or(opt_str(db_path), "data/surrealdb"@),
            c.surreal_namespace@ == setting_or(opt_str(namespace), "neqst"@),
            c.surreal_database@ == setting_or(opt_str(database), "office"@),
    {
        RuntimeConfig {
            rpc_bind_addr: setting(rpc_bind, "127.0.0.1:9001"),
            db_engine: setting(db_engine, "rocksdb"),
            db_path: setting(db_path, "data/surrealdb"),
            surreal_namespace: setting(namespace, "neqst"),
            surreal_database: setting(database, "office"),
        }
    }
}

/// Storage engine of the database.
#[derive(Clone, Copy, Debug, PartialEq, Eq, Structural)]
pub enum DbEngine {
    Mem,
    RocksDb,
}

/// The in-memory engine for `mem` or `memory` (any case), RocksDB otherwise.
pub open spec fn spec_select_engine(name: Seq<char>) -> DbEngine {
    let l = lower_ascii(name);
    if l == seq!['m', 'e', 'm'] || l == seq!['m', 'e', 'm', 'o', 'r', 'y'] {
        DbEngine::Mem
    } else {
        DbEngine::RocksDb
    }
}

pub fn select_engine(config: &RuntimeConfig) -> (e: DbEngine)
    ensures
        e == spec_select_engine(config.db_engine@),
{
    let cs = chars_of(config.db_engine.as_str());
    let l = ascii_lowercase(cs.as_slice());
    let mem = ['m', 'e', 'm'];
    let memory = ['m', 'e', 'm', 'o', 'r', 'y'];
    assert(mem@ =~= seq!['m', 'e', 'm']);
    assert(memory@ =~= seq!['m', 'e', 'm', 'o', 'r', 'y']);
    if chars_eq(l.as_slice(), mem.as_slice()) || chars_eq(l.as_slice(), memory.as_slice()) {
        DbEngine::Mem
    } else {
        DbEngine::RocksDb
    }
}

/// A value bound to a query parameter.
#[derive(Debug)]
pub enum BindValue {
    Str(String),
    Int(i64),
    UInt(u64),
    Bool(bool),
    Json(JsonValue),
    /// A record identifier (`table:id`), in its text form.
    Record(String),
}

/// A query with its parameter bindings.
#[derive(Debug)]
pub struct DbQuery {
    pub sql: String,
    pub bindings: Vec<(String, BindValue)>,
}

} // verus!

verus! {

use crate::json::{jview, JsonView};

/// The mathematical form of a bound value.
pub enum BindView {
    Str(Seq<char>),
    Int(i64),
    UInt(u64),
    Bool(bool),
    Json(JsonView),
    Record(Seq<char>),
}

pub open spec fn bind_view(b: BindValue) -> BindView {
    match b {
        BindValue::Str(s) => BindView::Str(s@),
        BindValue::Int(n) => BindView::Int(n),
        BindValue::UInt(n) => BindView::UInt(n),
        BindValue::Bool(x) => BindView::Bool(x),
        BindValue::Json(v) => BindView::Json(jview(v)),
        BindValue::Record(s) => BindView::Record(s@),
    }
}

pub open spec fn bindings_view(bs: Seq<(String, BindValue)>) -> Seq<(Seq<char>, BindView)> {
    bs.map_values(|p: (String, BindValue)| (p.0@, bind_view(p.1)))
}

/// The mathematical form of a query: its text and its bindings in order.
pub open spec fn query_view(q: DbQuery) -> (Seq<char>, Seq<(Seq<char>, BindView)>) {
    (q.sql@, bindings_view(q.bindings@))
}

impl DbQuery {
    /// A query with no bindings yet.
    pub fn new(sql: &str) -> (q: Self)
        ensures
            query_view(q) == (sql@, Seq::<(Seq<char>, BindView)>::empty()),
    {
        let q = DbQuery { sql: String::from_str(sql), bindings: Vec::new() };
        assert(bindings_view(q.bindings@) =~= Seq::<(Seq<char>, BindView)>::empty());
        q
    }

    /// Appends text to the query.
    pub fn push_sql(&mut self, text: &str)
        ensures
            query_view(*final(self)) == (old(self).sql@ + text@, bindings_view(old(self).bindings@)),
    {
        self.sql.append(text);
    }

    /// Binds a parameter.
    pub fn bind(&mut self, name: &str, value: BindValue)
        ensures
            query_view(*final(self)) == (old(self).sql@, bindings_view(old(self).bindings@).push((name@, bind_view(value)))),
    {
        let ghost old_b = self.bindings@;
        let ghost v = value;
        self.bindings.push((String::from_str(name), value));
        assert(bindings_view(self.bindings@) =~= bindings_view(old_b).push((name@, bind_view(v))));
    }
}

/// The value a query binds to a name: that of the first binding with the name.
pub open spec fn bound_value(bindings: Seq<(Seq<char>, BindView)>, name: Seq<char>) -> Option<BindView>
    decreases bindings.len(),
{
    if bindings.len() == 0 {
        None
    } else if bindings[0].0 == name {
        Some(bindings[0].1)
    } else {
        bound_value(bindings.drop_first(), name)
    }
}

/// The value bound to a name is that of the first binding with the name.
pub proof fn lemma_bound_value_at(bindings: Seq<(Seq<char>, BindView)>, name: Seq<char>, k: int)
    requires
        0 <= k < bindings.len(),
        bindings[k].0 == name,
        forall|j: int| 0 <= j < k ==> #[trigger] bindings[j].0 != name,
    ensures
        bound_value(bindings, name) == Some(bindings[k].1),
    decreases k,
{
    if k > 0 {
        let rest = bindings.drop_first();
        assert(bindings[0].0 != name);
        assert forall|j: int| 0 <= j < k - 1 implies #[trigger] rest[j].0 != name by {
            assert(rest[j] == bindings[j + 1]);
        }
        lemma_bound_value_at(rest, name, k - 1);
    }
}

} // verus!
