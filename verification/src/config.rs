//! Checks on the connection configuration and the choice of the connection
//! selected at start.

use vstd::prelude::*;

use crate::model::{AppConfig, ConnectionProfile};
use crate::text::{chars_of, concat2, owned, str_equal, trim, trim_chars};

verus! {

/// Why a configuration is refused.
#[derive(Debug, Clone)]
pub enum ConfigError {
    NoConnections,
    EmptyName,
    DuplicateName(String),
    UnsupportedKind(String),
    EmptyHost,
    EmptyUsername,
    EmptyDatabase,
    ZeroPort,
}

pub enum ConfigErrorView {
    NoConnections,
    EmptyName,
    DuplicateName(Seq<char>),
    UnsupportedKind(Seq<char>),
    EmptyHost,
    EmptyUsername,
    EmptyDatabase,
    ZeroPort,
}

impl View for ConfigError {
    type V = ConfigErrorView;

    open spec fn view(&self) -> ConfigErrorView {
        match self {
            ConfigError::NoConnections => ConfigErrorView::NoConnections,
            ConfigError::EmptyName => ConfigErrorView::EmptyName,
            ConfigError::DuplicateName(n) => ConfigErrorView::DuplicateName(n@),
            ConfigError::UnsupportedKind(k) => ConfigErrorView::UnsupportedKind(k@),
            ConfigError::EmptyHost => ConfigErrorView::EmptyHost,
            ConfigError::EmptyUsername => ConfigErrorView::EmptyUsername,
            ConfigError::EmptyDatabase => ConfigErrorView::EmptyDatabase,
            ConfigError::ZeroPort => ConfigErrorView::ZeroPort,
        }
    }
}

/// The text shown for each refusal.
pub open spec fn error_message(e: ConfigErrorView) -> Seq<char> {
    match e {
        ConfigErrorView::NoConnections => "config must contain at least one connection"@,
        ConfigErrorView::EmptyName => "connection name cannot be empty"@,
        ConfigErrorView::DuplicateName(n) => "duplicate connection name: "@ + n,
        ConfigErrorView::UnsupportedKind(k) => "unsupported connection kind: "@ + k,
        ConfigErrorView::EmptyHost => "connection host cannot be empty"@,
        ConfigErrorView::EmptyUsername => "connection username cannot be empty"@,
        ConfigErrorView::EmptyDatabase => "connection database cannot be empty"@,
        ConfigErrorView::ZeroPort => "connection port must be greater than zero"@,
    }
}

impl ConfigError {
    pub fn message(&self) -> (r: String)
        ensures
            r@ == error_message(self@),
    {
        match self {
            ConfigError::NoConnections => owned("config must contain at least one connection"),
            ConfigError::EmptyName => owned("connection name cannot be empty"),
            ConfigError::DuplicateName(n) => concat2("duplicate connection name: ", n.as_str()),
            ConfigError::UnsupportedKind(k) => concat2(
                "unsupported connection kind: ",
                k.as_str(),
            ),
            ConfigError::EmptyHost => owned("connection host cannot be empty"),
            ConfigError::EmptyUsername => owned("connection username cannot be empty"),
            ConfigError::EmptyDatabase => owned("connection database cannot be empty"),
            ConfigError::ZeroPort => owned("connection port must be greater than zero"),
        }
    }
}

/// Whether a connection named `name` occurs in `conns`.
pub open spec fn has_name(conns: Seq<ConnectionProfile>, name: Seq<char>) -> bool {
    exists|j: int| 0 <= j < conns.len() && (#[trigger] conns[j]).name@ == name
}

/// The first rule that connection `c` breaks, given the connections accepted before it.
pub open spec fn connection_problem(
    c: ConnectionProfile,
    earlier: Seq<ConnectionProfile>,
) -> Option<ConfigErrorView> {
    if trim(c.name@).len() == 0 {
        Some(ConfigErrorView::EmptyName)
    } else if has_name(earlier, c.name@) {
        Some(ConfigErrorView::DuplicateName(c.name@))
    } else if c.kind@ != "mysql"@ {
        Some(ConfigErrorView::UnsupportedKind(c.kind@))
    } else if trim(c.host@).len() == 0 {
        Some(ConfigErrorView::EmptyHost)
    } else if trim(c.username@).len() == 0 {
        Some(ConfigErrorView::EmptyUsername)
    } else if trim(c.database@).len() == 0 {
        Some(ConfigErrorView::EmptyDatabase)
    } else if c.port == 0 {
        Some(ConfigErrorView::ZeroPort)
    } else {
        None
    }
}

/// The first problem among connections `i..`, each checked against those before it.
pub open spec fn problem_from(conns: Seq<ConnectionProfile>, i: int) -> Option<ConfigErrorView>
    decreases conns.len() - i,
{
    if i < 0 || i >= conns.len() {
        None
    } else {
        match connection_problem(conns[i], conns.take(i)) {
            Some(e) => Some(e),
            None => problem_from(conns, i + 1),
        }
    }
}

/// The first problem of a configuration, or `None` when it is valid.
pub open spec fn config_problem(config: AppConfig) -> Option<ConfigErrorView> {
    if config.connections@.len() == 0 {
        Some(ConfigErrorView::NoConnections)
    } else {
        problem_from(config.connections@, 0)
    }
}

fn is_blank_str(s: &str) -> (r: bool)
    ensures
        r == (trim(s@).len() == 0),
{
    let chars = chars_of(s);
    let t = trim_chars(&chars);
    t.len() == 0
}

/// Checks a configuration: at least one connection, and for each connection in order a
/// non-blank name not used before, kind `mysql`, non-blank host, username and database, and a
/// non-zero port. The first broken rule is reported.
pub fn validate_config(config: &AppConfig) -> (r: Result<(), ConfigError>)
    ensures
        match r {
            Ok(()) => config_problem(*config) is None,
            Err(e) => config_problem(*config) == Some(e@),
        },
{
    let conns = &config.connections;
    if conns.len() == 0 {
        return Err(ConfigError::NoConnections);
    }
    let mut i: usize = 0;
    while i < conns.len()
        invariant
            i <= conns@.len(),
            conns@.len() > 0,
            conns@ == config.connections@,
            problem_from(conns@, 0) == problem_from(conns@, i as int),
        decreases conns@.len() - i,
    {
        let c = &conns[i];
        let ghost earlier = conns@.take(i as int);
        if is_blank_str(c.name.as_str()) {
            return Err(ConfigError::EmptyName);
        }
        let mut j: usize = 0;
        while j < i
            invariant
                j <= i < conns@.len(),
                earlier == conns@.take(i as int),
                c == conns@[i as int],
                conns@ == config.connections@,
                conns@.len() > 0,
                problem_from(conns@, 0) == problem_from(conns@, i as int),
                trim(c.name@).len() != 0,
                forall|k: int| 0 <= k < j ==> (#[trigger] earlier[k]).name@ != c.name@,
            decreases i - j,
        {
            if str_equal(conns[j].name.as_str(), c.name.as_str()) {
                assert(earlier[j as int].name@ == c.name@);
                return Err(ConfigError::DuplicateName(c.name.clone()));
            }
            j += 1;
        }
        assert(!has_name(earlier, c.name@));
        if !str_equal(c.kind.as_str(), "mysql") {
            return Err(ConfigError::UnsupportedKind(c.kind.clone()));
        }
        if is_blank_str(c.host.as_str()) {
            return Err(ConfigError::EmptyHost);
        }
        if is_blank_str(c.username.as_str()) {
            return Err(ConfigError::EmptyUsername);
        }
        if is_blank_str(c.database.as_str()) {
            return Err(ConfigError::EmptyDatabase);
        }
        if c.port == 0 {
            return Err(ConfigError::ZeroPort);
        }
        i += 1;
    }
    Ok(())
}

/// A parsed configuration as the workbench takes it: the configuration itself when it passes
/// the checks of `validate_config`, else the message of the first rule it breaks.
pub fn checked_config(config: AppConfig) -> (r: Result<AppConfig, String>)
    ensures
        match r {
            Ok(c) => c == config && config_problem(config) is None,
            Err(m) => config_problem(config) matches Some(e) && m@ == error_message(e),
        },
{
    match validate_config(&config) {
        Ok(()) => Ok(config),
        Err(e) => Err(e.message()),
    }
}

/// Index of the first connection at or after `i` named `name`.
pub open spec fn position_from(conns: Seq<ConnectionProfile>, name: Seq<char>, i: int) -> Option<
    int,
>
    decreases conns.len() - i,
{
    if i < 0 || i >= conns.len() {
        None
    } else if conns[i].name@ == name {
        Some(i)
    } else {
        position_from(conns, name, i + 1)
    }
}

/// The connection selected at start: the first one named by `default_connection`, else 0.
pub open spec fn default_index(config: AppConfig) -> nat {
    match config.default_connection {
        Some(name) => match position_from(config.connections@, name@, 0) {
            Some(i) => i as nat,
            None => 0,
        },
        None => 0,
    }
}

pub fn default_connection_index(config: &AppConfig) -> (r: usize)
    ensures
        r == default_index(*config),
{
    let name = match &config.default_connection {
        Some(n) => n,
        None => return 0,
    };
    let mut i: usize = 0;
    while i < config.connections.len()
        invariant
            i <= config.connections@.len(),
            config.default_connection == Some(*name),
            position_from(config.connections@, name@, 0) == position_from(
                config.connections@,
                name@,
                i as int,
            ),
        decreases config.connections@.len() - i,
    {
        if str_equal(config.connections[i].name.as_str(), name.as_str()) {
            return i;
        }
        i += 1;
    }
    0
}

proof fn lemma_position_from(conns: Seq<ConnectionProfile>, name: Seq<char>, i: int)
    requires
        0 <= i,
    ensures
        position_from(conns, name, i) matches Some(k) ==> (i <= k < conns.len() && conns[k].name@
            == name && forall|j: int| i <= j < k ==> (#[trigger] conns[j]).name@ != name),
        position_from(conns, name, i) is None ==> forall|j: int|
            i <= j < conns.len() ==> (#[trigger] conns[j]).name@ != name,
    decreases conns.len() - i,
{
    if i < conns.len() && conns[i].name@ != name {
        lemma_position_from(conns, name, i + 1);
    }
}

/// Whether `default_connection` names one of the connections.
pub open spec fn default_named(config: AppConfig) -> bool {
    config.default_connection matches Some(name) && has_name(config.connections@, name@)
}

/// The connection selected at start exists whenever there is a connection at all. It is the
/// first connection named by `default_connection` when some connection has that name, and the
/// first connection otherwise.
pub proof fn law_default_connection(config: AppConfig)
    requires
        config.connections@.len() > 0,
    ensures
        default_index(config) < config.connections@.len(),
        default_named(config) ==> (config.connections@[default_index(config) as int].name@
            == config.default_connection->0@ && forall|j: int|
            0 <= j < default_index(config) ==> (#[trigger] config.connections@[j]).name@
                != config.default_connection->0@),
        !default_named(config) ==> default_index(config) == 0,
{
    if let Some(name) = config.default_connection {
        lemma_position_from(config.connections@, name@, 0);
    }
}

/// What a valid connection satisfies.
pub open spec fn connection_ok(c: ConnectionProfile) -> bool {
    &&& trim(c.name@).len() > 0
    &&& c.kind@ == "mysql"@
    &&& trim(c.host@).len() > 0
    &&& trim(c.username@).len() > 0
    &&& trim(c.database@).len() > 0
    &&& c.port > 0
}

proof fn lemma_no_problem_from(conns: Seq<ConnectionProfile>, i: int, k: int)
    requires
        0 <= i <= k < conns.len(),
        problem_from(conns, i) is None,
    ensures
        connection_problem(conns[k], conns.take(k)) is None,
    decreases k - i,
{
    if i < k {
        lemma_no_problem_from(conns, i + 1, k);
    }
}

/// A configuration that passes the checks has at least one connection; every connection has
/// a non-blank name that no other connection uses, kind `mysql`, a non-blank host, username
/// and database, and a port above zero.
pub proof fn law_valid_config(config: AppConfig)
    requires
        config_problem(config) is None,
    ensures
        config.connections@.len() > 0,
        forall|i: int|
            0 <= i < config.connections@.len() ==> connection_ok(#[trigger] config.connections@[i]),
        forall|i: int, j: int|
            0 <= i < j < config.connections@.len() ==> (#[trigger] config.connections@[i]).name@
                != (#[trigger] config.connections@[j]).name@,
{
    let conns = config.connections@;
    assert forall|i: int| 0 <= i < conns.len() implies connection_ok(#[trigger] conns[i]) by {
        lemma_no_problem_from(conns, 0, i);
    }
    assert forall|i: int, j: int| 0 <= i < j < conns.len() implies (#[trigger] conns[i]).name@
        != (#[trigger] conns[j]).name@ by {
        lemma_no_problem_from(conns, 0, j);
        if conns[i].name@ == conns[j].name@ {
            assert(conns.take(j)[i] == conns[i]);
            assert(has_name(conns.take(j), conns[j].name@));
        }
    }
}

proof fn lemma_problem_free_from(conns: Seq<ConnectionProfile>, i: int)
    requires
        0 <= i,
        forall|k: int|
            0 <= k < conns.len() ==> {
                let c = #[trigger] conns[k];
                &&& trim(c.name@).len() > 0
                &&& c.kind@ == "mysql"@
                &&& trim(c.host@).len() > 0
                &&& trim(c.username@).len() > 0
                &&& trim(c.database@).len() > 0
                &&& c.port > 0
            },
        forall|a: int, b: int|
            0 <= a < b < conns.len() ==> (#[trigger] conns[a]).name@ != (#[trigger] conns[b]).name@,
    ensures
        problem_from(conns, i) is None,
    decreases conns.len() - i,
{
    if i < conns.len() {
        let c = conns[i];
        if has_name(conns.take(i), c.name@) {
            let j = choose|j: int| 0 <= j < conns.take(i).len() && (#[trigger] conns.take(i)[j]).name@
                == c.name@;
            assert(conns.take(i)[j] == conns[j]);
        }
        lemma_problem_free_from(conns, i + 1);
    }
}

/// The checks refuse nothing else: a configuration with at least one connection, where every
/// connection has a non-blank name, kind `mysql`, a non-blank host, username and database and a
/// port above zero, and no two connections share a name, passes them. The password, in
/// particular, is not checked and may be empty.
pub proof fn law_sound_config_accepted(config: AppConfig)
    requires
        config.connections@.len() > 0,
        forall|k: int|
            0 <= k < config.connections@.len() ==> {
                let c = #[trigger] config.connections@[k];
                &&& trim(c.name@).len() > 0
                &&& c.kind@ == "mysql"@
                &&& trim(c.host@).len() > 0
                &&& trim(c.username@).len() > 0
                &&& trim(c.database@).len() > 0
                &&& c.port > 0
            },
        forall|a: int, b: int|
            0 <= a < b < config.connections@.len() ==> (#[trigger] config.connections@[a]).name@
                != (#[trigger] config.connections@[b]).name@,
    ensures
        config_problem(config) is None,
{
    lemma_problem_free_from(config.connections@, 0);
}

} // verus!
