//! The scheme registry: a fixed mapping from a shortcut kind to the ordered
//! list of configuration field labels, plus the list of kinds offered when
//! creating a new shortcut. Pure data, no state.

use vstd::prelude::*;
use crate::text::str_eq;

verus! {

/// Field labels for Oracle, PostgreSQL and Neo4j.
pub open spec fn classic_scheme() -> Seq<Seq<char>> {
    seq!["Host"@, "Port"@, "Username"@, "Password"@, "Database"@, "Script Path"@]
}

/// Field labels for MySQL and MariaDB.
pub open spec fn socket_scheme() -> Seq<Seq<char>> {
    seq![
        "Host"@,
        "Port"@,
        "Username"@,
        "Password"@,
        "Database"@,
        "Socket Path"@,
        "Script Path"@,
    ]
}

/// Field labels for SQLite.
pub open spec fn file_scheme() -> Seq<Seq<char>> {
    seq!["Database Path"@, "Script Path"@]
}

/// Field labels for MongoDB.
pub open spec fn mongodb_scheme() -> Seq<Seq<char>> {
    seq!["Host"@, "Port"@, "Username"@, "Password"@, "Auth Database"@, "Script Path"@]
}

/// Field labels for Redis.
pub open spec fn redis_scheme() -> Seq<Seq<char>> {
    seq!["Host"@, "Port"@, "Username"@, "Password"@, "Database Number"@, "Script Path"@]
}

/// Field label for a custom shell command.
pub open spec fn custom_scheme() -> Seq<Seq<char>> {
    seq!["Shell Command"@]
}

/// The ordered list of field labels for a kind; an unrecognized kind
/// degrades to a single-field Unknown scheme.
pub open spec fn spec_scheme_for(kind: Seq<char>) -> Seq<Seq<char>> {
    if kind == "MySQL"@ || kind == "MariaDB"@ {
        socket_scheme()
    } else if kind == "Oracle"@ || kind == "PostgreSQL"@ || kind == "Neo4j"@ {
        classic_scheme()
    } else if kind == "SQLite"@ {
        file_scheme()
    } else if kind == "Redis"@ {
        redis_scheme()
    } else if kind == "MongoDB"@ {
        mongodb_scheme()
    } else if kind == "Custom"@ {
        custom_scheme()
    } else {
        seq!["Unknown"@]
    }
}

/// The kinds offered by the creation popup, in display order.
pub open spec fn spec_available_kinds() -> Seq<Seq<char>> {
    seq![
        "Oracle"@,
        "MySQL"@,
        "MariaDB"@,
        "PostgreSQL"@,
        "SQLite"@,
        "Redis"@,
        "MongoDB"@,
        "Neo4j"@,
        "Custom"@,
    ]
}

fn labels2(a: &str, b: &str) -> (r: Vec<String>)
    ensures
        r.deep_view() =~= seq![a@, b@],
{
    let mut v: Vec<String> = Vec::new();
    v.push(String::from_str(a));
    v.push(String::from_str(b));
    v
}

fn labels6(a: &str, b: &str, c: &str, d: &str, e: &str, f: &str) -> (r: Vec<String>)
    ensures
        r.deep_view() =~= seq![a@, b@, c@, d@, e@, f@],
{
    let mut v: Vec<String> = Vec::new();
    v.push(String::from_str(a));
    v.push(String::from_str(b));
    v.push(String::from_str(c));
    v.push(String::from_str(d));
    v.push(String::from_str(e));
    v.push(String::from_str(f));
    v
}

/// The ordered field labels of the scheme that `kind` selects.
pub fn scheme_labels(kind: &str) -> (r: Vec<String>)
    ensures
        r.deep_view() == spec_scheme_for(kind@),
{
    if str_eq(kind, "MySQL") || str_eq(kind, "MariaDB") {
        let mut v = labels6("Host", "Port", "Username", "Password", "Database", "Socket Path");
        v.push(String::from_str("Script Path"));
        proof {
            assert(v.deep_view() =~= socket_scheme());
        }
        v
    } else if str_eq(kind, "Oracle") || str_eq(kind, "PostgreSQL") || str_eq(kind, "Neo4j") {
        let v = labels6("Host", "Port", "Username", "Password", "Database", "Script Path");
        proof {
            assert(v.deep_view() =~= classic_scheme());
        }
        v
    } else if str_eq(kind, "SQLite") {
        let v = labels2("Database Path", "Script Path");
        proof {
            assert(v.deep_view() =~= file_scheme());
        }
        v
    } else if str_eq(kind, "Redis") {
        let v = labels6("Host", "Port", "Username", "Password", "Database Number", "Script Path");
        proof {
            assert(v.deep_view() =~= redis_scheme());
        }
        v
    } else if str_eq(kind, "MongoDB") {
        let v = labels6("Host", "Port", "Username", "Password", "Auth Database", "Script Path");
        proof {
            assert(v.deep_view() =~= mongodb_scheme());
        }
        v
    } else if str_eq(kind, "Custom") {
        let mut v: Vec<String> = Vec::new();
        v.push(String::from_str("Shell Command"));
        proof {
            assert(v.deep_view() =~= custom_scheme());
        }
        v
    } else {
        let mut v: Vec<String> = Vec::new();
        v.push(String::from_str("Unknown"));
        proof {
            assert(v.deep_view() =~= seq!["Unknown"@]);
        }
        v
    }
}

/// The kinds offered by the creation popup.
pub fn available_kinds() -> (r: Vec<String>)
    ensures
        r.deep_view() == spec_available_kinds(),
{
    let mut v: Vec<String> = Vec::new();
    v.push(String::from_str("Oracle"));
    v.push(String::from_str("MySQL"));
    v.push(String::from_str("MariaDB"));
    v.push(String::from_str("PostgreSQL"));
    v.push(String::from_str("SQLite"));
    v.push(String::from_str("Redis"));
    v.push(String::from_str("MongoDB"));
    v.push(String::from_str("Neo4j"));
    v.push(String::from_str("Custom"));
    proof {
        assert(v.deep_view() =~= spec_available_kinds());
    }
    v
}

/// How many kinds the creation popup offers.
pub fn available_kinds_len() -> (r: usize)
    ensures
        r == spec_available_kinds().len(),
        r >= 1,
{
    9
}

} // verus!
