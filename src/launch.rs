//! What a start hands to the sidecar: its environment, and the notices logged on the way.
use vstd::prelude::*;
use crate::text::{decimal, push_decimal};

verus! {

pub open spec fn migrations_kind_of(uses_postgres: bool) -> Seq<char> {
    if uses_postgres {
        "pg"@
    } else {
        "sqlite"@
    }
}

/// The subdirectory of the packaged migrations that fits the database in use.
pub fn migrations_kind(uses_postgres: bool) -> (r: &'static str)
    ensures
        r@ == migrations_kind_of(uses_postgres),
{
    if uses_postgres {
        "pg"
    } else {
        "sqlite"
    }
}

pub open spec fn database_notice_of(uses_postgres: bool) -> Seq<char> {
    if uses_postgres {
        "Using PostgreSQL database"@
    } else {
        "Using SQLite database"@
    }
}

/// The log line that names the database in use: PostgreSQL when a URL is configured,
/// the embedded SQLite database otherwise.
pub fn database_notice(uses_postgres: bool) -> (r: &'static str)
    ensures
        r@ == database_notice_of(uses_postgres),
{
    if uses_postgres {
        "Using PostgreSQL database"
    } else {
        "Using SQLite database"
    }
}

/// The log line that names the data directory.
pub fn data_dir_notice(data_dir: &str) -> (r: String)
    ensures
        r@ == "Data directory: "@ + data_dir@,
{
    let mut r = String::from_str("Data directory: ");
    r.append(data_dir);
    r
}

pub open spec fn optional_var(name: Seq<char>, value: Option<Seq<char>>) -> Seq<(Seq<char>, Seq<char>)> {
    match value {
        Some(v) => seq![(name, v)],
        None => Seq::empty(),
    }
}

pub open spec fn view_of(v: Option<&str>) -> Option<Seq<char>> {
    match v {
        Some(s) => Some(s@),
        None => None,
    }
}

/// The sidecar's environment, in order: its port and data directory, then the database
/// URL and the packaged migrations and static files where there are any.
pub open spec fn sidecar_env_of(
    port: u16,
    data_dir: Seq<char>,
    database_url: Option<Seq<char>>,
    migrations_path: Option<Seq<char>>,
    public_dir: Option<Seq<char>>,
) -> Seq<(Seq<char>, Seq<char>)> {
    seq![("PORT"@, decimal(port as nat)), ("DATA_DIR"@, data_dir)] + optional_var(
        "DATABASE_URL"@,
        database_url,
    ) + optional_var("MIGRATIONS_PATH"@, migrations_path) + optional_var("PUBLIC_DIR"@, public_dir)
}

fn push_var(env: &mut Vec<(String, String)>, name: &str, value: &str)
    ensures
        final(env)@.len() == old(env)@.len() + 1,
        forall|k: int| 0 <= k < old(env)@.len() ==> #[trigger] final(env)@[k] == old(env)@[k],
        final(env)@.last().0@ == name@,
        final(env)@.last().1@ == value@,
{
    env.push((String::from_str(name), String::from_str(value)));
}

fn push_optional_var(env: &mut Vec<(String, String)>, name: &str, value: Option<&str>)
    ensures
        final(env)@.len() == old(env)@.len() + optional_var(name@, view_of(value)).len(),
        forall|k: int| 0 <= k < old(env)@.len() ==> #[trigger] final(env)@[k] == old(env)@[k],
        forall|k: int|
            0 <= k < optional_var(name@, view_of(value)).len() ==> (#[trigger] final(env)@[old(
                env,
            )@.len() + k]).0@ == optional_var(name@, view_of(value))[k].0 && final(env)@[old(
                env,
            )@.len() + k].1@ == optional_var(name@, view_of(value))[k].1,
{
    match value {
        Some(v) => push_var(env, name, v),
        None => {},
    }
}

/// The sidecar's environment; see [`sidecar_env_of`].
pub fn sidecar_env(
    port: u16,
    data_dir: &str,
    database_url: Option<&str>,
    migrations_path: Option<&str>,
    public_dir: Option<&str>,
) -> (r: Vec<(String, String)>)
    ensures
        r@.len() == sidecar_env_of(
            port,
            data_dir@,
            view_of(database_url),
            view_of(migrations_path),
            view_of(public_dir),
        ).len(),
        forall|k: int|
            0 <= k < r@.len() ==> (#[trigger] r@[k]).0@ == sidecar_env_of(
                port,
                data_dir@,
                view_of(database_url),
                view_of(migrations_path),
                view_of(public_dir),
            )[k].0 && r@[k].1@ == sidecar_env_of(
                port,
                data_dir@,
                view_of(database_url),
                view_of(migrations_path),
                view_of(public_dir),
            )[k].1,
{
    let mut env: Vec<(String, String)> = Vec::new();
    let mut port_text = String::new();
    push_decimal(&mut port_text, port as u32);
    push_var(&mut env, "PORT", port_text.as_str());
    push_var(&mut env, "DATA_DIR", data_dir);
    let ghost base = env@;
    push_optional_var(&mut env, "DATABASE_URL", database_url);
    let ghost with_db = env@;
    push_optional_var(&mut env, "MIGRATIONS_PATH", migrations_path);
    let ghost with_migrations = env@;
    push_optional_var(&mut env, "PUBLIC_DIR", public_dir);
    proof {
        let want = sidecar_env_of(
            port,
            data_dir@,
            view_of(database_url),
            view_of(migrations_path),
            view_of(public_dir),
        );
        let a = optional_var("DATABASE_URL"@, view_of(database_url));
        let b = optional_var("MIGRATIONS_PATH"@, view_of(migrations_path));
        let c = optional_var("PUBLIC_DIR"@, view_of(public_dir));
        assert forall|k: int| 0 <= k < env@.len() implies (#[trigger] env@[k]).0@ == want[k].0
            && env@[k].1@ == want[k].1 by {
            if k < 2 {
                assert(env@[k] == with_migrations[k]);
                assert(with_migrations[k] == with_db[k]);
                assert(with_db[k] == base[k]);
            } else if k < 2 + a.len() {
                assert(env@[k] == with_migrations[k]);
                assert(with_migrations[k] == with_db[k]);
                assert(with_db[2 + (k - 2)] == with_db[k]);
            } else if k < 2 + a.len() + b.len() {
                assert(env@[k] == with_migrations[k]);
                assert(with_migrations[with_db.len() + (k - 2 - a.len())] == with_migrations[k]);
            } else {
                assert(env@[with_migrations.len() + (k - 2 - a.len() - b.len())] == env@[k]);
            }
        }
    }
    env
}

} // verus!
