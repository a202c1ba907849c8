//! The data directory's layout and its `.env` file, of which only the `DATABASE_URL` key
//! is read and written here; every other line is kept as it is.
use vstd::prelude::*;
use crate::text::{chars_of, lines, lines_of, matches_at, starts_with, trim, trimmed};

verus! {

/// Subdirectory of the data directory for persisted application data.
pub const DATA_SUBDIR: &'static str = "data";

/// Subdirectory of the data directory for database migration scripts.
pub const MIGRATIONS_SUBDIR: &'static str = "drizzle";

/// The configuration file inside the data directory.
pub const ENV_FILE: &'static str = ".env";

pub open spec fn db_key() -> Seq<char> {
    "DATABASE_URL="@
}

pub open spec fn db_comment() -> Seq<char> {
    "# PostgreSQL database URL\n"@
}

/// `s` with every leading repetition of a non-empty `p` removed.
pub open spec fn strip_prefixes(s: Seq<char>, p: Seq<char>) -> Seq<char>
    decreases s.len(),
{
    if p.len() > 0 && starts_with(s, p) {
        strip_prefixes(s.subrange(p.len() as int, s.len() as int), p)
    } else {
        s
    }
}

/// A line that sets the database URL.
pub open spec fn is_db_line(line: Seq<char>) -> bool {
    starts_with(trim(line), db_key())
}

/// The database URL set by the first such line of `ls`.
pub open spec fn database_url_in(ls: Seq<Seq<char>>) -> Option<Seq<char>>
    decreases ls.len(),
{
    if ls.len() == 0 {
        None
    } else if is_db_line(ls[0]) {
        Some(strip_prefixes(trim(ls[0]), db_key()))
    } else {
        database_url_in(ls.drop_first())
    }
}

/// The database URL that a `.env` file with `content` configures.
pub open spec fn database_url_of(content: Seq<char>) -> Option<Seq<char>> {
    database_url_in(lines_of(content))
}

/// `ls` joined with newlines between them.
pub open spec fn join_lines(ls: Seq<Seq<char>>) -> Seq<char>
    decreases ls.len(),
{
    if ls.len() == 0 {
        Seq::empty()
    } else if ls.len() == 1 {
        ls[0]
    } else {
        join_lines(ls.drop_last()) + seq!['\n'] + ls.last()
    }
}

pub open spec fn url_line(url: Seq<char>) -> Seq<char> {
    db_key() + url
}

/// `ls` with every line that sets the database URL replaced by one that sets `url`.
pub open spec fn with_url_lines(ls: Seq<Seq<char>>, url: Seq<char>) -> Seq<Seq<char>> {
    Seq::new(ls.len(), |k: int| if is_db_line(ls[k]) { url_line(url) } else { ls[k] })
}

pub open spec fn has_db_line(ls: Seq<Seq<char>>) -> bool {
    exists|k: int| 0 <= k < ls.len() && is_db_line(#[trigger] ls[k])
}

/// The `.env` content that sets the database URL to `url`, given the current content if
/// the file exists: the URL lines are rewritten in place, or a commented URL line is
/// appended to the trimmed content, or a file of that one commented line is made.
pub open spec fn env_with_url(existing: Option<Seq<char>>, url: Seq<char>) -> Seq<char> {
    match existing {
        Some(e) => {
            let ls = lines_of(e);
            if has_db_line(ls) {
                join_lines(with_url_lines(ls, url))
            } else {
                trim(e) + "\n\n"@ + db_comment() + url_line(url)
            }
        },
        None => db_comment() + url_line(url),
    }
}

fn strip_db_key(s: &str) -> (r: &str)
    ensures
        r@ == strip_prefixes(s@, db_key()),
{
    let key = chars_of("DATABASE_URL=");
    let klen = key.len();
    proof {
        reveal_strlit("DATABASE_URL=");
    }
    let mut rest = s;
    loop
        invariant
            key@ == db_key(),
            klen == key@.len(),
            klen == 13,
            strip_prefixes(s@, db_key()) == strip_prefixes(rest@, db_key()),
        decreases rest@.len(),
    {
        let cs = chars_of(rest);
        if !matches_at(&cs, &key, 0, false) {
            return rest;
        }
        rest = rest.substring_char(klen, cs.len());
    }
}

/// The database URL that a `.env` file with `content` configures: what follows
/// `DATABASE_URL=` on the first line that starts with it, surrounding space aside.
pub fn database_url_from_env(content: &str) -> (r: Option<String>)
    ensures
        r matches Some(u) ==> database_url_of(content@) == Some(u@),
        r is None ==> database_url_of(content@) is None,
{
    let ls = lines(content);
    let ghost all = lines_of(content@);
    let key = chars_of("DATABASE_URL=");
    proof {
        reveal_strlit("DATABASE_URL=");
    }
    let mut i: usize = 0;
    proof {
        assert(all.subrange(0, all.len() as int) =~= all);
    }
    while i < ls.len()
        invariant
            i <= ls@.len(),
            ls@.len() == all.len(),
            all == lines_of(content@),
            key@ == db_key(),
            forall|k: int| 0 <= k < ls@.len() ==> (#[trigger] ls@[k])@ == all[k],
            database_url_in(all) == database_url_in(all.subrange(i as int, all.len() as int)),
        decreases ls@.len() - i,
    {
        let ghost tail = all.subrange(i as int, all.len() as int);
        proof {
            assert(tail.drop_first() =~= all.subrange(i + 1, all.len() as int));
            assert(tail[0] == all[i as int]);
        }
        let line = trimmed(ls[i]);
        let cs = chars_of(line);
        if matches_at(&cs, &key, 0, false) {
            assert(is_db_line(all[i as int]));
            let url = String::from_str(strip_db_key(line));
            assert(database_url_in(tail) == Some(url@));
            return Some(url);
        }
        i += 1;
    }
    None
}

/// The `.env` content that sets the database URL to `url`, given the current content
/// when the file exists.
pub fn env_with_database_url(existing: Option<&str>, url: &str) -> (r: String)
    ensures
        r@ == env_with_url(
            match existing {
                Some(e) => Some(e@),
                None => None,
            },
            url@,
        ),
{
    let mut key_line = String::from_str("DATABASE_URL=");
    key_line.append(url);
    match existing {
        None => {
            let mut out = String::from_str("# PostgreSQL database URL\n");
            out.append(key_line.as_str());
            out
        },
        Some(e) => {
            let ls = lines(e);
            let ghost all = lines_of(e@);
            let ghost target = with_url_lines(all, url@);
            let key = chars_of("DATABASE_URL=");
            proof {
                reveal_strlit("DATABASE_URL=");
                reveal_strlit("\n");
            }
            let mut out = String::new();
            let mut found = false;
            let mut i: usize = 0;
            proof {
                assert(target.subrange(0, 0) =~= Seq::<Seq<char>>::empty());
            }
            while i < ls.len()
                invariant
                    i <= ls@.len(),
                    ls@.len() == all.len(),
                    key@ == db_key(),
                    key_line@ == url_line(url@),
                    target == with_url_lines(all, url@),
                    forall|k: int| 0 <= k < ls@.len() ==> (#[trigger] ls@[k])@ == all[k],
                    out@ == join_lines(target.subrange(0, i as int)),
                    found == exists|k: int| 0 <= k < i && is_db_line(#[trigger] all[k]),
                decreases ls@.len() - i,
            {
                let line = ls[i];
                let cs = chars_of(trimmed(line));
                let is_url = matches_at(&cs, &key, 0, false);
                proof {
                    reveal_strlit("\n");
                    assert(is_url == is_db_line(all[i as int]));
                    let before = target.subrange(0, i as int);
                    let after = target.subrange(0, i + 1);
                    assert(after.drop_last() =~= before);
                    assert(after.last() == target[i as int]);
                }
                if i > 0 {
                    out.append("\n");
                }
                if is_url {
                    out.append(key_line.as_str());
                    found = true;
                } else {
                    out.append(line);
                }
                proof {
                    let after = target.subrange(0, i + 1);
                    if i == 0 {
                        assert(after =~= seq![target[0]]);
                    }
                }
                i += 1;
            }
            proof {
                assert(target.subrange(0, all.len() as int) =~= target);
            }
            if found {
                out
            } else {
                let mut appended = String::from_str(trimmed(e));
                appended.append("\n\n# PostgreSQL database URL\n");
                appended.append(key_line.as_str());
                proof {
                    reveal_strlit("\n\n# PostgreSQL database URL\n");
                    reveal_strlit("\n\n");
                    reveal_strlit("# PostgreSQL database URL\n");
                }
                appended
            }
        },
    }
}

} // verus!
