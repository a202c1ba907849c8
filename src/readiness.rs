//! Reading the server's output: the readiness detector and the display categories of log lines.
use vstd::prelude::*;
use crate::text::{
    chars_of, contains, contains_chars, contains_ci, folded, has_substring, is_digit, is_digit_char,
    is_space, is_space_char, is_word, is_word_char, matches_at, occurs_at,
};

verus! {

/// A server output line announces that the server accepts connections.
pub open spec fn is_ready(line: Seq<char>) -> bool {
    ||| contains(line, "Listening on"@)
    ||| contains(line, "Server running"@)
    ||| contains(line, "Server is running"@)
}

/// Whether a line of the server's standard output announces that it is ready.
pub fn is_ready_line(line: &str) -> (r: bool)
    ensures
        r == is_ready(line@),
{
    has_substring(line, "Listening on") || has_substring(line, "Server running")
        || has_substring(line, "Server is running")
}

/// How a log line is shown to the user.
#[derive(Debug, Clone, Copy, PartialEq, Eq, Structural)]
pub enum LogCategory {
    Info,
    Success,
    Warning,
    Error,
    Server,
}

pub open spec fn category_name(c: LogCategory) -> Seq<char> {
    match c {
        LogCategory::Info => "info"@,
        LogCategory::Success => "success"@,
        LogCategory::Warning => "warning"@,
        LogCategory::Error => "error"@,
        LogCategory::Server => "server"@,
    }
}

impl LogCategory {
    /// The name under which the category travels to the user interface.
    pub fn as_str(&self) -> (r: &'static str)
        ensures
            r@ == category_name(*self),
    {
        match self {
            LogCategory::Info => "info",
            LogCategory::Success => "success",
            LogCategory::Warning => "warning",
            LogCategory::Error => "error",
            LogCategory::Server => "server",
        }
    }
}

/// The characters of `s` in `[a, b)` are all white space.
pub open spec fn space_run(s: Seq<char>, a: int, b: int) -> bool {
    &&& a <= b
    &&& forall|j: int| a <= j < b ==> is_space(#[trigger] s[j])
}

/// A count of successes: digit `s[d]`, optional space, then `success` at `k`, in any case.
pub open spec fn success_count_at(s: Seq<char>, d: int, k: int) -> bool {
    &&& 0 <= d
    &&& is_digit(s[d])
    &&& space_run(s, d + 1, k)
    &&& occurs_at(s, "success"@, k, true)
}

pub open spec fn has_success_count(s: Seq<char>) -> bool {
    exists|d: int, k: int| success_count_at(s, d, k)
}

/// A count of zero failures as a word of its own: `0` at `z`, some space, then `failed`
/// at `k`, in any case.
pub open spec fn zero_failed_at(s: Seq<char>, z: int, k: int) -> bool {
    &&& 0 <= z
    &&& s[z] == '0'
    &&& (z == 0 || !is_word(s[z - 1]))
    &&& z + 1 < k
    &&& space_run(s, z + 1, k)
    &&& occurs_at(s, "failed"@, k, true)
    &&& (k + 6 == s.len() || !is_word(s[k + 6]))
}

pub open spec fn has_zero_failed(s: Seq<char>) -> bool {
    exists|z: int, k: int| zero_failed_at(s, z, k)
}

/// `p` at `i`, in any case, at the start of a word.
pub open spec fn marker_at(s: Seq<char>, p: Seq<char>, i: int) -> bool {
    &&& occurs_at(s, p, i, true)
    &&& (i == 0 || !is_word(s[i - 1]))
}

pub open spec fn has_marker(s: Seq<char>, p: Seq<char>) -> bool {
    exists|i: int| marker_at(s, p, i)
}

/// The display category of a log line. The rules are tried in order, so that a line that
/// fits several gets the first: explicit level markers, then success phrases (a success
/// count counts when the line also reports completion or zero failures), then failures
/// other than `0 failed`, then error and warning phrases, then the server's own lines.
pub open spec fn category_of(s: Seq<char>) -> LogCategory {
    if contains_ci(s, "[error]"@) || contains_ci(s, ":err]"@) || contains_ci(s, "[err]"@) {
        LogCategory::Error
    } else if contains_ci(s, "[warn]"@) || contains_ci(s, "[warning]"@) {
        LogCategory::Warning
    } else if has_success_count(s) && (contains_ci(s, "complete"@) || has_zero_failed(s)) {
        LogCategory::Success
    } else if contains_ci(s, "server is running"@) || contains_ci(s, "migrations completed"@)
        || contains_ci(s, "started successfully"@) || contains_ci(s, "succeeded"@) {
        LogCategory::Success
    } else if contains_ci(s, "failed"@) && !has_zero_failed(s) {
        LogCategory::Error
    } else if has_marker(s, "error:"@) || contains_ci(s, "exception"@) || contains_ci(s, "crash"@) {
        LogCategory::Error
    } else if has_marker(s, "warning:"@) || contains_ci(s, "deprecated"@) {
        LogCategory::Warning
    } else if contains(s, "[moneywright]"@) {
        LogCategory::Server
    } else {
        LogCategory::Info
    }
}

/// The end of the run of white space that starts at `from`.
fn skip_space(cs: &Vec<char>, from: usize) -> (r: usize)
    requires
        from <= cs@.len(),
    ensures
        from <= r <= cs@.len(),
        space_run(cs@, from as int, r as int),
        r == cs@.len() || !is_space(cs@[r as int]),
{
    let mut k = from;
    while k < cs.len() && is_space_char(cs[k])
        invariant
            from <= k <= cs@.len(),
            space_run(cs@, from as int, k as int),
        decreases cs@.len() - k,
    {
        k += 1;
    }
    k
}

fn contains_ci_str(cs: &Vec<char>, p: &str) -> (r: bool)
    ensures
        r == contains_ci(cs@, p@),
{
    let ps = chars_of(p);
    contains_chars(cs, &ps, true)
}

fn success_count(cs: &Vec<char>) -> (r: bool)
    ensures
        r == has_success_count(cs@),
{
    let word = chars_of("success");
    proof {
        reveal_strlit("success");
    }
    let n = cs.len();
    let mut d: usize = 0;
    while d < n
        invariant
            n == cs@.len(),
            word@ == "success"@,
            word@.len() == 7 && word@[0] == 's',
            forall|e: int, k: int| 0 <= e < d ==> !#[trigger] success_count_at(cs@, e, k),
        decreases n - d,
    {
        if is_digit_char(cs[d]) {
            let k = skip_space(cs, d + 1);
            if matches_at(cs, &word, k, true) {
                assert(success_count_at(cs@, d as int, k as int));
                return true;
            }
            assert forall|j: int| !#[trigger] success_count_at(cs@, d as int, j) by {
                if success_count_at(cs@, d as int, j) {
                    if j < k {
                        assert(is_space(cs@[j]));
                        assert(folded(cs@[j + 0]) == folded(word@[0]));
                    } else if j > k {
                        assert(is_space(cs@[k as int]));
                    }
                }
            }
        }
        d += 1;
    }
    false
}

fn zero_failed(cs: &Vec<char>) -> (r: bool)
    ensures
        r == has_zero_failed(cs@),
{
    let word = chars_of("failed");
    proof {
        reveal_strlit("failed");
    }
    let n = cs.len();
    let mut z: usize = 0;
    while z < n
        invariant
            n == cs@.len(),
            word@ == "failed"@,
            word@.len() == 6 && word@[0] == 'f',
            forall|e: int, k: int| 0 <= e < z ==> !#[trigger] zero_failed_at(cs@, e, k),
        decreases n - z,
    {
        if cs[z] == '0' && (z == 0 || !is_word_char(cs[z - 1])) {
            let k = skip_space(cs, z + 1);
            if k > z + 1 && matches_at(cs, &word, k, true) && (k + 6 == n || (k + 6 < n
                && !is_word_char(cs[k + 6]))) {
                assert(zero_failed_at(cs@, z as int, k as int));
                return true;
            }
            assert forall|j: int| !#[trigger] zero_failed_at(cs@, z as int, j) by {
                if zero_failed_at(cs@, z as int, j) {
                    if j < k {
                        assert(is_space(cs@[j]));
                        assert(folded(cs@[j + 0]) == folded(word@[0]));
                    } else if j > k {
                        assert(is_space(cs@[k as int]));
                    }
                }
            }
        }
        z += 1;
    }
    false
}

fn marker(cs: &Vec<char>, p: &str) -> (r: bool)
    ensures
        r == has_marker(cs@, p@),
{
    let ps = chars_of(p);
    let n = cs.len();
    let mut i: usize = 0;
    while i < n
        invariant
            i <= n,
            n == cs@.len(),
            ps@ == p@,
            forall|j: int| 0 <= j < i ==> !#[trigger] marker_at(cs@, p@, j),
        decreases n - i,
    {
        if matches_at(cs, &ps, i, true) && (i == 0 || !is_word_char(cs[i - 1])) {
            assert(marker_at(cs@, p@, i as int));
            return true;
        }
        i += 1;
    }
    if matches_at(cs, &ps, n, true) && (n == 0 || !is_word_char(cs[n - 1])) {
        assert(marker_at(cs@, p@, n as int));
        return true;
    }
    assert forall|j: int| !#[trigger] marker_at(cs@, p@, j) by {
        if j > n && marker_at(cs@, p@, j) {
            assert(occurs_at(cs@, p@, j, true));
        }
    }
    false
}

/// The display category of a log line; see [`category_of`].
pub fn classify_log(line: &str) -> (r: LogCategory)
    ensures
        r == category_of(line@),
{
    let cs = chars_of(line);
    if contains_ci_str(&cs, "[error]") || contains_ci_str(&cs, ":err]") || contains_ci_str(
        &cs,
        "[err]",
    ) {
        return LogCategory::Error;
    }
    if contains_ci_str(&cs, "[warn]") || contains_ci_str(&cs, "[warning]") {
        return LogCategory::Warning;
    }
    let zero = zero_failed(&cs);
    if success_count(&cs) && (contains_ci_str(&cs, "complete") || zero) {
        return LogCategory::Success;
    }
    if contains_ci_str(&cs, "server is running") || contains_ci_str(&cs, "migrations completed")
        || contains_ci_str(&cs, "started successfully") || contains_ci_str(&cs, "succeeded") {
        return LogCategory::Success;
    }
    if contains_ci_str(&cs, "failed") && !zero {
        return LogCategory::Error;
    }
    if marker(&cs, "error:") || contains_ci_str(&cs, "exception") || contains_ci_str(&cs, "crash") {
        return LogCategory::Error;
    }
    if marker(&cs, "warning:") || contains_ci_str(&cs, "deprecated") {
        return LogCategory::Warning;
    }
    if has_substring(line, "[moneywright]") {
        return LogCategory::Server;
    }
    LogCategory::Info
}

} // verus!
