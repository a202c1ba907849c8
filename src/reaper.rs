//! The port reaper's decisions: how to ask the operating system which processes listen on
//! the server's port, how to read the answer, and how to kill what was found.
//!
//! Only listeners count: each query asks for sockets in the LISTEN state, so processes
//! that merely hold a client connection through the port are never killed.
use vstd::prelude::*;
use crate::text::{
    chars_of, decimal, find, find_from, is_digit, is_digit_char, is_space, is_space_char, lines,
    lines_of, push_decimal, trim, trim_end, trimmed,
};

verus! {

/// The tool that finds the processes listening on a port.
#[derive(Debug, Clone, Copy, PartialEq, Eq, Structural)]
pub enum ListenerTool {
    /// `lsof`, on macOS.
    Lsof,
    /// `ss`, on Linux.
    Ss,
    /// `netstat` through `cmd`, on Windows.
    Netstat,
}

/// How long to wait after killing listeners, so that the port is free again.
pub const PORT_RELEASE_DELAY_MS: u64 = 500;

pub open spec fn program_name(tool: ListenerTool) -> Seq<char> {
    match tool {
        ListenerTool::Lsof => "lsof"@,
        ListenerTool::Ss => "ss"@,
        ListenerTool::Netstat => "cmd"@,
    }
}

/// The arguments of the query for the listeners on `port`.
pub open spec fn query_args(tool: ListenerTool, port: u16) -> Seq<Seq<char>> {
    let p = decimal(port as nat);
    match tool {
        ListenerTool::Lsof => seq!["-ti"@, "tcp:"@ + p, "-sTCP:LISTEN"@],
        ListenerTool::Ss => seq!["-tlnp"@, "sport = :"@ + p],
        ListenerTool::Netstat => seq![
            "/C"@,
            "netstat -ano | findstr :"@ + p + " | findstr LISTENING"@,
        ],
    }
}

/// `lsof -t` prints one process id per line.
pub open spec fn lsof_pid(line: Seq<char>) -> Option<Seq<char>> {
    let t = trim(line);
    if t.len() > 0 {
        Some(t)
    } else {
        None
    }
}

/// The first position at or after `i` that does not hold an ASCII digit.
pub open spec fn first_non_digit(s: Seq<char>, i: nat) -> Option<nat>
    decreases s.len() - i,
{
    if i >= s.len() {
        None
    } else if !is_digit(s[i as int]) {
        Some(i)
    } else {
        first_non_digit(s, i + 1)
    }
}

/// `ss -p` names the owner as `pid=1234,`: the digits after the first `pid=`, when
/// something that is not a digit follows them.
pub open spec fn ss_pid(line: Seq<char>) -> Option<Seq<char>> {
    match find_from(line, "pid="@, 0) {
        Some(k) => match first_non_digit(line, k + 4) {
            Some(e) => if e > k + 4 {
                Some(line.subrange(k + 4 as int, e as int))
            } else {
                None
            },
            None => None,
        },
        None => None,
    }
}

/// Where the last run of non-space characters of `s` begins, when `s` ends with one.
pub open spec fn token_start(s: Seq<char>) -> nat
    decreases s.len(),
{
    if s.len() == 0 {
        0
    } else if is_space(s.last()) {
        s.len()
    } else {
        token_start(s.drop_last())
    }
}

/// The last whitespace-separated word of `line`.
pub open spec fn last_word(line: Seq<char>) -> Option<Seq<char>> {
    let t = trim_end(line);
    if t.len() == 0 {
        None
    } else {
        Some(t.subrange(token_start(t) as int, t.len() as int))
    }
}

/// The value of a run of ASCII digits.
pub open spec fn digits_value(s: Seq<char>) -> nat
    decreases s.len(),
{
    if s.len() == 0 {
        0
    } else {
        digits_value(s.drop_last()) * 10 + (s.last() as nat - '0' as nat) as nat
    }
}

pub open spec fn all_digits(s: Seq<char>) -> bool {
    forall|i: int| 0 <= i < s.len() ==> is_digit(#[trigger] s[i])
}

/// `s` read as a `u32` the way `str::parse` reads it: an optional `+`, then at least one
/// ASCII digit, and a value that fits.
pub open spec fn u32_value(s: Seq<char>) -> Option<nat> {
    let d = if s.len() > 0 && s[0] == '+' {
        s.drop_first()
    } else {
        s
    };
    if d.len() > 0 && all_digits(d) && digits_value(d) <= u32::MAX {
        Some(digits_value(d))
    } else {
        None
    }
}

/// `netstat -ano` ends each line with the owning process id; id 0 is the idle process.
pub open spec fn netstat_pid(line: Seq<char>) -> Option<Seq<char>> {
    match last_word(line) {
        Some(w) => match u32_value(w) {
            Some(v) => if v > 0 {
                Some(w)
            } else {
                None
            },
            None => None,
        },
        None => None,
    }
}

pub open spec fn pid_in_line(tool: ListenerTool, line: Seq<char>) -> Option<Seq<char>> {
    match tool {
        ListenerTool::Lsof => lsof_pid(line),
        ListenerTool::Ss => ss_pid(line),
        ListenerTool::Netstat => netstat_pid(line),
    }
}

/// The process ids found in `lines`, in order.
pub open spec fn pids_in_lines(tool: ListenerTool, lines: Seq<Seq<char>>) -> Seq<Seq<char>>
    decreases lines.len(),
{
    if lines.len() == 0 {
        Seq::empty()
    } else {
        let before = pids_in_lines(tool, lines.drop_last());
        match pid_in_line(tool, lines.last()) {
            Some(p) => before.push(p),
            None => before,
        }
    }
}

/// The process ids that the query's output `out` names.
pub open spec fn listening_pids_of(tool: ListenerTool, out: Seq<char>) -> Seq<Seq<char>> {
    pids_in_lines(tool, lines_of(out))
}

pub open spec fn kill_program_name(tool: ListenerTool) -> Seq<char> {
    match tool {
        ListenerTool::Netstat => "taskkill"@,
        _ => "kill"@,
    }
}

/// The arguments that force-kill process `pid`.
pub open spec fn kill_args(tool: ListenerTool, pid: Seq<char>) -> Seq<Seq<char>> {
    match tool {
        ListenerTool::Netstat => seq!["/F"@, "/PID"@, pid],
        _ => seq!["-9"@, pid],
    }
}

proof fn lemma_digits_value_grows(s: Seq<char>, i: int, j: int)
    requires
        0 <= i <= j <= s.len(),
    ensures
        digits_value(s.subrange(0, i)) <= digits_value(s.subrange(0, j)),
    decreases j - i,
{
    if i < j {
        lemma_digits_value_grows(s, i, j - 1);
        assert(s.subrange(0, j).drop_last() =~= s.subrange(0, j - 1));
    }
}

fn string_of(s: &str) -> (r: String)
    ensures
        r@ == s@,
{
    String::from_str(s)
}

fn pid_from_lsof(line: &str) -> (r: Option<String>)
    ensures
        r matches Some(p) ==> lsof_pid(line@) == Some(p@),
        r is None ==> lsof_pid(line@) is None,
{
    let t = trimmed(line);
    if t.unicode_len() > 0 {
        Some(string_of(t))
    } else {
        None
    }
}

fn pid_from_ss(line: &str) -> (r: Option<String>)
    ensures
        r matches Some(p) ==> ss_pid(line@) == Some(p@),
        r is None ==> ss_pid(line@) is None,
{
    let cs = chars_of(line);
    let key = chars_of("pid=");
    proof {
        reveal_strlit("pid=");
    }
    match find(&cs, &key, 0) {
        None => None,
        Some(k) => {
            let begin = k + 4;
            let mut e: usize = begin;
            while e < cs.len() && is_digit_char(cs[e])
                invariant
                    begin <= e <= cs.len(),
                    cs@ == line@,
                    first_non_digit(line@, begin as nat) == first_non_digit(line@, e as nat),
                decreases cs.len() - e,
            {
                e += 1;
            }
            if e < cs.len() && e > begin {
                Some(string_of(line.substring_char(begin, e)))
            } else {
                None
            }
        },
    }
}

fn last_word_of(line: &str) -> (r: Option<&str>)
    ensures
        r matches Some(w) ==> last_word(line@) == Some(w@),
        r is None ==> last_word(line@) is None,
{
    let cs = chars_of(line);
    let mut j: usize = cs.len();
    assert(line@.subrange(0, j as int) =~= line@);
    while j > 0 && is_space_char(cs[j - 1])
        invariant
            j <= cs.len(),
            cs@ == line@,
            trim_end(line@) == trim_end(line@.subrange(0, j as int)),
        decreases j,
    {
        assert(line@.subrange(0, j as int).drop_last() =~= line@.subrange(0, j - 1));
        j -= 1;
    }
    if j == 0 {
        return None;
    }
    let ghost t = line@.subrange(0, j as int);
    let mut k: usize = j;
    while k > 0 && !is_space_char(cs[k - 1])
        invariant
            k <= j <= cs.len(),
            cs@ == line@,
            t == line@.subrange(0, j as int),
            token_start(t) == token_start(line@.subrange(0, k as int)),
        decreases k,
    {
        assert(line@.subrange(0, k as int).drop_last() =~= line@.subrange(0, k - 1));
        k -= 1;
    }
    proof {
        assert(line@.subrange(0, cs.len() as int) =~= line@);
        assert(trim_end(line@) == t);
    }
    Some(line.substring_char(k, j))
}

fn u32_of(w: &str) -> (r: Option<u32>)
    ensures
        r matches Some(v) ==> u32_value(w@) == Some(v as nat),
        r is None ==> u32_value(w@) is None,
{
    let cs = chars_of(w);
    let n = cs.len();
    let first: usize = if n > 0 && cs[0] == '+' {
        1
    } else {
        0
    };
    let ghost d = w@.subrange(first as int, n as int);
    proof {
        if first == 1 {
            assert(w@.drop_first() =~= d);
        } else {
            assert(w@ =~= d);
        }
        assert(u32_value(w@) == if d.len() > 0 && all_digits(d) && digits_value(d) <= u32::MAX {
            Some(digits_value(d))
        } else {
            None
        });
    }
    if first >= n {
        return None;
    }
    let mut value: u64 = 0;
    let mut i: usize = first;
    while i < n
        invariant
            first <= i <= n,
            n == w@.len(),
            cs@ == w@,
            d == w@.subrange(first as int, n as int),
            u32_value(w@) == if d.len() > 0 && all_digits(d) && digits_value(d) <= u32::MAX {
                Some(digits_value(d))
            } else {
                None
            },
            forall|k: int| first <= k < i ==> is_digit(#[trigger] w@[k]),
            value == digits_value(d.subrange(0, i - first)),
            value <= u32::MAX,
        decreases n - i,
    {
        let c = cs[i];
        assert(d[i - first] == c);
        if !is_digit_char(c) {
            assert(!all_digits(d));
            return None;
        }
        let next = value * 10 + (c as u64 - '0' as u64);
        proof {
            let longer = d.subrange(0, i + 1 - first);
            assert(longer.drop_last() =~= d.subrange(0, i - first));
            assert(longer.last() == c);
            assert(digits_value(longer) == next);
        }
        if next > u32::MAX as u64 {
            proof {
                lemma_digits_value_grows(d, i + 1 - first, d.len() as int);
                assert(d.subrange(0, d.len() as int) =~= d);
            }
            return None;
        }
        value = next;
        i += 1;
    }
    proof {
        assert(d.subrange(0, n - first) =~= d);
        assert forall|k: int| 0 <= k < d.len() implies is_digit(#[trigger] d[k]) by {
            assert(d[k] == w@[k + first]);
        }
    }
    Some(value as u32)
}

fn pid_from_netstat(line: &str) -> (r: Option<String>)
    ensures
        r matches Some(p) ==> netstat_pid(line@) == Some(p@),
        r is None ==> netstat_pid(line@) is None,
{
    match last_word_of(line) {
        None => None,
        Some(w) => match u32_of(w) {
            Some(v) => if v > 0 {
                Some(string_of(w))
            } else {
                None
            },
            None => None,
        },
    }
}

impl ListenerTool {
    /// The program that runs the query.
    pub fn program(&self) -> (r: &'static str)
        ensures
            r@ == program_name(*self),
    {
        match self {
            ListenerTool::Lsof => "lsof",
            ListenerTool::Ss => "ss",
            ListenerTool::Netstat => "cmd",
        }
    }

    /// The arguments of the query for the processes listening on `port`.
    pub fn query_args(&self, port: u16) -> (r: Vec<String>)
        ensures
            r@.len() == query_args(*self, port).len(),
            forall|k: int| 0 <= k < r@.len() ==> (#[trigger] r@[k])@ == query_args(*self, port)[k],
    {
        let mut out: Vec<String> = Vec::new();
        match self {
            ListenerTool::Lsof => {
                out.push(string_of("-ti"));
                let mut a = string_of("tcp:");
                push_decimal(&mut a, port as u32);
                out.push(a);
                out.push(string_of("-sTCP:LISTEN"));
            },
            ListenerTool::Ss => {
                out.push(string_of("-tlnp"));
                let mut a = string_of("sport = :");
                push_decimal(&mut a, port as u32);
                out.push(a);
            },
            ListenerTool::Netstat => {
                out.push(string_of("/C"));
                let mut a = string_of("netstat -ano | findstr :");
                push_decimal(&mut a, port as u32);
                a.append(" | findstr LISTENING");
                out.push(a);
            },
        }
        out
    }

    /// The process ids that the query's output names, in order.
    pub fn listening_pids(&self, output: &str) -> (r: Vec<String>)
        ensures
            r@.len() == listening_pids_of(*self, output@).len(),
            forall|k: int|
                0 <= k < r@.len() ==> (#[trigger] r@[k])@ == listening_pids_of(*self, output@)[k],
    {
        let ls = lines(output);
        let ghost all = lines_of(output@);
        let mut out: Vec<String> = Vec::new();
        let mut i: usize = 0;
        proof {
            assert(all.subrange(0, 0) =~= Seq::<Seq<char>>::empty());
        }
        while i < ls.len()
            invariant
                i <= ls@.len(),
                ls@.len() == all.len(),
                forall|k: int| 0 <= k < ls@.len() ==> (#[trigger] ls@[k])@ == all[k],
                out@.len() == pids_in_lines(*self, all.subrange(0, i as int)).len(),
                forall|k: int|
                    0 <= k < out@.len() ==> (#[trigger] out@[k])@ == pids_in_lines(
                        *self,
                        all.subrange(0, i as int),
                    )[k],
            decreases ls@.len() - i,
        {
            let line = ls[i];
            let found = match self {
                ListenerTool::Lsof => pid_from_lsof(line),
                ListenerTool::Ss => pid_from_ss(line),
                ListenerTool::Netstat => pid_from_netstat(line),
            };
            proof {
                assert(all.subrange(0, i + 1).drop_last() =~= all.subrange(0, i as int));
                assert(all.subrange(0, i + 1).last() == all[i as int]);
            }
            match found {
                Some(p) => out.push(p),
                None => {},
            }
            i += 1;
        }
        proof {
            assert(all.subrange(0, ls@.len() as int) =~= all);
        }
        out
    }

    /// The program that force-kills a process.
    pub fn kill_program(&self) -> (r: &'static str)
        ensures
            r@ == kill_program_name(*self),
    {
        match self {
            ListenerTool::Netstat => "taskkill",
            _ => "kill",
        }
    }

    /// The arguments that force-kill process `pid`.
    pub fn kill_args(&self, pid: &str) -> (r: Vec<String>)
        ensures
            r@.len() == kill_args(*self, pid@).len(),
            forall|k: int| 0 <= k < r@.len() ==> (#[trigger] r@[k])@ == kill_args(*self, pid@)[k],
    {
        let mut out: Vec<String> = Vec::new();
        match self {
            ListenerTool::Netstat => {
                out.push(string_of("/F"));
                out.push(string_of("/PID"));
            },
            _ => {
                out.push(string_of("-9"));
            },
        }
        out.push(string_of(pid));
        out
    }
}

} // verus!
