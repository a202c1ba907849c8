//! The bounded log store: the most recent lines of server output, oldest first.
use vstd::prelude::*;

verus! {

/// How many lines the store keeps.
pub const MAX_LOG_LINES: usize = 1000;

/// An operation on the store.
pub enum LogOp {
    Add(String),
    Clear,
}

/// The lines after appending `message` to `lines`: once there are more than
/// [`MAX_LOG_LINES`], the oldest goes.
pub open spec fn after_add(lines: Seq<String>, message: String) -> Seq<String> {
    let longer = lines.push(message);
    if longer.len() > MAX_LOG_LINES {
        longer.drop_first()
    } else {
        longer
    }
}

pub open spec fn apply(lines: Seq<String>, op: LogOp) -> Seq<String> {
    match op {
        LogOp::Add(m) => after_add(lines, m),
        LogOp::Clear => Seq::empty(),
    }
}

/// The lines of a store that started empty and went through `ops` in order.
pub open spec fn replay(ops: Seq<LogOp>) -> Seq<String>
    decreases ops.len(),
{
    if ops.len() == 0 {
        Seq::empty()
    } else {
        apply(replay(ops.drop_last()), ops.last())
    }
}

/// The operations that add `messages`, in order.
pub open spec fn adds(messages: Seq<String>) -> Seq<LogOp> {
    Seq::new(messages.len(), |i: int| LogOp::Add(messages[i]))
}

/// Storage for the backend's log lines, bounded to the most recent [`MAX_LOG_LINES`].
pub struct LogStore {
    logs: Vec<String>,
}

impl View for LogStore {
    type V = Seq<String>;

    closed spec fn view(&self) -> Seq<String> {
        self.logs@
    }
}

impl LogStore {
    /// The store never holds more than [`MAX_LOG_LINES`] lines.
    #[verifier::type_invariant]
    spec fn wf(&self) -> bool {
        self.logs@.len() <= MAX_LOG_LINES
    }

    pub fn new() -> (r: Self)
        ensures
            r@ == Seq::<String>::empty(),
    {
        LogStore { logs: Vec::new() }
    }

    /// Appends a line, dropping the oldest when the store is full.
    pub fn add(&mut self, message: String)
        ensures
            final(self)@ == apply(old(self)@, LogOp::Add(message)),
    {
        proof {
            use_type_invariant(&*self);
        }
        let mut logs: Vec<String> = Vec::new();
        std::mem::swap(&mut logs, &mut self.logs);
        logs.push(message);
        if logs.len() > MAX_LOG_LINES {
            logs.remove(0);
            assert(logs@ =~= old(self)@.push(message).drop_first());
        }
        self.logs = logs;
    }

    /// A copy of every line, oldest first.
    pub fn get_all(&self) -> (r: Vec<String>)
        ensures
            r@ == self@,
    {
        let mut out: Vec<String> = Vec::new();
        let mut i: usize = 0;
        while i < self.logs.len()
            invariant
                i <= self.logs@.len(),
                out@ == self.logs@.subrange(0, i as int),
            decreases self.logs@.len() - i,
        {
            out.push(self.logs[i].clone());
            assert(out@ =~= self.logs@.subrange(0, i + 1));
            i += 1;
        }
        assert(self.logs@.subrange(0, self.logs@.len() as int) =~= self.logs@);
        out
    }

    /// Forgets every line.
    pub fn clear(&mut self)
        ensures
            final(self)@ == apply(old(self)@, LogOp::Clear),
    {
        self.logs = Vec::new();
    }
}

proof fn lemma_replay_adds(messages: Seq<String>)
    ensures
        replay(adds(messages)) == messages.subrange(
            if messages.len() > MAX_LOG_LINES {
                messages.len() - MAX_LOG_LINES
            } else {
                0
            },
            messages.len() as int,
        ),
    decreases messages.len(),
{
    let n = messages.len() as int;
    if n > 0 {
        let rest = messages.drop_last();
        lemma_replay_adds(rest);
        assert(adds(messages).drop_last() =~= adds(rest));
        assert(adds(messages).last() == LogOp::Add(messages[n - 1]));
        let start = if n - 1 > MAX_LOG_LINES {
            n - 1 - MAX_LOG_LINES
        } else {
            0
        };
        let kept = rest.subrange(start, n - 1);
        if kept.len() + 1 > MAX_LOG_LINES {
            assert(kept.push(messages[n - 1]).drop_first() =~= messages.subrange(n - MAX_LOG_LINES, n));
        } else {
            assert(kept.push(messages[n - 1]) =~= messages.subrange(0, n));
        }
    } else {
        assert(messages.subrange(0, 0) =~= Seq::<String>::empty());
    }
}

/// After any number N > [`MAX_LOG_LINES`] of additions to an empty store, it holds exactly
/// [`MAX_LOG_LINES`] lines: the last ones added, in the order they were added.
pub proof fn lemma_keeps_last_lines(messages: Seq<String>)
    requires
        messages.len() > MAX_LOG_LINES,
    ensures
        replay(adds(messages)).len() == MAX_LOG_LINES,
        replay(adds(messages)) == messages.subrange(
            messages.len() - MAX_LOG_LINES,
            messages.len() as int,
        ),
{
    lemma_replay_adds(messages);
}

/// Whatever happened before, the store is empty right after a clear.
pub proof fn lemma_clear_empties(history: Seq<LogOp>)
    ensures
        replay(history.push(LogOp::Clear)) == Seq::<String>::empty(),
{
    assert(history.push(LogOp::Clear).drop_last() =~= history);
}

} // verus!
