//! The log that is kept in memory, of a fixed size so that it never wears out the flash.

use std::collections::VecDeque;
use vstd::prelude::*;
use vstd::string::StringExecFns;

use crate::text::{same, strings};

verus! {

/// How many lines are kept.
pub const LOG_CAPACITY: usize = 100;

/// The last lines that were logged, oldest first.
#[derive(Debug)]
pub struct LogRing {
    lines: VecDeque<String>,
}

impl View for LogRing {
    type V = Seq<Seq<char>>;

    closed spec fn view(&self) -> Seq<Seq<char>> {
        strings(self.lines@)
    }
}

/// The last `n` of the lines.
pub open spec fn latest(lines: Seq<Seq<char>>, n: int) -> Seq<Seq<char>> {
    if lines.len() <= n {
        lines
    } else {
        lines.skip(lines.len() - n)
    }
}

impl LogRing {
    #[verifier::type_invariant]
    spec fn is_bounded(self) -> bool {
        self.lines@.len() <= LOG_CAPACITY
    }

    /// An empty log.
    pub fn new() -> (r: LogRing)
        ensures
            r@ == Seq::<Seq<char>>::empty(),
    {
        let r = LogRing { lines: VecDeque::new() };
        assert(r@ == Seq::<Seq<char>>::empty());
        r
    }

    /// Adds a line; the oldest one goes where there are too many.
    pub fn push(&mut self, line: String)
        ensures
            final(self)@ == latest(old(self)@.push(line@), LOG_CAPACITY as int),
    {
        proof {
            use_type_invariant(&*self);
        }
        let ghost before = self@;
        let mut lines: VecDeque<String> = VecDeque::new();
        std::mem::swap(&mut lines, &mut self.lines);
        if lines.len() >= LOG_CAPACITY {
            lines.pop_front();
        }
        let ghost kept = lines@;
        lines.push_back(line);
        self.lines = lines;
        proof {
            assert(strings(lines@) == strings(kept).push(line@));
            assert(self@ == latest(before.push(line@), LOG_CAPACITY as int));
        }
    }

    /// The lines that are kept, oldest first.
    pub fn snapshot(&self) -> (r: Vec<String>)
        ensures
            strings(r@) == self@,
    {
        let mut r: Vec<String> = Vec::new();
        let mut i: usize = 0;
        assert(strings(r@) == self@.take(0));
        while i < self.lines.len()
            invariant
                i <= self.lines@.len(),
                strings(r@) == self@.take(i as int),
            decreases self.lines@.len() - i,
        {
            let ghost before = r@;
            r.push(self.lines[i].clone());
            i += 1;
            assert(strings(r@) == strings(before).push(self@[i - 1]));
            assert(self@.take(i as int) == self@.take(i - 1).push(self@[i - 1]));
        }
        assert(self@.take(i as int) == self@);
        r
    }

    /// How many lines are kept, which is never more than the capacity.
    pub fn len(&self) -> (r: usize)
        ensures
            r == self@.len(),
            r <= LOG_CAPACITY,
    {
        proof {
            use_type_invariant(self);
        }
        self.lines.len()
    }
}

/// A log line: time, level and module in brackets, then the message.
pub open spec fn log_line(
    now: Seq<char>,
    level: Seq<char>,
    module: Seq<char>,
    msg: Seq<char>,
) -> Seq<char> {
    "["@ + now + "] ["@ + level + "] ["@ + module + "]: "@ + msg
}

/// A log line.
pub fn format_log(now: &str, level: &str, module: &str, msg: &str) -> (r: String)
    ensures
        r@ == log_line(now@, level@, module@, msg@),
{
    let mut r = "[".to_owned();
    r.append(now);
    r.append("] [");
    r.append(level);
    r.append("] [");
    r.append(module);
    r.append("]: ");
    r.append(msg);
    r
}

/// Whether a line goes to the error stream.
pub fn goes_to_stderr(level: &str) -> (r: bool)
    ensures
        r == (level@ == "ERROR"@),
{
    same(level, "ERROR")
}

// ---------------------------------------------------------------------------
// Laws
// ---------------------------------------------------------------------------

/// The lines `list` pushed one after another onto a log that holds `log`.
pub open spec fn pushed_all(log: Seq<Seq<char>>, list: Seq<Seq<char>>) -> Seq<Seq<char>>
    decreases list.len(),
{
    if list.len() == 0 {
        log
    } else {
        latest(pushed_all(log, list.drop_last()).push(list.last()), LOG_CAPACITY as int)
    }
}

/// However many lines are pushed, an empty log comes to hold the last of them, in order.
pub proof fn law_log_keeps_latest(list: Seq<Seq<char>>)
    ensures
        pushed_all(Seq::empty(), list) == latest(list, LOG_CAPACITY as int),
        pushed_all(Seq::empty(), list).len() <= LOG_CAPACITY,
    decreases list.len(),
{
    if list.len() > 0 {
        let init = list.drop_last();
        law_log_keeps_latest(init);
        assert(pushed_all(Seq::empty(), list) == latest(list, LOG_CAPACITY as int));
    }
}

} // verus!
