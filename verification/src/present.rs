//! Presentation state that is pure bookkeeping: the bounded log of recent event lines.
use crate::trace::joined;
use vstd::prelude::*;

verus! {

/// How many event lines the scrolling log keeps.
pub const EVENT_LOG_CAP: usize = 12;

/// Bounded log of recent gameplay-event lines, newest last.
pub struct EventLog {
    lines: Vec<String>,
}

/// The strings of `v` as character sequences.
pub open spec fn line_views(v: Seq<String>) -> Seq<Seq<char>> {
    v.map_values(|s: String| s@)
}

/// The log after appending `line` to `ls`: the newest [`EVENT_LOG_CAP`] lines, oldest dropped.
pub open spec fn pushed(ls: Seq<Seq<char>>, line: Seq<char>) -> Seq<Seq<char>> {
    if ls.len() >= EVENT_LOG_CAP { ls.drop_first().push(line) } else { ls.push(line) }
}

impl View for EventLog {
    type V = Seq<Seq<char>>;

    closed spec fn view(&self) -> Seq<Seq<char>> {
        line_views(self.lines@)
    }
}

impl EventLog {
    /// At most [`EVENT_LOG_CAP`] lines are held.
    pub closed spec fn wf(&self) -> bool {
        self.lines@.len() <= EVENT_LOG_CAP
    }

    /// An empty log.
    pub fn new() -> (r: Self)
        ensures
            r.wf(),
            r@ == Seq::<Seq<char>>::empty(),
    {
        let r = EventLog { lines: Vec::new() };
        assert(r@ =~= Seq::<Seq<char>>::empty());
        r
    }

    /// Append `line`, dropping the oldest line when the log is full.
    pub fn push(&mut self, line: String)
        requires
            old(self).wf(),
        ensures
            final(self).wf(),
            final(self)@ == pushed(old(self)@, line@),
    {
        let ghost old_lines = self.lines@;
        if self.lines.len() >= EVENT_LOG_CAP {
            self.lines.remove(0);
            proof {
                assert(line_views(self.lines@) =~= line_views(old_lines).drop_first());
            }
        }
        let ghost mid = self.lines@;
        self.lines.push(line);
        proof {
            assert(line_views(self.lines@) =~= line_views(mid).push(line@));
        }
    }

    /// How many lines are held.
    pub fn len(&self) -> (r: usize)
        ensures
            r == self@.len(),
    {
        self.lines.len()
    }

    /// The panel text: the lines joined with newlines, oldest first.
    pub fn text(&self) -> (r: String)
        ensures
            r@ == joined(self@),
    {
        let mut s = String::new();
        let mut i: usize = 0;
        while i < self.lines.len()
            invariant
                i <= self.lines.len(),
                s@ == joined(line_views(self.lines@.take(i as int))),
            decreases self.lines.len() - i,
        {
            if i > 0 {
                s.append("\n");
            }
            s.append(self.lines[i].as_str());
            proof {
                let t = line_views(self.lines@.take(i as int + 1));
                assert(t.drop_last() =~= line_views(self.lines@.take(i as int)));
                assert(t.last() == self.lines@[i as int]@);
            }
            i += 1;
        }
        proof {
            assert(self.lines@.take(self.lines@.len() as int) =~= self.lines@);
        }
        s
    }
}

/// The log never holds more than [`EVENT_LOG_CAP`] lines, the newest line is always last, and
/// lines leave only from the front, in the order they came.
pub proof fn lemma_log_bounded(ls: Seq<Seq<char>>, line: Seq<char>)
    requires
        ls.len() <= EVENT_LOG_CAP,
    ensures
        pushed(ls, line).len() <= EVENT_LOG_CAP,
        pushed(ls, line).last() == line,
        pushed(ls, line).drop_last() == (if ls.len() >= EVENT_LOG_CAP { ls.drop_first() } else { ls }),
{
    if ls.len() >= EVENT_LOG_CAP {
        assert(ls.drop_first().push(line).drop_last() =~= ls.drop_first());
    } else {
        assert(ls.push(line).drop_last() =~= ls);
    }
}


impl Default for EventLog {
    /// An empty log.
    fn default() -> (r: Self)
        ensures
            r.wf(),
            r@ == Seq::<Seq<char>>::empty(),
    {
        EventLog::new()
    }
}

} // verus!
