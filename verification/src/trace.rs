//! An ordered, deterministic record of observable events, and its text form.
use crate::ids::{EntityBits, ObeliskEntityIndex};
use crate::text::{decimal, push_decimal};
use vstd::prelude::*;

verus! {

/// One recorded event: the fixed tick it happened on, its kind, and its details.
#[derive(Clone, Debug)]
pub struct TraceLine {
    pub tick: usize,
    pub kind: &'static str,
    pub detail: String,
}

/// Ordered record of a scenario's observable events.
pub struct Trace {
    pub lines: Vec<TraceLine>,
}

impl Default for Trace {
    /// An empty trace.
    fn default() -> (r: Self)
        ensures
            r.lines@.len() == 0,
    {
        Trace { lines: Vec::new() }
    }
}

/// `n` spaces.
pub open spec fn spaces(n: nat) -> Seq<char> {
    Seq::new(n, |i: int| ' ')
}

/// `s` right-aligned in a field of `width` characters.
pub open spec fn right_aligned(s: Seq<char>, width: nat) -> Seq<char> {
    if s.len() < width { spaces((width - s.len()) as nat) + s } else { s }
}

/// One line of the text form: the tick right-aligned to four columns, the kind and the detail,
/// separated by tabs.
pub open spec fn line_text(l: TraceLine) -> Seq<char> {
    right_aligned(decimal(l.tick as nat), 4) + "\t"@ + l.kind@ + "\t"@ + l.detail@
}

/// `ls` joined with newlines.
pub open spec fn joined(ls: Seq<Seq<char>>) -> Seq<char>
    decreases ls.len(),
{
    if ls.len() == 0 {
        Seq::empty()
    } else if ls.len() == 1 {
        ls[0]
    } else {
        joined(ls.drop_last()) + "\n"@ + ls.last()
    }
}

/// The number of newline characters in `s`.
pub open spec fn newlines(s: Seq<char>) -> nat
    decreases s.len(),
{
    if s.len() == 0 {
        0
    } else {
        newlines(s.drop_last()) + if s.last() == '\n' { 1nat } else { 0nat }
    }
}

/// The text of every line of `ls`, in order.
pub open spec fn lines_text(ls: Seq<TraceLine>) -> Seq<Seq<char>> {
    ls.map_values(|l: TraceLine| line_text(l))
}

fn push_line(s: &mut String, l: &TraceLine)
    ensures
        final(s)@ == old(s)@ + line_text(*l),
{
    let digits = crate::text::decimal_string(l.tick as u64);
    let n = digits.as_str().unicode_len();
    let mut pad = n;
    let ghost start = s@;
    while pad < 4
        invariant
            n <= pad <= (if n < 4 { 4 } else { n }),
            s@ == start + spaces((pad - n) as nat),
        decreases 4 - pad,
    {
        s.append(" ");
        proof {
            reveal_strlit(" ");
            assert(s@ =~= start + spaces((pad + 1 - n) as nat));
        }
        pad += 1;
    }
    s.append(digits.as_str());
    s.append("\t");
    s.append(l.kind);
    s.append("\t");
    s.append(l.detail.as_str());
    proof {
        assert(s@ =~= start + line_text(*l));
    }
}

impl Trace {
    /// The text form: one line per recorded event, in order, joined with newlines.
    pub fn to_text(&self) -> (r: String)
        ensures
            r@ == joined(lines_text(self.lines@)),
    {
        let mut s = String::new();
        let mut i: usize = 0;
        while i < self.lines.len()
            invariant
                i <= self.lines.len(),
                s@ == joined(lines_text(self.lines@.take(i as int))),
            decreases self.lines.len() - i,
        {
            if i > 0 {
                s.append("\n");
            }
            push_line(&mut s, &self.lines[i]);
            proof {
                let t = lines_text(self.lines@.take(i as int + 1));
                assert(t.drop_last() =~= lines_text(self.lines@.take(i as int)));
                assert(t.last() == line_text(self.lines@[i as int]));
            }
            i += 1;
        }
        proof {
            assert(self.lines@.take(self.lines@.len() as int) =~= self.lines@);
        }
        s
    }
}

/// The current fixed tick, advanced at the start of every simulation step.
#[derive(Debug, Default)]
pub struct TickCounter(pub usize);

impl TickCounter {
    /// Move to the next tick.
    pub fn advance(&mut self)
        requires
            old(self).0 < usize::MAX,
        ensures
            final(self).0 == old(self).0 + 1,
    {
        self.0 = self.0 + 1;
    }
}

/// How a trace names entity `e`: its stable id, or `?` when it has none.
pub fn id_label(index: &ObeliskEntityIndex, e: EntityBits) -> (r: String)
    ensures
        r@ == (if index@.to_id.contains_key(e) { index@.to_id[e] } else { "?"@ }),
{
    match index.id(e) {
        Some(s) => s.to_string(),
        None => "?".to_string(),
    }
}

/// Newlines add up over concatenation.
pub proof fn lemma_newlines_concat(a: Seq<char>, b: Seq<char>)
    ensures
        newlines(a + b) == newlines(a) + newlines(b),
    decreases b.len(),
{
    if b.len() == 0 {
        assert(a + b =~= a);
    } else {
        lemma_newlines_concat(a, b.drop_last());
        assert((a + b).drop_last() =~= a + b.drop_last());
    }
}

/// Joining `k` newline-free texts yields `k - 1` newlines: the text form of a trace whose kinds
/// and details hold no line breaks has exactly one line per recorded event.
pub proof fn lemma_joined_line_count(ls: Seq<Seq<char>>)
    requires
        ls.len() > 0,
        forall|i: int| 0 <= i < ls.len() ==> newlines(#[trigger] ls[i]) == 0,
    ensures
        newlines(joined(ls)) == ls.len() - 1,
    decreases ls.len(),
{
    if ls.len() > 1 {
        lemma_joined_line_count(ls.drop_last());
        reveal_strlit("\n");
        assert(newlines("\n"@) == 1) by {
            reveal_strlit("\n");
            assert("\n"@.len() == 1);
            assert("\n"@.last() == '\n');
            assert("\n"@.drop_last() =~= Seq::<char>::empty());
            assert(newlines(Seq::<char>::empty()) == 0);
        }
        lemma_newlines_concat(joined(ls.drop_last()), "\n"@);
        lemma_newlines_concat(joined(ls.drop_last()) + "\n"@, ls.last());
    }
}

} // verus!
