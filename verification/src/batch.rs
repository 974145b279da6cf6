//! The batch of raw lines that the dispatcher fills.
use std::time::Instant;

use vstd::prelude::*;

use crate::stats::MAX_ELAPSED_NS;

verus! {

/// A point in time of the standard library's monotonic clock.
#[verifier::external_type_specification]
#[verifier::external_body]
pub struct ExInstant(std::time::Instant);

/// `Instant::now` of the standard library: the present time. Nothing is known
/// of it beforehand.
#[verifier::external_body]
pub(crate) fn now() -> (res: Instant) {
    Instant::now()
}

/// The nanoseconds from one point in time to a later one, and none where that is
/// not later.
pub uninterp spec fn nanos_between(later: Instant, earlier: Instant) -> u128;

/// `Instant::saturating_duration_since` of the standard library, in nanoseconds:
/// the time from `earlier` to `later`. It is settled by the two points in time, a
/// `Duration` holds it, and there is none from a point in time to itself. How
/// points in time are ordered is left unsaid.
#[verifier::external_body]
fn nanos_from(earlier: Instant, later: Instant) -> (res: u128)
    ensures
        res == nanos_between(later, earlier),
        res <= MAX_ELAPSED_NS,
        later == earlier ==> res == 0,
{
    later.saturating_duration_since(earlier).as_nanos()
}

/// The number of bytes of a text.
pub open spec fn byte_len(s: Seq<char>) -> nat {
    vstd::utf8::encode_utf8(s).len()
}

/// The number of bytes of all lines together.
pub open spec fn total_bytes(lines: Seq<Seq<char>>) -> nat
    decreases lines.len(),
{
    if lines.len() == 0 {
        0
    } else {
        total_bytes(lines.drop_last()) + byte_len(lines.last())
    }
}

/// The texts that a list of strings holds.
pub open spec fn texts(lines: Seq<String>) -> Seq<Seq<char>> {
    Seq::new(lines.len(), |i: int| lines[i]@)
}

/// The number of bytes of a text.
pub(crate) fn len_in_bytes(s: &str) -> (res: usize)
    ensures
        res == byte_len(s@),
{
    s.as_bytes().len()
}

/// Lines that wait to be parsed together.
pub struct Batch {
    pub lines: Vec<String>,
    /// The number of bytes of all lines together.
    pub bytes: usize,
    /// When the batch was begun.
    pub created_at: Instant,
}

impl Batch {
    /// The lines of the batch.
    pub open spec fn view(&self) -> Seq<Seq<char>> {
        texts(self.lines@)
    }

    /// The batch knows the size of its lines.
    pub open spec fn well_formed(&self) -> bool {
        self.bytes == total_bytes(self@)
    }

    /// A batch without lines, begun now.
    pub fn new() -> (res: Batch)
        ensures
            res.well_formed(),
            res@ == Seq::<Seq<char>>::empty(),
            res.bytes == 0,
    {
        Batch::begun_at(now())
    }

    /// A batch without lines, begun at a given time.
    pub fn begun_at(at: Instant) -> (res: Batch)
        ensures
            res.well_formed(),
            res@ == Seq::<Seq<char>>::empty(),
            res.bytes == 0,
            res.created_at == at,
    {
        let res = Batch { lines: Vec::new(), bytes: 0, created_at: at };
        assert(res@ =~= Seq::<Seq<char>>::empty());
        res
    }

    /// Whether the batch has no line.
    pub fn is_empty(&self) -> (res: bool)
        ensures
            res == (self@.len() == 0),
    {
        self.lines.is_empty()
    }

    /// The number of lines.
    pub fn len(&self) -> (res: usize)
        ensures
            res == self@.len(),
    {
        self.lines.len()
    }

    /// The nanoseconds from the time at which the batch was begun to the present
    /// time. Which time that is depends on the clock alone.
    pub fn elapsed(&self) -> (res: u128)
        ensures
            exists|at: Instant| res == #[trigger] nanos_between(at, self.created_at),
            res <= MAX_ELAPSED_NS,
    {
        self.elapsed_at(now())
    }

    /// The nanoseconds from the time at which the batch was begun to a given time.
    pub fn elapsed_at(&self, at: Instant) -> (res: u128)
        ensures
            res == nanos_between(at, self.created_at),
            res <= MAX_ELAPSED_NS,
            at == self.created_at ==> res == 0,
    {
        nanos_from(self.created_at, at)
    }

    /// Adds a line.
    pub fn push(&mut self, line: String)
        requires
            old(self).bytes + byte_len(line@) <= usize::MAX,
        ensures
            final(self).lines@ == old(self).lines@.push(line),
            final(self)@ == old(self)@.push(line@),
            final(self).bytes == old(self).bytes + byte_len(line@),
            final(self).created_at == old(self).created_at,
            old(self).well_formed() ==> final(self).well_formed(),
    {
        self.bytes += len_in_bytes(line.as_str());
        self.lines.push(line);
        assert(self@ =~= old(self)@.push(line@));
        assert(self@.drop_last() =~= old(self)@);
    }

    /// Takes all lines out and begins the batch anew, now.
    pub fn clear(&mut self)
        ensures
            final(self).well_formed(),
            final(self)@ == Seq::<Seq<char>>::empty(),
            final(self).bytes == 0,
    {
        self.begin_at(now());
    }

    /// Takes all lines out and begins the batch anew, at a given time.
    pub fn begin_at(&mut self, at: Instant)
        ensures
            final(self).well_formed(),
            final(self)@ == Seq::<Seq<char>>::empty(),
            final(self).bytes == 0,
            final(self).created_at == at,
    {
        self.lines.clear();
        self.bytes = 0;
        self.created_at = at;
        assert(self@ =~= Seq::<Seq<char>>::empty());
    }
}

/// Why a batch was passed on.
#[derive(Clone, Copy, Debug, PartialEq, Eq, Structural)]
pub struct FlushReason {
    /// The next line would have been too much.
    pub size: bool,
    /// No line came for too long.
    pub time: bool,
    /// The batch had as many lines as it may have.
    pub line_count: bool,
    /// The input ended.
    pub eof: bool,
}

/// The size of lines is what their texts take up in UTF-8: of one line the bytes
/// of that line, of lines behind others the bytes of both together.
pub proof fn law_sizes_add_up(a: Seq<Seq<char>>, b: Seq<Seq<char>>, line: Seq<char>)
    ensures
        total_bytes(seq![line]) == vstd::utf8::encode_utf8(line).len(),
        total_bytes(a + b) == total_bytes(a) + total_bytes(b),
        total_bytes(Seq::<Seq<char>>::empty()) == 0,
    decreases b.len(),
{
    assert(seq![line].drop_last() =~= Seq::empty());
    assert(total_bytes(Seq::<Seq<char>>::empty()) == 0);
    if b.len() == 0 {
        assert(a + b =~= a);
    } else {
        assert((a + b).drop_last() =~= a + b.drop_last());
        law_sizes_add_up(a, b.drop_last(), line);
    }
}

/// The texts of lines are those of each line, in their order and none left out.
pub proof fn law_texts_are_of_each_line(lines: Seq<String>)
    ensures
        texts(lines).len() == lines.len(),
        forall|i: int| 0 <= i < lines.len() ==> #[trigger] texts(lines)[i] == lines[i]@,
{
}

} // verus!
