//! Lists of byte strings: their views, lengths and concatenation.
use vstd::prelude::*;

verus! {

/// The byte strings that a list of vectors holds.
pub open spec fn views(lines: Seq<Vec<u8>>) -> Seq<Seq<u8>> {
    Seq::new(lines.len(), |i: int| lines[i]@)
}

/// The total length of a list of byte strings.
pub open spec fn total_len(lines: Seq<Seq<u8>>) -> nat
    decreases lines.len(),
{
    if lines.len() == 0 {
        0
    } else {
        total_len(lines.drop_last()) + lines.last().len()
    }
}

/// A list of byte strings joined into one.
pub open spec fn joined(lines: Seq<Seq<u8>>) -> Seq<u8>
    decreases lines.len(),
{
    if lines.len() == 0 {
        Seq::empty()
    } else {
        joined(lines.drop_last()) + lines.last()
    }
}

/// The total length of two lists put together.
pub proof fn lemma_total_len_add(a: Seq<Seq<u8>>, b: Seq<Seq<u8>>)
    ensures
        total_len(a + b) == total_len(a) + total_len(b),
    decreases b.len(),
{
    if b.len() == 0 {
        assert(a + b =~= a);
    } else {
        assert((a + b).drop_last() =~= a + b.drop_last());
        lemma_total_len_add(a, b.drop_last());
    }
}

/// A part of a list is no longer than the list.
pub proof fn lemma_total_len_part(lines: Seq<Seq<u8>>, from: int, to: int)
    requires
        0 <= from <= to <= lines.len(),
    ensures
        total_len(lines.subrange(from, to)) <= total_len(lines),
{
    let head = lines.subrange(0, from);
    let mid = lines.subrange(from, to);
    let tail = lines.subrange(to, lines.len() as int);
    assert(head + mid + tail =~= lines);
    lemma_total_len_add(head, mid);
    lemma_total_len_add(head + mid, tail);
}

/// Joining distributes over putting two lists together.
pub proof fn lemma_joined_add(a: Seq<Seq<u8>>, b: Seq<Seq<u8>>)
    ensures
        joined(a + b) == joined(a) + joined(b),
    decreases b.len(),
{
    if b.len() == 0 {
        assert(a + b =~= a);
        assert(joined(a) + joined(b) =~= joined(a));
    } else {
        assert((a + b).drop_last() =~= a + b.drop_last());
        lemma_joined_add(a, b.drop_last());
        assert(joined(a + b) =~= joined(a) + joined(b));
    }
}

/// One more line is joined at the end.
pub proof fn lemma_joined_push(lines: Seq<Seq<u8>>, line: Seq<u8>)
    ensures
        joined(lines.push(line)) == joined(lines) + line,
{
    assert(lines.push(line).drop_last() =~= lines);
}

/// Views of one more vector.
pub proof fn lemma_views_push(lines: Seq<Vec<u8>>, line: Vec<u8>)
    ensures
        views(lines.push(line)) == views(lines).push(line@),
{
    assert(views(lines.push(line)) =~= views(lines).push(line@));
}

/// Copies the bytes from `from` up to `to`.
pub(crate) fn copy_range(bytes: &[u8], from: usize, to: usize) -> (res: Vec<u8>)
    requires
        from <= to <= bytes@.len(),
    ensures
        res@ == bytes@.subrange(from as int, to as int),
{
    let mut out: Vec<u8> = Vec::new();
    let mut i: usize = from;
    while i < to
        invariant
            from <= i <= to <= bytes@.len(),
            out@ == bytes@.subrange(from as int, i as int),
        decreases to - i,
    {
        out.push(bytes[i]);
        i += 1;
        assert(out@ =~= bytes@.subrange(from as int, i as int));
    }
    out
}

/// Appends the bytes of `part`.
pub(crate) fn push_bytes(out: &mut Vec<u8>, part: &[u8])
    ensures
        final(out)@ == old(out)@ + part@,
{
    out.extend_from_slice(part);
    assert(out@ =~= old(out)@ + part@);
}

/// The total length of a list of byte strings.
pub(crate) fn sum_of_lengths(lines: &Vec<Vec<u8>>) -> (res: usize)
    requires
        total_len(views(lines@)) <= usize::MAX,
    ensures
        res == total_len(views(lines@)),
{
    let mut sum: usize = 0;
    let mut i: usize = 0;
    let ghost all = views(lines@);
    assert(all.subrange(0, 0) =~= Seq::empty());
    while i < lines.len()
        invariant
            i <= lines@.len(),
            all == views(lines@),
            total_len(all) <= usize::MAX,
            sum == total_len(all.subrange(0, i as int)),
        decreases lines@.len() - i,
    {
        proof {
            assert(all.subrange(0, i + 1).drop_last() =~= all.subrange(0, i as int));
            lemma_total_len_part(all, 0, i + 1);
        }
        sum += lines[i].len();
        i += 1;
    }
    assert(all.subrange(0, i as int) =~= all);
    sum
}

/// The byte strings of vectors are those of each vector, in their order and none
/// left out.
pub proof fn law_views_are_of_each_vector(lines: Seq<Vec<u8>>)
    ensures
        views(lines).len() == lines.len(),
        forall|i: int| 0 <= i < lines.len() ==> #[trigger] views(lines)[i] == lines[i]@,
{
}

/// Byte strings joined are as long as they are together. One joined with none is
/// itself, and joining two lists gives the first followed by the second.
pub proof fn law_joined_keeps_all(a: Seq<Seq<u8>>, b: Seq<Seq<u8>>, line: Seq<u8>)
    ensures
        joined(seq![line]) == line,
        joined(a + b) == joined(a) + joined(b),
        total_len(seq![line]) == line.len(),
        total_len(a + b) == total_len(a) + total_len(b),
        joined(a).len() == total_len(a),
    decreases a.len(),
{
    lemma_joined_add(a, b);
    lemma_total_len_add(a, b);
    assert(seq![line].drop_last() =~= Seq::empty());
    assert(joined(seq![line].drop_last()) =~= Seq::empty());
    assert(joined(seq![line]) =~= line);
    assert(total_len(seq![line].drop_last()) == 0);
    if a.len() > 0 {
        law_joined_keeps_all(a.drop_last(), b, line);
    }
}

} // verus!
