//! The frames in which a format plugin hands back its lines: a four-byte
//! little-endian length, then that many bytes, over and over.
use vstd::prelude::*;

use crate::bytes;

verus! {

/// The little-endian number in the four bytes at `at`.
pub open spec fn le32(b: Seq<u8>, at: int) -> nat {
    (b[at] + 256 * b[at + 1] + 65536 * b[at + 2] + 16777216 * b[at + 3]) as nat
}

/// The four bytes of a number, the lowest first.
pub open spec fn le32_bytes(n: nat) -> Seq<u8> {
    seq![
        (n % 256) as u8,
        ((n / 256) % 256) as u8,
        ((n / 65536) % 256) as u8,
        ((n / 16777216) % 256) as u8,
    ]
}

/// The frames of `b` from `pos` on, up to the end or to the first frame that
/// declares more bytes than there are.
pub open spec fn frames_from(b: Seq<u8>, pos: int) -> Seq<Seq<u8>>
    decreases b.len() - pos,
{
    if 0 <= pos && pos + 4 <= b.len() && pos + 4 + le32(b, pos) <= b.len() {
        let end = pos + 4 + le32(b, pos);
        seq![b.subrange(pos + 4, end)] + frames_from(b, end)
    } else {
        Seq::empty()
    }
}

/// The first frame from `pos` on that declares more bytes than there are: the
/// declared length, and how many bytes remain behind it.
pub open spec fn malformed_from(b: Seq<u8>, pos: int) -> Option<(nat, nat)>
    decreases b.len() - pos,
{
    if 0 <= pos && pos + 4 <= b.len() {
        let end = pos + 4 + le32(b, pos);
        if end <= b.len() {
            malformed_from(b, end)
        } else {
            Some((le32(b, pos), (b.len() - pos - 4) as nat))
        }
    } else {
        None
    }
}

/// Lines put into frames.
pub open spec fn framed(lines: Seq<Seq<u8>>) -> Seq<u8>
    decreases lines.len(),
{
    if lines.len() == 0 {
        Seq::empty()
    } else {
        le32_bytes(lines[0].len()) + lines[0] + framed(lines.drop_first())
    }
}

/// A frame that declares more bytes than there are.
#[derive(Clone, Copy, Debug, PartialEq, Eq, Structural)]
pub struct MalformedFrame {
    /// The length that the frame declares.
    pub declared: u32,
    /// The bytes that remain behind its length.
    pub remaining: usize,
}

/// What is read out of the bytes of a format plugin.
pub struct FrameScan {
    /// The frames before the end or before the first malformed one.
    pub frames: Vec<Vec<u8>>,
    /// The first malformed frame, where there is one.
    pub malformed: Option<MalformedFrame>,
}

/// What is said of a scan: it is the one that the bytes have.
pub open spec fn is_scan_of(scan: FrameScan, b: Seq<u8>) -> bool {
    &&& bytes::views(scan.frames@) == frames_from(b, 0)
    &&& match malformed_from(b, 0) {
        Some((declared, remaining)) => scan.malformed matches Some(m) && m.declared == declared
            && m.remaining == remaining,
        None => scan.malformed is None,
    }
}

/// Reads the frames of a format plugin's output. Fewer than four bytes at the
/// end are no frame and are left alone.
pub fn parse_frames(bytes: &[u8]) -> (scan: FrameScan)
    ensures
        is_scan_of(scan, bytes@),
{
    let total: usize = bytes.len();
    let mut frames: Vec<Vec<u8>> = Vec::new();
    let mut pos: usize = 0;
    let ghost b = bytes@;
    assert(bytes::views(frames@) + frames_from(b, 0) =~= frames_from(b, 0));
    while total - pos >= 4
        invariant
            b == bytes@,
            total == b.len(),
            pos <= total,
            bytes::views(frames@) + frames_from(b, pos as int) == frames_from(b, 0),
            malformed_from(b, pos as int) == malformed_from(b, 0),
        decreases total - pos,
    {
        let declared: u32 = bytes[pos] as u32 + 256 * (bytes[pos + 1] as u32) + 65536 * (
        bytes[pos + 2] as u32) + 16777216 * (bytes[pos + 3] as u32);
        assert(declared == le32(b, pos as int));
        let start: usize = pos + 4;
        if declared as u64 <= (total - start) as u64 {
            let end: usize = start + declared as usize;
            let frame = bytes::copy_range(bytes, start, end);
            let ghost before = frames@;
            frames.push(frame);
            proof {
                bytes::lemma_views_push(before, frame);
                assert(bytes::views(frames@) + frames_from(b, end as int) =~= bytes::views(before)
                    + frames_from(b, pos as int));
            }
            pos = end;
        } else {
            assert(frames_from(b, pos as int) =~= Seq::empty());
            assert(bytes::views(frames@) =~= frames_from(b, 0));
            return FrameScan {
                frames,
                malformed: Some(MalformedFrame { declared, remaining: total - start }),
            };
        }
    }
    assert(frames_from(b, pos as int) =~= Seq::empty());
    assert(bytes::views(frames@) =~= frames_from(b, 0));
    FrameScan { frames, malformed: None }
}

proof fn lemma_le32_of_bytes(n: nat)
    requires
        n < 0x1_0000_0000,
    ensures
        le32(le32_bytes(n), 0) == n,
{
}

proof fn lemma_framed_from(prefix: Seq<u8>, lines: Seq<Seq<u8>>)
    requires
        forall|i: int| 0 <= i < lines.len() ==> (#[trigger] lines[i]).len() < 0x1_0000_0000,
    ensures
        frames_from(prefix + framed(lines), prefix.len() as int) == lines,
        malformed_from(prefix + framed(lines), prefix.len() as int) is None,
    decreases lines.len(),
{
    let b = prefix + framed(lines);
    let pos = prefix.len() as int;
    if lines.len() == 0 {
        assert(b.len() == pos);
        assert(frames_from(b, pos) =~= lines);
    } else {
        let head = le32_bytes(lines[0].len()) + lines[0];
        let rest = lines.drop_first();
        let longer = prefix + head;
        assert(b =~= longer + framed(rest));
        assert(lines[0].len() < 0x1_0000_0000);
        lemma_le32_of_bytes(lines[0].len());
        assert(forall|k: int| 0 <= k < 4 ==> b[pos + k] == le32_bytes(lines[0].len())[k]);
        assert(le32(b, pos) == lines[0].len());
        assert(b.subrange(pos + 4, pos + 4 + lines[0].len()) =~= lines[0]);
        assert forall|i: int| 0 <= i < rest.len() implies (#[trigger] rest[i]).len()
            < 0x1_0000_0000 by {
            assert(rest[i] == lines[i + 1]);
        }
        lemma_framed_from(longer, rest);
        assert(longer.len() == pos + 4 + lines[0].len());
        assert(frames_from(b, pos) =~= seq![lines[0]] + rest);
        assert(seq![lines[0]] + rest =~= lines);
    }
}

/// Lines that a plugin puts into frames are read back: the same lines, in the
/// same order, and no malformed frame.
pub proof fn law_frames_read_back(lines: Seq<Seq<u8>>)
    requires
        forall|i: int| 0 <= i < lines.len() ==> (#[trigger] lines[i]).len() < 0x1_0000_0000,
    ensures
        frames_from(framed(lines), 0) == lines,
        malformed_from(framed(lines), 0) is None,
{
    assert(Seq::<u8>::empty() + framed(lines) =~= framed(lines));
    lemma_framed_from(Seq::empty(), lines);
}

/// The length in front of a frame is a 32-bit number with its lowest byte first.
pub proof fn law_length_is_little_endian(b: Seq<u8>, at: int, n: u32)
    requires
        0 <= at <= b.len() - 4,
    ensures
        le32(b, at) <= u32::MAX,
        le32(b, at) % 256 == b[at],
        le32(b, at) / 256 % 256 == b[at + 1],
        le32(b, at) / 65536 % 256 == b[at + 2],
        le32(b, at) / 16777216 == b[at + 3],
        le32_bytes(n as nat).len() == 4,
        le32(le32_bytes(n as nat), 0) == n,
{
    lemma_le32_of_bytes(n as nat);
}

/// Lines in frames stand one behind the other, each behind the four bytes of its
/// length.
pub proof fn law_framed_holds_each_line(a: Seq<Seq<u8>>, b: Seq<Seq<u8>>, line: Seq<u8>)
    ensures
        framed(seq![line]) == le32_bytes(line.len()) + line,
        framed(a + b) == framed(a) + framed(b),
        framed(a).len() == bytes::total_len(a) + 4 * a.len(),
    decreases a.len(),
{
    assert(seq![line].drop_first() =~= Seq::empty());
    assert(framed(seq![line].drop_first()) =~= Seq::empty());
    assert(framed(seq![line]) =~= le32_bytes(line.len()) + line);
    if a.len() == 0 {
        assert(a + b =~= b);
        assert(framed(a) + framed(b) =~= framed(b));
    } else {
        let rest = a.drop_first();
        law_framed_holds_each_line(rest, b, line);
        assert((a + b).drop_first() =~= rest + b);
        assert(framed(a + b) =~= framed(a) + framed(b));
        assert(a =~= seq![a[0]] + rest);
        bytes::lemma_total_len_add(seq![a[0]], rest);
        assert(seq![a[0]].drop_last() =~= Seq::empty());
        assert(bytes::total_len(seq![a[0]].drop_last()) == 0);
    }
}

proof fn lemma_framed_then(prefix: Seq<u8>, lines: Seq<Seq<u8>>, tail: Seq<u8>)
    requires
        forall|i: int| 0 <= i < lines.len() ==> (#[trigger] lines[i]).len() < 0x1_0000_0000,
    ensures
        ({
            let b = prefix + framed(lines) + tail;
            let pos = prefix.len() as int;
            let end = (prefix + framed(lines)).len() as int;
            &&& frames_from(b, pos) == lines + frames_from(b, end)
            &&& malformed_from(b, pos) == malformed_from(b, end)
        }),
    decreases lines.len(),
{
    let b = prefix + framed(lines) + tail;
    let pos = prefix.len() as int;
    let end = (prefix + framed(lines)).len() as int;
    if lines.len() == 0 {
        assert(frames_from(b, pos) =~= lines + frames_from(b, end));
    } else {
        let head = le32_bytes(lines[0].len()) + lines[0];
        let rest = lines.drop_first();
        let longer = prefix + head;
        assert(b =~= longer + framed(rest) + tail);
        assert(prefix + framed(lines) =~= longer + framed(rest));
        assert(lines[0].len() < 0x1_0000_0000);
        lemma_le32_of_bytes(lines[0].len());
        assert(forall|k: int| 0 <= k < 4 ==> b[pos + k] == le32_bytes(lines[0].len())[k]);
        assert(le32(b, pos) == lines[0].len());
        assert(b.subrange(pos + 4, pos + 4 + lines[0].len()) =~= lines[0]);
        assert forall|i: int| 0 <= i < rest.len() implies (#[trigger] rest[i]).len()
            < 0x1_0000_0000 by {
            assert(rest[i] == lines[i + 1]);
        }
        lemma_framed_then(longer, rest, tail);
        assert(longer.len() == pos + 4 + lines[0].len());
        assert(frames_from(b, pos) =~= lines + frames_from(b, end));
    }
}

/// Whatever stands behind lines in frames, the scan begins with those lines. Fewer
/// than four bytes behind them are left alone. A frame behind them that declares
/// more bytes than there are ends the scan, and is told with the length that it
/// declares and the bytes that there are.
pub proof fn law_scan_stops_where_frames_end(
    scan: FrameScan,
    lines: Seq<Seq<u8>>,
    declared: u32,
    tail: Seq<u8>,
    torn: bool,
)
    requires
        forall|i: int| 0 <= i < lines.len() ==> (#[trigger] lines[i]).len() < 0x1_0000_0000,
        torn ==> tail.len() < declared,
        !torn ==> tail.len() < 4,
        is_scan_of(
            scan,
            framed(lines) + (if torn {
                le32_bytes(declared as nat) + tail
            } else {
                tail
            }),
        ),
    ensures
        scan.frames@.len() == lines.len(),
        forall|i: int| 0 <= i < lines.len() ==> (#[trigger] scan.frames@[i])@ == lines[i],
        scan.malformed is Some <==> torn,
        scan.malformed matches Some(m) ==> m.declared == declared && m.remaining == tail.len(),
{
    let rest = if torn {
        le32_bytes(declared as nat) + tail
    } else {
        tail
    };
    let b = framed(lines) + rest;
    let end = framed(lines).len() as int;
    assert(Seq::<u8>::empty() + framed(lines) + rest =~= b);
    assert(Seq::<u8>::empty() + framed(lines) =~= framed(lines));
    lemma_framed_then(Seq::empty(), lines, rest);
    if torn {
        lemma_le32_of_bytes(declared as nat);
        assert(forall|k: int| 0 <= k < 4 ==> b[end + k] == le32_bytes(declared as nat)[k]);
        assert(le32(b, end) == declared);
    }
    assert(frames_from(b, end) =~= Seq::empty());
    assert(frames_from(b, 0) =~= lines);
    assert forall|i: int| 0 <= i < lines.len() implies (#[trigger] scan.frames@[i])@
        == lines[i] by {
        assert(bytes::views(scan.frames@)[i] == lines[i]);
    }
}

/// Lines in frames with a frame behind them that is cut off are read up to it.
pub(crate) proof fn lemma_torn(lines: Seq<Seq<u8>>, declared: u32, tail: Seq<u8>)
    requires
        forall|i: int| 0 <= i < lines.len() ==> (#[trigger] lines[i]).len() < 0x1_0000_0000,
        tail.len() < declared,
    ensures
        ({
            let b = framed(lines) + (le32_bytes(declared as nat) + tail);
            &&& frames_from(b, 0) == lines
            &&& malformed_from(b, 0) == Some((declared as nat, tail.len()))
        }),
{
    let rest = le32_bytes(declared as nat) + tail;
    let b = framed(lines) + rest;
    let end = framed(lines).len() as int;
    assert(Seq::<u8>::empty() + framed(lines) + rest =~= b);
    assert(Seq::<u8>::empty() + framed(lines) =~= framed(lines));
    lemma_framed_then(Seq::empty(), lines, rest);
    lemma_le32_of_bytes(declared as nat);
    assert(forall|k: int| 0 <= k < 4 ==> b[end + k] == le32_bytes(declared as nat)[k]);
    assert(le32(b, end) == declared);
    assert(frames_from(b, end) =~= Seq::empty());
    assert(frames_from(b, 0) =~= lines);
}

/// Lines in frames with fewer than four bytes behind them are read as if these were
/// not there.
pub proof fn law_last_bytes_are_left_alone(lines: Seq<Seq<u8>>, tail: Seq<u8>)
    requires
        forall|i: int| 0 <= i < lines.len() ==> (#[trigger] lines[i]).len() < 0x1_0000_0000,
        tail.len() < 4,
    ensures
        frames_from(framed(lines) + tail, 0) == lines,
        malformed_from(framed(lines) + tail, 0) is None,
{
    let b = framed(lines) + tail;
    let end = framed(lines).len() as int;
    assert(Seq::<u8>::empty() + framed(lines) + tail =~= b);
    assert(Seq::<u8>::empty() + framed(lines) =~= framed(lines));
    lemma_framed_then(Seq::empty(), lines, tail);
    assert(frames_from(b, end) =~= Seq::empty());
    assert(frames_from(b, 0) =~= lines);
}

} // verus!
