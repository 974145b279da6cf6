//! Text building blocks: decimal numbers, padding, and work on characters.
use vstd::prelude::*;

verus! {

/// `String::push` of the standard library: the character is appended to the end.
pub assume_specification[ String::push ](s: &mut String, ch: char)
    ensures
        final(s)@ == old(s)@.push(ch),
;

/// The character of a decimal digit.
pub open spec fn digit(d: nat) -> char {
    (48 + d) as char
}

/// A number in decimal notation, without leading zeros.
pub open spec fn decimal(n: nat) -> Seq<char>
    decreases n,
{
    if n < 10 {
        seq![digit(n)]
    } else {
        decimal(n / 10).push(digit(n % 10))
    }
}

/// `n` copies of one character.
pub open spec fn fill(ch: char, n: nat) -> Seq<char> {
    Seq::new(n, |i: int| ch)
}

/// Text widened to `width` characters with `ch` on its left.
pub open spec fn pad_left(s: Seq<char>, width: nat, ch: char) -> Seq<char> {
    if s.len() < width {
        fill(ch, (width - s.len()) as nat) + s
    } else {
        s
    }
}

/// Text widened to `width` characters with `ch` on its right.
pub open spec fn pad_right(s: Seq<char>, width: nat, ch: char) -> Seq<char> {
    if s.len() < width {
        s + fill(ch, (width - s.len()) as nat)
    } else {
        s
    }
}

/// Whether `s` begins with `prefix`.
pub open spec fn begins_with(s: Seq<char>, prefix: Seq<char>) -> bool {
    prefix.len() <= s.len() && s.subrange(0, prefix.len() as int) == prefix
}

/// Appends a number in decimal notation.
pub(crate) fn push_decimal(out: &mut String, n: u128)
    ensures
        final(out)@ == old(out)@ + decimal(n as nat),
    decreases n,
{
    if n >= 10 {
        push_decimal(out, n / 10);
    }
    let d: u8 = (n % 10) as u8;
    out.push((48u8 + d) as char);
    assert(out@ =~= old(out)@ + decimal(n as nat));
}

/// A number in decimal notation.
pub(crate) fn decimal_text(n: u128) -> (res: String)
    ensures
        res@ == decimal(n as nat),
{
    let mut out = String::new();
    push_decimal(&mut out, n);
    assert(out@ =~= decimal(n as nat));
    out
}

/// Appends `n` copies of one character.
pub(crate) fn push_fill(out: &mut String, ch: char, n: usize)
    ensures
        final(out)@ == old(out)@ + fill(ch, n as nat),
{
    let mut i: usize = 0;
    assert(out@ =~= old(out)@ + fill(ch, 0));
    while i < n
        invariant
            i <= n,
            out@ == old(out)@ + fill(ch, i as nat),
        decreases n - i,
    {
        out.push(ch);
        i += 1;
        assert(out@ =~= old(out)@ + fill(ch, i as nat));
    }
}

/// Appends text that is widened on its left.
pub(crate) fn push_padded_left(out: &mut String, s: &str, width: usize, ch: char)
    ensures
        final(out)@ == old(out)@ + pad_left(s@, width as nat, ch),
{
    let len: usize = s.unicode_len();
    if len < width {
        push_fill(out, ch, width - len);
    }
    out.append(s);
    assert(out@ =~= old(out)@ + pad_left(s@, width as nat, ch));
}

/// Appends text that is widened on its right.
pub(crate) fn push_padded_right(out: &mut String, s: &str, width: usize, ch: char)
    ensures
        final(out)@ == old(out)@ + pad_right(s@, width as nat, ch),
{
    let len: usize = s.unicode_len();
    out.append(s);
    if len < width {
        push_fill(out, ch, width - len);
    }
    assert(out@ =~= old(out)@ + pad_right(s@, width as nat, ch));
}

/// The characters of a text.
pub(crate) fn chars_of(s: &str) -> (res: Vec<char>)
    ensures
        res@ == s@,
{
    let mut out: Vec<char> = Vec::new();
    for c in it: s.chars()
        invariant
            it.seq() == s@,
            out@ == s@.subrange(0, it.index() as int),
    {
        out.push(c);
        assert(out@ =~= s@.subrange(0, it.index() + 1));
    }
    assert(out@ =~= s@);
    out
}

/// The text made of the characters from `from` up to `to`.
pub(crate) fn text_of(chars: &Vec<char>, from: usize, to: usize) -> (res: String)
    requires
        from <= to <= chars@.len(),
    ensures
        res@ == chars@.subrange(from as int, to as int),
{
    let mut out = String::new();
    let mut i: usize = from;
    while i < to
        invariant
            from <= i <= to <= chars@.len(),
            out@ == chars@.subrange(from as int, i as int),
        decreases to - i,
    {
        out.push(chars[i]);
        i += 1;
        assert(out@ =~= chars@.subrange(from as int, i as int));
    }
    out
}

/// Whether two texts are the same.
pub(crate) fn same_text(a: &str, b: &str) -> (res: bool)
    ensures
        res == (a@ == b@),
{
    a.to_string() == b.to_string()
}

/// Whether a text begins with a prefix.
pub(crate) fn starts_with(s: &str, prefix: &str) -> (res: bool)
    ensures
        res == begins_with(s@, prefix@),
{
    let len: usize = prefix.unicode_len();
    if s.unicode_len() < len {
        return false;
    }
    same_text(s.substring_char(0, len), prefix)
}

/// The number that decimal digits stand for.
pub open spec fn number_of(s: Seq<char>) -> int
    decreases s.len(),
{
    if s.len() == 0 {
        0
    } else {
        number_of(s.drop_last()) * 10 + (s.last() as int - '0' as int)
    }
}

/// A number in decimal notation is made of digits alone, stands for the number,
/// and has no needless zero before it.
pub proof fn law_decimal_reads_back(n: nat)
    ensures
        number_of(decimal(n)) == n,
        decimal(n).len() > 0,
        forall|i: int| 0 <= i < decimal(n).len() ==> '0' <= #[trigger] decimal(n)[i] <= '9',
        decimal(n)[0] == '0' ==> n == 0 && decimal(n).len() == 1,
    decreases n,
{
    if n < 10 {
        assert(decimal(n).drop_last() =~= Seq::empty());
        reveal_with_fuel(number_of, 2);
    } else {
        law_decimal_reads_back(n / 10);
        let s = decimal(n);
        assert(s.drop_last() =~= decimal(n / 10));
        assert(s[0] == decimal(n / 10)[0]);
        assert forall|i: int| 0 <= i < s.len() implies '0' <= #[trigger] s[i] <= '9' by {
            if i < s.len() - 1 {
                assert(s[i] == decimal(n / 10)[i]);
            }
        }
    }
}

/// Different numbers have different notations.
pub proof fn law_decimal_tells_numbers_apart(m: nat, n: nat)
    requires
        decimal(m) == decimal(n),
    ensures
        m == n,
{
    law_decimal_reads_back(m);
    law_decimal_reads_back(n);
}

/// Widened text is the text with nothing but the given character before or
/// behind it. It is as wide as is asked for, and never shorter than the text.
pub proof fn law_padding_keeps_text(s: Seq<char>, width: nat, ch: char)
    ensures
        ({
            let l = pad_left(s, width, ch);
            let r = pad_right(s, width, ch);
            let more = l.len() - s.len();
            &&& l.len() == r.len()
            &&& l.len() >= width
            &&& l.len() == width || l.len() == s.len()
            &&& more >= 0
            &&& l.skip(more) == s
            &&& r.take(s.len() as int) == s
            &&& forall|i: int| 0 <= i < more ==> #[trigger] l[i] == ch
            &&& forall|i: int| s.len() <= i < r.len() ==> #[trigger] r[i] == ch
        }),
{
    let l = pad_left(s, width, ch);
    assert(l.skip(l.len() - s.len()) =~= s);
    assert(pad_right(s, width, ch).take(s.len() as int) =~= s);
}

/// A text begins with another exactly where it is that text with something
/// behind it.
pub proof fn law_begins_with_what_is_before(s: Seq<char>, prefix: Seq<char>, rest: Seq<char>)
    ensures
        begins_with(prefix + rest, prefix),
        begins_with(s, prefix) ==> s == prefix + s.skip(prefix.len() as int),
{
    assert((prefix + rest).subrange(0, prefix.len() as int) =~= prefix);
    if begins_with(s, prefix) {
        assert(s =~= s.subrange(0, prefix.len() as int) + s.skip(prefix.len() as int));
    }
}

/// Whether texts stand in a line one behind the other, with anything before,
/// between and behind them.
#[verifier::opaque]
pub open spec fn in_order(line: Seq<char>, parts: Seq<Seq<char>>) -> bool
    decreases parts.len(),
{
    parts.len() > 0 ==> exists|k: int| #[trigger]
        found_at(line, parts[0], k) && in_order(
            line.skip(k + parts[0].len()),
            parts.drop_first(),
        )
}

/// Whether a text stands in a line at a place.
pub open spec fn found_at(line: Seq<char>, part: Seq<char>, k: int) -> bool {
    0 <= k <= line.len() - part.len() && line.subrange(k, k + part.len()) == part
}

/// Where no text is asked for, whatever line holds it.
pub proof fn lemma_nothing_in_order(line: Seq<char>)
    ensures
        in_order(line, Seq::empty()),
{
    reveal(in_order);
}

/// A text found behind another goes before those that are found behind it.
pub proof fn lemma_in_order(
    line: Seq<char>,
    before: Seq<char>,
    part: Seq<char>,
    behind: Seq<char>,
    later: Seq<Seq<char>>,
)
    requires
        line == before + part + behind,
        in_order(behind, later),
    ensures
        in_order(line, seq![part] + later),
{
    reveal(in_order);
    let parts = seq![part] + later;
    let k = before.len() as int;
    assert(line.subrange(k, k + part.len()) =~= part);
    assert(found_at(line, parts[0], k));
    assert(line.skip(k + part.len()) =~= behind);
    assert(parts.drop_first() =~= later);
}

/// What stands in a line still does with something before it.
pub proof fn lemma_in_order_behind(before: Seq<char>, line: Seq<char>, parts: Seq<Seq<char>>)
    requires
        in_order(line, parts),
    ensures
        in_order(before + line, parts),
{
    reveal(in_order);
    if parts.len() > 0 {
        let k = choose|k: int| #[trigger]
            found_at(line, parts[0], k) && in_order(
                line.skip(k + parts[0].len()),
                parts.drop_first(),
            );
        let n = before.len() as int;
        let all = before + line;
        let len = parts[0].len() as int;
        assert(all.subrange(n + k, n + k + len) =~= line.subrange(k, k + len));
        assert(found_at(all, parts[0], n + k));
        assert(all.skip(n + k + len) =~= line.skip(k + len));
    }
}

/// Texts put together from the left are the same as from the right.
pub proof fn lemma_put_together(a: Seq<char>, b: Seq<char>, c: Seq<char>, d: Seq<char>)
    ensures
        a + (b + c + d) == a + b + c + d,
{
    assert(a + (b + c + d) =~= a + b + c + d);
}

/// Text that is widened stands in a line with what stands behind it.
pub proof fn lemma_padded_in_order(
    line: Seq<char>,
    before: Seq<char>,
    part: Seq<char>,
    width: nat,
    behind: Seq<char>,
    later: Seq<Seq<char>>,
)
    requires
        line == before + pad_left(part, width, ' ') + behind || line == before + pad_right(
            part,
            width,
            ' ',
        ) + behind,
        in_order(behind, later),
    ensures
        in_order(line, seq![part] + later),
{
    let more = fill(
        ' ',
        if part.len() < width {
            (width - part.len()) as nat
        } else {
            0
        },
    );
    if line == before + pad_left(part, width, ' ') + behind {
        assert(line =~= (before + more) + part + behind);
        lemma_in_order(line, before + more, part, behind, later);
    } else {
        assert(line =~= before + part + (more + behind));
        lemma_in_order_behind(more, behind, later);
        lemma_in_order(line, before, part, more + behind, later);
    }
}

/// What stands in a line still does without the last of it.
pub proof fn lemma_in_order_fewer(line: Seq<char>, parts: Seq<Seq<char>>, last: Seq<char>)
    requires
        in_order(line, parts.push(last)),
    ensures
        in_order(line, parts),
    decreases parts.len(),
{
    reveal(in_order);
    if parts.len() > 0 {
        let all = parts.push(last);
        let k = choose|k: int| #[trigger]
            found_at(line, all[0], k) && in_order(line.skip(k + all[0].len()), all.drop_first());
        assert(all.drop_first() =~= parts.drop_first().push(last));
        lemma_in_order_fewer(line.skip(k + all[0].len()), parts.drop_first(), last);
        assert(found_at(line, parts[0], k));
    }
}

} // verus!
