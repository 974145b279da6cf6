//! Base64 with the standard alphabet and padding.
use vstd::prelude::*;

verus! {

/// The letter that stands for six bits.
pub open spec fn letter(d: int) -> char {
    if d < 26 {
        (65 + d) as char
    } else if d < 52 {
        (97 + d - 26) as char
    } else if d < 62 {
        (48 + d - 52) as char
    } else if d == 62 {
        '+'
    } else {
        '/'
    }
}

/// The number that three bytes make up.
pub open spec fn triple(a: u8, b: u8, c: u8) -> int {
    a * 65536 + b * 256 + c
}

/// The four letters of three bytes.
pub open spec fn quad(a: u8, b: u8, c: u8) -> Seq<char> {
    let n = triple(a, b, c);
    seq![letter(n / 262144), letter(n / 4096 % 64), letter(n / 64 % 64), letter(n % 64)]
}

/// Bytes in Base64.
pub open spec fn encoded(bytes: Seq<u8>) -> Seq<char>
    decreases bytes.len(),
{
    if bytes.len() == 0 {
        Seq::empty()
    } else if bytes.len() == 1 {
        quad(bytes[0], 0, 0).take(2) + seq!['=', '=']
    } else if bytes.len() == 2 {
        quad(bytes[0], bytes[1], 0).take(3) + seq!['=']
    } else {
        quad(bytes[0], bytes[1], bytes[2]) + encoded(bytes.skip(3))
    }
}

fn letter_of(d: u8) -> (res: char)
    requires
        d < 64,
    ensures
        res == letter(d as int),
{
    if d < 26 {
        (65 + d) as char
    } else if d < 52 {
        (97 + (d - 26)) as char
    } else if d < 62 {
        (48 + (d - 52)) as char
    } else if d == 62 {
        '+'
    } else {
        '/'
    }
}

proof fn lemma_sextets(a: u8, b: u8, c: u8)
    ensures
        (a >> 2u8) == triple(a, b, c) / 262144,
        (((a & 3u8) << 4u8) | (b >> 4u8)) == triple(a, b, c) / 4096 % 64,
        (((b & 15u8) << 2u8) | (c >> 6u8)) == triple(a, b, c) / 64 % 64,
        (c & 63u8) == triple(a, b, c) % 64,
{
    let n: u32 = triple(a, b, c) as u32;
    let (x, y, z) = (a as u32, b as u32, c as u32);
    assert((a >> 2u8) == n / 262144) by (bit_vector)
        requires
            n == x * 65536 + y * 256 + z,
            x == a,
            y == b,
            z == c,
    ;
    assert((((a & 3u8) << 4u8) | (b >> 4u8)) == n / 4096 % 64) by (bit_vector)
        requires
            n == x * 65536 + y * 256 + z,
            x == a,
            y == b,
            z == c,
    ;
    assert((((b & 15u8) << 2u8) | (c >> 6u8)) == n / 64 % 64) by (bit_vector)
        requires
            n == x * 65536 + y * 256 + z,
            x == a,
            y == b,
            z == c,
    ;
    assert((c & 63u8) == n % 64) by (bit_vector)
        requires
            n == x * 65536 + y * 256 + z,
            x == a,
            y == b,
            z == c,
    ;
}

/// Turns bytes into Base64.
pub fn base64_encode(input: &[u8]) -> (res: String)
    ensures
        res@ == encoded(input@),
{
    let mut out = String::new();
    let mut i: usize = 0;
    let ghost all = input@;
    assert(all.skip(0) =~= all);
    assert(out@ + encoded(all) =~= encoded(all));
    while i < input.len()
        invariant
            i <= all.len(),
            all == input@,
            out@ + encoded(all.skip(i as int)) == encoded(all),
        decreases all.len() - i,
    {
        let left: usize = input.len() - i;
        let b0: u8 = input[i];
        let b1: u8 = if left > 1 {
            input[i + 1]
        } else {
            0
        };
        let b2: u8 = if left > 2 {
            input[i + 2]
        } else {
            0
        };
        let ghost rest = all.skip(i as int);
        let ghost before = out@;
        proof {
            lemma_sextets(b0, b1, b2);
        }
        out.push(letter_of(b0 >> 2));
        out.push(letter_of(((b0 & 3) << 4) | (b1 >> 4)));
        if left > 1 {
            out.push(letter_of(((b1 & 15) << 2) | (b2 >> 6)));
        } else {
            out.push('=');
        }
        if left > 2 {
            out.push(letter_of(b2 & 63));
        } else {
            out.push('=');
        }
        if left > 3 {
            i += 3;
            assert(rest.skip(3) =~= all.skip(i as int));
            assert(out@ =~= before + quad(b0, b1, b2));
            assert(out@ + encoded(all.skip(i as int)) =~= before + encoded(rest));
        } else {
            i = input.len();
            assert(all.skip(i as int) =~= Seq::empty());
            assert(left == 3 ==> rest.skip(3) =~= Seq::empty());
            assert(out@ + encoded(all.skip(i as int)) =~= before + encoded(rest));
        }
    }
    assert(all.skip(i as int) =~= Seq::empty());
    assert(out@ =~= encoded(all));
    out
}

/// The six bits that a letter stands for.
pub open spec fn sextet(c: char) -> int {
    if 65 <= c as int <= 90 {
        c as int - 65
    } else if 97 <= c as int <= 122 {
        c as int - 97 + 26
    } else if 48 <= c as int <= 57 {
        c as int - 48 + 52
    } else if c == '+' {
        62
    } else {
        63
    }
}

/// The bytes that text in Base64 stands for.
pub open spec fn decoded(s: Seq<char>) -> Seq<u8>
    decreases s.len(),
{
    if s.len() < 4 {
        Seq::empty()
    } else if s[2] == '=' {
        let n = sextet(s[0]) * 64 + sextet(s[1]);
        seq![(n / 16) as u8]
    } else if s[3] == '=' {
        let n = sextet(s[0]) * 4096 + sextet(s[1]) * 64 + sextet(s[2]);
        seq![(n / 1024) as u8, (n / 4 % 256) as u8]
    } else {
        let n = sextet(s[0]) * 262144 + sextet(s[1]) * 4096 + sextet(s[2]) * 64 + sextet(s[3]);
        seq![(n / 65536) as u8, (n / 256 % 256) as u8, (n % 256) as u8] + decoded(s.skip(4))
    }
}

proof fn lemma_letter(d: int)
    requires
        0 <= d < 64,
    ensures
        sextet(letter(d)) == d,
        letter(d) != '=',
{
}

proof fn lemma_triple(a: u8, b: u8, c: u8)
    ensures
        ({
            let n = triple(a, b, c);
            &&& 0 <= n / 262144 < 64
            &&& n / 262144 * 262144 + n / 4096 % 64 * 4096 + n / 64 % 64 * 64 + n % 64 == n
            &&& n / 65536 == a
            &&& n / 256 % 256 == b
            &&& n % 256 == c
        }),
{
    let n = triple(a, b, c);
    let m = n as u32;
    assert(m / 262144 * 262144 + m / 4096 % 64 * 4096 + m / 64 % 64 * 64 + m % 64 == m)
        by (bit_vector);
    assert(n / 65536 == a);
    assert(n / 256 == a * 256 + b);
}

/// What was turned into Base64 can be turned back, whatever the bytes are.
pub proof fn law_decodes_back(bytes: Seq<u8>)
    ensures
        decoded(encoded(bytes)) == bytes,
    decreases bytes.len(),
{
    if bytes.len() == 0 {
        assert(decoded(encoded(bytes)) =~= bytes);
    } else {
        let a = bytes[0];
        let b: u8 = if bytes.len() > 1 {
            bytes[1]
        } else {
            0
        };
        let c: u8 = if bytes.len() > 2 {
            bytes[2]
        } else {
            0
        };
        let n = triple(a, b, c);
        lemma_triple(a, b, c);
        lemma_letter(n / 262144);
        lemma_letter(n / 4096 % 64);
        lemma_letter(n / 64 % 64);
        lemma_letter(n % 64);
        if bytes.len() > 2 {
            law_decodes_back(bytes.skip(3));
            assert(encoded(bytes).skip(4) =~= encoded(bytes.skip(3)));
            assert(decoded(encoded(bytes)) =~= bytes);
        } else {
            assert(decoded(encoded(bytes)) =~= bytes);
        }
    }
}

/// Every three bytes, and what is left of them, take four letters.
pub proof fn law_encoded_length(bytes: Seq<u8>)
    ensures
        encoded(bytes).len() == (bytes.len() + 2) / 3 * 4,
    decreases bytes.len(),
{
    if bytes.len() > 2 {
        law_encoded_length(bytes.skip(3));
    }
}

/// Behind a number of whole triples what follows is turned into Base64 on its
/// own.
pub proof fn law_encoded_in_parts(a: Seq<u8>, b: Seq<u8>)
    requires
        a.len() % 3 == 0,
    ensures
        encoded(a + b) == encoded(a) + encoded(b),
    decreases a.len(),
{
    if a.len() == 0 {
        assert(a + b =~= b);
        assert(encoded(a) + encoded(b) =~= encoded(b));
    } else {
        law_encoded_in_parts(a.skip(3), b);
        assert((a + b).skip(3) =~= a.skip(3) + b);
        assert(encoded(a + b) =~= encoded(a) + encoded(b));
    }
}

/// The letters are those of the standard alphabet, in its order.
pub proof fn law_standard_alphabet(d: int)
    requires
        0 <= d < 64,
    ensures
        letter(d) == "ABCDEFGHIJKLMNOPQRSTUVWXYZabcdefghijklmnopqrstuvwxyz0123456789+/"@[d],
{
    reveal_strlit("ABCDEFGHIJKLMNOPQRSTUVWXYZabcdefghijklmnopqrstuvwxyz0123456789+/");
}

} // verus!
