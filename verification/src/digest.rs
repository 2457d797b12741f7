//! SHA-256 digests, and digests as hexadecimal text.

use sha2::Digest;
use vstd::prelude::*;

verus! {

/// The SHA-256 digest of `data`, as `sha2::Sha256` computes it.
pub uninterp spec fn sha256(data: Seq<u8>) -> Seq<u8>;

/// The SHA-256 digest of `data`, from `sha2::Sha256::digest`. It depends on the
/// data alone and has thirty-two bytes; that different data have different
/// digests is not claimed.
#[verifier::external_body]
pub(crate) fn sha256_digest(data: &Vec<u8>) -> (r: Vec<u8>)
    ensures
        r@ == sha256(data@),
        r@.len() == 32,
{
    sha2::Sha256::digest(data).to_vec()
}

/// One hexadecimal digit.
pub open spec fn hex_digit(d: u8) -> char {
    if d == 0 { '0' } else if d == 1 { '1' } else if d == 2 { '2' } else if d == 3 { '3' } else if d
        == 4 { '4' } else if d == 5 { '5' } else if d == 6 { '6' } else if d == 7 { '7' } else if d
        == 8 { '8' } else if d == 9 { '9' } else if d == 10 { 'a' } else if d == 11 { 'b' } else if d
        == 12 { 'c' } else if d == 13 { 'd' } else if d == 14 { 'e' } else { 'f' }
}

/// Bytes as hexadecimal text, two digits each.
pub open spec fn hex(bytes: Seq<u8>) -> Seq<char>
    decreases bytes.len(),
{
    if bytes.len() == 0 {
        Seq::empty()
    } else {
        hex(bytes.drop_last()).push(hex_digit((bytes.last() / 16) as u8)).push(
            hex_digit((bytes.last() % 16) as u8),
        )
    }
}

/// One hexadecimal digit.
fn hex_char(d: u8) -> (r: char)
    ensures
        r == hex_digit(d),
{
    match d {
        0 => '0',
        1 => '1',
        2 => '2',
        3 => '3',
        4 => '4',
        5 => '5',
        6 => '6',
        7 => '7',
        8 => '8',
        9 => '9',
        10 => 'a',
        11 => 'b',
        12 => 'c',
        13 => 'd',
        14 => 'e',
        _ => 'f',
    }
}

/// The first `n` bytes as hexadecimal text.
pub fn hex_text(bytes: &Vec<u8>, n: usize) -> (r: String)
    requires
        n <= bytes@.len(),
    ensures
        r@ == hex(bytes@.take(n as int)),
{
    let mut r: String = String::new();
    let mut i: usize = 0;
    assert(bytes@.take(0) =~= Seq::empty());
    while i < n
        invariant
            i <= n <= bytes@.len(),
            r@ == hex(bytes@.take(i as int)),
        decreases n - i,
    {
        let b: u8 = bytes[i];
        r.push(hex_char(b / 16));
        r.push(hex_char(b % 16));
        assert(bytes@.take(i + 1).drop_last() =~= bytes@.take(i as int));
        i += 1;
    }
    r
}

/// The character is a hexadecimal digit in lower case.
pub open spec fn is_lower_hex(c: char) -> bool {
    ('0' <= c && c <= '9') || ('a' <= c && c <= 'f')
}

/// Hexadecimal text has two digits for each byte, in lower case.
pub proof fn lemma_hex_digits(bytes: Seq<u8>)
    ensures
        hex(bytes).len() == 2 * bytes.len(),
        forall|i: int| 0 <= i < hex(bytes).len() ==> is_lower_hex(#[trigger] hex(bytes)[i]),
    decreases bytes.len(),
{
    if bytes.len() > 0 {
        lemma_hex_digits(bytes.drop_last());
        let before = hex(bytes.drop_last());
        assert forall|i: int| 0 <= i < hex(bytes).len() implies is_lower_hex(
            #[trigger] hex(bytes)[i],
        ) by {
            if i < before.len() {
                assert(hex(bytes)[i] == before[i]);
            }
        }
    }
}

/// The digits tell bytes apart: different bytes have different hexadecimal texts.
pub proof fn law_hexadecimal_text_tells_bytes_apart(a: Seq<u8>, b: Seq<u8>)
    requires
        hex(a) == hex(b),
    ensures
        a == b,
    decreases a.len(),
{
    lemma_hex_digits(a);
    lemma_hex_digits(b);
    if a.len() > 0 {
        let (p, q) = (hex(a.drop_last()), hex(b.drop_last()));
        lemma_hex_digits(a.drop_last());
        lemma_hex_digits(b.drop_last());
        let n = p.len() as int;
        assert(a.len() == b.len());
        assert(hex(a)[n] == hex(b)[n]);
        assert(hex(a)[n + 1] == hex(b)[n + 1]);
        assert(q.len() == n);
        assert(p =~= hex(a).take(n));
        assert(q =~= hex(b).take(n));
        law_hexadecimal_text_tells_bytes_apart(a.drop_last(), b.drop_last());
        let (x, y) = (a.last(), b.last());
        assert(hex(a) == p.push(hex_digit((x / 16) as u8)).push(hex_digit((x % 16) as u8)));
        assert(hex(b) == q.push(hex_digit((y / 16) as u8)).push(hex_digit((y % 16) as u8)));
        let (c, d) = (hex_digit((x / 16) as u8), hex_digit((x % 16) as u8));
        let (e, f) = (hex_digit((y / 16) as u8), hex_digit((y % 16) as u8));
        assert(p.push(c).push(d)[n] == c && p.push(c).push(d)[n + 1] == d);
        assert(q.push(e).push(f)[n] == e && q.push(e).push(f)[n + 1] == f);
        lemma_digits_differ((x / 16) as u8, (y / 16) as u8);
        lemma_digits_differ((x % 16) as u8, (y % 16) as u8);
        assert(x == y);
        assert(a =~= a.drop_last().push(x));
        assert(b =~= b.drop_last().push(y));
    } else {
        assert(a =~= b);
    }
}

/// Different digits have different characters, in the order of their values.
proof fn lemma_digits_differ(c: u8, d: u8)
    requires
        c < 16,
        d < 16,
    ensures
        hex_digit(c) == hex_digit(d) <==> c == d,
{
}

/// A digit below ten is a decimal one, at its place behind `0`; the others go on from
/// `a`.
pub proof fn law_hexadecimal_digits_count_up(d: u8)
    requires
        d < 16,
    ensures
        d < 10 ==> hex_digit(d) as int == '0' as int + d,
        10 <= d ==> hex_digit(d) as int == 'a' as int + d - 10,
{
}

} // verus!
