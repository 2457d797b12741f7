//! Text helpers: comparing, searching and building strings, stated over the
//! sequence of characters that a string holds.

use vstd::prelude::*;
use vstd::string::*;

verus! {

/// `String::push`: appends one character at the end.
pub assume_specification[ String::push ](s: &mut String, c: char)
    ensures
        final(s)@ == old(s)@.push(c),
;

/// The characters of `s`, in order.
pub fn chars_of(s: &str) -> (out: Vec<char>)
    ensures
        out@ == s@,
{
    let mut out: Vec<char> = Vec::new();
    for c in it: s.chars()
        invariant
            out@ == it.seq().take(it.index() as int),
            it.seq() == s@,
    {
        out.push(c);
        assert(it.seq().take(it.index() as int + 1) =~= it.seq().take(it.index() as int).push(c));
    }
    assert(s@.take(s@.len() as int) =~= s@);
    out
}

/// The string that holds exactly `chars`.
pub fn string_of(chars: &Vec<char>) -> (out: String)
    ensures
        out@ == chars@,
{
    let mut out: String = String::new();
    let mut i: usize = 0;
    while i < chars.len()
        invariant
            i <= chars.len(),
            out@ == chars@.take(i as int),
        decreases chars.len() - i,
    {
        out.push(chars[i]);
        assert(chars@.take(i + 1) =~= chars@.take(i as int).push(chars@[i as int]));
        i += 1;
    }
    assert(chars@.take(chars@.len() as int) =~= chars@);
    out
}

/// Whether two strings hold the same characters.
pub fn same_text(a: &str, b: &str) -> (r: bool)
    ensures
        r == (a@ == b@),
{
    let x = a.as_bytes();
    let y = b.as_bytes();
    proof {
        vstd::utf8::encode_utf8_decode_utf8(a@);
        vstd::utf8::encode_utf8_decode_utf8(b@);
    }
    if x.len() != y.len() {
        return false;
    }
    let mut i: usize = 0;
    while i < x.len()
        invariant
            i <= x.len(),
            x.len() == y.len(),
            x@ == vstd::utf8::encode_utf8(a@),
            y@ == vstd::utf8::encode_utf8(b@),
            forall|k: int| 0 <= k < i ==> x@[k] == y@[k],
        decreases x.len() - i,
    {
        if x[i] != y[i] {
            assert(a@ != b@);
            return false;
        }
        i += 1;
    }
    assert(x@ =~= y@);
    true
}

/// Whether two optional strings are both absent or hold the same characters.
pub fn same_optional_text(a: &Option<String>, b: &Option<String>) -> (r: bool)
    ensures
        r == (a.deep_view() == b.deep_view()),
{
    match (a, b) {
        (None, None) => true,
        (Some(x), Some(y)) => same_text(x.as_str(), y.as_str()),
        _ => false,
    }
}

/// Strings in the order of their characters' scalar values: `a` comes strictly
/// before `b`.
pub open spec fn text_lt(a: Seq<char>, b: Seq<char>) -> bool
    decreases a.len(),
{
    if b.len() == 0 {
        false
    } else if a.len() == 0 {
        true
    } else if a[0] != b[0] {
        (a[0] as int) < (b[0] as int)
    } else {
        text_lt(a.drop_first(), b.drop_first())
    }
}

/// `a` comes before `b` or is equal to it.
pub open spec fn text_le(a: Seq<char>, b: Seq<char>) -> bool {
    a == b || text_lt(a, b)
}

/// No string comes before itself.
pub proof fn lemma_text_lt_irreflexive(a: Seq<char>)
    ensures
        !text_lt(a, a),
    decreases a.len(),
{
    if a.len() > 0 {
        lemma_text_lt_irreflexive(a.drop_first());
    }
}

/// The order of strings is transitive.
pub proof fn lemma_text_lt_transitive(a: Seq<char>, b: Seq<char>, c: Seq<char>)
    requires
        text_lt(a, b),
        text_lt(b, c),
    ensures
        text_lt(a, c),
    decreases a.len(),
{
    if a.len() > 0 && b.len() > 0 && c.len() > 0 && a[0] == b[0] && b[0] == c[0] {
        lemma_text_lt_transitive(a.drop_first(), b.drop_first(), c.drop_first());
    }
}

/// Of two different strings, one comes before the other.
pub proof fn lemma_text_lt_total(a: Seq<char>, b: Seq<char>)
    ensures
        text_lt(a, b) || text_lt(b, a) || a == b,
    decreases a.len(),
{
    if a.len() == 0 || b.len() == 0 {
        if a.len() == 0 && b.len() == 0 {
            assert(a =~= b);
        }
    } else if a[0] == b[0] {
        lemma_text_lt_total(a.drop_first(), b.drop_first());
        assert(a =~= seq![a[0]] + a.drop_first());
        assert(b =~= seq![b[0]] + b.drop_first());
    }
}

/// Skipping a common prefix does not change the order.
proof fn lemma_text_lt_skip(a: Seq<char>, b: Seq<char>, k: int)
    requires
        0 <= k <= a.len(),
        k <= b.len(),
        forall|j: int| 0 <= j < k ==> a[j] == b[j],
    ensures
        text_lt(a, b) == text_lt(a.skip(k), b.skip(k)),
    decreases k,
{
    if k == 0 {
        assert(a.skip(0) =~= a);
        assert(b.skip(0) =~= b);
    } else {
        assert(a.drop_first().skip(k - 1) =~= a.skip(k));
        assert(b.drop_first().skip(k - 1) =~= b.skip(k));
        lemma_text_lt_skip(a.drop_first(), b.drop_first(), k - 1);
    }
}

/// Whether `a` comes strictly before `b`.
pub fn text_before(a: &str, b: &str) -> (r: bool)
    ensures
        r == text_lt(a@, b@),
{
    let x: Vec<char> = chars_of(a);
    let y: Vec<char> = chars_of(b);
    let mut i: usize = 0;
    while i < x.len() && i < y.len()
        invariant
            i <= x.len(),
            i <= y.len(),
            x@ == a@,
            y@ == b@,
            forall|j: int| 0 <= j < i ==> x@[j] == y@[j],
        decreases x.len() - i,
    {
        let cx: char = x[i];
        let cy: char = y[i];
        if cx != cy {
            proof {
                lemma_text_lt_skip(a@, b@, i as int);
            }
            return cx < cy;
        }
        i += 1;
    }
    proof {
        lemma_text_lt_skip(a@, b@, i as int);
    }
    i < y.len()
}

/// `s` begins with `prefix`.
pub open spec fn has_prefix(s: Seq<char>, prefix: Seq<char>) -> bool {
    prefix.len() <= s.len() && s.take(prefix.len() as int) == prefix
}

/// Whether `part` stands in `s` from position `at` on.
pub open spec fn occurs_at(s: Seq<char>, part: Seq<char>, at: int) -> bool {
    0 <= at && at + part.len() <= s.len() && s.subrange(at, at + part.len()) == part
}

/// `part` stands somewhere in `s`.
pub open spec fn has_part(s: Seq<char>, part: Seq<char>) -> bool {
    exists|at: int| occurs_at(s, part, at)
}

/// Whether the characters of `s` from `at` on begin with `part`.
pub fn matches_at(s: &Vec<char>, part: &Vec<char>, at: usize) -> (r: bool)
    requires
        at <= s.len(),
    ensures
        r == occurs_at(s@, part@, at as int),
{
    if part.len() > s.len() - at {
        return false;
    }
    let mut i: usize = 0;
    while i < part.len()
        invariant
            at + part.len() <= s.len(),
            i <= part.len(),
            forall|j: int| 0 <= j < i ==> part@[j] == s@[at + j],
        decreases part.len() - i,
    {
        if s[at + i] != part[i] {
            assert(s@.subrange(at as int, at + part@.len())[i as int] == s@[at + i]);
            return false;
        }
        i += 1;
    }
    assert(s@.subrange(at as int, at + part@.len()) =~= part@);
    true
}

/// Whether `part` stands somewhere in `s`.
pub fn contains_chars(s: &Vec<char>, part: &Vec<char>) -> (r: bool)
    ensures
        r == has_part(s@, part@),
{
    let mut at: usize = 0;
    loop
        invariant
            at <= s.len(),
            forall|k: int| 0 <= k < at ==> !occurs_at(s@, part@, k),
        decreases s.len() - at,
    {
        if matches_at(s, part, at) {
            return true;
        }
        if at >= s.len() {
            assert forall|k: int| !occurs_at(s@, part@, k) by {
                if k > at {
                    assert(!occurs_at(s@, part@, k));
                }
            }
            return false;
        }
        at += 1;
    }
}

/// Whether `part` stands somewhere in `s`.
pub fn contains_text(s: &str, part: &str) -> (r: bool)
    ensures
        r == has_part(s@, part@),
{
    contains_chars(&chars_of(s), &chars_of(part))
}

/// Whether `s` begins with `prefix`.
pub fn starts_with_chars(s: &Vec<char>, prefix: &Vec<char>) -> (r: bool)
    ensures
        r == has_prefix(s@, prefix@),
{
    assert(prefix@.len() <= s@.len() ==> s@.take(prefix@.len() as int) =~= s@.subrange(
        0,
        prefix@.len() as int,
    ));
    matches_at(s, prefix, 0)
}

/// The characters with the Unicode property `White_Space`.
pub open spec fn is_space(c: char) -> bool {
    let n = c as u32;
    ||| 0x9 <= n <= 0xD
    ||| n == 0x20
    ||| n == 0x85
    ||| n == 0xA0
    ||| n == 0x1680
    ||| 0x2000 <= n <= 0x200A
    ||| n == 0x2028
    ||| n == 0x2029
    ||| n == 0x202F
    ||| n == 0x205F
    ||| n == 0x3000
}

/// Whether `c` has the Unicode property `White_Space`.
pub fn space(c: char) -> (r: bool)
    ensures
        r == is_space(c),
{
    let n: u32 = c as u32;
    (0x9 <= n && n <= 0xD) || n == 0x20 || n == 0x85 || n == 0xA0 || n == 0x1680 || (0x2000 <= n
        && n <= 0x200A) || n == 0x2028 || n == 0x2029 || n == 0x202F || n == 0x205F || n == 0x3000
}

/// `s` without the whitespace at its start.
pub open spec fn trim_start(s: Seq<char>) -> Seq<char>
    decreases s.len(),
{
    if s.len() > 0 && is_space(s[0]) {
        trim_start(s.drop_first())
    } else {
        s
    }
}

/// `s` without the whitespace at its end.
pub open spec fn trim_end(s: Seq<char>) -> Seq<char>
    decreases s.len(),
{
    if s.len() > 0 && is_space(s.last()) {
        trim_end(s.drop_last())
    } else {
        s
    }
}

/// `s` without the whitespace at either end.
pub open spec fn trimmed(s: Seq<char>) -> Seq<char> {
    trim_end(trim_start(s))
}

/// Trimming at the start removes exactly the first `k` characters, when these
/// are whitespace and the one behind them is not.
proof fn lemma_trim_start_at(s: Seq<char>, k: int)
    requires
        0 <= k <= s.len(),
        forall|j: int| 0 <= j < k ==> is_space(s[j]),
        k < s.len() ==> !is_space(s[k]),
    ensures
        trim_start(s) == s.skip(k),
    decreases k,
{
    if k == 0 {
        assert(s.skip(0) =~= s);
    } else {
        assert(s.drop_first().skip(k - 1) =~= s.skip(k));
        lemma_trim_start_at(s.drop_first(), k - 1);
    }
}

/// Trimming at the end keeps exactly the first `k` characters, when the others
/// are whitespace and the last one that is kept is not.
proof fn lemma_trim_end_at(s: Seq<char>, k: int)
    requires
        0 <= k <= s.len(),
        forall|j: int| k <= j < s.len() ==> is_space(s[j]),
        k > 0 ==> !is_space(s[k - 1]),
    ensures
        trim_end(s) == s.take(k),
    decreases s.len() - k,
{
    if k == s.len() {
        assert(s.take(k) =~= s);
    } else {
        assert(s.drop_last().take(k) =~= s.take(k));
        lemma_trim_end_at(s.drop_last(), k);
    }
}

/// The characters of `s` without the whitespace at either end.
pub fn trim_chars(s: &str) -> (out: Vec<char>)
    ensures
        out@ == trimmed(s@),
{
    let chars: Vec<char> = chars_of(s);
    let mut start: usize = 0;
    while start < chars.len() && space(chars[start])
        invariant
            start <= chars.len(),
            forall|j: int| 0 <= j < start ==> is_space(chars@[j]),
        decreases chars.len() - start,
    {
        start += 1;
    }
    proof {
        lemma_trim_start_at(chars@, start as int);
    }
    let mut end: usize = chars.len();
    while end > start && space(chars[end - 1])
        invariant
            start <= end <= chars.len(),
            forall|j: int| end <= j < chars.len() ==> is_space(chars@[j]),
        decreases end,
    {
        end -= 1;
    }
    let mut out: Vec<char> = Vec::new();
    let mut i: usize = start;
    while i < end
        invariant
            start <= i <= end <= chars.len(),
            out@ == chars@.subrange(start as int, i as int),
        decreases end - i,
    {
        out.push(chars[i]);
        assert(chars@.subrange(start as int, i + 1) =~= chars@.subrange(
            start as int,
            i as int,
        ).push(chars@[i as int]));
        i += 1;
    }
    proof {
        lemma_trim_end_at(chars@.skip(start as int), end - start);
        assert(chars@.skip(start as int).take(end - start) =~= chars@.subrange(
            start as int,
            end as int,
        ));
    }
    out
}

/// Trimming that takes nothing away leaves the text as it is.
pub proof fn lemma_trimmed_of_same_length(s: Seq<char>)
    ensures
        trimmed(s).len() <= s.len(),
        trimmed(s).len() == s.len() ==> trimmed(s) == s,
{
    lemma_trim_start_len(s);
    lemma_trim_end_len(trim_start(s));
}

proof fn lemma_trim_start_len(s: Seq<char>)
    ensures
        trim_start(s).len() <= s.len(),
        trim_start(s).len() == s.len() ==> trim_start(s) == s,
    decreases s.len(),
{
    if s.len() > 0 && is_space(s[0]) {
        lemma_trim_start_len(s.drop_first());
    }
}

proof fn lemma_trim_end_len(s: Seq<char>)
    ensures
        trim_end(s).len() <= s.len(),
        trim_end(s).len() == s.len() ==> trim_end(s) == s,
    decreases s.len(),
{
    if s.len() > 0 && is_space(s.last()) {
        lemma_trim_end_len(s.drop_last());
    }
}

/// What std's `Debug` for `str` writes: the text in double quotes, with some
/// characters escaped.
pub uninterp spec fn debug_form(text: Seq<char>) -> Seq<char>;

/// The text as std's `Debug` for `str` writes it. Which characters are escaped is
/// not stated; the form depends on the text alone.
#[verifier::external_body]
pub(crate) fn debug_text(text: &str) -> (r: String)
    ensures
        r@ == debug_form(text@),
{
    format!("{text:?}")
}

/// An ASCII capital letter as its small one; every other character as it is.
pub open spec fn ascii_lower(c: char) -> char {
    if 'A' <= c && c <= 'Z' {
        ((c as u32) + 32) as char
    } else {
        c
    }
}

/// Equal when ASCII letters are compared without their case.
pub open spec fn same_ignoring_case(a: Seq<char>, b: Seq<char>) -> bool {
    a.len() == b.len() && forall|i: int| 0 <= i < a.len() ==> #[trigger] ascii_lower(a[i])
        == ascii_lower(b[i])
}

/// Whether two characters are equal up to ASCII case.
fn same_char_ignoring_case(a: char, b: char) -> (r: bool)
    ensures
        r == (ascii_lower(a) == ascii_lower(b)),
{
    let x: u32 = if 'A' <= a && a <= 'Z' {
        a as u32 + 32
    } else {
        a as u32
    };
    let y: u32 = if 'A' <= b && b <= 'Z' {
        b as u32 + 32
    } else {
        b as u32
    };
    x == y
}

/// Whether two character lists are equal up to ASCII case.
pub fn eq_ignoring_case(a: &Vec<char>, b: &Vec<char>) -> (r: bool)
    ensures
        r == same_ignoring_case(a@, b@),
{
    if a.len() != b.len() {
        return false;
    }
    let mut i: usize = 0;
    while i < a.len()
        invariant
            i <= a.len(),
            a.len() == b.len(),
            forall|j: int| 0 <= j < i ==> #[trigger] ascii_lower(a@[j]) == ascii_lower(b@[j]),
        decreases a.len() - i,
    {
        if !same_char_ignoring_case(a[i], b[i]) {
            assert(ascii_lower(a@[i as int]) != ascii_lower(b@[i as int]));
            return false;
        }
        i += 1;
    }
    true
}

/// One decimal digit as a character.
pub open spec fn digit_char(d: nat) -> char {
    if d == 0 { '0' } else if d == 1 { '1' } else if d == 2 { '2' } else if d == 3 { '3' } else if d
        == 4 { '4' } else if d == 5 { '5' } else if d == 6 { '6' } else if d == 7 { '7' } else if d
        == 8 { '8' } else { '9' }
}

/// `n` in decimal, without leading zeros.
pub open spec fn decimal(n: nat) -> Seq<char>
    decreases n,
{
    if n < 10 {
        seq![digit_char(n)]
    } else {
        decimal(n / 10).push(digit_char(n % 10))
    }
}

/// `n` in decimal.
pub fn decimal_text(n: u64) -> (out: String)
    ensures
        out@ == decimal(n as nat),
    decreases n,
{
    let d: u64 = n % 10;
    let c: char = match d {
        0 => '0',
        1 => '1',
        2 => '2',
        3 => '3',
        4 => '4',
        5 => '5',
        6 => '6',
        7 => '7',
        8 => '8',
        _ => '9',
    };
    let mut out: String = if n < 10 { String::new() } else { decimal_text(n / 10) };
    out.push(c);
    assert(n < 10 ==> out@ =~= seq![digit_char(n as nat)]);
    out
}

/// The value that a sequence of decimal digits stands for.
pub open spec fn decimal_value(s: Seq<char>) -> int
    decreases s.len(),
{
    if s.len() == 0 {
        0
    } else {
        decimal_value(s.drop_last()) * 10 + (s.last() as u32 - 48)
    }
}

/// Reading the decimal form of a number gives the number back.
pub proof fn lemma_decimal_value(n: nat)
    ensures
        decimal_value(decimal(n)) == n,
    decreases n,
{
    if n < 10 {
        assert(decimal(n).drop_last() =~= Seq::<char>::empty());
        reveal_with_fuel(decimal_value, 2);
    } else {
        lemma_decimal_value(n / 10);
        assert(decimal(n).drop_last() =~= decimal(n / 10));
    }
}

/// The pieces of `s` between the separators `sep`: one more than there are
/// separators.
pub open spec fn pieces(s: Seq<char>, sep: char) -> Seq<Seq<char>>
    decreases s.len(),
{
    if s.len() == 0 {
        seq![Seq::empty()]
    } else {
        let front = pieces(s.drop_last(), sep);
        if s.last() == sep {
            front.push(Seq::empty())
        } else {
            front.update(front.len() - 1, front.last().push(s.last()))
        }
    }
}

/// There is always a piece.
pub proof fn lemma_pieces_nonempty(s: Seq<char>, sep: char)
    ensures
        pieces(s, sep).len() > 0,
    decreases s.len(),
{
    if s.len() > 0 {
        lemma_pieces_nonempty(s.drop_last(), sep);
    }
}

/// The pieces of `s` between the separators `sep`.
pub fn split_text(s: &str, sep: char) -> (out: Vec<Vec<char>>)
    ensures
        out.deep_view() == pieces(s@, sep),
{
    let chars: Vec<char> = chars_of(s);
    let mut done: Vec<Vec<char>> = Vec::new();
    let mut last: Vec<char> = Vec::new();
    let mut i: usize = 0;
    let ghost all = s@;
    proof {
        assert(all.take(0) =~= Seq::empty());
        assert(last.deep_view() =~= Seq::empty());
        assert(done.deep_view().push(last.deep_view()) =~= pieces(all.take(0), sep));
    }
    while i < chars.len()
        invariant
            i <= chars.len(),
            chars@ == all,
            done.deep_view().push(last.deep_view()) == pieces(all.take(i as int), sep),
        decreases chars.len() - i,
    {
        let c: char = chars[i];
        let ghost front = done.deep_view().push(last.deep_view());
        let ghost d = done.deep_view();
        let ghost l = last.deep_view();
        assert(all.take(i + 1).drop_last() =~= all.take(i as int));
        if c == sep {
            done.push(last);
            last = Vec::new();
            assert(last.deep_view() =~= Seq::empty());
            assert(done.deep_view() =~= front);
        } else {
            last.push(c);
            assert(last.deep_view() =~= l.push(c));
            assert(done.deep_view().push(last.deep_view()) =~= front.update(
                front.len() - 1,
                front.last().push(c),
            ));
        }
        i += 1;
    }
    assert(all.take(all.len() as int) =~= all);
    let ghost d = done.deep_view();
    done.push(last);
    assert(done.deep_view() =~= d.push(last.deep_view()));
    done
}

/// The words of `s`: its longest runs without whitespace, in order, and what is
/// left at the end as a word that may still grow.
pub open spec fn words_and_rest(s: Seq<char>) -> (Seq<Seq<char>>, Seq<char>)
    decreases s.len(),
{
    if s.len() == 0 {
        (Seq::empty(), Seq::empty())
    } else {
        let (words, rest) = words_and_rest(s.drop_last());
        if !is_space(s.last()) {
            (words, rest.push(s.last()))
        } else if rest.len() > 0 {
            (words.push(rest), Seq::empty())
        } else {
            (words, Seq::empty())
        }
    }
}

/// The words of `s`, parted by whitespace.
pub open spec fn words(s: Seq<char>) -> Seq<Seq<char>> {
    let (words, rest) = words_and_rest(s);
    if rest.len() > 0 {
        words.push(rest)
    } else {
        words
    }
}

/// The words of `s`, parted by whitespace.
pub fn split_words(s: &str) -> (out: Vec<Vec<char>>)
    ensures
        out.deep_view() == words(s@),
{
    let chars: Vec<char> = chars_of(s);
    let mut out: Vec<Vec<char>> = Vec::new();
    let mut rest: Vec<char> = Vec::new();
    let mut i: usize = 0;
    let ghost all = s@;
    proof {
        assert(all.take(0) =~= Seq::empty());
        assert(rest.deep_view() =~= Seq::empty());
        assert(out.deep_view() =~= Seq::empty());
    }
    while i < chars.len()
        invariant
            i <= chars.len(),
            chars@ == all,
            (out.deep_view(), rest.deep_view()) == words_and_rest(all.take(i as int)),
        decreases chars.len() - i,
    {
        let c: char = chars[i];
        let ghost o = out.deep_view();
        let ghost r = rest.deep_view();
        assert(all.take(i + 1).drop_last() =~= all.take(i as int));
        if !space(c) {
            rest.push(c);
            assert(rest.deep_view() =~= r.push(c));
        } else if rest.len() > 0 {
            out.push(rest);
            assert(out.deep_view() =~= o.push(r));
            rest = Vec::new();
            assert(rest.deep_view() =~= Seq::empty());
        } else {
            assert(rest.deep_view() =~= Seq::empty());
        }
        i += 1;
    }
    assert(all.take(all.len() as int) =~= all);
    if rest.len() > 0 {
        let ghost o = out.deep_view();
        out.push(rest);
        assert(out.deep_view() =~= o.push(rest.deep_view()));
    }
    out
}

/// What std's `str::to_lowercase` gives.
pub uninterp spec fn lowercase(text: Seq<char>) -> Seq<char>;

/// The text in small letters, from `str::to_lowercase`. How each letter is
/// mapped is Unicode's matter and not stated; the result depends on the text
/// alone.
#[verifier::external_body]
pub(crate) fn lowercase_text(text: &str) -> (r: String)
    ensures
        r@ == lowercase(text@),
{
    text.to_lowercase()
}

/// Whether a list of strings holds `text`.
pub fn is_listed(texts: &Vec<String>, text: &str) -> (r: bool)
    ensures
        r == texts.deep_view().contains(text@),
{
    let mut i: usize = 0;
    while i < texts.len()
        invariant
            i <= texts.len(),
            forall|j: int| 0 <= j < i ==> texts.deep_view()[j] != text@,
        decreases texts.len() - i,
    {
        assert(texts.deep_view()[i as int] == texts@[i as int]@);
        if same_text(texts[i].as_str(), text) {
            return true;
        }
        i += 1;
    }
    false
}

/// Two strings one after the other.
pub fn joined(a: &str, b: &str) -> (out: String)
    ensures
        out@ == a@ + b@,
{
    let mut out: String = a.to_owned();
    out.append(b);
    out
}

/// A part stands in a text exactly where the text is something, the part, and
/// something more.
pub proof fn law_a_part_has_a_front_and_a_back(s: Seq<char>, part: Seq<char>)
    ensures
        has_part(s, part) <==> exists|front: Seq<char>, back: Seq<char>|
            #[trigger] (front + part + back) == s,
{
    if has_part(s, part) {
        let at = choose|at: int| occurs_at(s, part, at);
        let front = s.take(at);
        let back = s.skip(at + part.len());
        assert(front + part + back =~= s);
    }
    if exists|front: Seq<char>, back: Seq<char>| #[trigger] (front + part + back) == s {
        let (front, back) = choose|front: Seq<char>, back: Seq<char>|
            #[trigger] (front + part + back) == s;
        assert(s.subrange(front.len() as int, front.len() as int + part.len()) =~= part);
        assert(occurs_at(s, part, front.len() as int));
    }
}

/// A text begins with another exactly where that is its first part.
pub proof fn law_a_prefix_has_a_back(s: Seq<char>, prefix: Seq<char>)
    ensures
        has_prefix(s, prefix) <==> exists|back: Seq<char>| #[trigger] (prefix + back) == s,
{
    if has_prefix(s, prefix) {
        assert(prefix + s.skip(prefix.len() as int) =~= s);
    }
    if exists|back: Seq<char>| #[trigger] (prefix + back) == s {
        assert(s.take(prefix.len() as int) =~= prefix);
    }
}

/// The usual blanks and line ends are whitespace; nothing that is printed in ASCII is.
pub proof fn law_blanks_are_whitespace(c: char)
    ensures
        c == ' ' || c == '\t' || c == '\n' || c == '\r' ==> is_space(c),
        '!' <= c && c <= '~' ==> !is_space(c),
{
}

/// From `i` to `j` there is a word of `s`: no whitespace in it, and whitespace or an
/// end of the text on either side.
pub open spec fn word_at(s: Seq<char>, i: int, j: int) -> bool {
    &&& 0 <= i < j <= s.len()
    &&& forall|k: int| i <= k < j ==> !is_space(#[trigger] s[k])
    &&& i == 0 || is_space(s[i - 1])
    &&& j == s.len() || is_space(s[j])
}

/// What is left is the end of the text, back to the last whitespace.
proof fn lemma_rest(s: Seq<char>)
    ensures
        ({
            let rest = words_and_rest(s).1;
            let from = s.len() - rest.len();
            &&& 0 <= from
            &&& rest == s.skip(from)
            &&& forall|k: int| from <= k < s.len() ==> !is_space(#[trigger] s[k])
            &&& from == 0 || is_space(s[from - 1])
        }),
    decreases s.len(),
{
    let rest = words_and_rest(s).1;
    if s.len() == 0 {
        assert(rest =~= s.skip(0));
    } else {
        let t = s.drop_last();
        lemma_rest(t);
        let front = words_and_rest(t).1;
        let from = t.len() - front.len();
        if !is_space(s.last()) {
            assert(rest =~= s.skip(from));
            assert forall|k: int| from <= k < s.len() implies !is_space(#[trigger] s[k]) by {
                if k < t.len() {
                    assert(t[k] == s[k]);
                }
            }
            if from > 0 {
                assert(t[from - 1] == s[from - 1]);
            }
        } else {
            assert(rest =~= s.skip(s.len() as int));
        }
    }
}

/// The finished words are those that whitespace follows.
proof fn lemma_finished_words(s: Seq<char>, w: Seq<char>)
    ensures
        words_and_rest(s).0.contains(w) <==> exists|i: int, j: int|
            #[trigger] word_at(s, i, j) && j < s.len() && s.subrange(i, j) == w,
    decreases s.len(),
{
    let (ws, rest) = words_and_rest(s);
    if s.len() > 0 {
        let t = s.drop_last();
        let (front, open) = words_and_rest(t);
        let from = t.len() - open.len();
        lemma_rest(t);
        lemma_finished_words(t, w);
        if ws.contains(w) {
            if front.contains(w) {
                let (i, j) = choose|i: int, j: int|
                    #[trigger] word_at(t, i, j) && j < t.len() && t.subrange(i, j) == w;
                assert forall|k: int| i <= k < j implies !is_space(#[trigger] s[k]) by {
                    assert(t[k] == s[k]);
                }
                if i > 0 {
                    assert(t[i - 1] == s[i - 1]);
                }
                assert(t[j] == s[j]);
                assert(word_at(s, i, j));
                assert(s.subrange(i, j) =~= w);
            } else {
                vstd::seq_lib::lemma_seq_contains_after_push(front, open, w);
                assert(w == open);
                assert forall|k: int| from <= k < t.len() implies !is_space(#[trigger] s[k]) by {
                    assert(t[k] == s[k]);
                }
                if from > 0 {
                    assert(t[from - 1] == s[from - 1]);
                }
                assert(word_at(s, from, t.len() as int));
                assert(s.subrange(from, t.len() as int) =~= w);
            }
        }
        if exists|i: int, j: int|
            #[trigger] word_at(s, i, j) && j < s.len() && s.subrange(i, j) == w {
            let (i, j) = choose|i: int, j: int|
                #[trigger] word_at(s, i, j) && j < s.len() && s.subrange(i, j) == w;
            if i > 0 {
                assert(t[i - 1] == s[i - 1]);
            }
            assert forall|k: int| i <= k < j implies !is_space(#[trigger] t[k]) by {
                assert(t[k] == s[k]);
            }
            if j < t.len() {
                assert(t[j] == s[j]);
                assert(word_at(t, i, j));
                assert(t.subrange(i, j) =~= w);
                assert(front.contains(w));
                vstd::seq_lib::lemma_seq_contains_after_push(front, open, w);
            } else {
                assert(is_space(s.last()));
                if i < from {
                    assert(!is_space(t[from - 1]));
                } else if from < i {
                    assert(!is_space(t[i - 1]));
                }
                assert(w =~= open);
                vstd::seq_lib::lemma_seq_contains_after_push(front, open, w);
            }
        }
    } else {
        if exists|i: int, j: int|
            #[trigger] word_at(s, i, j) && j < s.len() && s.subrange(i, j) == w {
            assert(false);
        }
    }
}

/// The words of a text are its longest stretches without whitespace, all of them and
/// nothing else.
pub proof fn law_words_are_the_stretches_without_whitespace(s: Seq<char>, w: Seq<char>)
    ensures
        words(s).contains(w) <==> exists|i: int, j: int|
            #[trigger] word_at(s, i, j) && s.subrange(i, j) == w,
{
    let (ws, rest) = words_and_rest(s);
    let from = s.len() - rest.len();
    lemma_rest(s);
    lemma_finished_words(s, w);
    if rest.len() > 0 {
        vstd::seq_lib::lemma_seq_contains_after_push(ws, rest, w);
        assert(word_at(s, from, s.len() as int));
        assert(s.subrange(from, s.len() as int) =~= rest);
    }
    if exists|i: int, j: int| #[trigger] word_at(s, i, j) && s.subrange(i, j) == w {
        let (i, j) = choose|i: int, j: int| #[trigger] word_at(s, i, j) && s.subrange(i, j) == w;
        if j == s.len() {
            if i < from {
                assert(!is_space(s[from - 1]));
            } else if from < i {
                assert(!is_space(s[i - 1]));
            }
            assert(w =~= rest);
        }
    }
}

/// Trimming takes whitespace off both ends and nothing else: what is left stands in
/// the text, begins and ends with no whitespace, and there is only whitespace around
/// it.
pub proof fn law_trimming_takes_off_the_blank_ends(s: Seq<char>)
    ensures
        exists|from: int, to: int|
            0 <= from <= to <= s.len() && #[trigger] s.subrange(from, to) == trimmed(s) && (forall|
                k: int,
            |
                0 <= k < from || to <= k < s.len() ==> is_space(#[trigger] s[k])),
        trimmed(s).len() > 0 ==> !is_space(trimmed(s)[0]) && !is_space(trimmed(s).last()),
{
    lemma_trim_start_cuts(s);
    let front = trim_start(s);
    let from = s.len() - front.len();
    lemma_trim_end_cuts(front);
    let inner = trim_end(front);
    let to = from + inner.len();
    assert(s.subrange(from, to) =~= inner);
    assert forall|k: int| 0 <= k < from || to <= k < s.len() implies is_space(#[trigger] s[k]) by {
        if to <= k {
            assert(front[k - from] == s[k]);
        }
    }
}

/// What trimming at the start leaves is the end of the text.
proof fn lemma_trim_start_cuts(s: Seq<char>)
    ensures
        trim_start(s).len() <= s.len(),
        trim_start(s) == s.skip(s.len() - trim_start(s).len()),
        forall|k: int| 0 <= k < s.len() - trim_start(s).len() ==> is_space(#[trigger] s[k]),
        trim_start(s).len() > 0 ==> !is_space(trim_start(s)[0]),
    decreases s.len(),
{
    if s.len() > 0 && is_space(s[0]) {
        let t = s.drop_first();
        lemma_trim_start_cuts(t);
        assert(trim_start(s) =~= s.skip(s.len() - trim_start(s).len()));
        assert forall|k: int| 0 <= k < s.len() - trim_start(s).len() implies is_space(
            #[trigger] s[k],
        ) by {
            if k > 0 {
                assert(t[k - 1] == s[k]);
            }
        }
    } else {
        assert(s.skip(0) =~= s);
    }
}

/// What trimming at the end leaves is the start of the text.
proof fn lemma_trim_end_cuts(s: Seq<char>)
    ensures
        trim_end(s).len() <= s.len(),
        trim_end(s) == s.take(trim_end(s).len() as int),
        forall|k: int| trim_end(s).len() <= k < s.len() ==> is_space(#[trigger] s[k]),
        trim_end(s).len() > 0 ==> !is_space(trim_end(s).last()),
    decreases s.len(),
{
    if s.len() > 0 && is_space(s.last()) {
        let t = s.drop_last();
        lemma_trim_end_cuts(t);
        assert(trim_end(s) =~= s.take(trim_end(s).len() as int));
        assert forall|k: int| trim_end(s).len() <= k < s.len() implies is_space(
            #[trigger] s[k],
        ) by {
            if k < t.len() {
                assert(t[k] == s[k]);
            }
        }
    } else {
        assert(s.take(s.len() as int) =~= s);
    }
}

/// Texts are in the order of a dictionary: the first character in which they differ
/// decides, and a text comes before every longer one that it begins.
pub proof fn law_the_first_difference_decides(a: Seq<char>, b: Seq<char>, k: int)
    requires
        0 <= k <= a.len(),
        k < b.len(),
        a.take(k) == b.take(k),
    ensures
        k == a.len() ==> text_lt(a, b) && !text_lt(b, a),
        k < a.len() && a[k] < b[k] ==> text_lt(a, b) && !text_lt(b, a),
    decreases k,
{
    if k > 0 {
        assert(a.take(k)[0] == a[0]);
        assert(b.take(k)[0] == b[0]);
        assert(a.drop_first().take(k - 1) =~= a.take(k).drop_first());
        assert(b.drop_first().take(k - 1) =~= b.take(k).drop_first());
        law_the_first_difference_decides(a.drop_first(), b.drop_first(), k - 1);
    }
}

/// Splitting at a separator and putting one between each two pieces gives the text
/// back, and no piece holds a separator.
pub proof fn law_pieces_are_what_the_separators_part(s: Seq<char>, sep: char)
    ensures
        pieces(s, sep).len() > 0,
        rejoined(pieces(s, sep), sep) == s,
        forall|i: int| 0 <= i < pieces(s, sep).len() ==> !(#[trigger] pieces(s, sep)[i]).contains(
            sep,
        ),
    decreases s.len(),
{
    let ps = pieces(s, sep);
    lemma_pieces_nonempty(s, sep);
    if s.len() == 0 {
        assert(ps.drop_last() =~= Seq::empty());
        assert(rejoined(ps, sep) =~= s);
    } else {
        let t = s.drop_last();
        let front = pieces(t, sep);
        law_pieces_are_what_the_separators_part(t, sep);
        if s.last() == sep {
            assert(ps.drop_last() =~= front);
            assert(rejoined(ps, sep) =~= s);
            assert forall|i: int| 0 <= i < ps.len() implies !(#[trigger] ps[i]).contains(sep) by {
                if i < front.len() {
                    assert(ps[i] == front[i]);
                }
            }
        } else {
            let n = front.len() - 1;
            assert(ps.drop_last() =~= front.drop_last());
            assert(rejoined(ps, sep) =~= rejoined(front, sep).push(s.last()));
            assert forall|i: int| 0 <= i < ps.len() implies !(#[trigger] ps[i]).contains(sep) by {
                assert(!front[i].contains(sep));
                if i == n {
                    vstd::seq_lib::lemma_seq_contains_after_push(front[n], s.last(), sep);
                }
            }
        }
        assert(rejoined(ps, sep) =~= s);
    }
}

/// Some pieces with a separator between each two.
pub open spec fn rejoined(pieces: Seq<Seq<char>>, sep: char) -> Seq<char>
    decreases pieces.len(),
{
    if pieces.len() == 0 {
        Seq::empty()
    } else if pieces.len() == 1 {
        pieces[0]
    } else {
        rejoined(pieces.drop_last(), sep).push(sep) + pieces.last()
    }
}

/// An ASCII capital and its small letter are the only characters that case joins.
pub proof fn law_case_joins_a_capital_and_its_small_letter(a: char, b: char)
    ensures
        ascii_lower(a) == ascii_lower(b) <==> a == b || ('A' <= a && a <= 'Z' && b as int == a as int
            + 32) || ('A' <= b && b <= 'Z' && a as int == b as int + 32),
{
}

} // verus!
