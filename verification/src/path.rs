//! When two paths name the same place, by their text alone.

use crate::text::{
    chars_of, law_pieces_are_what_the_separators_part, lemma_pieces_nonempty, pieces, rejoined,
    split_text, string_of,
};
use vstd::prelude::*;
use vstd::string::*;

verus! {

/// `std::path::is_separator`: whether a character divides a path on this platform. A
/// slash does on every platform; of any other character nothing is stated, as it
/// rests on the platform.
pub assume_specification[ std::path::is_separator ](c: char) -> (r: bool)
    ensures
        c == '/' ==> r,
;

/// How paths are written.
#[derive(Debug, Clone, Copy, PartialEq, Eq, Structural)]
pub enum PathStyle {
    /// A slash divides a path; a backslash is a character like any other.
    Unix,
    /// A slash and a backslash divide a path, and it may begin with a drive or with a
    /// server and its share.
    Windows,
}

impl PathStyle {
    /// The style of a platform, by whether a backslash divides paths there.
    pub fn by_backslash(divides: bool) -> (r: Self)
        ensures
            r == (if divides {
                PathStyle::Windows
            } else {
                PathStyle::Unix
            }),
    {
        if divides {
            PathStyle::Windows
        } else {
            PathStyle::Unix
        }
    }
}

/// Whether the `i`th piece between dividers is a component: empty pieces are not,
/// nor is a `.` anywhere but at the start, unless it is to be taken `literally`.
pub open spec fn is_component(piece: Seq<char>, i: int, literally: bool) -> bool {
    piece.len() > 0 && (i == 0 || literally || piece != seq!['.'])
}

/// The components among the first `n` pieces, one divider between each two.
pub open spec fn components_text(
    pieces: Seq<Seq<char>>,
    n: nat,
    divider: char,
    literally: bool,
) -> Seq<char>
    decreases n,
{
    if n == 0 {
        Seq::empty()
    } else {
        let front = components_text(pieces, (n - 1) as nat, divider, literally);
        let piece = pieces[n - 1];
        if !is_component(piece, n - 1, literally) {
            front
        } else if front.len() == 0 {
            piece
        } else {
            front.push(divider) + piece
        }
    }
}

/// A path that slashes divide, with repeated and trailing slashes and inner `.`
/// components removed.
pub open spec fn slash_form(path: Seq<char>) -> Seq<char> {
    let inner = components_text(pieces(path, '/'), pieces(path, '/').len(), '/', false);
    if path.len() > 0 && path[0] == '/' {
        seq!['/'] + inner
    } else {
        inner
    }
}

/// A path with a slash for each backslash.
pub open spec fn with_slashes(path: Seq<char>) -> Seq<char> {
    path.map_values(
        |c: char|
            if c == '\\' {
                '/'
            } else {
                c
            },
    )
}

/// The text begins with a drive, such as `C:`.
pub open spec fn has_drive(text: Seq<char>) -> bool {
    text.len() >= 2 && text[1] == ':' && ('a' <= text[0] && text[0] <= 'z' || 'A' <= text[0]
        && text[0] <= 'Z')
}

/// A text that begins with a drive, its letter as a capital.
pub open spec fn with_capital(text: Seq<char>) -> Seq<char> {
    if 'a' <= text[0] && text[0] <= 'z' {
        text.update(0, ((text[0] as u32) - 32) as char)
    } else {
        text
    }
}

/// The path begins with a server and a share, such as `//server/share`.
pub open spec fn has_share(path: Seq<char>) -> bool {
    let ps = pieces(path, '/');
    ps.len() >= 4 && ps[0].len() == 0 && ps[1].len() == 0 && ps[2].len() > 0 && ps[3].len() > 0
}

/// The length of a server and a share at the start of a path.
pub open spec fn share_len(path: Seq<char>) -> int {
    3int + pieces(path, '/')[2].len() + pieces(path, '/')[3].len()
}

/// The path is verbatim: it begins with `\\?\`.
pub open spec fn is_verbatim(path: Seq<char>) -> bool {
    path.len() >= 4 && path[0] == '\\' && path[1] == '\\' && path[2] == '?' && path[3] == '\\'
}

/// What follows the start of a verbatim path, its repeated and trailing backslashes
/// removed. Nothing else divides it, and a `.` in it is a name.
pub open spec fn verbatim_form(rest: Seq<char>) -> Seq<char> {
    let ps = pieces(rest, '\\');
    let first = if ps[0].len() == 2 && has_drive(ps[0]) {
        with_capital(ps[0])
    } else {
        ps[0]
    };
    if ps.len() == 1 {
        first
    } else {
        first.push('\\') + components_text(ps.skip(1), (ps.len() - 1) as nat, '\\', true)
    }
}

/// A path as Windows writes it, in the form that all ways to write it share.
pub open spec fn windows_form(path: Seq<char>) -> Seq<char> {
    let p = with_slashes(path);
    if is_verbatim(path) {
        path.take(4) + verbatim_form(path.skip(4))
    } else if has_drive(p) {
        with_capital(p).take(2) + slash_form(p.skip(2))
    } else if has_share(p) {
        p.take(share_len(p)) + slash_form(seq!['/'] + p.skip(share_len(p)))
    } else {
        slash_form(p)
    }
}

/// The normal form of a path: two paths with the same normal form name the same
/// place. Repeated and trailing dividers and inner `.` components make no difference;
/// where paths are written as on Windows, nor does which divider it is, nor the case
/// of a drive's letter.
pub open spec fn normal_path(style: PathStyle, path: Seq<char>) -> Seq<char> {
    match style {
        PathStyle::Unix => slash_form(path),
        PathStyle::Windows => windows_form(path),
    }
}

/// Appends all of `from` to `to`.
fn append_chars(to: &mut Vec<char>, from: &Vec<char>)
    ensures
        final(to)@ == old(to)@ + from@,
{
    let ghost start = to@;
    let mut i: usize = 0;
    assert(to@ =~= start + from@.take(0));
    while i < from.len()
        invariant
            i <= from.len(),
            to@ == start + from@.take(i as int),
        decreases from.len() - i,
    {
        to.push(from[i]);
        i += 1;
        assert(to@ =~= start + from@.take(i as int));
    }
    assert(from@.take(from@.len() as int) =~= from@);
}

/// The components among the pieces from `from` on, one divider between each two.
fn components_from(parts: &Vec<Vec<char>>, from: usize, divider: char, literally: bool) -> (r: Vec<
    char,
>)
    requires
        from <= parts@.len(),
    ensures
        r@ == components_text(
            parts.deep_view().skip(from as int),
            (parts@.len() - from) as nat,
            divider,
            literally,
        ),
{
    let ghost ps = parts.deep_view().skip(from as int);
    let mut inner: Vec<char> = Vec::new();
    let mut i: usize = from;
    while i < parts.len()
        invariant
            from <= i <= parts.len(),
            ps == parts.deep_view().skip(from as int),
            inner@ == components_text(ps, (i - from) as nat, divider, literally),
        decreases parts.len() - i,
    {
        let ghost piece = ps[i - from];
        assert(piece == parts@[i as int].deep_view());
        assert(piece =~= parts@[i as int]@);
        let dot: bool = parts[i].len() == 1 && parts[i][0] == '.';
        assert(dot == (piece =~= seq!['.']));
        if parts[i].len() > 0 && (i == from || literally || !dot) {
            if inner.len() > 0 {
                inner.push(divider);
            }
            let ghost before = inner@;
            append_chars(&mut inner, &parts[i]);
            assert(before.len() == 0 ==> inner@ =~= piece);
        }
        i += 1;
    }
    inner
}

/// The characters from `from` on.
fn chars_from(chars: &Vec<char>, from: usize) -> (r: Vec<char>)
    requires
        from <= chars@.len(),
    ensures
        r@ == chars@.skip(from as int),
{
    let mut r: Vec<char> = Vec::new();
    let mut i: usize = from;
    while i < chars.len()
        invariant
            from <= i <= chars.len(),
            r@ == chars@.subrange(from as int, i as int),
        decreases chars.len() - i,
    {
        r.push(chars[i]);
        i += 1;
        assert(r@ =~= chars@.subrange(from as int, i as int));
    }
    assert(r@ =~= chars@.skip(from as int));
    r
}

/// The form of a path that slashes divide.
fn slashed(path: &Vec<char>) -> (r: Vec<char>)
    ensures
        r@ == slash_form(path@),
{
    let parts: Vec<Vec<char>> = split_text(string_of(path).as_str(), '/');
    assert(parts.deep_view().skip(0) =~= parts.deep_view());
    let inner: Vec<char> = components_from(&parts, 0, '/', false);
    let mut r: Vec<char> = Vec::new();
    if path.len() > 0 && path[0] == '/' {
        r.push('/');
    }
    append_chars(&mut r, &inner);
    assert(r@ =~= slash_form(path@));
    r
}

/// Whether a text begins with a drive.
fn drive_first(text: &Vec<char>) -> (r: bool)
    ensures
        r == has_drive(text@),
{
    text.len() >= 2 && text[1] == ':' && ('a' <= text[0] && text[0] <= 'z' || 'A' <= text[0]
        && text[0] <= 'Z')
}

/// The letter of a drive as a capital.
fn capital(c: char) -> (r: char)
    ensures
        r == (if 'a' <= c && c <= 'z' {
            ((c as u32) - 32) as char
        } else {
            c
        }),
{
    if 'a' <= c && c <= 'z' {
        (c as u8 - 32) as char
    } else {
        c
    }
}

/// The form of what follows the start of a verbatim path.
fn verbatim(rest: &Vec<char>) -> (r: Vec<char>)
    ensures
        r@ == verbatim_form(rest@),
{
    let parts: Vec<Vec<char>> = split_text(string_of(rest).as_str(), '\\');
    let ghost ps = pieces(rest@, '\\');
    proof {
        lemma_pieces_nonempty(rest@, '\\');
    }
    assert(ps[0] == parts@[0].deep_view());
    assert(ps[0] =~= parts@[0]@);
    let mut r: Vec<char> = Vec::new();
    append_chars(&mut r, &parts[0]);
    assert(r@ =~= ps[0]);
    if r.len() == 2 && drive_first(&r) {
        let letter: char = capital(r[0]);
        r.set(0, letter);
        assert(r@ =~= with_capital(ps[0]));
    }
    if parts.len() > 1 {
        r.push('\\');
        append_chars(&mut r, &components_from(&parts, 1, '\\', true));
    }
    assert(r@ =~= verbatim_form(rest@));
    r
}

/// A path with a slash for each backslash.
fn slashes(path: &Vec<char>) -> (r: Vec<char>)
    ensures
        r@ == with_slashes(path@),
{
    let mut r: Vec<char> = Vec::new();
    let mut i: usize = 0;
    while i < path.len()
        invariant
            i <= path.len(),
            r@ == with_slashes(path@).take(i as int),
        decreases path.len() - i,
    {
        r.push(
            if path[i] == '\\' {
                '/'
            } else {
                path[i]
            },
        );
        i += 1;
        assert(r@ =~= with_slashes(path@).take(i as int));
    }
    assert(r@ =~= with_slashes(path@));
    r
}

/// The form of a path as Windows writes it.
fn windows(path: &Vec<char>) -> (r: Vec<char>)
    ensures
        r@ == windows_form(path@),
{
    let mut r: Vec<char> = Vec::new();
    if path.len() >= 4 && path[0] == '\\' && path[1] == '\\' && path[2] == '?' && path[3] == '\\' {
        r.push('\\');
        r.push('\\');
        r.push('?');
        r.push('\\');
        assert(r@ =~= path@.take(4));
        append_chars(&mut r, &verbatim(&chars_from(path, 4)));
        return r;
    }
    let p: Vec<char> = slashes(path);
    if drive_first(&p) {
        r.push(capital(p[0]));
        r.push(p[1]);
        assert(r@ =~= with_capital(p@).take(2));
        append_chars(&mut r, &slashed(&chars_from(&p, 2)));
        return r;
    }
    let parts: Vec<Vec<char>> = split_text(string_of(&p).as_str(), '/');
    let ghost ps = pieces(p@, '/');
    assert forall|i: int| 0 <= i < ps.len() implies #[trigger] ps[i] == parts@[i]@ by {
        assert(ps[i] == parts@[i].deep_view());
        assert(ps[i] =~= parts@[i]@);
    }
    if parts.len() >= 4 && parts[0].len() == 0 && parts[1].len() == 0 && parts[2].len() > 0
        && parts[3].len() > 0 {
        proof {
            lemma_pieces_fit(p@, '/', 4);
        }
        let n: usize = 3 + parts[2].len() + parts[3].len();
        let mut rest: Vec<char> = Vec::new();
        rest.push('/');
        append_chars(&mut rest, &chars_from(&p, n));
        assert(rest@ =~= seq!['/'] + p@.skip(n as int));
        let mut i: usize = 0;
        while i < n
            invariant
                i <= n <= p@.len(),
                r@ == p@.take(i as int),
            decreases n - i,
        {
            r.push(p[i]);
            i += 1;
            assert(r@ =~= p@.take(i as int));
        }
        append_chars(&mut r, &slashed(&rest));
        return r;
    }
    slashed(&p)
}

/// The normal form of a path.
pub fn normalized(style: PathStyle, path: &str) -> (r: String)
    ensures
        r@ == normal_path(style, path@),
{
    let chars: Vec<char> = chars_of(path);
    match style {
        PathStyle::Unix => string_of(&slashed(&chars)),
        PathStyle::Windows => string_of(&windows(&chars)),
    }
}

/// The length of the first `n` pieces and the separators between them.
spec fn pieces_len(ps: Seq<Seq<char>>, n: int) -> int
    decreases n,
{
    if n <= 0 {
        0
    } else {
        pieces_len(ps, n - 1) + ps[n - 1].len() + (if n == 1 {
            0int
        } else {
            1
        })
    }
}

/// The first pieces of a text fit into it.
proof fn lemma_pieces_fit(s: Seq<char>, sep: char, n: int)
    requires
        0 <= n <= pieces(s, sep).len(),
    ensures
        pieces_len(pieces(s, sep), n) <= s.len(),
        n == 4 ==> pieces_len(pieces(s, sep), n) == 3 + pieces(s, sep)[0].len() + pieces(
            s,
            sep,
        )[1].len() + pieces(s, sep)[2].len() + pieces(s, sep)[3].len(),
{
    let ps = pieces(s, sep);
    lemma_pieces_len(s, sep);
    lemma_pieces_len_grows(ps, n, ps.len() as int);
    reveal_with_fuel(pieces_len, 5);
}

/// More pieces are longer.
proof fn lemma_pieces_len_grows(ps: Seq<Seq<char>>, n: int, m: int)
    requires
        0 <= n <= m,
    ensures
        pieces_len(ps, n) <= pieces_len(ps, m),
    decreases m,
{
    if n < m {
        lemma_pieces_len_grows(ps, n, m - 1);
    }
}

/// The first pieces' length does not depend on later ones.
proof fn lemma_pieces_len_prefix(a: Seq<Seq<char>>, b: Seq<Seq<char>>, n: int)
    requires
        0 <= n,
        forall|i: int| 0 <= i < n ==> #[trigger] a[i] == b[i],
    ensures
        pieces_len(a, n) == pieces_len(b, n),
    decreases n,
{
    if n > 0 {
        lemma_pieces_len_prefix(a, b, n - 1);
        assert(a[n - 1] == b[n - 1]);
    }
}

/// The pieces and the separators between them are the whole text.
proof fn lemma_pieces_len(s: Seq<char>, sep: char)
    ensures
        pieces_len(pieces(s, sep), pieces(s, sep).len() as int) == s.len(),
    decreases s.len(),
{
    let ps = pieces(s, sep);
    lemma_pieces_nonempty(s, sep);
    if s.len() == 0 {
        reveal_with_fuel(pieces_len, 2);
    } else {
        let front = pieces(s.drop_last(), sep);
        lemma_pieces_nonempty(s.drop_last(), sep);
        lemma_pieces_len(s.drop_last(), sep);
        if s.last() == sep {
            lemma_pieces_len_prefix(front, ps, front.len() as int);
        } else {
            lemma_pieces_len_prefix(front, ps, front.len() - 1);
        }
    }
}

/// A slash at the end of a path changes nothing.
pub proof fn lemma_trailing_slash(path: Seq<char>)
    requires
        path.len() > 0,
    ensures
        slash_form(path.push('/')) == slash_form(path),
{
    let a = pieces(path, '/');
    let b = pieces(path.push('/'), '/');
    assert(path.push('/').drop_last() =~= path);
    assert(b == a.push(Seq::empty()));
    lemma_components_prefix(a, b, a.len());
    assert(path.push('/')[0] == path[0]);
}

/// The components of the first pieces do not depend on later ones.
proof fn lemma_components_prefix(a: Seq<Seq<char>>, b: Seq<Seq<char>>, n: nat)
    requires
        n <= a.len(),
        n <= b.len(),
        forall|i: int| 0 <= i < n ==> a[i] == b[i],
    ensures
        components_text(a, n, '/', false) == components_text(b, n, '/', false),
    decreases n,
{
    if n > 0 {
        lemma_components_prefix(a, b, (n - 1) as nat);
    }
}

/// The names among the first `n` pieces: all that are not empty, and of the dots only one
/// at the very start.
pub open spec fn names_among(pieces: Seq<Seq<char>>, n: nat) -> Seq<Seq<char>>
    decreases n,
{
    if n == 0 {
        Seq::empty()
    } else {
        let front = names_among(pieces, (n - 1) as nat);
        let piece = pieces[n - 1];
        if piece.len() == 0 || (n > 1 && piece.len() == 1 && piece[0] == '.') {
            front
        } else {
            front.push(piece)
        }
    }
}

/// The names that slashes part a path into.
pub open spec fn names(path: Seq<char>) -> Seq<Seq<char>> {
    names_among(pieces(path, '/'), pieces(path, '/').len())
}

/// Every name has characters, and no slash among them.
spec fn are_names(s: Seq<Seq<char>>) -> bool {
    forall|i: int| 0 <= i < s.len() ==> (#[trigger] s[i]).len() > 0 && !s[i].contains('/')
}

/// Names joined by slashes begin with no slash and are as long as that takes.
proof fn lemma_joined_names(s: Seq<Seq<char>>)
    requires
        are_names(s),
    ensures
        s.len() > 0 ==> rejoined(s, '/').len() > 0 && rejoined(s, '/')[0] != '/',
        s.len() == 0 ==> rejoined(s, '/').len() == 0,
    decreases s.len(),
{
    if s.len() == 1 {
        assert(s[0].contains(s[0][0]));
    } else if s.len() > 1 {
        let t = s.drop_last();
        assert forall|i: int| 0 <= i < t.len() implies (#[trigger] t[i]).len() > 0
            && !t[i].contains('/') by {
            assert(t[i] == s[i]);
        }
        lemma_joined_names(t);
        assert(rejoined(s, '/')[0] == rejoined(t, '/')[0]);
    }
}

/// Different names make different texts.
proof fn lemma_joined_names_differ(s: Seq<Seq<char>>, t: Seq<Seq<char>>)
    requires
        are_names(s),
        are_names(t),
        rejoined(s, '/') == rejoined(t, '/'),
    ensures
        s == t,
    decreases s.len(),
{
    lemma_joined_names(s);
    lemma_joined_names(t);
    if s.len() == 0 {
        assert(s =~= t);
    } else {
        let (x, y) = (s.last(), t.last());
        let (a, b) = (s.drop_last(), t.drop_last());
        assert(x == s[s.len() - 1] && y == t[t.len() - 1]);
        assert forall|i: int| 0 <= i < a.len() implies (#[trigger] a[i]).len() > 0
            && !a[i].contains('/') by {
            assert(a[i] == s[i]);
        }
        assert forall|i: int| 0 <= i < b.len() implies (#[trigger] b[i]).len() > 0
            && !b[i].contains('/') by {
            assert(b[i] == t[i]);
        }
        let whole = rejoined(s, '/');
        if s.len() == 1 && t.len() > 1 {
            assert(whole == rejoined(b, '/').push('/') + y);
            assert(whole[rejoined(b, '/').len() as int] == '/');
            assert(x.contains('/'));
        } else if t.len() == 1 && s.len() > 1 {
            assert(whole == rejoined(a, '/').push('/') + x);
            assert(whole[rejoined(a, '/').len() as int] == '/');
            assert(y.contains('/'));
        } else if s.len() == 1 {
            assert(s =~= t);
        } else {
            let (p, q) = (rejoined(a, '/'), rejoined(b, '/'));
            assert(whole == p.push('/') + x && whole == q.push('/') + y);
            if p.len() < q.len() {
                assert(whole[q.len() as int] == '/');
                assert(x[q.len() - p.len() - 1] == '/');
                assert(x.contains('/'));
            } else if q.len() < p.len() {
                assert(whole[p.len() as int] == '/');
                assert(y[p.len() - q.len() - 1] == '/');
                assert(y.contains('/'));
            }
            assert(p =~= whole.take(p.len() as int));
            assert(q =~= whole.take(q.len() as int));
            assert(x =~= whole.skip(p.len() as int + 1));
            assert(y =~= whole.skip(q.len() as int + 1));
            lemma_joined_names_differ(a, b);
            assert(s =~= a.push(x));
            assert(t =~= b.push(y));
        }
    }
}

/// The components of a path are its names, joined by slashes.
proof fn lemma_components_are_names(ps: Seq<Seq<char>>, n: nat)
    requires
        n <= ps.len(),
        forall|i: int| 0 <= i < ps.len() ==> !(#[trigger] ps[i]).contains('/'),
    ensures
        are_names(names_among(ps, n)),
        components_text(ps, n, '/', false) == rejoined(names_among(ps, n), '/'),
    decreases n,
{
    if n > 0 {
        let m = (n - 1) as nat;
        let front = names_among(ps, m);
        let piece = ps[n - 1];
        lemma_components_are_names(ps, m);
        lemma_joined_names(front);
        assert((piece =~= seq!['.']) == (piece.len() == 1 && piece[0] == '.'));
        if is_component(piece, n - 1, false) {
            let all = front.push(piece);
            assert(names_among(ps, n) == all);
            assert forall|i: int| 0 <= i < all.len() implies (#[trigger] all[i]).len() > 0
                && !all[i].contains('/') by {
                if i < front.len() {
                    assert(all[i] == front[i]);
                }
            }
            assert(all.drop_last() =~= front);
        }
    }
}

/// Where only slashes divide, two paths are the same place exactly where both begin at
/// the root or neither does, and the names on them are the same, one by one: repeated and
/// trailing slashes and the dots between them make no difference, and nothing else is
/// passed over.
pub proof fn law_paths_are_their_names(a: Seq<char>, b: Seq<char>)
    ensures
        normal_path(PathStyle::Unix, a) == normal_path(PathStyle::Unix, b) <==> {
            &&& (a.len() > 0 && a[0] == '/') <==> (b.len() > 0 && b[0] == '/')
            &&& names(a) == names(b)
        },
{
    law_pieces_are_what_the_separators_part(a, '/');
    law_pieces_are_what_the_separators_part(b, '/');
    lemma_components_are_names(pieces(a, '/'), pieces(a, '/').len());
    lemma_components_are_names(pieces(b, '/'), pieces(b, '/').len());
    lemma_joined_names(names(a));
    lemma_joined_names(names(b));
    let (x, y) = (rejoined(names(a), '/'), rejoined(names(b), '/'));
    let (p, q) = (slash_form(a), slash_form(b));
    if p == q {
        let root = a.len() > 0 && a[0] == '/';
        let other = b.len() > 0 && b[0] == '/';
        if root {
            assert(p[0] == '/');
        }
        if other {
            assert(q[0] == '/');
        }
        assert(root == other);
        if root {
            assert(x =~= p.skip(1));
            assert(y =~= q.skip(1));
        }
        lemma_joined_names_differ(names(a), names(b));
    }
}

/// Where paths are written as on Windows, a drive has no case: the letter may be a capital
/// or a small one.
pub proof fn law_drives_have_no_case(path: Seq<char>, capital: Seq<char>)
    requires
        path.len() >= 2,
        path[1] == ':',
        'a' <= path[0] && path[0] <= 'z',
        capital == path.update(0, ((path[0] as u32) - 32) as char),
    ensures
        normal_path(PathStyle::Windows, path) == normal_path(PathStyle::Windows, capital),
{
    let (p, q) = (with_slashes(path), with_slashes(capital));
    let c = ((path[0] as u32) - 32) as char;
    assert('A' <= c && c <= 'Z');
    assert(p[0] == path[0] && q[0] == c && p[1] == ':' && q[1] == ':');
    assert(p.skip(2) =~= q.skip(2));
    assert(with_capital(p).take(2) =~= with_capital(q).take(2));
}

/// Where paths are written as on Windows, a path without a drive, a server or the mark of
/// a verbatim path is what it is with slashes; different drives are different places.
pub proof fn law_a_plain_windows_path_is_its_slashed_form(path: Seq<char>)
    requires
        !is_verbatim(path),
        !has_drive(with_slashes(path)),
        !has_share(with_slashes(path)),
    ensures
        normal_path(PathStyle::Windows, path) == normal_path(PathStyle::Unix, with_slashes(path)),
{
}

} // verus!
