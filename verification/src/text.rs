//! Verified text utilities: equality, prefix and substring tests, splitting
//! on the path separator, lexicographic comparison, and decimal rendering.

use vstd::prelude::*;

verus! {

/// Character-wise equality of two string slices.
pub fn str_eq(a: &str, b: &str) -> (r: bool)
    ensures
        r == (a@ == b@),
{
    let alen = a.unicode_len();
    let blen = b.unicode_len();
    if alen != blen {
        return false;
    }
    let mut i: usize = 0;
    while i < alen
        invariant
            0 <= i <= alen,
            alen == a@.len(),
            alen == b@.len(),
            forall|j: int| 0 <= j < i ==> a@[j] == b@[j],
        decreases alen - i,
    {
        if a.get_char(i) != b.get_char(i) {
            return false;
        }
        i += 1;
    }
    proof {
        assert(a@ =~= b@);
    }
    true
}

/// The two slices joined into one string.
pub fn concat_str(a: &str, b: &str) -> (r: String)
    ensures
        r@ == a@ + b@,
{
    let mut s = a.to_owned();
    s.append(b);
    s
}

/// Equality of optional strings, at the level of their views.
pub fn opt_str_eq(a: &Option<String>, b: &Option<String>) -> (r: bool)
    ensures
        r == (a.deep_view() == b.deep_view()),
{
    match (a, b) {
        (Some(x), Some(y)) => x.eq(y),
        (None, None) => true,
        _ => false,
    }
}

/// Element-wise equality of two string vectors.
pub fn str_vec_eq(a: &Vec<String>, b: &Vec<String>) -> (r: bool)
    ensures
        r == (a.deep_view() == b.deep_view()),
{
    if a.len() != b.len() {
        assert(a.deep_view().len() == a@.len());
        assert(b.deep_view().len() == b@.len());
        return false;
    }
    let mut i: usize = 0;
    while i < a.len()
        invariant
            0 <= i <= a.len(),
            a.len() == b.len(),
            a.deep_view().len() == a@.len(),
            b.deep_view().len() == b@.len(),
            forall|j: int| 0 <= j < i ==> a.deep_view()[j] == b.deep_view()[j],
        decreases a.len() - i,
    {
        assert(a.deep_view()[i as int] == a@[i as int]@);
        assert(b.deep_view()[i as int] == b@[i as int]@);
        if !a[i].eq(&b[i]) {
            return false;
        }
        i += 1;
    }
    proof {
        assert(a.deep_view() =~= b.deep_view());
    }
    true
}

/// Equality of optional string vectors, at the level of their views.
pub fn opt_str_vec_eq(a: &Option<Vec<String>>, b: &Option<Vec<String>>) -> (r: bool)
    ensures
        r == (a.deep_view() == b.deep_view()),
{
    match (a, b) {
        (Some(x), Some(y)) => str_vec_eq(x, y),
        (None, None) => true,
        _ => false,
    }
}

/// A fresh copy of an optional string.
pub fn clone_opt_str(a: &Option<String>) -> (r: Option<String>)
    ensures
        r.deep_view() == a.deep_view(),
{
    match a {
        Some(s) => Some(s.clone()),
        None => None,
    }
}

/// A fresh copy of a string vector.
pub fn clone_str_vec(a: &Vec<String>) -> (r: Vec<String>)
    ensures
        r.deep_view() == a.deep_view(),
{
    let mut r: Vec<String> = Vec::new();
    let mut i: usize = 0;
    while i < a.len()
        invariant
            0 <= i <= a.len(),
            r.deep_view().len() == i,
            forall|j: int| 0 <= j < i ==> r.deep_view()[j] == a.deep_view()[j],
        decreases a.len() - i,
    {
        r.push(a[i].clone());
        i += 1;
    }
    proof {
        assert(r.deep_view() =~= a.deep_view());
    }
    r
}

/// A fresh copy of an optional string vector.
pub fn clone_opt_str_vec(a: &Option<Vec<String>>) -> (r: Option<Vec<String>>)
    ensures
        r.deep_view() == a.deep_view(),
{
    match a {
        Some(v) => Some(clone_str_vec(v)),
        None => None,
    }
}

/// Splitting `s` on `/` from position `i` onward, with the parts found so far
/// and the piece of the current part read so far.
pub open spec fn split_slash_from(
    s: Seq<char>,
    i: int,
    parts: Seq<Seq<char>>,
    cur: Seq<char>,
) -> Seq<Seq<char>>
    decreases s.len() - i,
{
    if i < 0 || i >= s.len() {
        parts.push(cur)
    } else if s[i] == '/' {
        split_slash_from(s, i + 1, parts.push(cur), Seq::empty())
    } else {
        split_slash_from(s, i + 1, parts, cur.push(s[i]))
    }
}

/// The parts of `s` split on `/`; empty parts are kept, and a string without
/// a separator is one part.
pub open spec fn split_slash(s: Seq<char>) -> Seq<Seq<char>> {
    split_slash_from(s, 0, Seq::empty(), Seq::empty())
}

/// Splits `s` on the path separator.
pub fn split_on_slash(s: &str) -> (r: Vec<String>)
    ensures
        r.deep_view() == split_slash(s@),
{
    let n = s.unicode_len();
    let mut parts: Vec<String> = Vec::new();
    let mut start: usize = 0;
    let mut i: usize = 0;
    proof {
        assert(parts.deep_view() =~= Seq::<Seq<char>>::empty());
        assert(s@.subrange(0, 0) =~= Seq::<char>::empty());
    }
    while i < n
        invariant
            0 <= start <= i <= n,
            n == s@.len(),
            split_slash(s@) == split_slash_from(
                s@,
                i as int,
                parts.deep_view(),
                s@.subrange(start as int, i as int),
            ),
        decreases n - i,
    {
        if s.get_char(i) == '/' {
            let ghost pre = parts.deep_view();
            let token = s.substring_char(start, i).to_owned();
            parts.push(token);
            proof {
                assert(parts.deep_view() =~= pre.push(s@.subrange(start as int, i as int)));
            }
            start = i + 1;
            proof {
                assert(s@.subrange(start as int, start as int) =~= Seq::<char>::empty());
            }
        } else {
            proof {
                assert(s@.subrange(start as int, i + 1) =~= s@.subrange(start as int, i as int).push(
                    s@[i as int],
                ));
            }
        }
        i += 1;
    }
    let ghost pre = parts.deep_view();
    let token = s.substring_char(start, n).to_owned();
    parts.push(token);
    proof {
        assert(parts.deep_view() =~= pre.push(s@.subrange(start as int, n as int)));
    }
    parts
}

/// Whether `s` starts with `p`, character by character.
pub fn starts_with_prefix(s: &str, p: &str) -> (r: bool)
    ensures
        r == p@.is_prefix_of(s@),
{
    let plen = p.unicode_len();
    let slen = s.unicode_len();
    if plen > slen {
        return false;
    }
    let mut i: usize = 0;
    while i < plen
        invariant
            0 <= i <= plen,
            plen == p@.len(),
            slen == s@.len(),
            plen <= slen,
            forall|j: int| 0 <= j < i ==> p@[j] == s@[j],
        decreases plen - i,
    {
        if p.get_char(i) != s.get_char(i) {
            assert(!p@.is_prefix_of(s@)) by {
                assert(s@.subrange(0, p@.len() as int)[i as int] == s@[i as int]);
            }
            return false;
        }
        i += 1;
    }
    proof {
        assert(p@ =~= s@.subrange(0, p@.len() as int));
    }
    true
}

/// Whether the needle occurs in the haystack at position `i`.
fn match_at(haystack: &str, needle: &str, i: usize) -> (r: bool)
    requires
        i + needle@.len() <= haystack@.len(),
    ensures
        r == (needle@ == haystack@.subrange(i as int, i as int + needle@.len() as int)),
{
    let hl = haystack.unicode_len();
    let nl = needle.unicode_len();
    let mut j: usize = 0;
    while j < nl
        invariant
            0 <= j <= nl,
            nl == needle@.len(),
            hl == haystack@.len(),
            i + nl <= hl,
            forall|t: int| 0 <= t < j ==> needle@[t] == haystack@[i + t],
        decreases nl - j,
    {
        if needle.get_char(j) != haystack.get_char(i + j) {
            assert(needle@ != haystack@.subrange(i as int, i as int + needle@.len() as int)) by {
                assert(haystack@.subrange(i as int, i as int + needle@.len() as int)[j as int]
                    == haystack@[i + j]);
            }
            return false;
        }
        j += 1;
    }
    proof {
        assert(needle@ =~= haystack@.subrange(i as int, i as int + needle@.len() as int));
    }
    true
}

/// The needle occurs somewhere in the haystack.
pub open spec fn contains_seq(haystack: Seq<char>, needle: Seq<char>) -> bool {
    exists|i: int|
        0 <= i <= haystack.len() - needle.len() && needle == #[trigger] haystack.subrange(
            i,
            i + needle.len() as int,
        )
}

/// Whether `needle` occurs anywhere in `haystack`.
pub fn contains_substr(haystack: &str, needle: &str) -> (r: bool)
    ensures
        r == contains_seq(haystack@, needle@),
{
    let hl = haystack.unicode_len();
    let nl = needle.unicode_len();
    if nl > hl {
        return false;
    }
    if nl == 0 {
        proof {
            assert(needle@ == haystack@.subrange(0, 0 + needle@.len() as int)) by {
                assert(needle@ =~= haystack@.subrange(0, 0 + needle@.len() as int));
            }
            assert(contains_seq(haystack@, needle@));
        }
        return true;
    }
    let mut i: usize = 0;
    while i <= hl - nl
        invariant
            0 <= i <= hl - nl + 1,
            1 <= nl <= hl,
            hl == haystack@.len(),
            nl == needle@.len(),
            forall|k: int|
                0 <= k < i ==> needle@ != #[trigger] haystack@.subrange(
                    k,
                    k + needle@.len() as int,
                ),
        decreases hl - i,
    {
        if match_at(haystack, needle, i) {
            return true;
        }
        i += 1;
    }
    false
}

/// Lexicographic order on character sequences, read from position `i`.
pub open spec fn lex_le_from(a: Seq<char>, b: Seq<char>, i: int) -> bool
    decreases a.len() - i,
{
    if i < 0 || i >= a.len() {
        true
    } else if i >= b.len() {
        false
    } else if (a[i] as u32) == (b[i] as u32) {
        lex_le_from(a, b, i + 1)
    } else {
        (a[i] as u32) < (b[i] as u32)
    }
}

/// Lexicographic order on character sequences: `a` is a prefix of `b`, or the
/// first differing character of `a` is the smaller.
pub open spec fn lex_le(a: Seq<char>, b: Seq<char>) -> bool {
    lex_le_from(a, b, 0)
}

/// Whether `a` comes no later than `b` in lexicographic order.
pub fn str_le(a: &str, b: &str) -> (r: bool)
    ensures
        r == lex_le(a@, b@),
{
    let alen = a.unicode_len();
    let blen = b.unicode_len();
    let mut i: usize = 0;
    while i < alen && i < blen
        invariant
            0 <= i <= alen,
            i <= blen,
            alen == a@.len(),
            blen == b@.len(),
            lex_le(a@, b@) == lex_le_from(a@, b@, i as int),
        decreases alen - i,
    {
        let ca = a.get_char(i);
        let cb = b.get_char(i);
        if (ca as u32) != (cb as u32) {
            return (ca as u32) < (cb as u32);
        }
        i += 1;
    }
    i >= alen
}

/// Whether some element of the vector equals `s`.
pub fn str_vec_contains(v: &Vec<String>, s: &str) -> (r: bool)
    ensures
        r == v.deep_view().contains(s@),
{
    let mut i: usize = 0;
    while i < v.len()
        invariant
            0 <= i <= v.len(),
            v.deep_view().len() == v.len(),
            forall|j: int| 0 <= j < i ==> v.deep_view()[j] != s@,
        decreases v.len() - i,
    {
        proof {
            assert(v.deep_view()[i as int] == v@[i as int]@);
        }
        if str_eq(v[i].as_str(), s) {
            return true;
        }
        i += 1;
    }
    proof {
        assert(!v.deep_view().contains(s@));
    }
    false
}

/// The parts joined with `sep` between them; no separator leads or trails.
pub open spec fn spec_join(parts: Seq<Seq<char>>, sep: Seq<char>) -> Seq<char>
    decreases parts.len(),
{
    if parts.len() == 0 {
        Seq::empty()
    } else if parts.len() == 1 {
        parts[0]
    } else {
        spec_join(parts.drop_last(), sep) + sep + parts.last()
    }
}

/// Joins the parts with `sep` between them.
pub fn join_with(parts: &Vec<String>, sep: &str) -> (r: String)
    ensures
        r@ == spec_join(parts.deep_view(), sep@),
{
    let mut out = String::new();
    let mut i: usize = 0;
    proof {
        assert(out@ =~= spec_join(parts.deep_view().take(0), sep@));
    }
    while i < parts.len()
        invariant
            0 <= i <= parts.len(),
            parts.deep_view().len() == parts.len(),
            out@ == spec_join(parts.deep_view().take(i as int), sep@),
        decreases parts.len() - i,
    {
        let ghost pre = out@;
        proof {
            assert(parts.deep_view()[i as int] == parts@[i as int]@);
        }
        if i > 0 {
            out.append(sep);
        }
        out.append(parts[i].as_str());
        proof {
            let sub1 = parts.deep_view().take(i + 1);
            assert(sub1.drop_last() =~= parts.deep_view().take(i as int));
            assert(sub1.last() == parts.deep_view()[i as int]);
            if i == 0 {
                assert(out@ =~= sub1[0]);
            }
            assert(out@ == spec_join(sub1, sep@));
        }
        i += 1;
    }
    proof {
        assert(parts.deep_view().take(parts.deep_view().len() as int) =~= parts.deep_view());
    }
    out
}

/// The digit character for one decimal digit.
pub open spec fn dec_digit(d: int) -> char {
    if d == 0 {
        '0'
    } else if d == 1 {
        '1'
    } else if d == 2 {
        '2'
    } else if d == 3 {
        '3'
    } else if d == 4 {
        '4'
    } else if d == 5 {
        '5'
    } else if d == 6 {
        '6'
    } else if d == 7 {
        '7'
    } else if d == 8 {
        '8'
    } else {
        '9'
    }
}

/// The decimal rendering of a non-negative number, without leading zeroes.
pub open spec fn dec_str(n: int) -> Seq<char>
    decreases n,
{
    if n <= 9 {
        seq![dec_digit(n)]
    } else {
        dec_str(n / 10).push(dec_digit(n % 10))
    }
}

/// The one-character string for a decimal digit.
fn digit_str(d: u64) -> (r: &'static str)
    requires
        d < 10,
    ensures
        r@ == seq![dec_digit(d as int)],
{
    proof {
        reveal_strlit("0");
        reveal_strlit("1");
        reveal_strlit("2");
        reveal_strlit("3");
        reveal_strlit("4");
        reveal_strlit("5");
        reveal_strlit("6");
        reveal_strlit("7");
        reveal_strlit("8");
        reveal_strlit("9");
    }
    let r = match d {
        0 => "0",
        1 => "1",
        2 => "2",
        3 => "3",
        4 => "4",
        5 => "5",
        6 => "6",
        7 => "7",
        8 => "8",
        _ => "9",
    };
    proof {
        assert(r@ =~= seq![dec_digit(d as int)]);
    }
    r
}

/// Renders `n` in decimal.
pub fn u64_to_dec(n: u64) -> (r: String)
    ensures
        r@ == dec_str(n as int),
    decreases n,
{
    if n <= 9 {
        digit_str(n).to_owned()
    } else {
        let mut s = u64_to_dec(n / 10);
        s.append(digit_str(n % 10));
        proof {
            assert(s@ =~= dec_str(n as int / 10).push(dec_digit(n as int % 10)));
        }
        s
    }
}

} // verus!
