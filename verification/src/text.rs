//! Character-sequence specifications and the executable helpers that
//! realise them: trimming, splitting, searching and building strings.

use vstd::prelude::*;
use vstd::utf8::encode_utf8;

verus! {

/// Unicode `White_Space` property, as used by `str::trim`.
pub open spec fn is_ws(c: char) -> bool {
    let u = c as u32;
    ||| 0x9 <= u <= 0xd
    ||| u == 0x20
    ||| u == 0x85
    ||| u == 0xa0
    ||| u == 0x1680
    ||| 0x2000 <= u <= 0x200a
    ||| u == 0x2028
    ||| u == 0x2029
    ||| u == 0x202f
    ||| u == 0x205f
    ||| u == 0x3000
}

/// The characters removed by a trim: whitespace, or double quotes.
pub open spec fn is_trimmed(c: char, quotes: bool) -> bool {
    if quotes {
        c == '"'
    } else {
        is_ws(c)
    }
}

/// First index at or after `i` that is not trimmed.
pub open spec fn front_from(s: Seq<char>, i: int, quotes: bool) -> int
    decreases s.len() - i,
{
    if 0 <= i < s.len() && is_trimmed(s[i], quotes) {
        front_from(s, i + 1, quotes)
    } else {
        i
    }
}

/// Walking back from `j` (not below `lo`), the end of the untrimmed part.
pub open spec fn back_to(s: Seq<char>, lo: int, j: int, quotes: bool) -> int
    decreases j - lo,
{
    if lo < j && is_trimmed(s[j - 1], quotes) {
        back_to(s, lo, j - 1, quotes)
    } else {
        j
    }
}

/// `s` with every leading and trailing trimmed character removed.
pub open spec fn trim_by(s: Seq<char>, quotes: bool) -> Seq<char> {
    let a = front_from(s, 0, quotes);
    s.subrange(a, back_to(s, a, s.len() as int, quotes))
}

/// `str::trim`: leading and trailing whitespace removed.
pub open spec fn trim(s: Seq<char>) -> Seq<char> {
    trim_by(s, false)
}

/// `str::trim_matches('"')`: leading and trailing double quotes removed.
pub open spec fn trim_quotes(s: Seq<char>) -> Seq<char> {
    trim_by(s, true)
}

/// Pieces of `s[start..]` cut at every `sep`, scanning from `i`.
pub open spec fn split_from(s: Seq<char>, sep: char, start: int, i: int) -> Seq<Seq<char>>
    decreases s.len() - i,
{
    if i >= s.len() {
        seq![s.subrange(start, s.len() as int)]
    } else if s[i] == sep {
        seq![s.subrange(start, i)] + split_from(s, sep, i + 1, i + 1)
    } else {
        split_from(s, sep, start, i + 1)
    }
}

/// `str::split(sep)`: the pieces between separators (always at least one).
pub open spec fn split(s: Seq<char>, sep: char) -> Seq<Seq<char>> {
    split_from(s, sep, 0, 0)
}

/// `p` is a prefix of `s`.
pub open spec fn starts_with(s: Seq<char>, p: Seq<char>) -> bool {
    p.len() <= s.len() && s.subrange(0, p.len() as int) == p
}

/// `p` occurs in `s` at index `i`.
pub open spec fn occurs_at(s: Seq<char>, p: Seq<char>, i: int) -> bool {
    0 <= i && i + p.len() <= s.len() && s.subrange(i, i + p.len()) == p
}

/// `p` occurs somewhere in `s`.
pub open spec fn contains_seq(s: Seq<char>, p: Seq<char>) -> bool {
    exists|i: int| occurs_at(s, p, i)
}

/// Index of the last `c` in `s[..j]`.
pub open spec fn last_index_before(s: Seq<char>, c: char, j: int) -> Option<int>
    decreases j,
{
    if j <= 0 {
        None
    } else if s[j - 1] == c {
        Some(j - 1)
    } else {
        last_index_before(s, c, j - 1)
    }
}

/// `str::rfind(c)` counted in characters.
pub open spec fn rfind(s: Seq<char>, c: char) -> Option<int> {
    last_index_before(s, c, s.len() as int)
}

/// Every `from` in `s` replaced by the character `to`.
pub open spec fn replace_char(s: Seq<char>, from: char, to: char) -> Seq<char> {
    s.map_values(|x: char| if x == from { to } else { x })
}

/// Every `from` in `s` replaced by the sequence `to`.
pub open spec fn replace_char_by_seq(s: Seq<char>, from: char, to: Seq<char>) -> Seq<char>
    decreases s.len(),
{
    if s.len() == 0 {
        Seq::empty()
    } else {
        replace_char_by_seq(s.drop_last(), from, to) + (if s.last() == from {
            to
        } else {
            seq![s.last()]
        })
    }
}

/// ASCII case folding of one character, as a code point.
pub open spec fn ascii_fold(c: char) -> u32 {
    if 0x41 <= (c as u32) <= 0x5a {
        (c as u32 + 0x20) as u32
    } else {
        c as u32
    }
}

/// `str::eq_ignore_ascii_case`.
pub open spec fn eq_ignore_ascii_case(a: Seq<char>, b: Seq<char>) -> bool {
    a.len() == b.len() && forall|i: int| 0 <= i < a.len() ==> ascii_fold(a[i]) == ascii_fold(b[i])
}

/// The sequences of `v` joined with `sep` between neighbours.
pub open spec fn join(v: Seq<Seq<char>>, sep: Seq<char>) -> Seq<char>
    decreases v.len(),
{
    if v.len() == 0 {
        Seq::empty()
    } else if v.len() == 1 {
        v[0]
    } else {
        join(v.drop_last(), sep) + sep + v.last()
    }
}

/// The views of a vector of strings.
pub open spec fn views(v: Seq<String>) -> Seq<Seq<char>> {
    v.map_values(|s: String| s@)
}

/// The views of a vector of character vectors.
pub open spec fn char_views(v: Seq<Vec<char>>) -> Seq<Seq<char>> {
    v.map_values(|s: Vec<char>| s@)
}

/// The characters of `s`.
pub fn str_chars(s: &str) -> (r: Vec<char>)
    ensures
        r@ == s@,
{
    broadcast use vstd::string::group_string_axioms;

    let mut r: Vec<char> = Vec::new();
    for c in it: s.chars()
        invariant
            it.seq() == s@,
            r@ == it.seq().take(it.index()),
    {
        assert(it.seq().take(it.index() + 1) =~= r@.push(c));
        r.push(c);
    }
    assert(s@.take(s@.len() as int) =~= s@);
    r
}

/// `String::push`.
#[verifier::external_body]
pub fn push_char(s: &mut String, c: char)
    ensures
        final(s)@ == old(s)@.push(c),
{
    s.push(c)
}

/// A string made of the characters of `v`.
pub fn string_from_chars(v: &[char]) -> (r: String)
    ensures
        r@ == v@,
{
    let mut r = String::new();
    let mut i: usize = 0;
    while i < v.len()
        invariant
            i <= v@.len(),
            r@ == v@.subrange(0, i as int),
        decreases v.len() - i,
    {
        push_char(&mut r, v[i]);
        i = i + 1;
        assert(r@ =~= v@.subrange(0, i as int));
    }
    assert(v@.subrange(0, v@.len() as int) =~= v@);
    r
}

/// A copy of `s[a..b]`.
pub fn copy_range(s: &Vec<char>, a: usize, b: usize) -> (r: Vec<char>)
    requires
        a <= b <= s.len(),
    ensures
        r@ == s@.subrange(a as int, b as int),
{
    let mut r: Vec<char> = Vec::new();
    let mut i: usize = a;
    while i < b
        invariant
            a <= i <= b <= s.len(),
            r@ == s@.subrange(a as int, i as int),
        decreases b - i,
    {
        r.push(s[i]);
        i = i + 1;
        assert(r@ =~= s@.subrange(a as int, i as int));
    }
    r
}

/// `s` with leading and trailing whitespace (or quotes) removed.
pub fn trim_chars(s: &Vec<char>, quotes: bool) -> (r: Vec<char>)
    ensures
        r@ == trim_by(s@, quotes),
{
    let len = s.len();
    let mut a: usize = 0;
    while a < len && is_trimmed_exec(s[a], quotes)
        invariant
            a <= len == s@.len(),
            front_from(s@, 0, quotes) == front_from(s@, a as int, quotes),
        decreases len - a,
    {
        a = a + 1;
    }
    let mut b: usize = len;
    while a < b && is_trimmed_exec(s[b - 1], quotes)
        invariant
            a <= b <= len == s@.len(),
            front_from(s@, 0, quotes) == a,
            back_to(s@, a as int, len as int, quotes) == back_to(s@, a as int, b as int, quotes),
        decreases b - a,
    {
        b = b - 1;
    }
    copy_range(s, a, b)
}

pub fn is_trimmed_exec(c: char, quotes: bool) -> (r: bool)
    ensures
        r == is_trimmed(c, quotes),
{
    if quotes {
        c == '"'
    } else {
        let u = c as u32;
        (0x9 <= u && u <= 0xd) || u == 0x20 || u == 0x85 || u == 0xa0 || u == 0x1680 || (0x2000
            <= u && u <= 0x200a) || u == 0x2028 || u == 0x2029 || u == 0x202f || u == 0x205f || u
            == 0x3000
    }
}

/// The pieces of `s` between the separators `sep`.
pub fn split_chars(s: &Vec<char>, sep: char) -> (r: Vec<Vec<char>>)
    ensures
        char_views(r@) == split(s@, sep),
{
    let len = s.len();
    let mut r: Vec<Vec<char>> = Vec::new();
    let mut start: usize = 0;
    let mut i: usize = 0;
    while i < len
        invariant
            start <= i <= len == s@.len(),
            split(s@, sep) == char_views(r@) + split_from(s@, sep, start as int, i as int),
        decreases len - i,
    {
        if s[i] == sep {
            let piece = copy_range(s, start, i);
            proof {
                assert(char_views(r@.push(piece)) =~= char_views(r@) + seq![piece@]);
            }
            r.push(piece);
            i = i + 1;
            start = i;
        } else {
            i = i + 1;
        }
    }
    let last = copy_range(s, start, len);
    proof {
        assert(char_views(r@.push(last)) =~= char_views(r@) + seq![last@]);
    }
    r.push(last);
    r
}

/// Whether `p` is a prefix of `s[i..]`.
pub fn occurs_at_exec(s: &Vec<char>, p: &Vec<char>, i: usize) -> (r: bool)
    requires
        i <= s.len(),
    ensures
        r == occurs_at(s@, p@, i as int),
{
    if p.len() > s.len() - i {
        return false;
    }
    let mut k: usize = 0;
    while k < p.len()
        invariant
            i + p.len() <= s.len(),
            k <= p.len(),
            forall|m: int| 0 <= m < k ==> s@[i + m] == p@[m],
        decreases p.len() - k,
    {
        if s[i + k] != p[k] {
            assert(s@.subrange(i as int, i + p.len())[k as int] != p@[k as int]);
            return false;
        }
        k = k + 1;
    }
    assert(s@.subrange(i as int, i + p.len()) =~= p@);
    true
}

/// Whether `p` is a prefix of `s`.
pub fn starts_with_exec(s: &Vec<char>, p: &Vec<char>) -> (r: bool)
    ensures
        r == starts_with(s@, p@),
{
    occurs_at_exec(s, p, 0)
}

/// Whether `p` occurs anywhere in `s`.
pub fn contains_exec(s: &Vec<char>, p: &Vec<char>) -> (r: bool)
    ensures
        r == contains_seq(s@, p@),
{
    let mut i: usize = 0;
    loop
        invariant
            i <= s.len(),
            forall|m: int| 0 <= m < i ==> !occurs_at(s@, p@, m),
        ensures
            forall|m: int| 0 <= m <= s.len() ==> !occurs_at(s@, p@, m),
        decreases s.len() - i,
    {
        if occurs_at_exec(s, p, i) {
            return true;
        }
        if i == s.len() {
            break;
        }
        i = i + 1;
    }
    assert forall|m: int| !occurs_at(s@, p@, m) by {
        if 0 <= m <= s.len() {
        }
    }
    false
}

/// Character index of the last `c` in `s`.
pub fn rfind_exec(s: &Vec<char>, c: char) -> (r: Option<usize>)
    ensures
        r matches Some(i) ==> rfind(s@, c) == Some(i as int),
        r is None ==> rfind(s@, c) is None,
{
    let mut j: usize = s.len();
    while j > 0
        invariant
            j <= s@.len(),
            rfind(s@, c) == last_index_before(s@, c, j as int),
        decreases j,
    {
        if s[j - 1] == c {
            return Some(j - 1);
        }
        j = j - 1;
    }
    None
}

/// Whether two character sequences are equal.
pub fn chars_eq(a: &Vec<char>, b: &Vec<char>) -> (r: bool)
    ensures
        r == (a@ == b@),
{
    if a.len() != b.len() {
        return false;
    }
    let r = occurs_at_exec(a, b, 0);
    proof {
        if r {
            assert(a@ =~= a@.subrange(0, b@.len() as int));
        } else {
            assert(a@ != b@) by {
                if a@ == b@ {
                    assert(a@.subrange(0, b@.len() as int) =~= b@);
                }
            }
        }
    }
    r
}

/// Whether a string equals the given characters.
pub fn str_is(s: &str, p: &str) -> (r: bool)
    ensures
        r == (s@ == p@),
{
    let a = str_chars(s);
    let b = str_chars(p);
    chars_eq(&a, &b)
}

/// Appends the characters of `v` to `out`.
pub fn extend_chars(out: &mut Vec<char>, v: &Vec<char>)
    ensures
        final(out)@ == old(out)@ + v@,
{
    let mut i: usize = 0;
    while i < v.len()
        invariant
            i <= v@.len(),
            out@ == old(out)@ + v@.subrange(0, i as int),
        decreases v.len() - i,
    {
        out.push(v[i]);
        i = i + 1;
        assert(out@ =~= old(out)@ + v@.subrange(0, i as int));
    }
    assert(v@.subrange(0, v@.len() as int) =~= v@);
}

/// Appends `c` to `s`, as a string.
pub fn append_char(s: String, c: char) -> (r: String)
    ensures
        r@ == s@.push(c),
{
    let mut s = s;
    push_char(&mut s, c);
    s
}

pub fn ascii_fold_exec(c: char) -> (r: u32)
    ensures
        r == ascii_fold(c),
{
    let u = c as u32;
    if 0x41 <= u && u <= 0x5a {
        u + 0x20
    } else {
        u
    }
}

/// `str::eq_ignore_ascii_case` on character vectors.
pub fn eq_ignore_ascii_case_exec(a: &Vec<char>, b: &Vec<char>) -> (r: bool)
    ensures
        r == eq_ignore_ascii_case(a@, b@),
{
    if a.len() != b.len() {
        return false;
    }
    let mut i: usize = 0;
    while i < a.len()
        invariant
            i <= a@.len() == b@.len(),
            forall|m: int| 0 <= m < i ==> ascii_fold(a@[m]) == ascii_fold(b@[m]),
        decreases a.len() - i,
    {
        if ascii_fold_exec(a[i]) != ascii_fold_exec(b[i]) {
            return false;
        }
        i = i + 1;
    }
    true
}

/// The strings of `v` joined with `sep` between neighbours.
pub fn join_strings(v: &Vec<String>, sep: &str) -> (r: String)
    ensures
        r@ == join(views(v@), sep@),
{
    let mut r = String::new();
    let ghost vv = views(v@);
    let mut i: usize = 0;
    while i < v.len()
        invariant
            i <= v@.len(),
            vv == views(v@),
            vv.len() == v@.len(),
            r@ == join(vv.subrange(0, i as int), sep@),
        decreases v.len() - i,
    {
        assert(vv.subrange(0, i + 1).drop_last() =~= vv.subrange(0, i as int));
        if i != 0 {
            r.append(sep);
        }
        r.append(v[i].as_str());
        i = i + 1;
        assert(r@ =~= join(vv.subrange(0, i as int), sep@));
    }
    assert(vv.subrange(0, vv.len() as int) =~= vv);
    r
}

/// `s` with every `from` replaced by `to`.
pub fn replace_char_exec(s: &Vec<char>, from: char, to: char) -> (r: Vec<char>)
    ensures
        r@ == replace_char(s@, from, to),
{
    let mut r: Vec<char> = Vec::new();
    let mut i: usize = 0;
    while i < s.len()
        invariant
            i <= s@.len(),
            r@ == replace_char(s@.subrange(0, i as int), from, to),
        decreases s.len() - i,
    {
        if s[i] == from {
            r.push(to);
        } else {
            r.push(s[i]);
        }
        i = i + 1;
        assert(r@ =~= replace_char(s@.subrange(0, i as int), from, to));
    }
    assert(s@.subrange(0, s@.len() as int) =~= s@);
    r
}

pub proof fn lemma_split_from_nonempty(s: Seq<char>, sep: char, start: int, i: int)
    ensures
        split_from(s, sep, start, i).len() > 0,
    decreases s.len() - i,
{
    if i >= s.len() {
    } else if s[i] == sep {
        lemma_split_from_nonempty(s, sep, i + 1, i + 1);
    } else {
        lemma_split_from_nonempty(s, sep, start, i + 1);
    }
}

pub proof fn lemma_split_nonempty(s: Seq<char>, sep: char)
    ensures
        split(s, sep).len() > 0,
{
    lemma_split_from_nonempty(s, sep, 0, 0);
}

/// UTF-8 encoding distributes over concatenation.
pub proof fn lemma_encode_utf8_concat(a: Seq<char>, b: Seq<char>)
    ensures
        encode_utf8(a + b) == encode_utf8(a) + encode_utf8(b),
    decreases a.len(),
{
    if a.len() == 0 {
        assert(a + b =~= b);
        assert(encode_utf8(a) =~= Seq::<u8>::empty());
        assert(encode_utf8(a) + encode_utf8(b) =~= encode_utf8(b));
    } else {
        lemma_encode_utf8_concat(a.drop_first(), b);
        assert((a + b).drop_first() =~= a.drop_first() + b);
        assert((a + b)[0] == a[0]);
        assert(encode_utf8(a + b) =~= encode_utf8(a) + encode_utf8(b));
    }
}

} // verus!
