//! Character-level string helpers with exact specifications.
//!
//! Strings are reasoned about through their views (`Seq<char>`). The helpers
//! here mirror the handful of `str` operations the rest of the library relies
//! on (`trim`, `contains`, `lines`, `split_whitespace`, `rfind`, decimal
//! parsing and formatting), each stated as a spec function and proved.

use vstd::prelude::*;

verus! {

broadcast use vstd::string::axiom_spec_iter;

// ---------------------------------------------------------------------------
// character classes
// ---------------------------------------------------------------------------

/// `char::is_whitespace`: the Unicode `White_Space` property.
pub open spec fn is_ws(c: char) -> bool {
    let u = c as u32;
    (0x9 <= u && u <= 0xd) || u == 0x20 || u == 0x85 || u == 0xa0 || u == 0x1680 || (0x2000 <= u
        && u <= 0x200a) || u == 0x2028 || u == 0x2029 || u == 0x202f || u == 0x205f || u == 0x3000
}

/// `char::is_control`: the Unicode general category `Cc`.
pub open spec fn is_ctrl(c: char) -> bool {
    let u = c as u32;
    u <= 0x1f || (0x7f <= u && u <= 0x9f)
}

/// `char::is_ascii_alphanumeric`.
pub open spec fn is_ascii_alnum(c: char) -> bool {
    let u = c as u32;
    (0x30 <= u && u <= 0x39) || (0x41 <= u && u <= 0x5a) || (0x61 <= u && u <= 0x7a)
}

/// Decides [`is_ws`].
pub fn char_is_ws(c: char) -> (b: bool)
    ensures
        b == is_ws(c),
{
    let u = c as u32;
    (0x9 <= u && u <= 0xd) || u == 0x20 || u == 0x85 || u == 0xa0 || u == 0x1680 || (0x2000 <= u
        && u <= 0x200a) || u == 0x2028 || u == 0x2029 || u == 0x202f || u == 0x205f || u == 0x3000
}

/// Decides [`is_ctrl`].
pub fn char_is_ctrl(c: char) -> (b: bool)
    ensures
        b == is_ctrl(c),
{
    let u = c as u32;
    u <= 0x1f || (0x7f <= u && u <= 0x9f)
}

/// Decides [`is_ascii_alnum`].
pub fn char_is_ascii_alnum(c: char) -> (b: bool)
    ensures
        b == is_ascii_alnum(c),
{
    let u = c as u32;
    (0x30 <= u && u <= 0x39) || (0x41 <= u && u <= 0x5a) || (0x61 <= u && u <= 0x7a)
}

// ---------------------------------------------------------------------------
// conversions between `str` and character vectors
// ---------------------------------------------------------------------------

/// Appends one character to a `String` (`String::push`).
#[verifier::external_body]
fn push_char(s: &mut String, c: char)
    ensures
        final(s)@ == old(s)@.push(c),
{
    s.push(c);
}

/// The characters of `s`, in order.
pub fn to_chars(s: &str) -> (v: Vec<char>)
    ensures
        v@ == s@,
{
    let mut v: Vec<char> = Vec::new();
    for c in it: s.chars()
        invariant
            v@ == it.seq().take(it.index() as int),
    {
        v.push(c);
    }
    v
}

/// A `String` holding exactly the given characters.
pub fn from_chars(v: &[char]) -> (s: String)
    ensures
        s@ == v@,
{
    let mut s = String::new();
    let mut i: usize = 0;
    while i < v.len()
        invariant
            i <= v@.len(),
            s@ == v@.take(i as int),
        decreases v@.len() - i,
    {
        push_char(&mut s, v[i]);
        assert(v@.take(i as int + 1) == v@.take(i as int).push(v@[i as int]));
        i = i + 1;
    }
    assert(v@.take(v@.len() as int) == v@);
    s
}

/// Characters `lo..hi` of `v` as a `String`.
pub fn slice_string(v: &Vec<char>, lo: usize, hi: usize) -> (s: String)
    requires
        lo <= hi <= v@.len(),
    ensures
        s@ == v@.subrange(lo as int, hi as int),
{
    let mut s = String::new();
    let mut i: usize = lo;
    while i < hi
        invariant
            lo <= i <= hi <= v@.len(),
            s@ == v@.subrange(lo as int, i as int),
        decreases hi - i,
    {
        push_char(&mut s, v[i]);
        assert(v@.subrange(lo as int, i as int + 1) == v@.subrange(lo as int, i as int).push(
            v@[i as int],
        ));
        i = i + 1;
    }
    s
}

/// Appends `t` to `s`.
pub fn push_str(s: &mut String, t: &str)
    ensures
        final(s)@ == old(s)@ + t@,
{
    let v = to_chars(t);
    let mut i: usize = 0;
    while i < v.len()
        invariant
            i <= v@.len(),
            v@ == t@,
            s@ == old(s)@ + v@.take(i as int),
        decreases v@.len() - i,
    {
        push_char(s, v[i]);
        assert(v@.take(i as int + 1) == v@.take(i as int).push(v@[i as int]));
        i = i + 1;
    }
    assert(v@.take(v@.len() as int) == v@);
}

/// Appends one character to `s`.
pub fn push_ch(s: &mut String, c: char)
    ensures
        final(s)@ == old(s)@.push(c),
{
    push_char(s, c);
}

/// `a` followed by `b`.
pub fn concat(a: &str, b: &str) -> (s: String)
    ensures
        s@ == a@ + b@,
{
    let mut s = String::new();
    push_str(&mut s, a);
    push_str(&mut s, b);
    s
}

/// Equality of two strings by their characters.
pub fn str_eq(a: &str, b: &str) -> (r: bool)
    ensures
        r == (a@ == b@),
{
    let x = to_chars(a);
    let y = to_chars(b);
    if x.len() != y.len() {
        return false;
    }
    let mut i: usize = 0;
    while i < x.len()
        invariant
            x@ == a@,
            y@ == b@,
            x@.len() == y@.len(),
            i <= x@.len(),
            forall|j: int| 0 <= j < i ==> x@[j] == y@[j],
        decreases x@.len() - i,
    {
        if x[i] != y[i] {
            return false;
        }
        i = i + 1;
    }
    assert(x@ == y@);
    true
}

// ---------------------------------------------------------------------------
// trimming
// ---------------------------------------------------------------------------

/// `str::trim_start`: drops leading whitespace.
pub open spec fn trim_start(s: Seq<char>) -> Seq<char>
    decreases s.len(),
{
    if s.len() > 0 && is_ws(s[0]) {
        trim_start(s.drop_first())
    } else {
        s
    }
}

/// `str::trim_end`: drops trailing whitespace.
pub open spec fn trim_end(s: Seq<char>) -> Seq<char>
    decreases s.len(),
{
    if s.len() > 0 && is_ws(s.last()) {
        trim_end(s.drop_last())
    } else {
        s
    }
}

/// `str::trim`.
pub open spec fn trim(s: Seq<char>) -> Seq<char> {
    trim_end(trim_start(s))
}

/// Bounds `(a, b)` such that `v[a..b]` is `v` trimmed.
pub fn trim_bounds(v: &Vec<char>) -> (r: (usize, usize))
    ensures
        r.0 <= r.1 <= v@.len(),
        v@.subrange(r.0 as int, r.1 as int) == trim(v@),
        v@.subrange(r.0 as int, v@.len() as int) == trim_start(v@),
{
    let n = v.len();
    let mut i: usize = 0;
    assert(v@.subrange(0, n as int) == v@);
    while i < n && char_is_ws(v[i])
        invariant
            i <= n == v@.len(),
            trim_start(v@) == trim_start(v@.subrange(i as int, n as int)),
        decreases n - i,
    {
        assert(v@.subrange(i as int, n as int).drop_first() == v@.subrange(i as int + 1, n as int));
        i = i + 1;
    }
    let mut j: usize = n;
    while j > i && char_is_ws(v[j - 1])
        invariant
            i <= j <= n == v@.len(),
            trim_start(v@) == v@.subrange(i as int, n as int),
            trim_end(v@.subrange(i as int, n as int)) == trim_end(v@.subrange(i as int, j as int)),
        decreases j,
    {
        assert(v@.subrange(i as int, j as int).drop_last() == v@.subrange(i as int, j as int - 1));
        j = j - 1;
    }
    (i, j)
}

/// `s.trim()` as an owned string.
pub fn trim_str(s: &str) -> (t: String)
    ensures
        t@ == trim(s@),
{
    let v = to_chars(s);
    let (a, b) = trim_bounds(&v);
    slice_string(&v, a, b)
}

/// Whether `s.trim()` is empty.
pub fn is_blank(s: &str) -> (b: bool)
    ensures
        b == (trim(s@).len() == 0),
{
    let v = to_chars(s);
    let (a, b) = trim_bounds(&v);
    a == b
}

// ---------------------------------------------------------------------------
// searching
// ---------------------------------------------------------------------------

/// `needle` occurs in `hay` at position `i`.
pub open spec fn occurs_at(hay: Seq<char>, needle: Seq<char>, i: int) -> bool {
    0 <= i && i + needle.len() <= hay.len() && hay.subrange(i, i + needle.len()) == needle
}

/// `str::contains` for a string pattern.
pub open spec fn contains(hay: Seq<char>, needle: Seq<char>) -> bool {
    exists|i: int| occurs_at(hay, needle, i)
}

/// `str::starts_with`.
pub open spec fn starts_with(s: Seq<char>, p: Seq<char>) -> bool {
    p.len() <= s.len() && s.subrange(0, p.len() as int) == p
}

/// `str::ends_with`.
pub open spec fn ends_with(s: Seq<char>, p: Seq<char>) -> bool {
    p.len() <= s.len() && s.subrange(s.len() - p.len(), s.len() as int) == p
}

fn occurs_at_exec(hay: &Vec<char>, needle: &Vec<char>, i: usize) -> (b: bool)
    requires
        i + needle@.len() <= hay@.len(),
    ensures
        b == occurs_at(hay@, needle@, i as int),
{
    let hl = hay.len();
    let mut k: usize = 0;
    while k < needle.len()
        invariant
            hl == hay@.len(),
            i + needle@.len() <= hay@.len(),
            k <= needle@.len(),
            forall|m: int| 0 <= m < k ==> hay@[i + m] == needle@[m],
        decreases needle@.len() - k,
    {
        assert(i + k < hay@.len());
        if hay[i + k] != needle[k] {
            assert(hay@.subrange(i as int, i + needle@.len())[k as int] != needle@[k as int]);
            return false;
        }
        k = k + 1;
    }
    assert(hay@.subrange(i as int, i + needle@.len()) == needle@);
    true
}

/// Decides [`contains`] on character vectors.
pub fn contains_chars(hay: &Vec<char>, needle: &Vec<char>) -> (b: bool)
    ensures
        b == contains(hay@, needle@),
{
    if needle.len() > hay.len() {
        assert forall|i: int| !occurs_at(hay@, needle@, i) by {}
        return false;
    }
    let last = hay.len() - needle.len();
    let mut i: usize = 0;
    while i < last
        invariant
            needle@.len() <= hay@.len(),
            last == hay@.len() - needle@.len(),
            i <= last,
            forall|j: int| 0 <= j < i ==> !occurs_at(hay@, needle@, j),
        decreases last - i,
    {
        if occurs_at_exec(hay, needle, i) {
            return true;
        }
        i = i + 1;
    }
    if occurs_at_exec(hay, needle, last) {
        return true;
    }
    assert forall|j: int| !occurs_at(hay@, needle@, j) by {
        if 0 <= j < i {
        }
    }
    false
}

/// Decides [`contains`] on strings.
pub fn str_contains(hay: &str, needle: &str) -> (b: bool)
    ensures
        b == contains(hay@, needle@),
{
    let h = to_chars(hay);
    let n = to_chars(needle);
    contains_chars(&h, &n)
}

/// Decides [`starts_with`] on character vectors.
pub fn starts_with_chars(s: &Vec<char>, p: &Vec<char>) -> (b: bool)
    ensures
        b == starts_with(s@, p@),
{
    if p.len() > s.len() {
        return false;
    }
    let r = occurs_at_exec(s, p, 0);
    r
}

/// Decides [`ends_with`] on character vectors.
pub fn ends_with_chars(s: &Vec<char>, p: &Vec<char>) -> (b: bool)
    ensures
        b == ends_with(s@, p@),
{
    if p.len() > s.len() {
        return false;
    }
    let r = occurs_at_exec(s, p, s.len() - p.len());
    r
}

/// Position of the last occurrence of `c` (`str::rfind` for a char).
pub open spec fn last_index_of(s: Seq<char>, c: char) -> Option<int>
    decreases s.len(),
{
    if s.len() == 0 {
        None
    } else if s.last() == c {
        Some(s.len() - 1)
    } else {
        last_index_of(s.drop_last(), c)
    }
}

/// Position of the first character satisfying [`is_ws`].
pub open spec fn first_ws(s: Seq<char>) -> Option<int>
    decreases s.len(),
{
    if s.len() == 0 {
        None
    } else if is_ws(s[0]) {
        Some(0)
    } else {
        match first_ws(s.drop_first()) {
            Some(i) => Some(i + 1),
            None => None,
        }
    }
}

/// Position of the first occurrence of `c`.
pub open spec fn first_index_of(s: Seq<char>, c: char) -> Option<int>
    decreases s.len(),
{
    if s.len() == 0 {
        None
    } else if s[0] == c {
        Some(0)
    } else {
        match first_index_of(s.drop_first(), c) {
            Some(i) => Some(i + 1),
            None => None,
        }
    }
}

pub proof fn lemma_last_index_of(s: Seq<char>, c: char)
    ensures
        last_index_of(s, c) matches Some(i) ==> 0 <= i < s.len() && s[i] == c && forall|j: int|
            i < j < s.len() ==> s[j] != c,
        last_index_of(s, c) is None ==> forall|j: int| 0 <= j < s.len() ==> s[j] != c,
    decreases s.len(),
{
    if s.len() > 0 && s.last() != c {
        lemma_last_index_of(s.drop_last(), c);
        assert forall|j: int| 0 <= j < s.len() - 1 implies s.drop_last()[j] == s[j] by {}
    }
}

pub proof fn lemma_first_index_of(s: Seq<char>, c: char)
    ensures
        first_index_of(s, c) matches Some(i) ==> 0 <= i < s.len() && s[i] == c && forall|j: int|
            0 <= j < i ==> s[j] != c,
        first_index_of(s, c) is None ==> forall|j: int| 0 <= j < s.len() ==> s[j] != c,
    decreases s.len(),
{
    if s.len() > 0 && s[0] != c {
        lemma_first_index_of(s.drop_first(), c);
        assert forall|j: int| 1 <= j < s.len() implies s.drop_first()[j - 1] == s[j] by {}
    }
}

pub proof fn lemma_first_ws(s: Seq<char>)
    ensures
        first_ws(s) matches Some(i) ==> 0 <= i < s.len() && is_ws(s[i]) && forall|j: int|
            0 <= j < i ==> !is_ws(s[j]),
        first_ws(s) is None ==> forall|j: int| 0 <= j < s.len() ==> !is_ws(s[j]),
    decreases s.len(),
{
    if s.len() > 0 && !is_ws(s[0]) {
        lemma_first_ws(s.drop_first());
        assert forall|j: int| 1 <= j < s.len() implies s.drop_first()[j - 1] == s[j] by {}
    }
}

/// The first index `i` with `s[i] == c`, characterised without recursion.
pub proof fn lemma_first_index_unique(s: Seq<char>, c: char, i: int)
    requires
        0 <= i < s.len(),
        s[i] == c,
        forall|j: int| 0 <= j < i ==> s[j] != c,
    ensures
        first_index_of(s, c) == Some(i),
    decreases s.len(),
{
    if i > 0 {
        assert forall|j: int| 0 <= j < i - 1 implies s.drop_first()[j] != c by {
            assert(s.drop_first()[j] == s[j + 1]);
        }
        lemma_first_index_unique(s.drop_first(), c, i - 1);
    }
}

pub proof fn lemma_first_index_none(s: Seq<char>, c: char)
    requires
        forall|j: int| 0 <= j < s.len() ==> s[j] != c,
    ensures
        first_index_of(s, c) is None,
    decreases s.len(),
{
    if s.len() > 0 {
        assert forall|j: int| 0 <= j < s.len() - 1 implies s.drop_first()[j] != c by {
            assert(s.drop_first()[j] == s[j + 1]);
        }
        lemma_first_index_none(s.drop_first(), c);
    }
}

pub proof fn lemma_first_ws_unique(s: Seq<char>, i: int)
    requires
        0 <= i <= s.len(),
        i < s.len() ==> is_ws(s[i]),
        forall|j: int| 0 <= j < i ==> !is_ws(s[j]),
    ensures
        i < s.len() ==> first_ws(s) == Some(i),
        i == s.len() ==> first_ws(s) is None,
    decreases s.len(),
{
    if s.len() > 0 && i > 0 {
        assert forall|j: int| 0 <= j < i - 1 implies !is_ws(s.drop_first()[j]) by {
            assert(s.drop_first()[j] == s[j + 1]);
        }
        lemma_first_ws_unique(s.drop_first(), i - 1);
    }
}

pub proof fn lemma_last_index_unique(s: Seq<char>, c: char, i: int)
    requires
        -1 <= i < s.len(),
        i >= 0 ==> s[i] == c,
        forall|j: int| i < j < s.len() ==> s[j] != c,
    ensures
        i >= 0 ==> last_index_of(s, c) == Some(i),
        i == -1 ==> last_index_of(s, c) is None,
    decreases s.len(),
{
    if s.len() > 0 && i < s.len() - 1 {
        lemma_last_index_unique(s.drop_last(), c, i);
    }
}

/// `rfind(c)` over a character vector.
pub fn rfind_char(v: &Vec<char>, c: char) -> (r: Option<usize>)
    ensures
        match r {
            Some(i) => last_index_of(v@, c) == Some(i as int),
            None => last_index_of(v@, c) is None,
        },
{
    let mut j: usize = v.len();
    while j > 0
        invariant
            j <= v@.len(),
            forall|k: int| j <= k < v@.len() ==> v@[k] != c,
        decreases j,
    {
        if v[j - 1] == c {
            proof {
                lemma_last_index_unique(v@, c, j - 1);
            }
            return Some(j - 1);
        }
        j = j - 1;
    }
    proof {
        lemma_last_index_unique(v@, c, -1);
    }
    None
}

/// `find(c)` over a character vector.
pub fn find_char(v: &Vec<char>, c: char) -> (r: Option<usize>)
    ensures
        match r {
            Some(i) => first_index_of(v@, c) == Some(i as int),
            None => first_index_of(v@, c) is None,
        },
{
    let mut j: usize = 0;
    while j < v.len()
        invariant
            j <= v@.len(),
            forall|k: int| 0 <= k < j ==> v@[k] != c,
        decreases v@.len() - j,
    {
        if v[j] == c {
            proof {
                lemma_first_index_unique(v@, c, j as int);
            }
            return Some(j);
        }
        j = j + 1;
    }
    proof {
        lemma_first_index_none(v@, c);
    }
    None
}

/// Position of the first whitespace character at or after `from`.
pub fn find_ws_from(v: &Vec<char>, from: usize) -> (r: usize)
    requires
        from <= v@.len(),
    ensures
        from <= r <= v@.len(),
        r < v@.len() ==> is_ws(v@[r as int]),
        forall|j: int| from <= j < r ==> !is_ws(v@[j]),
{
    let mut j: usize = from;
    while j < v.len() && !char_is_ws(v[j])
        invariant
            from <= j <= v@.len(),
            forall|k: int| from <= k < j ==> !is_ws(v@[k]),
        decreases v@.len() - j,
    {
        j = j + 1;
    }
    j
}

// ---------------------------------------------------------------------------
// splitting
// ---------------------------------------------------------------------------

/// `str::split(c)`: the pieces between occurrences of `c`.
pub open spec fn split_on(s: Seq<char>, c: char) -> Seq<Seq<char>>
    decreases s.len(),
{
    match first_index_of(s, c) {
        None => seq![s],
        Some(i) => {
            if 0 <= i < s.len() {
                seq![s.subrange(0, i)] + split_on(s.subrange(i + 1, s.len() as int), c)
            } else {
                seq![s]
            }
        },
    }
}

/// Drops one trailing carriage return.
pub open spec fn strip_cr(s: Seq<char>) -> Seq<char> {
    if s.len() > 0 && s.last() == '\r' {
        s.drop_last()
    } else {
        s
    }
}

/// `str::lines`: pieces ended by `\n` lose the `\n` and one `\r` before it;
/// the text after the last `\n` is a line only when it is not empty.
pub open spec fn lines_of(s: Seq<char>) -> Seq<Seq<char>> {
    let p = split_on(s, '\n');
    let k = p.len() - 1;
    Seq::new(k as nat, |i: int| strip_cr(p[i])) + if p[k].len() > 0 {
        seq![p[k]]
    } else {
        Seq::empty()
    }
}

pub proof fn lemma_split_on_nonempty(s: Seq<char>, c: char)
    ensures
        split_on(s, c).len() >= 1,
    decreases s.len(),
{
    lemma_first_index_of(s, c);
    match first_index_of(s, c) {
        None => {},
        Some(i) => {
            lemma_split_on_nonempty(s.subrange(i + 1, s.len() as int), c);
        },
    }
}

/// The pieces of `v[from..]` split on `c`, as strings.
fn split_pieces(v: &Vec<char>, c: char) -> (r: Vec<String>)
    ensures
        r@.len() == split_on(v@, c).len(),
        forall|i: int| 0 <= i < r@.len() ==> #[trigger] r@[i]@ == split_on(v@, c)[i],
{
    let mut out: Vec<String> = Vec::new();
    let mut start: usize = 0;
    let n = v.len();
    let ghost s = v@;
    assert(s.subrange(0, n as int) == s);
    loop
        invariant
            start <= n == s.len(),
            s == v@,
            split_on(s, c) == out@.map_values(|x: String| x@) + split_on(
                s.subrange(start as int, n as int),
                c,
            ),
        decreases n - start,
    {
        let ghost rest = s.subrange(start as int, n as int);
        let mut j: usize = start;
        while j < n && v[j] != c
            invariant
                start <= j <= n == v@.len(),
                forall|k: int| start <= k < j ==> v@[k] != c,
            decreases n - j,
        {
            j = j + 1;
        }
        let piece = slice_string(v, start, j);
        proof {
            if j < n {
                assert forall|k: int| 0 <= k < j - start implies rest[k] != c by {
                    assert(rest[k] == s[start + k]);
                }
                lemma_first_index_unique(rest, c, j - start);
                assert(rest.subrange(0, j - start) == s.subrange(start as int, j as int));
                assert(rest.subrange(j - start + 1, rest.len() as int) == s.subrange(
                    j + 1,
                    n as int,
                ));
            } else {
                assert forall|k: int| 0 <= k < rest.len() implies rest[k] != c by {
                    assert(rest[k] == s[start + k]);
                }
                lemma_first_index_none(rest, c);
            }
        }
        let ghost old_out = out@;
        out.push(piece);
        assert(out@.map_values(|x: String| x@) == old_out.map_values(|x: String| x@).push(
            piece@,
        ));
        if j == n {
            assert(split_on(s, c) == out@.map_values(|x: String| x@));
            return out;
        }
        start = j + 1;
    }
}

/// `str::lines`, as owned strings.
pub fn lines(s: &str) -> (r: Vec<String>)
    ensures
        r@.len() == lines_of(s@).len(),
        forall|i: int| 0 <= i < r@.len() ==> #[trigger] r@[i]@ == lines_of(s@)[i],
{
    let v = to_chars(s);
    let pieces = split_pieces(&v, '\n');
    proof {
        lemma_split_on_nonempty(v@, '\n');
    }
    let ghost p = split_on(v@, '\n');
    let k = pieces.len() - 1;
    let mut out: Vec<String> = Vec::new();
    let mut i: usize = 0;
    while i < k
        invariant
            k == pieces@.len() - 1,
            pieces@.len() == p.len(),
            forall|m: int| 0 <= m < pieces@.len() ==> #[trigger] pieces@[m]@ == p[m],
            i <= k,
            out@.len() == i,
            forall|m: int| 0 <= m < i ==> #[trigger] out@[m]@ == strip_cr(p[m]),
        decreases k - i,
    {
        let pc = to_chars(pieces[i].as_str());
        let t = if pc.len() > 0 && pc[pc.len() - 1] == '\r' {
            slice_string(&pc, 0, pc.len() - 1)
        } else {
            slice_string(&pc, 0, pc.len())
        };
        proof {
            assert(pc@ == p[i as int]);
            assert(pc@.subrange(0, pc@.len() as int) == pc@);
        }
        out.push(t);
        i = i + 1;
    }
    let last = pieces[k].clone();
    let lc = to_chars(last.as_str());
    if lc.len() > 0 {
        out.push(last);
    }
    proof {
        let spec_r = lines_of(v@);
        assert(spec_r.len() == out@.len());
        assert forall|m: int| 0 <= m < out@.len() implies #[trigger] out@[m]@ == spec_r[m] by {
            if m < k {
            }
        }
    }
    out
}

/// `str::split_whitespace`: maximal runs of non-whitespace characters.
pub open spec fn words(s: Seq<char>) -> Seq<Seq<char>>
    decreases s.len(),
{
    let t = trim_start(s);
    if t.len() == 0 {
        Seq::empty()
    } else {
        match first_ws(t) {
            None => seq![t],
            Some(i) => {
                if 0 < i < t.len() && t.len() <= s.len() {
                    seq![t.subrange(0, i)] + words(t.subrange(i, t.len() as int))
                } else {
                    seq![t]
                }
            },
        }
    }
}

pub proof fn lemma_trim_start_suffix(s: Seq<char>)
    ensures
        trim_start(s).len() <= s.len(),
        trim_start(s) == s.subrange(s.len() - trim_start(s).len(), s.len() as int),
        trim_start(s).len() > 0 ==> !is_ws(trim_start(s)[0]),
        forall|j: int| 0 <= j < s.len() - trim_start(s).len() ==> is_ws(s[j]),
    decreases s.len(),
{
    if s.len() > 0 && is_ws(s[0]) {
        lemma_trim_start_suffix(s.drop_first());
        assert forall|j: int| 1 <= j < s.len() implies s.drop_first()[j - 1] == s[j] by {}
        assert(s.drop_first().subrange(
            s.drop_first().len() - trim_start(s).len(),
            s.drop_first().len() as int,
        ) == s.subrange(s.len() - trim_start(s).len(), s.len() as int));
    } else {
        assert(s.subrange(0, s.len() as int) == s);
    }
}

/// `trim_start` of `v[i..]` starts at the first non-whitespace index.
proof fn lemma_trim_start_at(s: Seq<char>, i: int, j: int)
    requires
        0 <= i <= j <= s.len(),
        forall|k: int| i <= k < j ==> is_ws(s[k]),
        j < s.len() ==> !is_ws(s[j]),
    ensures
        trim_start(s.subrange(i, s.len() as int)) == s.subrange(j, s.len() as int),
    decreases j - i,
{
    if i < j {
        assert(s.subrange(i, s.len() as int).drop_first() == s.subrange(i + 1, s.len() as int));
        lemma_trim_start_at(s, i + 1, j);
    }
}

/// `s.split_whitespace()`, as owned strings.
pub fn split_words(s: &str) -> (r: Vec<String>)
    ensures
        r@.len() == words(s@).len(),
        forall|i: int| 0 <= i < r@.len() ==> #[trigger] r@[i]@ == words(s@)[i],
{
    let v = to_chars(s);
    let n = v.len();
    let ghost sv = v@;
    let mut out: Vec<String> = Vec::new();
    let mut pos: usize = 0;
    assert(sv.subrange(0, n as int) == sv);
    loop
        invariant
            pos <= n == sv.len(),
            sv == v@,
            sv == s@,
            words(sv) == out@.map_values(|x: String| x@) + words(sv.subrange(pos as int, n as int)),
        decreases n - pos,
    {
        let ghost rest = sv.subrange(pos as int, n as int);
        let mut a: usize = pos;
        while a < n && char_is_ws(v[a])
            invariant
                pos <= a <= n == v@.len(),
                forall|k: int| pos <= k < a ==> is_ws(v@[k]),
            decreases n - a,
        {
            a = a + 1;
        }
        proof {
            lemma_trim_start_at(sv, pos as int, a as int);
        }
        let ghost t = sv.subrange(a as int, n as int);
        assert(trim_start(rest) == t);
        if a == n {
            assert(words(rest) == Seq::<Seq<char>>::empty());
            assert(out@.map_values(|x: String| x@) + Seq::<Seq<char>>::empty() == out@.map_values(
                |x: String| x@,
            ));
            return out;
        }
        let b = find_ws_from(&v, a);
        proof {
            assert forall|k: int| 0 <= k < b - a implies !is_ws(t[k]) by {
                assert(t[k] == sv[a + k]);
            }
            if b < n {
                assert(t[b - a] == sv[b as int]);
            }
            lemma_first_ws_unique(t, b - a);
            lemma_trim_start_suffix(rest);
        }
        let w = slice_string(&v, a, b);
        let ghost old_out = out@;
        out.push(w);
        assert(out@.map_values(|x: String| x@) == old_out.map_values(|x: String| x@).push(w@));
        proof {
            if b < n {
                assert(t.subrange(0, b - a) == sv.subrange(a as int, b as int));
                assert(t.subrange(b - a, t.len() as int) == sv.subrange(b as int, n as int));
                assert(words(rest) == seq![w@] + words(sv.subrange(b as int, n as int)));
            } else {
                assert(t == sv.subrange(a as int, b as int));
                assert(words(rest) == seq![w@]);
                assert(sv.subrange(b as int, n as int).len() == 0);
                assert(trim_start(sv.subrange(b as int, n as int)).len() == 0);
            }
        }
        pos = b;
    }
}

// ---------------------------------------------------------------------------
// decimal numbers
// ---------------------------------------------------------------------------

/// The ASCII digit for `d < 10`.
pub open spec fn digit_char(d: nat) -> char {
    (48 + d) as char
}

/// Decimal representation of `n` (no sign, no leading zeros).
pub open spec fn dec(n: nat) -> Seq<char>
    decreases n,
{
    if n < 10 {
        seq![digit_char(n)]
    } else {
        dec(n / 10).push(digit_char(n % 10))
    }
}

/// Decimal representation of a signed integer, `-` first when negative.
pub open spec fn dec_int(n: int) -> Seq<char> {
    if n < 0 {
        seq!['-'] + dec((-n) as nat)
    } else {
        dec(n as nat)
    }
}

fn digit_to_char(d: u64) -> (c: char)
    requires
        d < 10,
    ensures
        c == digit_char(d as nat),
{
    let c = ((48u32 + d as u32) as u8) as char;
    assert(c == digit_char(d as nat)) by {
        assert((48u32 + d as u32) as u8 as char == ((48 + d as nat) as char));
    }
    c
}

/// `n.to_string()` for an unsigned integer.
pub fn u64_to_dec(n: u64) -> (s: String)
    ensures
        s@ == dec(n as nat),
    decreases n,
{
    if n < 10 {
        let mut s = String::new();
        push_ch(&mut s, digit_to_char(n));
        s
    } else {
        let mut s = u64_to_dec(n / 10);
        push_ch(&mut s, digit_to_char(n % 10));
        s
    }
}

/// `n.to_string()` for a signed integer.
pub fn i64_to_dec(n: i64) -> (s: String)
    ensures
        s@ == dec_int(n as int),
{
    if n < 0 {
        let m: u64 = if n == i64::MIN {
            9223372036854775808u64
        } else {
            (-n) as u64
        };
        let digits = u64_to_dec(m);
        let mut s = String::new();
        push_ch(&mut s, '-');
        push_str(&mut s, digits.as_str());
        s
    } else {
        u64_to_dec(n as u64)
    }
}

/// Value of a sequence of ASCII decimal digits.
pub open spec fn digits_value(d: Seq<char>) -> nat
    decreases d.len(),
{
    if d.len() == 0 {
        0
    } else {
        digits_value(d.drop_last()) * 10 + ((d.last() as u32) - 48) as nat
    }
}

/// Whether `c` is an ASCII decimal digit.
pub open spec fn is_digit(c: char) -> bool {
    48 <= c as u32 && c as u32 <= 57
}

/// Drops one leading `+`.
pub open spec fn strip_plus(s: Seq<char>) -> Seq<char> {
    if s.len() > 0 && s[0] == '+' {
        s.drop_first()
    } else {
        s
    }
}

/// Every character is an ASCII digit.
pub open spec fn all_digits(d: Seq<char>) -> bool {
    forall|i: int| 0 <= i < d.len() ==> is_digit(#[trigger] d[i])
}

/// `str::parse::<u16>()`: an optional `+`, then one or more ASCII digits whose
/// value fits in `u16` (leading zeros allowed).
pub open spec fn parse_u16(s: Seq<char>) -> Option<u16> {
    let d = strip_plus(s);
    if d.len() > 0 && all_digits(d) && digits_value(d) <= 65535 {
        Some(digits_value(d) as u16)
    } else {
        None
    }
}

proof fn lemma_digits_value_push(d: Seq<char>, c: char)
    ensures
        digits_value(d.push(c)) == digits_value(d) * 10 + ((c as u32) - 48) as nat,
{
    assert(d.push(c).drop_last() == d);
}

/// Parses `v[lo..hi]` as a `u16`.
pub fn parse_u16_chars(v: &Vec<char>, lo: usize, hi: usize) -> (r: Option<u16>)
    requires
        lo <= hi <= v@.len(),
    ensures
        r == parse_u16(v@.subrange(lo as int, hi as int)),
{
    let ghost s = v@.subrange(lo as int, hi as int);
    let mut start = lo;
    if lo < hi && v[lo] == '+' {
        start = lo + 1;
    }
    let ghost d = v@.subrange(start as int, hi as int);
    assert(d == strip_plus(s));
    if start == hi {
        return None;
    }
    let mut acc: u32 = 0;
    let mut i = start;
    let mut ok = true;
    while i < hi
        invariant
            start <= i <= hi <= v@.len(),
            d == v@.subrange(start as int, hi as int),
            ok ==> acc <= 65535 && acc == digits_value(v@.subrange(start as int, i as int)),
            ok ==> forall|k: int| start <= k < i ==> is_digit(#[trigger] v@[k]),
            !ok ==> parse_u16(s) is None,
            s == v@.subrange(lo as int, hi as int),
            d == strip_plus(s),
            d.len() > 0,
        decreases hi - i,
    {
        if ok {
            let c = v[i];
            proof {
                lemma_digits_value_push(v@.subrange(start as int, i as int), c);
                assert(v@.subrange(start as int, i as int + 1) == v@.subrange(
                    start as int,
                    i as int,
                ).push(c));
            }
            let u = c as u32;
            if !(48 <= u && u <= 57) {
                proof {
                    assert(d[i - start] == c);
                    assert(!is_digit(d[i - start]));
                    assert(!all_digits(d));
                    assert(parse_u16(s) is None);
                }
                ok = false;
            } else {
                let next: u32 = acc * 10 + (u - 48);
                if next > 65535 {
                    proof {
                        // every further digit only grows the value
                        assert(d.subrange(0, i - start + 1) == v@.subrange(
                            start as int,
                            i as int + 1,
                        ));
                        if all_digits(d) {
                            lemma_digits_value_prefix(d, i - start + 1);
                            assert(digits_value(d) > 65535);
                        }
                        assert(parse_u16(s) is None);
                    }
                    ok = false;
                } else {
                    acc = next;
                }
            }
        }
        i = i + 1;
    }
    if ok {
        assert(v@.subrange(start as int, hi as int) == d);
        assert forall|k: int| 0 <= k < d.len() implies is_digit(#[trigger] d[k]) by {
            assert(d[k] == v@[start + k]);
        }
        assert(all_digits(d));
        Some(acc as u16)
    } else {
        None
    }
}

/// The value of a digit string is at least the value of any prefix.
proof fn lemma_digits_value_prefix(d: Seq<char>, k: int)
    requires
        0 <= k <= d.len(),
        all_digits(d),
    ensures
        digits_value(d.subrange(0, k)) <= digits_value(d),
    decreases d.len() - k,
{
    if k < d.len() {
        lemma_digits_value_prefix(d, k + 1);
        let p = d.subrange(0, k + 1);
        assert(p.drop_last() == d.subrange(0, k));
        assert(is_digit(p.last()));
    } else {
        assert(d.subrange(0, k) == d);
    }
}

/// `s.parse::<u16>().ok()`.
pub fn parse_u16_str(s: &str) -> (r: Option<u16>)
    ensures
        r == parse_u16(s@),
{
    let v = to_chars(s);
    assert(v@.subrange(0, v@.len() as int) == v@);
    parse_u16_chars(&v, 0, v.len())
}

/// The first `n` characters (`s.chars().take(n).collect::<String>()`).
pub fn take_chars(s: &str, n: usize) -> (t: String)
    ensures
        t@ == if s@.len() <= n {
            s@
        } else {
            s@.take(n as int)
        },
{
    let v = to_chars(s);
    if v.len() <= n {
        assert(v@.subrange(0, v@.len() as int) == v@);
        slice_string(&v, 0, v.len())
    } else {
        slice_string(&v, 0, n)
    }
}

} // verus!

verus! {

/// The views of a sequence of strings.
pub open spec fn views(v: Seq<String>) -> Seq<Seq<char>> {
    v.map_values(|s: String| s@)
}

/// Characters `lo..hi` of `v` as a new vector.
pub fn sub_chars(v: &Vec<char>, lo: usize, hi: usize) -> (r: Vec<char>)
    requires
        lo <= hi <= v@.len(),
    ensures
        r@ == v@.subrange(lo as int, hi as int),
{
    let mut r: Vec<char> = Vec::new();
    let mut i = lo;
    while i < hi
        invariant
            lo <= i <= hi <= v@.len(),
            r@ == v@.subrange(lo as int, i as int),
        decreases hi - i,
    {
        r.push(v[i]);
        assert(v@.subrange(lo as int, i as int + 1) == v@.subrange(lo as int, i as int).push(
            v@[i as int],
        ));
        i = i + 1;
    }
    r
}

/// The name for what `str::to_lowercase` returns (full Unicode lowercasing).
pub uninterp spec fn lowercase(s: Seq<char>) -> Seq<char>;

/// `str::to_lowercase`. Trusted: the result is the Unicode lowercase mapping of
/// `s`, named [`lowercase`]; nothing more about that mapping is stated here.
#[verifier::external_body]
pub(crate) fn to_lowercase(s: &str) -> (r: String)
    ensures
        r@ == lowercase(s@),
{
    s.to_lowercase()
}

} // verus!

verus! {

/// The view of an optional string.
pub open spec fn opt_view(o: Option<String>) -> Option<Seq<char>> {
    match o {
        Some(s) => Some(s@),
        None => None,
    }
}

/// The view of an optional string slice.
pub open spec fn opt_str_view(o: Option<&str>) -> Option<Seq<char>> {
    match o {
        Some(s) => Some(s@),
        None => None,
    }
}

/// Lexicographic order by code point (`String`'s `Ord`, since UTF-8 keeps
/// code point order).
pub open spec fn lex_lt(a: Seq<char>, b: Seq<char>) -> bool
    decreases a.len(),
{
    if b.len() == 0 {
        false
    } else if a.len() == 0 {
        true
    } else if a[0] != b[0] {
        (a[0] as u32) < (b[0] as u32)
    } else {
        lex_lt(a.drop_first(), b.drop_first())
    }
}

pub proof fn lemma_lex_irrefl(a: Seq<char>)
    ensures
        !lex_lt(a, a),
    decreases a.len(),
{
    if a.len() > 0 {
        lemma_lex_irrefl(a.drop_first());
    }
}

pub proof fn lemma_lex_trans(a: Seq<char>, b: Seq<char>, c: Seq<char>)
    requires
        lex_lt(a, b),
        lex_lt(b, c),
    ensures
        lex_lt(a, c),
    decreases a.len(),
{
    if a.len() > 0 && b.len() > 0 && c.len() > 0 && a[0] == b[0] && b[0] == c[0] {
        lemma_lex_trans(a.drop_first(), b.drop_first(), c.drop_first());
    }
}

pub proof fn lemma_lex_total(a: Seq<char>, b: Seq<char>)
    ensures
        a == b || lex_lt(a, b) || lex_lt(b, a),
    decreases a.len(),
{
    if a.len() > 0 && b.len() > 0 && a[0] == b[0] {
        lemma_lex_total(a.drop_first(), b.drop_first());
        if a.drop_first() == b.drop_first() {
            assert(a == seq![a[0]] + a.drop_first());
            assert(b == seq![b[0]] + b.drop_first());
        }
    } else if a.len() == 0 && b.len() == 0 {
        assert(a == b);
    } else if a.len() > 0 && b.len() > 0 {
        vstd::utf8::char_u32_cast(a[0], a[0] as u32);
        vstd::utf8::char_u32_cast(b[0], b[0] as u32);
    }
}

pub proof fn lemma_lex_asym(a: Seq<char>, b: Seq<char>)
    requires
        lex_lt(a, b),
    ensures
        !lex_lt(b, a),
{
    if lex_lt(b, a) {
        lemma_lex_trans(a, b, a);
        lemma_lex_irrefl(a);
    }
}

/// Decides [`lex_lt`].
pub fn lex_less(a: &Vec<char>, b: &Vec<char>) -> (r: bool)
    ensures
        r == lex_lt(a@, b@),
{
    let mut i: usize = 0;
    let n = a.len();
    let m = b.len();
    assert(a@.subrange(0, n as int) == a@);
    assert(b@.subrange(0, m as int) == b@);
    loop
        invariant
            n == a@.len(),
            m == b@.len(),
            i <= n,
            i <= m,
            lex_lt(a@, b@) == lex_lt(
                a@.subrange(i as int, n as int),
                b@.subrange(i as int, m as int),
            ),
        decreases n - i,
    {
        let ghost x = a@.subrange(i as int, n as int);
        let ghost y = b@.subrange(i as int, m as int);
        if i == m {
            return false;
        }
        if i == n {
            return true;
        }
        assert(x[0] == a@[i as int]);
        assert(y[0] == b@[i as int]);
        if a[i] != b[i] {
            return (a[i] as u32) < (b[i] as u32);
        }
        assert(x.drop_first() == a@.subrange(i as int + 1, n as int));
        assert(y.drop_first() == b@.subrange(i as int + 1, m as int));
        i = i + 1;
    }
}

/// Strictly increasing in [`lex_lt`] order (hence free of duplicates).
pub open spec fn strictly_sorted(s: Seq<Seq<char>>) -> bool {
    forall|i: int, j: int| 0 <= i < j < s.len() ==> lex_lt(#[trigger] s[i], #[trigger] s[j])
}

/// Inserts `w` into a strictly sorted vector unless it is already present.
pub fn insert_sorted(out: &mut Vec<String>, w: String)
    requires
        strictly_sorted(views(old(out)@)),
    ensures
        strictly_sorted(views(final(out)@)),
        forall|x: Seq<char>|
            views(final(out)@).contains(x) <==> (views(old(out)@).contains(x) || x == w@),
{
    let wv = to_chars(w.as_str());
    let n = out.len();
    let mut k: usize = 0;
    while k < n && lex_less(&to_chars(out[k].as_str()), &wv)
        invariant
            k <= n == out@.len(),
            wv@ == w@,
            forall|j: int| 0 <= j < k ==> lex_lt(#[trigger] out@[j]@, w@),
        decreases n - k,
    {
        k = k + 1;
    }
    let ghost before = views(out@);
    if k < n && str_eq(out[k].as_str(), w.as_str()) {
        assert(before.contains(w@)) by {
            assert(before[k as int] == w@);
        }
        return;
    }
    proof {
        // everything from k on is above w
        assert forall|j: int| k <= j < n implies lex_lt(w@, #[trigger] before[j]) by {
            assert(before[k as int] == out@[k as int]@);
            lemma_lex_total(before[k as int], w@);
            if j > k {
                assert(lex_lt(before[k as int], before[j]));
                lemma_lex_trans(w@, before[k as int], before[j]);
            }
        }
    }
    out.insert(k, w);
    let ghost after = views(out@);
    assert(after =~= before.subrange(0, k as int).push(w@) + before.subrange(k as int, n as int));
    assert forall|i: int, j: int| 0 <= i < j < after.len() implies lex_lt(
        #[trigger] after[i],
        #[trigger] after[j],
    ) by {
        if j < k {
            assert(after[i] == before[i] && after[j] == before[j]);
        } else if j == k {
            assert(after[i] == before[i]);
            assert(lex_lt(out@[i]@, w@) || i >= k);
        } else if i == k {
            assert(after[j] == before[j - 1]);
        } else if i < k {
            assert(after[i] == before[i] && after[j] == before[j - 1]);
            lemma_lex_trans(before[i], w@, before[j - 1]);
        } else {
            assert(after[i] == before[i - 1] && after[j] == before[j - 1]);
        }
    }
    assert forall|x: Seq<char>| after.contains(x) <==> (before.contains(x) || x == w@) by {
        if after.contains(x) {
            let i = choose|i: int| 0 <= i < after.len() && after[i] == x;
            if i < k {
                assert(before[i] == x);
            } else if i > k {
                assert(before[i - 1] == x);
            }
        }
        if before.contains(x) {
            let i = choose|i: int| 0 <= i < before.len() && before[i] == x;
            if i < k {
                assert(after[i] == x);
            } else {
                assert(after[i + 1] == x);
            }
        }
        if x == w@ {
            assert(after[k as int] == x);
        }
    }
}

} // verus!

verus! {

pub proof fn lemma_last_index_bounds(s: Seq<char>, c: char)
    ensures
        last_index_of(s, c) matches Some(i) ==> 0 <= i < s.len(),
    decreases s.len(),
{
    if s.len() > 0 && s.last() != c {
        lemma_last_index_bounds(s.drop_last(), c);
    }
}

} // verus!

verus! {

/// The value of a non-empty run of ASCII digits, when it is at most `bound`.
pub open spec fn digits_in(d: Seq<char>, bound: nat) -> Option<nat> {
    if d.len() > 0 && all_digits(d) && digits_value(d) <= bound {
        Some(digits_value(d))
    } else {
        None
    }
}

/// `str::parse::<u64>()`: an optional `+`, then digits that fit in `u64`.
pub open spec fn parse_u64(s: Seq<char>) -> Option<u64> {
    match digits_in(strip_plus(s), u64::MAX as nat) {
        Some(n) => Some(n as u64),
        None => None,
    }
}

/// `str::parse::<i64>()`: an optional sign, then digits whose signed value
/// fits in `i64`.
pub open spec fn parse_i64(s: Seq<char>) -> Option<i64> {
    if s.len() > 0 && s[0] == '-' {
        match digits_in(s.drop_first(), 0x8000_0000_0000_0000nat) {
            Some(n) => Some((0 - n) as i64),
            None => None,
        }
    } else {
        match digits_in(strip_plus(s), i64::MAX as nat) {
            Some(n) => Some(n as i64),
            None => None,
        }
    }
}

/// Reads `v[lo..hi]` as digits bounded by `bound`.
fn digits_upto(v: &Vec<char>, lo: usize, hi: usize, bound: u64) -> (r: Option<u64>)
    requires
        lo <= hi <= v@.len(),
    ensures
        match digits_in(v@.subrange(lo as int, hi as int), bound as nat) {
            Some(n) => r == Some(n as u64),
            None => r is None,
        },
{
    let ghost d = v@.subrange(lo as int, hi as int);
    if lo == hi {
        return None;
    }
    let mut acc: u128 = 0;
    let mut i = lo;
    while i < hi
        invariant
            lo <= i <= hi <= v@.len(),
            d == v@.subrange(lo as int, hi as int),
            d.len() > 0,
            acc <= bound,
            acc == digits_value(v@.subrange(lo as int, i as int)),
            forall|k: int| lo <= k < i ==> is_digit(#[trigger] v@[k]),
        decreases hi - i,
    {
        let c = v[i];
        proof {
            lemma_digits_value_push(v@.subrange(lo as int, i as int), c);
            assert(v@.subrange(lo as int, i as int + 1) == v@.subrange(lo as int, i as int).push(c));
        }
        let u = c as u32;
        if !(48 <= u && u <= 57) {
            proof {
                assert(d[i - lo] == c);
                assert(!all_digits(d));
            }
            return None;
        }
        let next: u128 = acc * 10 + ((u - 48) as u128);
        if next > bound as u128 {
            proof {
                assert(d.subrange(0, i - lo + 1) == v@.subrange(lo as int, i as int + 1));
                if all_digits(d) {
                    lemma_digits_value_prefix(d, i - lo + 1);
                }
            }
            return None;
        }
        acc = next;
        i = i + 1;
    }
    assert(v@.subrange(lo as int, hi as int) == d);
    assert forall|k: int| 0 <= k < d.len() implies is_digit(#[trigger] d[k]) by {
        assert(d[k] == v@[lo + k]);
    }
    Some(acc as u64)
}

/// `s.parse::<u64>().ok()`.
pub fn parse_u64_str(s: &str) -> (r: Option<u64>)
    ensures
        r == parse_u64(s@),
{
    let v = to_chars(s);
    let n = v.len();
    let start: usize = if n > 0 && v[0] == '+' { 1 } else { 0 };
    assert(v@.subrange(start as int, n as int) == strip_plus(v@));
    digits_upto(&v, start, n, u64::MAX)
}

/// `s.parse::<i64>().ok()`.
pub fn parse_i64_str(s: &str) -> (r: Option<i64>)
    ensures
        r == parse_i64(s@),
{
    let v = to_chars(s);
    let n = v.len();
    if n > 0 && v[0] == '-' {
        assert(v@.subrange(1, n as int) == v@.drop_first());
        match digits_upto(&v, 1, n, 0x8000_0000_0000_0000u64) {
            Some(m) => {
                if m == 0x8000_0000_0000_0000u64 {
                    Some(i64::MIN)
                } else {
                    Some(0 - (m as i64))
                }
            },
            None => None,
        }
    } else {
        let start: usize = if n > 0 && v[0] == '+' { 1 } else { 0 };
        assert(v@.subrange(start as int, n as int) == strip_plus(v@));
        match digits_upto(&v, start, n, i64::MAX as u64) {
            Some(m) => Some(m as i64),
            None => None,
        }
    }
}

} // verus!
