//! Character-level helpers on strings.

use vstd::prelude::*;

verus! {

/// `String::push`: the contract states that `c` is appended to `s`.
#[verifier::external_body]
pub(crate) fn push_char(s: &mut String, c: char)
    ensures
        final(s)@ == old(s)@.push(c),
{
    s.push(c);
}

/// The characters of `s`, in order.
pub fn chars_of(s: &str) -> (v: Vec<char>)
    ensures
        v@ == s@,
{
    let n = s.unicode_len();
    let mut v: Vec<char> = Vec::new();
    let mut i: usize = 0;
    while i < n
        invariant
            n == s@.len(),
            i <= n,
            v@ == s@.take(i as int),
        decreases n - i,
    {
        v.push(s.get_char(i));
        assert(s@.take(i as int).push(s@[i as int]) =~= s@.take(i + 1));
        i = i + 1;
    }
    assert(s@.take(n as int) =~= s@);
    v
}

/// The string made of the given characters.
pub fn string_of(cs: &[char]) -> (r: String)
    ensures
        r@ == cs@,
{
    let mut r = String::new();
    let mut i: usize = 0;
    while i < cs.len()
        invariant
            i <= cs@.len(),
            r@ == cs@.take(i as int),
        decreases cs@.len() - i,
    {
        push_char(&mut r, cs[i]);
        assert(cs@.take(i as int).push(cs@[i as int]) =~= cs@.take(i + 1));
        i = i + 1;
    }
    assert(cs@.take(cs@.len() as int) =~= cs@);
    r
}

/// Whether `c` has the Unicode `White_Space` property, which
/// `char::is_whitespace` and `str::trim` go by: the controls U+0009 to
/// U+000D, space, U+0085, no-break space, U+1680, U+2000 to U+200A, the line
/// and paragraph separators, U+202F, U+205F and U+3000.
pub open spec fn white_space(c: char) -> bool {
    let u = c as u32;
    (0x09 <= u <= 0x0d) || u == 0x20 || u == 0x85 || u == 0xa0 || u == 0x1680 || (0x2000 <= u
        <= 0x200a) || u == 0x2028 || u == 0x2029 || u == 0x202f || u == 0x205f || u == 0x3000
}

/// Whether `c` is white space (`char::is_whitespace`).
pub fn is_white_space(c: char) -> (r: bool)
    ensures
        r == white_space(c),
{
    let u = c as u32;
    (0x09 <= u && u <= 0x0d) || u == 0x20 || u == 0x85 || u == 0xa0 || u == 0x1680 || (0x2000 <= u
        && u <= 0x200a) || u == 0x2028 || u == 0x2029 || u == 0x202f || u == 0x205f || u == 0x3000
}

/// The upper-case form of `s`, as `str::to_uppercase` computes it.
pub uninterp spec fn uppercase(s: Seq<char>) -> Seq<char>;

/// `str::to_uppercase`. The contract only names the result, which depends on
/// `s` alone; Unicode's case mapping is not restated.
#[verifier::external_body]
pub(crate) fn to_upper(s: &str) -> (r: String)
    ensures
        r@ == uppercase(s@),
{
    s.to_uppercase()
}

/// A text is blank when every character of it is white space: what is left
/// after trimming white space at both ends is then empty.
pub open spec fn blank(s: Seq<char>) -> bool {
    forall|i: int| 0 <= i < s.len() ==> white_space(#[trigger] s[i])
}

/// Whether `s` is blank (`s.trim().is_empty()`).
pub fn is_blank(s: &str) -> (r: bool)
    ensures
        r == blank(s@),
{
    let cs = chars_of(s);
    let mut i: usize = 0;
    while i < cs.len()
        invariant
            cs@ == s@,
            i <= cs@.len(),
            forall|j: int| 0 <= j < i ==> white_space(#[trigger] s@[j]),
        decreases cs@.len() - i,
    {
        if !is_white_space(cs[i]) {
            return false;
        }
        i = i + 1;
    }
    true
}

/// Whether two texts are equal.
pub fn same_text(a: &str, b: &str) -> (r: bool)
    ensures
        r == (a@ == b@),
{
    let x = chars_of(a);
    let y = chars_of(b);
    if x.len() != y.len() {
        return false;
    }
    let mut i: usize = 0;
    while i < x.len()
        invariant
            x@ == a@,
            y@ == b@,
            x@.len() == y@.len(),
            i <= x@.len(),
            forall|j: int| 0 <= j < i ==> x@[j] == y@[j],
        decreases x@.len() - i,
    {
        if x[i] != y[i] {
            return false;
        }
        i = i + 1;
    }
    assert(a@ =~= b@);
    true
}

/// The part of `s` before the first `c`; all of `s` when it holds no `c`.
pub open spec fn before(s: Seq<char>, c: char) -> Seq<char>
    decreases s.len(),
{
    if s.len() == 0 {
        s
    } else if s[0] == c {
        seq![]
    } else {
        seq![s[0]] + before(s.skip(1), c)
    }
}

/// The part of `s` after the first `c`, when it holds one.
pub open spec fn after(s: Seq<char>, c: char) -> Option<Seq<char>>
    decreases s.len(),
{
    if s.len() == 0 {
        None
    } else if s[0] == c {
        Some(s.skip(1))
    } else {
        after(s.skip(1), c)
    }
}

/// Where `s` first holds `c`, `before` and `after` split it there.
pub proof fn lemma_split_at(s: Seq<char>, c: char, k: int)
    requires
        0 <= k < s.len(),
        s[k] == c,
        forall|j: int| 0 <= j < k ==> s[j] != c,
    ensures
        before(s, c) == s.take(k),
        after(s, c) == Some(s.skip(k + 1)),
    decreases k,
{
    if k > 0 {
        lemma_split_at(s.skip(1), c, k - 1);
        assert(seq![s[0]] + s.skip(1).take(k - 1) =~= s.take(k));
        assert(s.skip(1).skip(k) =~= s.skip(k + 1));
    } else {
        assert(s.take(0) =~= seq![]);
    }
}

/// Without `c`, `before` keeps all of `s` and there is nothing after.
pub proof fn lemma_no_split(s: Seq<char>, c: char)
    requires
        forall|j: int| 0 <= j < s.len() ==> s[j] != c,
    ensures
        before(s, c) == s,
        after(s, c) is None,
    decreases s.len(),
{
    if s.len() > 0 {
        lemma_no_split(s.skip(1), c);
        assert(seq![s[0]] + s.skip(1) =~= s);
    }
}

/// What comes after a separator is shorter than the whole.
pub proof fn lemma_after_shorter(s: Seq<char>, c: char)
    ensures
        after(s, c) matches Some(r) ==> r.len() < s.len(),
    decreases s.len(),
{
    if s.len() > 0 && s[0] != c {
        lemma_after_shorter(s.skip(1), c);
    }
}

/// The first position of `c` in `cs`, if any.
pub fn find_char(cs: &Vec<char>, c: char) -> (r: Option<usize>)
    ensures
        r matches Some(k) ==> k < cs@.len() && cs@[k as int] == c && forall|j: int|
            0 <= j < k ==> cs@[j] != c,
        r is None ==> forall|j: int| 0 <= j < cs@.len() ==> cs@[j] != c,
{
    let mut i: usize = 0;
    while i < cs.len()
        invariant
            i <= cs@.len(),
            forall|j: int| 0 <= j < i ==> cs@[j] != c,
        decreases cs@.len() - i,
    {
        if cs[i] == c {
            return Some(i);
        }
        i = i + 1;
    }
    None
}

/// The characters of `cs` from `a` up to (not including) `b`.
pub fn slice_chars(cs: &Vec<char>, a: usize, b: usize) -> (r: Vec<char>)
    requires
        a <= b <= cs@.len(),
    ensures
        r@ == cs@.subrange(a as int, b as int),
{
    let mut r: Vec<char> = Vec::new();
    let mut i: usize = a;
    while i < b
        invariant
            a <= i <= b <= cs@.len(),
            r@ == cs@.subrange(a as int, i as int),
        decreases b - i,
    {
        r.push(cs[i]);
        assert(cs@.subrange(a as int, i as int).push(cs@[i as int]) =~= cs@.subrange(a as int, i + 1));
        i = i + 1;
    }
    r
}

/// The part of `cs` before the first `c`.
pub fn before_char(cs: &Vec<char>, c: char) -> (r: Vec<char>)
    ensures
        r@ == before(cs@, c),
{
    match find_char(cs, c) {
        Some(k) => {
            proof {
                lemma_split_at(cs@, c, k as int);
            }
            slice_chars(cs, 0, k)
        },
        None => {
            proof {
                lemma_no_split(cs@, c);
            }
            slice_chars(cs, 0, cs.len())
        },
    }
}

/// The part of `cs` after the first `c`, if it holds one.
pub fn after_char(cs: &Vec<char>, c: char) -> (r: Option<Vec<char>>)
    ensures
        r matches Some(v) ==> after(cs@, c) == Some(v@),
        r is None ==> after(cs@, c) is None,
{
    match find_char(cs, c) {
        Some(k) => {
            proof {
                lemma_split_at(cs@, c, k as int);
            }
            let n = cs.len();
            Some(slice_chars(cs, k + 1, n))
        },
        None => {
            proof {
                lemma_no_split(cs@, c);
            }
            None
        },
    }
}

/// Whether `cs` starts with `prefix`.
pub fn starts_with(cs: &Vec<char>, prefix: &str) -> (r: bool)
    ensures
        r == prefix@.is_prefix_of(cs@),
{
    let p = chars_of(prefix);
    if p.len() > cs.len() {
        return false;
    }
    let mut i: usize = 0;
    while i < p.len()
        invariant
            p@ == prefix@,
            p@.len() <= cs@.len(),
            i <= p@.len(),
            forall|j: int| 0 <= j < i ==> p@[j] == cs@[j],
        decreases p@.len() - i,
    {
        if p[i] != cs[i] {
            return false;
        }
        i = i + 1;
    }
    assert(prefix@ =~= cs@.subrange(0, prefix@.len() as int));
    true
}

/// The characters with trailing `c`s removed (`str::trim_end_matches`).
pub open spec fn strip_trailing(s: Seq<char>, c: char) -> Seq<char>
    decreases s.len(),
{
    if s.len() > 0 && s.last() == c {
        strip_trailing(s.drop_last(), c)
    } else {
        s
    }
}

/// Removes the trailing `c`s of `cs`.
pub fn strip_trailing_chars(cs: &Vec<char>, c: char) -> (r: Vec<char>)
    ensures
        r@ == strip_trailing(cs@, c),
{
    let mut n: usize = cs.len();
    assert(cs@.take(cs@.len() as int) =~= cs@);
    while n > 0 && cs[n - 1] == c
        invariant
            n <= cs@.len(),
            strip_trailing(cs@.take(n as int), c) == strip_trailing(cs@, c),
        decreases n,
    {
        assert(cs@.take(n as int).drop_last() =~= cs@.take(n - 1));
        n = n - 1;
    }
    assert(cs@.take(cs@.len() as int) =~= cs@);
    slice_chars(cs, 0, n)
}

/// `s` without its leading white space.
pub open spec fn trim_start(s: Seq<char>) -> Seq<char>
    decreases s.len(),
{
    if s.len() > 0 && white_space(s[0]) {
        trim_start(s.skip(1))
    } else {
        s
    }
}

/// `s` without its trailing white space.
pub open spec fn trim_end(s: Seq<char>) -> Seq<char>
    decreases s.len(),
{
    if s.len() > 0 && white_space(s.last()) {
        trim_end(s.drop_last())
    } else {
        s
    }
}

/// `s` without white space at either end (`str::trim`).
pub open spec fn trimmed(s: Seq<char>) -> Seq<char> {
    trim_end(trim_start(s))
}

/// Removes the white space at both ends of `cs`.
pub fn trim_chars(cs: &Vec<char>) -> (r: Vec<char>)
    ensures
        r@ == trimmed(cs@),
{
    let mut a: usize = 0;
    assert(cs@.skip(0) =~= cs@);
    while a < cs.len() && is_white_space(cs[a])
        invariant
            a <= cs@.len(),
            trim_start(cs@.skip(a as int)) == trim_start(cs@),
        decreases cs@.len() - a,
    {
        assert(cs@.skip(a as int).skip(1) =~= cs@.skip(a + 1));
        a = a + 1;
    }
    let mut b: usize = cs.len();
    assert(cs@.skip(a as int) =~= cs@.subrange(a as int, b as int));
    assert(trim_start(cs@.skip(a as int)) == cs@.skip(a as int));
    while b > a && is_white_space(cs[b - 1])
        invariant
            a <= b <= cs@.len(),
            trim_start(cs@) == cs@.skip(a as int),
            trim_end(cs@.subrange(a as int, b as int)) == trimmed(cs@),
        decreases b,
    {
        assert(cs@.subrange(a as int, b as int).drop_last() =~= cs@.subrange(a as int, b - 1));
        b = b - 1;
    }
    slice_chars(cs, a, b)
}

/// Without a `c` after it, everything stands before the first `c`.
pub proof fn lemma_before_whole(s: Seq<char>, c: char)
    requires
        after(s, c) is None,
    ensures
        before(s, c) == s,
    decreases s.len(),
{
    if s.len() > 0 {
        lemma_before_whole(s.skip(1), c);
        assert(seq![s[0]] + s.skip(1) =~= s);
    }
}

/// Flat-mapping splits at the first element.
pub proof fn lemma_flat_map_first<A, B>(s: Seq<A>, f: spec_fn(A) -> Seq<B>)
    requires
        s.len() > 0,
    ensures
        s.flat_map(f) == f(s[0]) + s.drop_first().flat_map(f),
{
    assert(s.map_values(f).drop_first() =~= s.drop_first().map_values(f));
}

/// When `p` holds no `c`, splitting `p + s` at `c` splits `s`.
pub proof fn lemma_split_after_prefix(p: Seq<char>, s: Seq<char>, c: char)
    requires
        forall|j: int| 0 <= j < p.len() ==> p[j] != c,
    ensures
        before(p + s, c) == p + before(s, c),
        after(p + s, c) == after(s, c),
    decreases p.len(),
{
    if p.len() > 0 {
        lemma_split_after_prefix(p.skip(1), s, c);
        assert((p + s).skip(1) =~= p.skip(1) + s);
        assert(seq![p[0]] + (p.skip(1) + before(s, c)) =~= p + before(s, c));
    } else {
        assert(p + s =~= s);
        assert(p + before(s, c) =~= before(s, c));
    }
}

} // verus!
