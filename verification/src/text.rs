//! Character and string primitives shared by the parsers.

use vstd::prelude::*;
use vstd::std_specs::iter::IteratorSpec;

verus! {

/// Unicode `White_Space` property, as `char::is_whitespace` defines it.
pub open spec fn spec_is_whitespace(c: char) -> bool {
    let u = c as u32;
    ||| (0x09 <= u && u <= 0x0D)
    ||| u == 0x20
    ||| u == 0x85
    ||| u == 0xA0
    ||| u == 0x1680
    ||| (0x2000 <= u && u <= 0x200A)
    ||| u == 0x2028
    ||| u == 0x2029
    ||| u == 0x202F
    ||| u == 0x205F
    ||| u == 0x3000
}

/// Whether `c` is a Unicode white-space character.
pub fn is_whitespace(c: char) -> (r: bool)
    ensures
        r == spec_is_whitespace(c),
{
    let u = c as u32;
    (0x09 <= u && u <= 0x0D) || u == 0x20 || u == 0x85 || u == 0xA0 || u == 0x1680
        || (0x2000 <= u && u <= 0x200A) || u == 0x2028 || u == 0x2029 || u == 0x202F
        || u == 0x205F || u == 0x3000
}

/// Collects the characters of a string.
pub fn chars_of(s: &str) -> (v: Vec<char>)
    ensures
        v@ == s@,
{
    broadcast use vstd::string::axiom_spec_iter, vstd::string::next_postcondition;

    let mut v: Vec<char> = Vec::new();
    let mut it = s.chars();
    loop
        invariant
            v@ + it.remaining() == s@,
            it.obeys_prophetic_iter_laws(),
            it.decrease() is Some,
        decreases it.decrease()->0,
    {
        let ghost before = it.remaining();
        match it.next() {
            Some(c) => {
                v.push(c);
                assert(v@ + it.remaining() =~= s@) by {
                    assert(before =~= seq![c] + it.remaining());
                }
            },
            None => {
                assert(v@ =~= s@);
                return v;
            },
        }
    }
}

/// Appends one character to a `String`.
#[verifier::external_body]
pub(crate) fn push_char(s: &mut String, c: char)
    ensures
        final(s)@ == old(s)@.push(c),
{
    s.push(c)
}

/// Builds a `String` holding exactly the given characters.
pub fn string_from(v: &Vec<char>) -> (s: String)
    ensures
        s@ == v@,
{
    let mut s = String::new();
    let mut i: usize = 0;
    while i < v.len()
        invariant
            i <= v.len(),
            s@ == v@.take(i as int),
        decreases v.len() - i,
    {
        push_char(&mut s, v[i]);
        assert(v@.take((i + 1) as int) =~= v@.take(i as int).push(v@[i as int]));
        i = i + 1;
    }
    assert(v@.take(v.len() as int) =~= v@);
    s
}

/// Character-wise equality of two string slices.
pub fn str_eq(a: &str, b: &str) -> (r: bool)
    ensures
        r == (a@ == b@),
{
    let x: String = a.to_owned();
    let y: String = b.to_owned();
    x == y
}

/// Character-wise equality of two character sequences.
pub fn chars_eq(a: &Vec<char>, b: &Vec<char>) -> (r: bool)
    ensures
        r == (a@ == b@),
{
    if a.len() != b.len() {
        return false;
    }
    let mut i: usize = 0;
    while i < a.len()
        invariant
            a.len() == b.len(),
            i <= a.len(),
            forall|k: int| 0 <= k < i ==> a@[k] == b@[k],
        decreases a.len() - i,
    {
        if a[i] != b[i] {
            return false;
        }
        i = i + 1;
    }
    assert(a@ =~= b@);
    true
}

/// Whether the characters of `a` spell the string slice `lit`.
pub fn chars_eq_str(a: &Vec<char>, lit: &str) -> (r: bool)
    ensures
        r == (a@ == lit@),
{
    let b = chars_of(lit);
    chars_eq(a, &b)
}

// ---------------------------------------------------------------------------
// Trimming
// ---------------------------------------------------------------------------

/// `s` without its leading white space.
pub open spec fn trim_start(s: Seq<char>) -> Seq<char>
    decreases s.len(),
{
    if s.len() > 0 && spec_is_whitespace(s[0]) {
        trim_start(s.drop_first())
    } else {
        s
    }
}

/// `s` without its trailing white space.
pub open spec fn trim_end(s: Seq<char>) -> Seq<char>
    decreases s.len(),
{
    if s.len() > 0 && spec_is_whitespace(s.last()) {
        trim_end(s.drop_last())
    } else {
        s
    }
}

/// `s` without leading and trailing white space (`str::trim`).
pub open spec fn seq_trim(s: Seq<char>) -> Seq<char> {
    trim_end(trim_start(s))
}

proof fn lemma_trim_start_skip(s: Seq<char>, i: int)
    requires
        0 <= i < s.len(),
        spec_is_whitespace(s[i]),
    ensures
        trim_start(s.skip(i)) == trim_start(s.skip(i + 1)),
{
    assert(s.skip(i).drop_first() =~= s.skip(i + 1));
}

proof fn lemma_trim_end_take(s: Seq<char>, j: int)
    requires
        0 < j <= s.len(),
        spec_is_whitespace(s[j - 1]),
    ensures
        trim_end(s.take(j)) == trim_end(s.take(j - 1)),
{
    assert(s.take(j).drop_last() =~= s.take(j - 1));
}

/// Removes leading and trailing white space from a character sequence.
pub fn trim_chars(v: &Vec<char>) -> (r: Vec<char>)
    ensures
        r@ == seq_trim(v@),
{
    let n = v.len();
    let mut i: usize = 0;
    assert(v@.skip(0) =~= v@);
    while i < n && is_whitespace(v[i])
        invariant
            n == v.len(),
            i <= n,
            trim_start(v@) == trim_start(v@.skip(i as int)),
        decreases n - i,
    {
        proof {
            lemma_trim_start_skip(v@, i as int);
        }
        i = i + 1;
    }
    let ghost t = v@.skip(i as int);
    assert(trim_start(v@) == t) by {
        if i == n {
            assert(t.len() == 0);
        }
    }
    let mut j: usize = n;
    assert(t.take(n - i) =~= t);
    while j > i && is_whitespace(v[j - 1])
        invariant
            n == v.len(),
            i <= j <= n,
            t == v@.skip(i as int),
            trim_end(t) == trim_end(t.take(j - i)),
        decreases j,
    {
        proof {
            lemma_trim_end_take(t, (j - i) as int);
        }
        j = j - 1;
    }
    let mut r: Vec<char> = Vec::new();
    let mut k: usize = i;
    while k < j
        invariant
            i <= k <= j <= n,
            n == v.len(),
            r@ == v@.subrange(i as int, k as int),
        decreases j - k,
    {
        r.push(v[k]);
        assert(r@ =~= v@.subrange(i as int, (k + 1) as int));
        k = k + 1;
    }
    assert(trim_end(t) == t.take(j - i)) by {
        if j > i {
            assert(t.take(j - i).last() == v@[j - 1]);
        }
    }
    assert(r@ =~= t.take(j - i));
    r
}

/// `str::trim`, returning the characters.
pub fn trim(s: &str) -> (r: Vec<char>)
    ensures
        r@ == seq_trim(s@),
{
    let v = chars_of(s);
    trim_chars(&v)
}

// ---------------------------------------------------------------------------
// ASCII classes and case folding
// ---------------------------------------------------------------------------

pub open spec fn spec_is_ascii_lowercase(c: char) -> bool {
    'a' <= c && c <= 'z'
}

pub open spec fn spec_is_ascii_uppercase(c: char) -> bool {
    'A' <= c && c <= 'Z'
}

pub open spec fn spec_is_ascii_digit(c: char) -> bool {
    '0' <= c && c <= '9'
}

pub open spec fn spec_is_ascii_alphanumeric(c: char) -> bool {
    spec_is_ascii_lowercase(c) || spec_is_ascii_uppercase(c) || spec_is_ascii_digit(c)
}

/// `char::to_ascii_lowercase`.
pub open spec fn spec_ascii_lower(c: char) -> char {
    if spec_is_ascii_uppercase(c) {
        ((c as u32) + 32) as char
    } else {
        c
    }
}

/// `str::eq_ignore_ascii_case`.
pub open spec fn spec_eq_ignore_ascii_case(a: Seq<char>, b: Seq<char>) -> bool {
    a.len() == b.len() && forall|i: int|
        0 <= i < a.len() ==> spec_ascii_lower(#[trigger] a[i]) == spec_ascii_lower(b[i])
}

pub fn ascii_lower(c: char) -> (r: char)
    ensures
        r == spec_ascii_lower(c),
{
    if 'A' <= c && c <= 'Z' {
        let u: u8 = ((c as u32) + 32) as u8;
        u as char
    } else {
        c
    }
}

pub fn eq_ignore_ascii_case(a: &Vec<char>, b: &Vec<char>) -> (r: bool)
    ensures
        r == spec_eq_ignore_ascii_case(a@, b@),
{
    if a.len() != b.len() {
        return false;
    }
    let mut i: usize = 0;
    while i < a.len()
        invariant
            a.len() == b.len(),
            i <= a.len(),
            forall|k: int| 0 <= k < i ==> spec_ascii_lower(#[trigger] a@[k]) == spec_ascii_lower(b@[k]),
        decreases a.len() - i,
    {
        if ascii_lower(a[i]) != ascii_lower(b[i]) {
            return false;
        }
        i = i + 1;
    }
    true
}

// ---------------------------------------------------------------------------
// Searching and splitting
// ---------------------------------------------------------------------------

/// Whether `needle` occurs in `hay` at position `i`.
pub open spec fn occurs_at(hay: Seq<char>, needle: Seq<char>, i: int) -> bool {
    0 <= i && i + needle.len() <= hay.len() && hay.subrange(i, i + needle.len()) == needle
}

/// `str::contains` with a string pattern.
pub open spec fn seq_contains(hay: Seq<char>, needle: Seq<char>) -> bool {
    exists|i: int| occurs_at(hay, needle, i)
}

pub fn contains(hay: &Vec<char>, needle: &Vec<char>) -> (r: bool)
    ensures
        r == seq_contains(hay@, needle@),
{
    if needle.len() > hay.len() {
        assert forall|i: int| !occurs_at(hay@, needle@, i) by {}
        return false;
    }
    let last = hay.len() - needle.len();
    let mut i: usize = 0;
    while i <= last
        invariant
            last == hay.len() - needle.len(),
            needle.len() <= hay.len(),
            forall|k: int| 0 <= k < i ==> !occurs_at(hay@, needle@, k),
        decreases last + 1 - i,
    {
        let mut j: usize = 0;
        let mut ok = true;
        while j < needle.len()
            invariant
                i <= last,
                last == hay.len() - needle.len(),
                j <= needle.len(),
                ok ==> forall|m: int| 0 <= m < j ==> hay@[i + m] == needle@[m],
                !ok ==> !occurs_at(hay@, needle@, i as int),
            decreases needle.len() - j,
        {
            if hay[i + j] != needle[j] {
                ok = false;
                assert(hay@.subrange(i as int, i + needle@.len())[j as int] != needle@[j as int]);
            }
            j = j + 1;
        }
        if ok {
            assert(hay@.subrange(i as int, i + needle@.len()) =~= needle@);
            assert(occurs_at(hay@, needle@, i as int));
            return true;
        }
        if i == last {
            assert forall|k: int| !occurs_at(hay@, needle@, k) by {
                if 0 <= k && k < i {} else if k == i {} else {}
            }
            return false;
        }
        i = i + 1;
    }
    false
}

/// Index of the first occurrence of `c` in `s`, if any.
pub open spec fn first_index_of(s: Seq<char>, c: char) -> Option<int> {
    if exists|i: int| 0 <= i < s.len() && s[i] == c {
        Some(choose|i: int| 0 <= i < s.len() && s[i] == c && forall|k: int| 0 <= k < i ==> s[k] != c)
    } else {
        None
    }
}

pub proof fn lemma_first_index_of(s: Seq<char>, c: char, i: int)
    requires
        0 <= i < s.len(),
        s[i] == c,
        forall|k: int| 0 <= k < i ==> s[k] != c,
    ensures
        first_index_of(s, c) == Some(i),
{
    let j = choose|j: int| 0 <= j < s.len() && s[j] == c && forall|k: int| 0 <= k < j ==> s[k] != c;
    assert(0 <= j < s.len() && s[j] == c && forall|k: int| 0 <= k < j ==> s[k] != c);
    if j < i {
        assert(s[j] != c);
    }
    if i < j {
        assert(s[i] != c);
    }
}

/// Finds the first index of `c`.
pub fn find_char(v: &Vec<char>, c: char) -> (r: Option<usize>)
    ensures
        match r {
            Some(i) => first_index_of(v@, c) == Some(i as int) && i < v.len(),
            None => first_index_of(v@, c) is None,
        },
{
    let mut i: usize = 0;
    while i < v.len()
        invariant
            i <= v.len(),
            forall|k: int| 0 <= k < i ==> v@[k] != c,
        decreases v.len() - i,
    {
        if v[i] == c {
            proof {
                lemma_first_index_of(v@, c, i as int);
            }
            return Some(i);
        }
        i = i + 1;
    }
    None
}

/// `str::split_once` with a single-character pattern.
pub open spec fn seq_split_once(s: Seq<char>, c: char) -> Option<(Seq<char>, Seq<char>)> {
    match first_index_of(s, c) {
        Some(i) => Some((s.take(i), s.skip(i + 1))),
        None => None,
    }
}

/// Splits `v` at the first `c`.
pub fn split_once(v: &Vec<char>, c: char) -> (r: Option<(Vec<char>, Vec<char>)>)
    ensures
        match r {
            Some(p) => seq_split_once(v@, c) == Some((p.0@, p.1@)),
            None => seq_split_once(v@, c) is None,
        },
{
    match find_char(v, c) {
        None => None,
        Some(i) => {
            let a = subvec(v, 0, i);
            let b = subvec(v, i + 1, v.len());
            assert(a@ =~= v@.take(i as int));
            assert(b@ =~= v@.skip(i + 1));
            Some((a, b))
        },
    }
}

/// Copies `v[lo..hi]`.
pub fn subvec(v: &Vec<char>, lo: usize, hi: usize) -> (r: Vec<char>)
    requires
        lo <= hi <= v.len(),
    ensures
        r@ == v@.subrange(lo as int, hi as int),
{
    let mut r: Vec<char> = Vec::new();
    let mut k = lo;
    while k < hi
        invariant
            lo <= k <= hi <= v.len(),
            r@ == v@.subrange(lo as int, k as int),
        decreases hi - k,
    {
        r.push(v[k]);
        assert(r@ =~= v@.subrange(lo as int, (k + 1) as int));
        k = k + 1;
    }
    r
}

/// `str::split` with a single-character pattern: the pieces between
/// the occurrences of `c`, in order (always at least one piece).
#[verifier::opaque]
pub open spec fn seq_split(s: Seq<char>, c: char) -> Seq<Seq<char>>
    decreases s.len(),
{
    match first_index_of(s, c) {
        Some(i) => {
            if 0 <= i < s.len() {
                seq![s.take(i)] + seq_split(s.skip(i + 1), c)
            } else {
                seq![s]
            }
        },
        None => seq![s],
    }
}

/// The character sequences held by a vector of character vectors.
pub open spec fn char_views(v: Seq<Vec<char>>) -> Seq<Seq<char>> {
    v.map_values(|x: Vec<char>| x@)
}

proof fn lemma_split_found(s: Seq<char>, c: char, i: int)
    requires
        0 <= i < s.len(),
        s[i] == c,
        forall|k: int| 0 <= k < i ==> s[k] != c,
    ensures
        seq_split(s, c) == seq![s.take(i)] + seq_split(s.skip(i + 1), c),
{
    reveal(seq_split);
    lemma_first_index_of(s, c, i);
}

proof fn lemma_split_none(s: Seq<char>, c: char)
    requires
        forall|k: int| 0 <= k < s.len() ==> s[k] != c,
    ensures
        seq_split(s, c) == seq![s],
{
    reveal(seq_split);
    assert(!(exists|i: int| 0 <= i < s.len() && s[i] == c));
}

/// The first index of `c` in `s`, found by recursion.
proof fn first_of(s: Seq<char>, c: char) -> (r: Option<int>)
    ensures
        match r {
            Some(i) => 0 <= i < s.len() && s[i] == c && forall|k: int| 0 <= k < i ==> s[k] != c,
            None => forall|k: int| 0 <= k < s.len() ==> s[k] != c,
        },
    decreases s.len(),
{
    if s.len() == 0 {
        None
    } else {
        let p = s.drop_last();
        match first_of(p, c) {
            Some(i) => {
                assert(s[i] == p[i]);
                assert forall|k: int| 0 <= k < i implies s[k] != c by {
                    assert(s[k] == p[k]);
                }
                Some(i)
            },
            None => if s.last() == c {
                assert forall|k: int| 0 <= k < s.len() - 1 implies s[k] != c by {
                    assert(s[k] == p[k]);
                }
                Some(s.len() - 1)
            } else {
                assert forall|k: int| 0 <= k < s.len() implies s[k] != c by {
                    if k < s.len() - 1 {
                        assert(s[k] == p[k]);
                    }
                }
                None
            },
        }
    }
}

/// Splitting `a`, `c`, `b` gives the pieces of `a` followed by those
/// of `b`.
pub proof fn lemma_split_concat(a: Seq<char>, b: Seq<char>, c: char)
    ensures
        seq_split(a + seq![c] + b, c) == seq_split(a, c) + seq_split(b, c),
    decreases a.len(),
{
    let s = a + seq![c] + b;
    match first_of(a, c) {
        Some(i) => {
            assert(s[i] == a[i]);
            assert forall|k: int| 0 <= k < i implies s[k] != c by {
                assert(s[k] == a[k]);
            }
            lemma_split_found(s, c, i);
            lemma_split_found(a, c, i);
            assert(s.take(i) =~= a.take(i));
            assert(s.skip(i + 1) =~= a.skip(i + 1) + seq![c] + b);
            lemma_split_concat(a.skip(i + 1), b, c);
            assert(seq![a.take(i)] + (seq_split(a.skip(i + 1), c) + seq_split(b, c)) =~= (seq![a.take(i)] + seq_split(
                a.skip(i + 1),
                c,
            )) + seq_split(b, c));
        },
        None => {
            assert(s[a.len() as int] == c);
            assert forall|k: int| 0 <= k < a.len() implies s[k] != c by {
                assert(s[k] == a[k]);
            }
            lemma_split_found(s, c, a.len() as int);
            lemma_split_none(a, c);
            assert(s.take(a.len() as int) =~= a);
            assert(s.skip(a.len() as int + 1) =~= b);
        },
    }
}

/// A character other than `c` put in front joins the first piece.
pub proof fn lemma_split_cons(w: char, s: Seq<char>, c: char)
    requires
        w != c,
    ensures
        seq_split(s, c).len() > 0,
        seq_split(seq![w] + s, c) == seq![seq![w] + seq_split(s, c)[0]] + seq_split(s, c).drop_first(),
{
    let t = seq![w] + s;
    match first_of(s, c) {
        Some(i) => {
            assert(t[i + 1] == s[i]);
            assert forall|k: int| 0 <= k < i + 1 implies t[k] != c by {
                if k > 0 {
                    assert(t[k] == s[k - 1]);
                }
            }
            lemma_split_found(t, c, i + 1);
            lemma_split_found(s, c, i);
            assert(t.take(i + 1) =~= seq![w] + s.take(i));
            assert(t.skip(i + 2) =~= s.skip(i + 1));
            assert((seq![s.take(i)] + seq_split(s.skip(i + 1), c)).drop_first() =~= seq_split(s.skip(i + 1), c));
        },
        None => {
            assert forall|k: int| 0 <= k < t.len() implies t[k] != c by {
                if k > 0 {
                    assert(t[k] == s[k - 1]);
                }
            }
            lemma_split_none(t, c);
            lemma_split_none(s, c);
            assert(seq![s].drop_first() =~= Seq::<Seq<char>>::empty());
            assert(seq![seq![w] + s] + Seq::<Seq<char>>::empty() =~= seq![seq![w] + s]);
        },
    }
}

/// A character other than `c` put at the end joins the last piece.
pub proof fn lemma_split_snoc(s: Seq<char>, w: char, c: char)
    requires
        w != c,
    ensures
        seq_split(s, c).len() > 0,
        seq_split(s.push(w), c) == seq_split(s, c).update(
            seq_split(s, c).len() - 1,
            seq_split(s, c).last().push(w),
        ),
    decreases s.len(),
{
    let t = s.push(w);
    match first_of(s, c) {
        Some(i) => {
            assert(t[i] == s[i]);
            assert forall|k: int| 0 <= k < i implies t[k] != c by {
                assert(t[k] == s[k]);
            }
            lemma_split_found(t, c, i);
            lemma_split_found(s, c, i);
            assert(t.take(i) =~= s.take(i));
            assert(t.skip(i + 1) =~= s.skip(i + 1).push(w));
            lemma_split_snoc(s.skip(i + 1), w, c);
            let r = seq_split(s.skip(i + 1), c);
            assert(seq![s.take(i)] + r.update(r.len() - 1, r.last().push(w)) =~= (seq![s.take(i)] + r).update(
                r.len() as int,
                (seq![s.take(i)] + r).last().push(w),
            ));
        },
        None => {
            assert forall|k: int| 0 <= k < t.len() implies t[k] != c by {
                if k < s.len() {
                    assert(t[k] == s[k]);
                }
            }
            lemma_split_none(t, c);
            lemma_split_none(s, c);
            assert(seq![s].update(0, s.push(w)) =~= seq![s.push(w)]);
        },
    }
}

/// Leading white space does not reach past `str::trim`.
pub proof fn lemma_trim_cons(w: char, x: Seq<char>)
    requires
        spec_is_whitespace(w),
    ensures
        seq_trim(seq![w] + x) == seq_trim(x),
{
    assert((seq![w] + x).drop_first() =~= x);
}

/// `trim_start` of a concatenation.
proof fn lemma_trim_start_append(x: Seq<char>, y: Seq<char>)
    ensures
        trim_start(x + y) == if trim_start(x).len() > 0 {
            trim_start(x) + y
        } else {
            trim_start(y)
        },
    decreases x.len(),
{
    if x.len() == 0 {
        assert(x + y =~= y);
    } else if spec_is_whitespace(x[0]) {
        assert((x + y)[0] == x[0]);
        assert((x + y).drop_first() =~= x.drop_first() + y);
        lemma_trim_start_append(x.drop_first(), y);
    } else {
        assert((x + y)[0] == x[0]);
    }
}

/// Trailing white space does not reach past `str::trim`.
pub proof fn lemma_trim_snoc(x: Seq<char>, w: char)
    requires
        spec_is_whitespace(w),
    ensures
        seq_trim(x.push(w)) == seq_trim(x),
{
    assert(x.push(w) =~= x + seq![w]);
    lemma_trim_start_append(x, seq![w]);
    if trim_start(x).len() > 0 {
        assert((trim_start(x) + seq![w]).drop_last() =~= trim_start(x));
    } else {
        assert(seq![w].drop_first() =~= Seq::<char>::empty());
        assert(trim_start(seq![w]) == trim_start(Seq::<char>::empty()));
        assert(trim_start(x) =~= Seq::<char>::empty());
    }
}

/// Two lists of pieces that agree piece by piece once trimmed.
pub open spec fn trim_equiv(xs: Seq<Seq<char>>, ys: Seq<Seq<char>>) -> bool {
    &&& xs.len() == ys.len()
    &&& forall|i: int| 0 <= i < xs.len() ==> seq_trim(#[trigger] xs[i]) == seq_trim(ys[i])
}

/// Trimming the start of a text only trims the start of its first
/// piece.
proof fn lemma_split_trim_start(s: Seq<char>, c: char)
    requires
        !spec_is_whitespace(c),
    ensures
        trim_equiv(seq_split(trim_start(s), c), seq_split(s, c)),
    decreases s.len(),
{
    if s.len() > 0 && spec_is_whitespace(s[0]) {
        let rest = s.drop_first();
        lemma_split_trim_start(rest, c);
        assert(s =~= seq![s[0]] + rest);
        lemma_split_cons(s[0], rest, c);
        let xs = seq_split(trim_start(rest), c);
        let ys = seq_split(rest, c);
        let zs = seq_split(s, c);
        assert forall|i: int| 0 <= i < xs.len() implies seq_trim(#[trigger] xs[i]) == seq_trim(zs[i]) by {
            assert(seq_trim(xs[i]) == seq_trim(ys[i]));
            if i == 0 {
                lemma_trim_cons(s[0], ys[0]);
            } else {
                assert(zs[i] == ys[i]);
            }
        }
    }
}

/// Trimming the end of a text only trims the end of its last piece.
proof fn lemma_split_trim_end(s: Seq<char>, c: char)
    requires
        !spec_is_whitespace(c),
    ensures
        trim_equiv(seq_split(trim_end(s), c), seq_split(s, c)),
    decreases s.len(),
{
    if s.len() > 0 && spec_is_whitespace(s.last()) {
        let rest = s.drop_last();
        lemma_split_trim_end(rest, c);
        assert(s =~= rest.push(s.last()));
        lemma_split_snoc(rest, s.last(), c);
        let xs = seq_split(trim_end(rest), c);
        let ys = seq_split(rest, c);
        let zs = seq_split(s, c);
        assert forall|i: int| 0 <= i < xs.len() implies seq_trim(#[trigger] xs[i]) == seq_trim(zs[i]) by {
            assert(seq_trim(xs[i]) == seq_trim(ys[i]));
            if i == ys.len() - 1 {
                lemma_trim_snoc(ys[i], s.last());
            } else {
                assert(zs[i] == ys[i]);
            }
        }
    }
}

/// Trimming a text only trims its first and last pieces.
pub proof fn lemma_split_trim(s: Seq<char>, c: char)
    requires
        !spec_is_whitespace(c),
    ensures
        trim_equiv(seq_split(seq_trim(s), c), seq_split(s, c)),
{
    lemma_split_trim_end(trim_start(s), c);
    lemma_split_trim_start(s, c);
    let xs = seq_split(seq_trim(s), c);
    let ys = seq_split(trim_start(s), c);
    let zs = seq_split(s, c);
    assert forall|i: int| 0 <= i < xs.len() implies seq_trim(#[trigger] xs[i]) == seq_trim(zs[i]) by {
        assert(seq_trim(xs[i]) == seq_trim(ys[i]));
    }
}

/// The empty text is one empty piece.
pub proof fn lemma_split_empty(c: char)
    ensures
        seq_split(Seq::<char>::empty(), c) == seq![Seq::<char>::empty()],
{
    lemma_split_none(Seq::<char>::empty(), c);
}

proof fn lemma_char_views_push(v: Seq<Vec<char>>, x: Vec<char>)
    ensures
        char_views(v.push(x)) == char_views(v).push(x@),
{
    assert(char_views(v.push(x)) =~= char_views(v).push(x@));
}

proof fn lemma_seq_assoc_push(prev: Seq<Seq<char>>, a: Seq<char>, b: Seq<Seq<char>>)
    ensures
        prev + (seq![a] + b) == prev.push(a) + b,
{
    assert(prev + (seq![a] + b) =~= prev.push(a) + b);
}

#[verifier::rlimit(60)]
proof fn lemma_split_step(v: Seq<char>, c: char, pos: int, f: int, prev: Seq<Seq<char>>)
    requires
        0 <= pos <= f < v.len(),
        v[f] == c,
        forall|k: int| pos <= k < f ==> v[k] != c,
        prev + seq_split(v.skip(pos), c) == seq_split(v, c),
    ensures
        prev.push(v.subrange(pos, f)) + seq_split(v.skip(f + 1), c) == seq_split(v, c),
{
    let rest = v.skip(pos);
    let i = f - pos;
    assert(rest[i] == c);
    assert forall|k: int| 0 <= k < i implies rest[k] != c by {
        assert(rest[k] == v[pos + k]);
    }
    lemma_split_found(rest, c, i);
    let a = rest.take(i);
    let tail = rest.skip(i + 1);
    assert(a =~= v.subrange(pos, f));
    assert(tail =~= v.skip(f + 1));
    let b = seq_split(tail, c);
    assert(seq_split(rest, c) == seq![a] + b);
    lemma_seq_assoc_push(prev, a, b);
    assert(prev.push(v.subrange(pos, f)) + seq_split(v.skip(f + 1), c) == prev.push(a) + b);
}

proof fn lemma_split_last(v: Seq<char>, c: char, pos: int, prev: Seq<Seq<char>>)
    requires
        0 <= pos <= v.len(),
        forall|k: int| pos <= k < v.len() ==> v[k] != c,
        prev + seq_split(v.skip(pos), c) == seq_split(v, c),
    ensures
        prev.push(v.subrange(pos, v.len() as int)) == seq_split(v, c),
{
    let rest = v.skip(pos);
    assert forall|k: int| 0 <= k < rest.len() implies rest[k] != c by {
        assert(rest[k] == v[pos + k]);
    }
    lemma_split_none(rest, c);
    assert(rest =~= v.subrange(pos, v.len() as int));
    assert(prev + seq_split(rest, c) =~= prev.push(v.subrange(pos, v.len() as int)));
}

/// Splits `v` at every `c` (`str::split` with a character pattern).
pub fn split_chars(v: &Vec<char>, c: char) -> (r: Vec<Vec<char>>)
    ensures
        char_views(r@) == seq_split(v@, c),
{
    let n = v.len();
    let mut out: Vec<Vec<char>> = Vec::new();
    let mut pos: usize = 0;
    assert(v@.skip(0) =~= v@);
    assert(char_views(out@) =~= Seq::<Seq<char>>::empty());
    loop
        invariant
            n == v.len(),
            pos <= n,
            char_views(out@) + seq_split(v@.skip(pos as int), c) == seq_split(v@, c),
        decreases n - pos,
    {
        let mut f: usize = pos;
        while f < n && v[f] != c
            invariant
                pos <= f <= n,
                n == v.len(),
                forall|k: int| pos <= k < f ==> v@[k] != c,
            decreases n - f,
        {
            f = f + 1;
        }
        let ghost prev = char_views(out@);
        if f < n {
            let piece = subvec(v, pos, f);
            proof {
                lemma_split_step(v@, c, pos as int, f as int, prev);
                lemma_char_views_push(out@, piece);
            }
            out.push(piece);
            pos = f + 1;
        } else {
            let piece = subvec(v, pos, n);
            proof {
                lemma_split_last(v@, c, pos as int, prev);
                lemma_char_views_push(out@, piece);
            }
            out.push(piece);
            return out;
        }
    }
}


// ---------------------------------------------------------------------------
// Ordering and case mapping
// ---------------------------------------------------------------------------

/// Strict lexicographic order on character sequences by code point;
/// the order of `String`'s `Ord`, since UTF-8 keeps code point order.
pub open spec fn seq_lt(a: Seq<char>, b: Seq<char>) -> bool
    decreases a.len(),
{
    if a.len() == 0 {
        b.len() > 0
    } else if b.len() == 0 {
        false
    } else if a[0] < b[0] {
        true
    } else if a[0] > b[0] {
        false
    } else {
        seq_lt(a.drop_first(), b.drop_first())
    }
}

/// `seq_lt` is irreflexive.
pub proof fn lemma_seq_lt_irreflexive(a: Seq<char>)
    ensures
        !seq_lt(a, a),
    decreases a.len(),
{
    if a.len() > 0 {
        lemma_seq_lt_irreflexive(a.drop_first());
    }
}

/// `seq_lt` is transitive.
pub proof fn lemma_seq_lt_transitive(a: Seq<char>, b: Seq<char>, c: Seq<char>)
    requires
        seq_lt(a, b),
        seq_lt(b, c),
    ensures
        seq_lt(a, c),
    decreases a.len(),
{
    if a.len() > 0 && b.len() > 0 && c.len() > 0 && a[0] == b[0] && b[0] == c[0] {
        lemma_seq_lt_transitive(a.drop_first(), b.drop_first(), c.drop_first());
    }
}

/// Two distinct sequences are ordered one way or the other.
pub proof fn lemma_seq_lt_total(a: Seq<char>, b: Seq<char>)
    requires
        a != b,
    ensures
        seq_lt(a, b) || seq_lt(b, a),
    decreases a.len(),
{
    if a.len() == 0 {
        if b.len() == 0 {
            assert(a =~= b);
        }
    } else if b.len() > 0 && a[0] == b[0] {
        if a.drop_first() == b.drop_first() {
            assert(a =~= seq![a[0]] + a.drop_first());
            assert(b =~= seq![b[0]] + b.drop_first());
        } else {
            lemma_seq_lt_total(a.drop_first(), b.drop_first());
        }
    }
}

/// `seq_lt(a@, b@)`: `a < b` as strings.
pub fn lt_chars(a: &Vec<char>, b: &Vec<char>) -> (r: bool)
    ensures
        r == seq_lt(a@, b@),
{
    let mut i: usize = 0;
    assert(a@.skip(0) =~= a@ && b@.skip(0) =~= b@);
    while i < a.len() && i < b.len()
        invariant
            i <= a.len(),
            i <= b.len(),
            seq_lt(a@, b@) == seq_lt(a@.skip(i as int), b@.skip(i as int)),
        decreases a.len() - i,
    {
        let x = a[i];
        let y = b[i];
        assert(a@.skip(i as int)[0] == x && b@.skip(i as int)[0] == y);
        if x < y {
            return true;
        }
        if x > y {
            return false;
        }
        assert(a@.skip(i as int).drop_first() =~= a@.skip(i + 1));
        assert(b@.skip(i as int).drop_first() =~= b@.skip(i + 1));
        i = i + 1;
    }
    i < b.len()
}

/// Full Unicode lower-casing of a string (`str::to_lowercase`).
pub uninterp spec fn unicode_lowercase(s: Seq<char>) -> Seq<char>;

/// Full Unicode upper-casing of one character (`char::to_uppercase`),
/// one to three characters.
pub uninterp spec fn unicode_uppercase(c: char) -> Seq<char>;

/// Calls `str::to_lowercase`: its result is a function of the
/// characters of `s` alone (the Unicode tables, no locale).
#[verifier::external_body]
pub(crate) fn to_lowercase(s: &str) -> (r: String)
    ensures
        r@ == unicode_lowercase(s@),
{
    s.to_lowercase()
}

/// Calls `char::to_uppercase` and collects what it yields: a
/// function of `c` alone.
#[verifier::external_body]
pub(crate) fn to_uppercase(c: char) -> (r: String)
    ensures
        r@ == unicode_uppercase(c),
{
    c.to_uppercase().collect()
}


/// The characters of `a` followed by those of `b`.
pub fn concat(a: &Vec<char>, b: &Vec<char>) -> (r: Vec<char>)
    ensures
        r@ == a@ + b@,
{
    let mut out = a.clone();
    assert(out@ =~= a@);
    let mut k: usize = 0;
    while k < b.len()
        invariant
            k <= b.len(),
            out@ == a@ + b@.take(k as int),
        decreases b.len() - k,
    {
        out.push(b[k]);
        assert(b@.take(k + 1) =~= b@.take(k as int).push(b@[k as int]));
        assert(a@ + b@.take(k + 1) =~= (a@ + b@.take(k as int)).push(b@[k as int]));
        k = k + 1;
    }
    assert(b@.take(b.len() as int) =~= b@);
    out
}


/// `a` followed by `b`, as one string.
pub fn join2(a: &str, b: &str) -> (r: String)
    ensures
        r@ == a@ + b@,
{
    string_from(&concat(&chars_of(a), &chars_of(b)))
}

/// `a`, `b` and `c` in a row, as one string.
pub fn join3(a: &str, b: &str, c: &str) -> (r: String)
    ensures
        r@ == a@ + b@ + c@,
{
    let ab = concat(&chars_of(a), &chars_of(b));
    string_from(&concat(&ab, &chars_of(c)))
}

/// `a`, `b`, `c` and `d` in a row, as one string.
pub fn join4(a: &str, b: &str, c: &str, d: &str) -> (r: String)
    ensures
        r@ == a@ + b@ + c@ + d@,
{
    let ab = concat(&chars_of(a), &chars_of(b));
    let abc = concat(&ab, &chars_of(c));
    string_from(&concat(&abc, &chars_of(d)))
}

/// What `<str as Debug>::fmt` writes for a text: the text in double
/// quotes with quotes, backslashes and unprintable characters escaped
/// (the escaping follows Unicode tables; it depends on the text
/// alone).
pub uninterp spec fn str_debug(s: Seq<char>) -> Seq<char>;

/// Formats a text with `{:?}` (`<str as Debug>::fmt`).
#[verifier::external_body]
pub(crate) fn quoted(s: &str) -> (r: String)
    ensures
        r@ == str_debug(s@),
{
    format!("{:?}", s)
}

/// Bytes `c` takes in UTF-8.
pub open spec fn utf8_width(c: char) -> nat {
    if (c as u32) < 0x80 {
        1
    } else if (c as u32) < 0x800 {
        2
    } else if (c as u32) < 0x10000 {
        3
    } else {
        4
    }
}

/// Bytes `s` takes in UTF-8 (`str::len`).
pub open spec fn utf8_len(s: Seq<char>) -> nat
    decreases s.len(),
{
    if s.len() == 0 {
        0
    } else {
        utf8_len(s.drop_last()) + utf8_width(s.last())
    }
}

/// The UTF-8 length of `v`, saturating at `usize::MAX`.
pub fn utf8_len_of(v: &Vec<char>) -> (r: usize)
    ensures
        r == if utf8_len(v@) <= usize::MAX { utf8_len(v@) } else { usize::MAX as nat },
{
    let mut n: usize = 0;
    let mut k: usize = 0;
    let mut saturated = false;
    while k < v.len()
        invariant
            k <= v.len(),
            !saturated ==> n == utf8_len(v@.take(k as int)),
            saturated ==> n == usize::MAX && utf8_len(v@.take(k as int)) > usize::MAX,
        decreases v.len() - k,
    {
        let c = v[k];
        let u = c as u32;
        let w: usize = if u < 0x80 {
            1
        } else if u < 0x800 {
            2
        } else if u < 0x10000 {
            3
        } else {
            4
        };
        assert(v@.take(k + 1).drop_last() =~= v@.take(k as int));
        assert(v@.take(k + 1).last() == c);
        if !saturated {
            if n > usize::MAX - w {
                n = usize::MAX;
                saturated = true;
            } else {
                n = n + w;
            }
        }
        k = k + 1;
    }
    assert(v@.take(v.len() as int) =~= v@);
    n
}

} // verus!
