//! Searching and trimming over sequences of characters.
//!
//! Positions are counted in characters, never in bytes, so that no
//! operation can land in the middle of a multi-byte character.

use vstd::prelude::*;

verus! {

/// Whether `c` is white space: one of the code points that Unicode marks
/// as `White_Space`.
pub open spec fn is_space(c: char) -> bool {
    ||| '\u{9}' <= c <= '\u{D}'
    ||| c == ' '
    ||| c == '\u{85}'
    ||| c == '\u{A0}'
    ||| c == '\u{1680}'
    ||| '\u{2000}' <= c <= '\u{200A}'
    ||| c == '\u{2028}'
    ||| c == '\u{2029}'
    ||| c == '\u{202F}'
    ||| c == '\u{205F}'
    ||| c == '\u{3000}'
}

/// `i` is the first position of `s` that holds `a` or `b`.
pub open spec fn is_first_of(s: Seq<char>, a: char, b: char, i: int) -> bool {
    &&& 0 <= i < s.len()
    &&& (s[i] == a || s[i] == b)
    &&& forall|j: int| 0 <= j < i ==> s[j] != a && s[j] != b
}

/// The first position of `s` that holds `a` or `b`, if there is one.
#[verifier::opaque]
pub open spec fn first_of(s: Seq<char>, a: char, b: char) -> Option<int> {
    if exists|i: int| is_first_of(s, a, b, i) {
        Some(choose|i: int| is_first_of(s, a, b, i))
    } else {
        None
    }
}

/// The first position of `s` that holds `c`, if there is one.
pub open spec fn first_index(s: Seq<char>, c: char) -> Option<int> {
    first_of(s, c, c)
}

/// `i` is the last position of `s` that holds `c`.
pub open spec fn is_last_index(s: Seq<char>, c: char, i: int) -> bool {
    &&& 0 <= i < s.len()
    &&& s[i] == c
    &&& forall|j: int| i < j < s.len() ==> s[j] != c
}

/// The last position of `s` that holds `c`, if there is one.
#[verifier::opaque]
pub open spec fn last_index(s: Seq<char>, c: char) -> Option<int> {
    if exists|i: int| is_last_index(s, c, i) {
        Some(choose|i: int| is_last_index(s, c, i))
    } else {
        None
    }
}

/// The three characters space, hyphen, space stand at position `i` of `s`.
pub open spec fn separator_at(s: Seq<char>, i: int) -> bool {
    &&& 0 <= i
    &&& i + 3 <= s.len()
    &&& s[i] == ' '
    &&& s[i + 1] == '-'
    &&& s[i + 2] == ' '
}

/// `i` is where the rightmost separator of `s` starts.
pub open spec fn is_last_separator(s: Seq<char>, i: int) -> bool {
    &&& separator_at(s, i)
    &&& forall|j: int| i < j ==> !separator_at(s, j)
}

/// Where the rightmost separator of `s` starts, if `s` holds one.
#[verifier::opaque]
pub open spec fn last_separator(s: Seq<char>) -> Option<int> {
    if exists|i: int| is_last_separator(s, i) {
        Some(choose|i: int| is_last_separator(s, i))
    } else {
        None
    }
}

/// `a` is the number of white-space characters at the start of `s`.
pub open spec fn is_trim_start(s: Seq<char>, a: int) -> bool {
    &&& 0 <= a <= s.len()
    &&& forall|j: int| 0 <= j < a ==> is_space(s[j])
    &&& a < s.len() ==> !is_space(s[a])
}

/// `b` is the position behind the last character of `s` that is not white
/// space, or 0 where `s` holds nothing else.
pub open spec fn is_trim_end(s: Seq<char>, b: int) -> bool {
    &&& 0 <= b <= s.len()
    &&& forall|j: int| b <= j < s.len() ==> is_space(s[j])
    &&& 0 < b ==> !is_space(s[b - 1])
}

/// `s` without the white space at its start and at its end.
#[verifier::opaque]
pub open spec fn trim(s: Seq<char>) -> Seq<char> {
    let a = choose|a: int| is_trim_start(s, a);
    let b = choose|b: int| is_trim_end(s, b);
    if a <= b {
        s.subrange(a, b)
    } else {
        Seq::empty()
    }
}

/// Whether `s` ends with the characters of `tail`.
pub open spec fn ends_with(s: Seq<char>, tail: Seq<char>) -> bool {
    tail.len() <= s.len() && s.subrange(s.len() - tail.len(), s.len() as int) == tail
}

/// A position that meets `is_first_of` is the one that `first_of` gives.
pub proof fn lemma_first_of_found(s: Seq<char>, a: char, b: char, i: int)
    requires
        is_first_of(s, a, b, i),
    ensures
        first_of(s, a, b) == Some(i),
{
    reveal(first_of);
    let k = choose|k: int| is_first_of(s, a, b, k);
    assert(is_first_of(s, a, b, k));
    if k < i {
        assert(s[k] != a && s[k] != b);
    } else if i < k {
        assert(s[i] != a && s[i] != b);
    }
}

/// Where neither character occurs, `first_of` finds nothing.
pub proof fn lemma_first_of_absent(s: Seq<char>, a: char, b: char)
    requires
        forall|j: int| 0 <= j < s.len() ==> s[j] != a && s[j] != b,
    ensures
        first_of(s, a, b) is None,
{
    reveal(first_of);
    if exists|i: int| is_first_of(s, a, b, i) {
        let k = choose|k: int| is_first_of(s, a, b, k);
        assert(s[k] != a && s[k] != b);
    }
}

/// What `first_of` gives is the first position that holds one of the two
/// characters; it gives nothing only where neither occurs.
pub proof fn lemma_first_of_is_first(s: Seq<char>, a: char, b: char)
    ensures
        match first_of(s, a, b) {
            Some(i) => is_first_of(s, a, b, i),
            None => forall|j: int| 0 <= j < s.len() ==> s[j] != a && s[j] != b,
        },
{
    reveal(first_of);
    if !exists|i: int| is_first_of(s, a, b, i) {
        assert forall|j: int| 0 <= j < s.len() implies s[j] != a && s[j] != b by {
            if s[j] == a || s[j] == b {
                lemma_first_of_exists(s, a, b, j);
            }
        }
    }
}

/// Where one of the two characters stands at `at`, a first position holds
/// one of them.
pub proof fn lemma_first_of_exists(s: Seq<char>, a: char, b: char, at: int)
    requires
        0 <= at < s.len(),
        s[at] == a || s[at] == b,
    ensures
        exists|i: int| is_first_of(s, a, b, i),
    decreases at,
{
    if exists|j: int| 0 <= j < at && (s[j] == a || s[j] == b) {
        let j = choose|j: int| 0 <= j < at && (s[j] == a || s[j] == b);
        lemma_first_of_exists(s, a, b, j);
    } else {
        assert(is_first_of(s, a, b, at));
    }
}

/// A position that meets `is_last_index` is the one that `last_index` gives.
pub proof fn lemma_last_index_found(s: Seq<char>, c: char, i: int)
    requires
        is_last_index(s, c, i),
    ensures
        last_index(s, c) == Some(i),
{
    reveal(last_index);
    let k = choose|k: int| is_last_index(s, c, k);
    assert(is_last_index(s, c, k));
    if k < i {
        assert(s[i] != c);
    } else if i < k {
        assert(s[k] != c);
    }
}

/// Where the character does not occur, `last_index` finds nothing.
pub proof fn lemma_last_index_absent(s: Seq<char>, c: char)
    requires
        forall|j: int| 0 <= j < s.len() ==> s[j] != c,
    ensures
        last_index(s, c) is None,
{
    reveal(last_index);
    if exists|i: int| is_last_index(s, c, i) {
        let k = choose|k: int| is_last_index(s, c, k);
        assert(s[k] != c);
    }
}

/// A position that meets `is_last_separator` is the one that
/// `last_separator` gives.
pub proof fn lemma_last_separator_found(s: Seq<char>, i: int)
    requires
        is_last_separator(s, i),
    ensures
        last_separator(s) == Some(i),
{
    reveal(last_separator);
    let k = choose|k: int| is_last_separator(s, k);
    assert(is_last_separator(s, k));
    if k < i {
        assert(!separator_at(s, i));
    } else if i < k {
        assert(!separator_at(s, k));
    }
}

/// Where no separator starts anywhere, `last_separator` finds nothing.
pub proof fn lemma_last_separator_absent(s: Seq<char>)
    requires
        forall|j: int| !separator_at(s, j),
    ensures
        last_separator(s) is None,
{
    reveal(last_separator);
    if exists|i: int| is_last_separator(s, i) {
        let k = choose|k: int| is_last_separator(s, k);
        assert(!separator_at(s, k));
    }
}

/// The two bounds that meet `is_trim_start` and `is_trim_end` cut out what
/// `trim` gives.
pub proof fn lemma_trim_bounds(s: Seq<char>, a: int, b: int)
    requires
        is_trim_start(s, a),
        is_trim_end(s, b),
    ensures
        a <= b ==> trim(s) == s.subrange(a, b),
        a > b ==> trim(s) == Seq::<char>::empty(),
        a > b ==> a == s.len() && b == 0,
{
    reveal(trim);
    let a2 = choose|a2: int| is_trim_start(s, a2);
    let b2 = choose|b2: int| is_trim_end(s, b2);
    assert(is_trim_start(s, a2));
    assert(is_trim_end(s, b2));
    if a2 < a {
        assert(is_space(s[a2]));
    } else if a < a2 {
        assert(is_space(s[a]));
    }
    if b2 < b {
        assert(is_space(s[b - 1]));
    } else if b < b2 {
        assert(is_space(s[b2 - 1]));
    }
    if a > b {
        if a < s.len() {
            assert(is_space(s[a]));
        }
        if 0 < b {
            assert(is_space(s[b - 1]));
        }
    }
}

/// Whether `c` is white space.
pub fn is_space_char(c: char) -> (r: bool)
    ensures
        r == is_space(c),
{
    ('\u{9}' <= c && c <= '\u{D}') || c == ' ' || c == '\u{85}' || c == '\u{A0}' || c
        == '\u{1680}' || ('\u{2000}' <= c && c <= '\u{200A}') || c == '\u{2028}' || c
        == '\u{2029}' || c == '\u{202F}' || c == '\u{205F}' || c == '\u{3000}'
}

/// The characters of `s`, in order.
pub fn chars_of(s: &str) -> (out: Vec<char>)
    ensures
        out@ == s@,
{
    let mut out: Vec<char> = Vec::new();
    for c in it: s.chars()
        invariant
            out@ == it.seq().take(it.index()),
            it.seq() == s@,
    {
        out.push(c);
    }
    out
}

/// Finds the first `a` or `b` among the characters of `s` from `from` up to,
/// not including, `to`.
pub fn find_first_of(s: &[char], a: char, b: char, from: usize, to: usize) -> (r: Option<usize>)
    requires
        from <= to <= s@.len(),
    ensures
        match r {
            Some(i) => from <= i < to && (s@[i as int] == a || s@[i as int] == b) && first_of(
                s@.subrange(from as int, to as int),
                a,
                b,
            ) == Some(i - from),
            None => first_of(s@.subrange(from as int, to as int), a, b) is None,
        },
{
    let ghost part = s@.subrange(from as int, to as int);
    let mut i: usize = from;
    while i < to
        invariant
            from <= i <= to <= s@.len(),
            part == s@.subrange(from as int, to as int),
            forall|j: int| 0 <= j < i - from ==> part[j] != a && part[j] != b,
        decreases to - i,
    {
        if s[i] == a || s[i] == b {
            proof {
                assert(part[i - from] == s@[i as int]);
                lemma_first_of_found(part, a, b, i - from);
            }
            return Some(i);
        }
        assert(part[i - from] == s@[i as int]);
        i = i + 1;
    }
    proof {
        lemma_first_of_absent(part, a, b);
    }
    None
}

/// Finds the first `c` among the characters of `s` from `from` up to, not
/// including, `to`.
pub fn find_first(s: &[char], c: char, from: usize, to: usize) -> (r: Option<usize>)
    requires
        from <= to <= s@.len(),
    ensures
        match r {
            Some(i) => from <= i < to && s@[i as int] == c && first_index(
                s@.subrange(from as int, to as int),
                c,
            ) == Some(i - from),
            None => first_index(s@.subrange(from as int, to as int), c) is None,
        },
{
    find_first_of(s, c, c, from, to)
}

/// Finds the last `c` among the characters of `s` from `from` up to, not
/// including, `to`.
pub fn find_last(s: &[char], c: char, from: usize, to: usize) -> (r: Option<usize>)
    requires
        from <= to <= s@.len(),
    ensures
        match r {
            Some(i) => from <= i < to && s@[i as int] == c && last_index(
                s@.subrange(from as int, to as int),
                c,
            ) == Some(i - from),
            None => last_index(s@.subrange(from as int, to as int), c) is None,
        },
{
    let ghost part = s@.subrange(from as int, to as int);
    let mut i: usize = to;
    while i > from
        invariant
            from <= i <= to <= s@.len(),
            part == s@.subrange(from as int, to as int),
            forall|j: int| i - from <= j < part.len() ==> part[j] != c,
        decreases i - from,
    {
        i = i - 1;
        if s[i] == c {
            proof {
                assert(part[i - from] == s@[i as int]);
                lemma_last_index_found(part, c, i - from);
            }
            return Some(i);
        }
        assert(part[i - from] == s@[i as int]);
    }
    proof {
        lemma_last_index_absent(part, c);
    }
    None
}

/// Finds where the rightmost separator starts among the characters of `s`
/// from `from` up to, not including, `to`.
pub fn find_last_separator(s: &[char], from: usize, to: usize) -> (r: Option<usize>)
    requires
        from <= to <= s@.len(),
    ensures
        match r {
            Some(i) => from <= i && i + 3 <= to && last_separator(
                s@.subrange(from as int, to as int),
            ) == Some(i - from),
            None => last_separator(s@.subrange(from as int, to as int)) is None,
        },
{
    let ghost part = s@.subrange(from as int, to as int);
    if to - from < 3 {
        proof {
            lemma_last_separator_absent(part);
        }
        return None;
    }
    let mut i: usize = to - 2;
    while i > from
        invariant
            from <= i <= to - 2,
            to <= s@.len(),
            part == s@.subrange(from as int, to as int),
            forall|j: int| i - from <= j ==> !separator_at(part, j),
        decreases i - from,
    {
        i = i - 1;
        assert(part[i - from] == s@[i as int]);
        assert(part[i - from + 1] == s@[i + 1]);
        assert(part[i - from + 2] == s@[i + 2]);
        if s[i] == ' ' && s[i + 1] == '-' && s[i + 2] == ' ' {
            proof {
                lemma_last_separator_found(part, i - from);
            }
            return Some(i);
        }
    }
    proof {
        lemma_last_separator_absent(part);
    }
    None
}

/// Cuts the white space off both ends of the characters of `s` from `from`
/// up to, not including, `to`, and returns the bounds of what is left.
pub fn trim_range(s: &[char], from: usize, to: usize) -> (r: (usize, usize))
    requires
        from <= to <= s@.len(),
    ensures
        from <= r.0 <= r.1 <= to,
        s@.subrange(r.0 as int, r.1 as int) == trim(s@.subrange(from as int, to as int)),
{
    let ghost part = s@.subrange(from as int, to as int);
    let mut a: usize = from;
    while a < to && is_space_char(s[a])
        invariant
            from <= a <= to <= s@.len(),
            part == s@.subrange(from as int, to as int),
            forall|j: int| 0 <= j < a - from ==> is_space(part[j]),
        decreases to - a,
    {
        assert(part[a - from] == s@[a as int]);
        a = a + 1;
    }
    let mut b: usize = to;
    while b > a && is_space_char(s[b - 1])
        invariant
            from <= a <= b <= to <= s@.len(),
            part == s@.subrange(from as int, to as int),
            forall|j: int| b - from <= j < part.len() ==> is_space(part[j]),
        decreases b - a,
    {
        assert(part[b - 1 - from] == s@[b - 1]);
        b = b - 1;
    }
    proof {
        if a < to {
            assert(part[a - from] == s@[a as int]);
        }
        if a < b {
            assert(part[b - 1 - from] == s@[b - 1]);
            lemma_trim_bounds(part, a - from, b - from);
            assert(part.subrange(a - from, b - from) =~= s@.subrange(a as int, b as int));
        } else {
            // nothing but white space: the first loop ran up to `to`
            lemma_trim_bounds(part, a - from, 0);
            assert(part.subrange(0, 0) =~= Seq::<char>::empty());
            assert(s@.subrange(a as int, b as int) =~= Seq::<char>::empty());
        }
    }
    (a, b)
}

/// Whether the characters of `s` from `from` up to, not including, `to` are
/// those of `word`.
pub fn range_is(s: &[char], from: usize, to: usize, word: &str) -> (r: bool)
    requires
        from <= to <= s@.len(),
    ensures
        r == (s@.subrange(from as int, to as int) == word@),
{
    let ghost part = s@.subrange(from as int, to as int);
    let n: usize = word.unicode_len();
    if to - from != n {
        return false;
    }
    let mut i: usize = 0;
    while i < n
        invariant
            from <= to <= s@.len(),
            to - from == n,
            n == word@.len(),
            i <= n,
            part == s@.subrange(from as int, to as int),
            forall|j: int| 0 <= j < i ==> part[j] == word@[j],
        decreases n - i,
    {
        if s[from + i] != word.get_char(i) {
            assert(part[i as int] != word@[i as int]);
            return false;
        }
        assert(part[i as int] == word@[i as int]);
        i = i + 1;
    }
    assert(part =~= word@);
    true
}

/// Whether `s` starts with the characters of `head`.
pub open spec fn starts_with(s: Seq<char>, head: Seq<char>) -> bool {
    head.len() <= s.len() && s.subrange(0, head.len() as int) == head
}

/// Whether the characters of `s` start with those of `head`.
pub fn has_prefix(s: &[char], head: &str) -> (r: bool)
    ensures
        r == starts_with(s@, head@),
{
    let m: usize = head.unicode_len();
    if m > s.len() {
        return false;
    }
    range_is(s, 0, m, head)
}

/// Whether `a` and `b` hold the same characters.
pub fn same_text(a: &str, b: &str) -> (r: bool)
    ensures
        r == (a@ == b@),
{
    let chars = chars_of(a);
    assert(chars@.subrange(0, chars@.len() as int) =~= a@);
    range_is(chars.as_slice(), 0, chars.len(), b)
}

} // verus!
