use vstd::prelude::*;
use vstd::string::*;

verus! {

/// Whitespace that separates fields on a manifest line: the characters with
/// the Unicode white-space property, the set that a whitespace split of a
/// string goes by.
pub open spec fn is_space(c: char) -> bool {
    ||| (c as u32) == 0x20
    ||| ((c as u32) >= 0x09 && (c as u32) <= 0x0d)
    ||| (c as u32) == 0x85
    ||| (c as u32) == 0xa0
    ||| (c as u32) == 0x1680
    ||| ((c as u32) >= 0x2000 && (c as u32) <= 0x200a)
    ||| (c as u32) == 0x2028
    ||| (c as u32) == 0x2029
    ||| (c as u32) == 0x202f
    ||| (c as u32) == 0x205f
    ||| (c as u32) == 0x3000
}

/// Executable twin of `is_space`.
pub fn space_char(c: char) -> (r: bool)
    ensures
        r == is_space(c),
{
    let v = c as u32;
    v == 0x20 || (v >= 0x09 && v <= 0x0d) || v == 0x85 || v == 0xa0 || v == 0x1680 || (v >= 0x2000
        && v <= 0x200a) || v == 0x2028 || v == 0x2029 || v == 0x202f || v == 0x205f || v == 0x3000
}

/// Index of the first occurrence of `c` at or after `from`, or `s.len()` if
/// there is none.
pub open spec fn find_char(s: Seq<char>, c: char, from: int) -> int
    decreases s.len() - from when 0 <= from <= s.len()
{
    if from >= s.len() {
        s.len() as int
    } else if s[from] == c {
        from
    } else {
        find_char(s, c, from + 1)
    }
}

/// Index of the first non-whitespace character at or after `from`, or
/// `s.len()` if there is none.
pub open spec fn skip_spaces(s: Seq<char>, from: int) -> int
    decreases s.len() - from when 0 <= from <= s.len()
{
    if from >= s.len() {
        s.len() as int
    } else if is_space(s[from]) {
        skip_spaces(s, from + 1)
    } else {
        from
    }
}

/// Index of the first whitespace character at or after `from`, or `s.len()`
/// if there is none.
pub open spec fn skip_non_spaces(s: Seq<char>, from: int) -> int
    decreases s.len() - from when 0 <= from <= s.len()
{
    if from >= s.len() {
        s.len() as int
    } else if is_space(s[from]) {
        from
    } else {
        skip_non_spaces(s, from + 1)
    }
}

/// `find_char` lands between `from` and the end, everything before it is not
/// `c`, and whatever it lands on (if anything) is `c`.
pub proof fn lemma_find_char(s: Seq<char>, c: char, from: int)
    requires
        0 <= from <= s.len(),
    ensures
        from <= find_char(s, c, from) <= s.len(),
        forall|k: int| from <= k < find_char(s, c, from) ==> s[k] != c,
        find_char(s, c, from) < s.len() ==> s[find_char(s, c, from)] == c,
    decreases s.len() - from,
{
    if from < s.len() && s[from] != c {
        lemma_find_char(s, c, from + 1);
    }
}

/// `skip_spaces` lands between `from` and the end, everything before it is
/// whitespace, and whatever it lands on (if anything) is not.
pub proof fn lemma_skip_spaces(s: Seq<char>, from: int)
    requires
        0 <= from <= s.len(),
    ensures
        from <= skip_spaces(s, from) <= s.len(),
        forall|k: int| from <= k < skip_spaces(s, from) ==> is_space(s[k]),
        skip_spaces(s, from) < s.len() ==> !is_space(s[skip_spaces(s, from)]),
    decreases s.len() - from,
{
    if from < s.len() && is_space(s[from]) {
        lemma_skip_spaces(s, from + 1);
    }
}

/// `skip_non_spaces` lands between `from` and the end, everything before it
/// is not whitespace, and whatever it lands on (if anything) is.
pub proof fn lemma_skip_non_spaces(s: Seq<char>, from: int)
    requires
        0 <= from <= s.len(),
    ensures
        from <= skip_non_spaces(s, from) <= s.len(),
        forall|k: int| from <= k < skip_non_spaces(s, from) ==> !is_space(s[k]),
        skip_non_spaces(s, from) < s.len() ==> is_space(s[skip_non_spaces(s, from)]),
    decreases s.len() - from,
{
    if from < s.len() && !is_space(s[from]) {
        lemma_skip_non_spaces(s, from + 1);
    }
}

/// Executable twin of `find_char`.
pub fn find_char_at(s: &str, c: char, from: usize) -> (r: usize)
    requires
        from <= s@.len(),
    ensures
        r == find_char(s@, c, from as int),
{
    let n = s.unicode_len();
    let mut j = from;
    while j < n
        invariant
            from <= j <= n,
            n == s@.len(),
            find_char(s@, c, from as int) == find_char(s@, c, j as int),
        decreases n - j,
    {
        let here = s.get_char(j);
        if here == c {
            proof {
                assert(find_char(s@, c, j as int) == j);
            }
            return j;
        }
        proof {
            assert(find_char(s@, c, j as int) == find_char(s@, c, j + 1));
        }
        j = j + 1;
    }
    proof {
        assert(find_char(s@, c, n as int) == n);
    }
    n
}

/// Executable twin of `skip_spaces`.
pub fn skip_spaces_at(s: &str, from: usize) -> (r: usize)
    requires
        from <= s@.len(),
    ensures
        r == skip_spaces(s@, from as int),
{
    let n = s.unicode_len();
    let mut j = from;
    while j < n
        invariant
            from <= j <= n,
            n == s@.len(),
            skip_spaces(s@, from as int) == skip_spaces(s@, j as int),
        decreases n - j,
    {
        let c = s.get_char(j);
        if !space_char(c) {
            proof {
                assert(skip_spaces(s@, j as int) == j);
            }
            return j;
        }
        proof {
            assert(skip_spaces(s@, j as int) == skip_spaces(s@, j + 1));
        }
        j = j + 1;
    }
    proof {
        assert(skip_spaces(s@, n as int) == n);
    }
    n
}

/// Executable twin of `skip_non_spaces`.
pub fn skip_non_spaces_at(s: &str, from: usize) -> (r: usize)
    requires
        from <= s@.len(),
    ensures
        r == skip_non_spaces(s@, from as int),
{
    let n = s.unicode_len();
    let mut j = from;
    while j < n
        invariant
            from <= j <= n,
            n == s@.len(),
            skip_non_spaces(s@, from as int) == skip_non_spaces(s@, j as int),
        decreases n - j,
    {
        let c = s.get_char(j);
        if space_char(c) {
            proof {
                assert(skip_non_spaces(s@, j as int) == j);
            }
            return j;
        }
        proof {
            assert(skip_non_spaces(s@, j as int) == skip_non_spaces(s@, j + 1));
        }
        j = j + 1;
    }
    proof {
        assert(skip_non_spaces(s@, n as int) == n);
    }
    n
}

/// Character-for-character string equality.
pub fn str_eq(a: &str, b: &str) -> (r: bool)
    ensures
        r == (a@ == b@),
{
    let na = a.unicode_len();
    let nb = b.unicode_len();
    if na != nb {
        return false;
    }
    let mut i: usize = 0;
    while i < na
        invariant
            i <= na,
            na == a@.len(),
            na == b@.len(),
            forall|k: int| 0 <= k < i ==> a@[k] == b@[k],
        decreases na - i,
    {
        if a.get_char(i) != b.get_char(i) {
            return false;
        }
        i = i + 1;
    }
    proof {
        assert(a@ =~= b@);
    }
    true
}

/// `needle` occurs contiguously somewhere inside `haystack`.
pub open spec fn contains_seq(haystack: Seq<char>, needle: Seq<char>) -> bool {
    exists|i: int|
        0 <= i && i + needle.len() <= haystack.len() && #[trigger] haystack.subrange(
            i,
            i + needle.len() as int,
        ) == needle
}

/// Substring search: whether `needle` occurs anywhere inside `haystack`.
pub fn str_contains(haystack: &str, needle: &str) -> (r: bool)
    ensures
        r == contains_seq(haystack@, needle@),
{
    let hn = haystack.unicode_len();
    let nn = needle.unicode_len();
    if nn > hn {
        return false;
    }
    if nn == 0 {
        proof {
            assert(haystack@.subrange(0, 0 + needle@.len() as int) =~= needle@);
        }
        return true;
    }
    let mut i: usize = 0;
    while i <= hn - nn
        invariant
            1 <= nn <= hn,
            hn == haystack@.len(),
            nn == needle@.len(),
            0 <= i <= hn - nn + 1,
            forall|j: int|
                0 <= j < i ==> #[trigger] haystack@.subrange(j, j + nn as int) != needle@,
        decreases hn - nn - i + 1,
    {
        let piece = haystack.substring_char(i, i + nn);
        if str_eq(piece, needle) {
            return true;
        }
        i = i + 1;
    }
    false
}

} // verus!
