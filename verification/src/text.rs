//! Character-sequence primitives shared by the shader parser: first
//! occurrence search, Unicode whitespace, and trimming.

use vstd::prelude::*;

verus! {

broadcast use vstd::string::group_string_axioms;

/// The characters of `s`, in order.
pub fn to_chars(s: &str) -> (v: Vec<char>)
    ensures
        v@ == s@,
{
    let mut v: Vec<char> = Vec::new();
    for c in it: s.chars()
        invariant
            v@ == it.seq().take(it.index()),
    {
        v.push(c);
        assert(v@ =~= it.seq().take(it.index() + 1));
    }
    assert(v@ =~= s@);
    v
}

/// The Unicode `White_Space` property (PropList.txt), the set that
/// `char::is_whitespace` and `str::trim` go by.
pub open spec fn white_space(c: char) -> bool {
    let u = c as u32;
    ||| 0x09 <= u <= 0x0D
    ||| u == 0x20
    ||| u == 0x85
    ||| u == 0xA0
    ||| u == 0x1680
    ||| 0x2000 <= u <= 0x200A
    ||| u == 0x2028
    ||| u == 0x2029
    ||| u == 0x202F
    ||| u == 0x205F
    ||| u == 0x3000
}

/// Decides `white_space`.
pub fn is_white_space(c: char) -> (r: bool)
    ensures
        r == white_space(c),
{
    let u = c as u32;
    (0x09 <= u && u <= 0x0D) || u == 0x20 || u == 0x85 || u == 0xA0 || u == 0x1680 || (0x2000
        <= u && u <= 0x200A) || u == 0x2028 || u == 0x2029 || u == 0x202F || u == 0x205F || u
        == 0x3000
}

/// A character that can continue an identifier: an ASCII letter or
/// digit, or `_`.
pub open spec fn ident_char(c: char) -> bool {
    let u = c as u32;
    ||| 0x30 <= u <= 0x39
    ||| 0x41 <= u <= 0x5A
    ||| 0x61 <= u <= 0x7A
    ||| u == 0x5F
}

/// Decides `ident_char`.
pub fn is_ident_char(c: char) -> (r: bool)
    ensures
        r == ident_char(c),
{
    let u = c as u32;
    (0x30 <= u && u <= 0x39) || (0x41 <= u && u <= 0x5A) || (0x61 <= u && u <= 0x7A) || u == 0x5F
}

/// Position of the first `c` in `s`.
pub open spec fn index_of(s: Seq<char>, c: char) -> Option<int>
    decreases s.len(),
{
    if s.len() == 0 {
        None
    } else if s[0] == c {
        Some(0)
    } else {
        match index_of(s.drop_first(), c) {
            Some(i) => Some(i + 1),
            None => None,
        }
    }
}

/// `index_of` finds the first occurrence, and only fails when there is none.
pub proof fn lemma_index_of(s: Seq<char>, c: char)
    ensures
        match index_of(s, c) {
            Some(i) => 0 <= i < s.len() && s[i] == c && forall|j: int| 0 <= j < i ==> s[j] != c,
            None => forall|j: int| 0 <= j < s.len() ==> s[j] != c,
        },
    decreases s.len(),
{
    if s.len() > 0 && s[0] != c {
        lemma_index_of(s.drop_first(), c);
        assert forall|j: int| 1 <= j < s.len() implies s[j] == s.drop_first()[j - 1] by {}
    }
}

/// `m` stands in `s` at position `i`.
pub open spec fn occurs_at(s: Seq<char>, m: Seq<char>, i: int) -> bool {
    0 <= i && i + m.len() <= s.len() && s.subrange(i, i + m.len()) == m
}

/// Position of the first occurrence of `m` in `s`.
pub open spec fn find_seq(s: Seq<char>, m: Seq<char>) -> Option<int>
    decreases s.len(),
{
    if s.len() < m.len() {
        None
    } else if s.subrange(0, m.len() as int) == m {
        Some(0)
    } else if s.len() == 0 {
        None
    } else {
        match find_seq(s.drop_first(), m) {
            Some(i) => Some(i + 1),
            None => None,
        }
    }
}

proof fn lemma_occurs_shift(s: Seq<char>, m: Seq<char>, j: int)
    requires
        s.len() > 0,
        0 <= j,
    ensures
        occurs_at(s.drop_first(), m, j) == occurs_at(s, m, j + 1),
{
    if j + 1 + m.len() <= s.len() {
        assert(s.drop_first().subrange(j, j + m.len()) =~= s.subrange(j + 1, j + 1 + m.len()));
    }
}

/// `find_seq` finds the first occurrence, and only fails when there is none.
pub proof fn lemma_find_seq(s: Seq<char>, m: Seq<char>)
    ensures
        match find_seq(s, m) {
            Some(i) => occurs_at(s, m, i) && forall|j: int| 0 <= j < i ==> !occurs_at(s, m, j),
            None => forall|j: int| !occurs_at(s, m, j),
        },
    decreases s.len(),
{
    if s.len() < m.len() {
    } else if s.subrange(0, m.len() as int) =~= m {
    } else if s.len() == 0 {
    } else {
        lemma_find_seq(s.drop_first(), m);
        assert(!occurs_at(s, m, 0));
        assert forall|j: int| 1 <= j implies occurs_at(s, m, j) == occurs_at(
            s.drop_first(),
            m,
            j - 1,
        ) by {
            lemma_occurs_shift(s, m, j - 1);
        }
    }
}

/// `s` without its leading whitespace.
pub open spec fn trim_start(s: Seq<char>) -> Seq<char>
    decreases s.len(),
{
    if s.len() > 0 && white_space(s[0]) {
        trim_start(s.drop_first())
    } else {
        s
    }
}

/// `s` without its trailing whitespace.
pub open spec fn trim_end(s: Seq<char>) -> Seq<char>
    decreases s.len(),
{
    if s.len() > 0 && white_space(s.last()) {
        trim_end(s.drop_last())
    } else {
        s
    }
}

/// `s` without leading and trailing whitespace.
pub open spec fn trim(s: Seq<char>) -> Seq<char> {
    trim_end(trim_start(s))
}

/// Position of the first `c` in `v[from..to]`, counted from the start of `v`.
pub fn find_char(v: &Vec<char>, c: char, from: usize, to: usize) -> (r: Option<usize>)
    requires
        from <= to <= v.len(),
    ensures
        match r {
            Some(i) => from <= i < to && index_of(v@.subrange(from as int, to as int), c) == Some(
                i - from,
            ),
            None => index_of(v@.subrange(from as int, to as int), c) is None,
        },
{
    let ghost sub = v@.subrange(from as int, to as int);
    proof {
        lemma_index_of(sub, c);
    }
    let mut i = from;
    while i < to
        invariant
            from <= i <= to <= v.len(),
            sub == v@.subrange(from as int, to as int),
            forall|j: int| from <= j < i ==> v@[j] != c,
            match index_of(sub, c) {
                Some(k) => 0 <= k < sub.len() && sub[k] == c && forall|j: int|
                    0 <= j < k ==> sub[j] != c,
                None => forall|j: int| 0 <= j < sub.len() ==> sub[j] != c,
            },
        decreases to - i,
    {
        if v[i] == c {
            assert(sub[i - from] == c);
            return Some(i);
        }
        i = i + 1;
    }
    assert forall|j: int| 0 <= j < sub.len() implies sub[j] != c by {
        assert(sub[j] == v@[from + j]);
    }
    None
}

/// Whether `m` stands in `v` at position `i`.
pub fn matches_at(v: &Vec<char>, m: &Vec<char>, i: usize) -> (r: bool)
    ensures
        r == occurs_at(v@, m@, i as int),
{
    if i > v.len() || m.len() > v.len() - i {
        return false;
    }
    let mut j: usize = 0;
    while j < m.len()
        invariant
            i + m.len() <= v.len(),
            j <= m.len(),
            forall|k: int| 0 <= k < j ==> v@[i + k] == m@[k],
        decreases m.len() - j,
    {
        if v[i + j] != m[j] {
            assert(v@.subrange(i as int, i + m.len())[j as int] != m@[j as int]);
            return false;
        }
        j = j + 1;
    }
    assert(v@.subrange(i as int, i + m.len()) =~= m@);
    true
}

/// Position of the first occurrence of `m` in `v`.
pub fn find_chars(v: &Vec<char>, m: &Vec<char>) -> (r: Option<usize>)
    ensures
        match r {
            Some(i) => find_seq(v@, m@) == Some(i as int),
            None => find_seq(v@, m@) is None,
        },
{
    proof {
        lemma_find_seq(v@, m@);
    }
    if m.len() > v.len() {
        return None;
    }
    if m.len() == 0 {
        assert(v@.subrange(0, 0) =~= m@);
        return Some(0);
    }
    let last = v.len() - m.len();
    let mut i: usize = 0;
    while i <= last
        invariant
            last == v.len() - m.len(),
            0 < m.len() <= v.len(),
            forall|j: int| 0 <= j < i ==> !occurs_at(v@, m@, j),
            match find_seq(v@, m@) {
                Some(k) => occurs_at(v@, m@, k) && forall|j: int| 0 <= j < k ==> !occurs_at(v@, m@, j),
                None => forall|j: int| !occurs_at(v@, m@, j),
            },
        decreases last + 1 - i,
    {
        if matches_at(v, m, i) {
            return Some(i);
        }
        i = i + 1;
    }
    assert forall|j: int| !occurs_at(v@, m@, j) by {
        if 0 <= j < i {
        }
    }
    None
}

/// Index of the first non-whitespace character of `v[from..to]`, or `to`:
/// `v[result..to]` is `v[from..to]` trimmed at the start.
pub fn skip_white_space(v: &Vec<char>, from: usize, to: usize) -> (r: usize)
    requires
        from <= to <= v.len(),
    ensures
        from <= r <= to,
        trim_start(v@.subrange(from as int, to as int)) == v@.subrange(r as int, to as int),
{
    let mut i = from;
    while i < to && is_white_space(v[i])
        invariant
            from <= i <= to <= v.len(),
            trim_start(v@.subrange(from as int, to as int)) == trim_start(
                v@.subrange(i as int, to as int),
            ),
        decreases to - i,
    {
        assert(v@.subrange(i as int, to as int).drop_first() =~= v@.subrange(i + 1, to as int));
        i = i + 1;
    }
    i
}

/// End of `v[from..to]` trimmed at the end: `v[from..result]` is
/// `v[from..to]` without its trailing whitespace.
pub fn skip_white_space_back(v: &Vec<char>, from: usize, to: usize) -> (r: usize)
    requires
        from <= to <= v.len(),
    ensures
        from <= r <= to,
        trim_end(v@.subrange(from as int, to as int)) == v@.subrange(from as int, r as int),
{
    let mut i = to;
    while i > from && is_white_space(v[i - 1])
        invariant
            from <= i <= to <= v.len(),
            trim_end(v@.subrange(from as int, to as int)) == trim_end(
                v@.subrange(from as int, i as int),
            ),
        decreases i - from,
    {
        assert(v@.subrange(from as int, i as int).drop_last() =~= v@.subrange(
            from as int,
            i - 1,
        ));
        i = i - 1;
    }
    i
}

/// Whether two strings hold the same characters.
pub fn same_text(a: &str, b: &str) -> (r: bool)
    ensures
        r == (a@ == b@),
{
    let x = to_chars(a);
    let y = to_chars(b);
    if x.len() != y.len() {
        return false;
    }
    let mut i: usize = 0;
    while i < x.len()
        invariant
            x@ == a@,
            y@ == b@,
            x.len() == y.len(),
            i <= x.len(),
            forall|j: int| 0 <= j < i ==> x@[j] == y@[j],
        decreases x.len() - i,
    {
        if x[i] != y[i] {
            assert(x@[i as int] != y@[i as int]);
            return false;
        }
        i = i + 1;
    }
    assert(x@ =~= y@);
    true
}

} // verus!
