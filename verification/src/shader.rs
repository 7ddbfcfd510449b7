//! Reading and rewriting the tunable `const float KEY = value;`
//! declarations of the user's shader copy.

use vstd::prelude::*;
use crate::text::{
    find_char, ident_char, index_of, is_ident_char, lemma_index_of, matches_at, occurs_at, skip_white_space,
    skip_white_space_back, to_chars, trim, trim_start, white_space,
};

verus! {

/// Why a shader constant could not be read or written.
#[derive(Debug, Clone, Copy, PartialEq, Eq, Structural)]
pub enum ValueFault {
    /// No declaration of the constant.
    Missing,
    /// The declaration lacks its `=` or its `;`.
    Malformed,
    /// The declared value is not a number.
    Invalid,
}

/// A fault together with the constant it concerns.
#[derive(Debug)]
pub struct ValueError {
    pub fault: ValueFault,
    pub key: String,
}

/// The diagnostic that starts the message of each fault.
pub open spec fn fault_prefix(fault: ValueFault) -> Seq<char> {
    match fault {
        ValueFault::Missing => "Shader 参数不存在: "@,
        ValueFault::Malformed => "Shader 参数格式无效: "@,
        ValueFault::Invalid => "Shader 参数值无效: "@,
    }
}

impl ValueError {
    /// A fault about the constant `key`.
    pub fn new(fault: ValueFault, key: &str) -> (e: ValueError)
        ensures
            e.fault == fault,
            e.key@ == key@,
    {
        ValueError { fault, key: String::from_str(key) }
    }

    /// The bilingual diagnostic shown to the user.
    pub fn message(&self) -> (m: String)
        ensures
            m@ == fault_prefix(self.fault) + self.key@,
    {
        let prefix = match self.fault {
            ValueFault::Missing => "Shader 参数不存在: ",
            ValueFault::Malformed => "Shader 参数格式无效: ",
            ValueFault::Invalid => "Shader 参数值无效: ",
        };
        String::from_str(prefix).concat(self.key.as_str())
    }
}

/// The text that opens the declaration of every tunable constant.
pub open spec fn declaration_opening() -> Seq<char> {
    seq!['c', 'o', 'n', 's', 't', ' ', 'f', 'l', 'o', 'a', 't', ' ']
}

/// The text that opens the declaration of the constant `key`.
pub open spec fn marker(key: Seq<char>) -> Seq<char> {
    declaration_opening() + key
}

fn marker_chars(key: &str) -> (m: Vec<char>)
    ensures
        m@ == marker(key@),
{
    proof {
        reveal_strlit("const float ");
    }
    let s = String::from_str("const float ").concat(key);
    assert("const float "@ =~= declaration_opening());
    to_chars(s.as_str())
}

/// The name of a constant ends at `p` in `s`: `s` ends there, or a
/// character follows that cannot continue an identifier.
pub open spec fn name_ends_at(s: Seq<char>, p: int) -> bool {
    p == s.len() || (0 <= p < s.len() && !ident_char(s[p]))
}

/// The declaration opening `m` stands at `i` in `s`, and the name in it
/// ends right after: `const float KEY` not followed by a letter, digit
/// or `_`.
pub open spec fn declaration_at(s: Seq<char>, m: Seq<char>, i: int) -> bool {
    occurs_at(s, m, i) && name_ends_at(s, i + m.len())
}

/// Position of the first declaration opened by `m` in `s`.
pub open spec fn find_declaration(s: Seq<char>, m: Seq<char>) -> Option<int>
    decreases s.len(),
{
    if declaration_at(s, m, 0) {
        Some(0)
    } else if s.len() == 0 {
        None
    } else {
        match find_declaration(s.drop_first(), m) {
            Some(i) => Some(i + 1),
            None => None,
        }
    }
}

pub(crate) proof fn lemma_declaration_skip(s: Seq<char>, m: Seq<char>, d: int, i: int)
    requires
        0 <= d <= s.len(),
        0 <= i,
    ensures
        declaration_at(s.skip(d), m, i) == declaration_at(s, m, i + d),
{
    if i + d + m.len() <= s.len() {
        assert(s.skip(d).subrange(i, i + m.len()) =~= s.subrange(i + d, i + d + m.len()));
    }
}

/// `find_declaration` finds the first declaration, and only fails when
/// there is none.
pub proof fn lemma_find_declaration(s: Seq<char>, m: Seq<char>)
    ensures
        match find_declaration(s, m) {
            Some(i) => declaration_at(s, m, i) && forall|j: int|
                0 <= j < i ==> !declaration_at(s, m, j),
            None => forall|j: int| !declaration_at(s, m, j),
        },
    decreases s.len(),
{
    if !declaration_at(s, m, 0) && s.len() > 0 {
        lemma_find_declaration(s.drop_first(), m);
        assert(s.drop_first() =~= s.skip(1));
        assert forall|j: int| 1 <= j implies declaration_at(s, m, j) == declaration_at(
            s.drop_first(),
            m,
            j - 1,
        ) by {
            lemma_declaration_skip(s, m, 1, j - 1);
        }
    }
}

/// Position of the first declaration opened by `m` in `v`.
fn find_declaration_in(v: &Vec<char>, m: &Vec<char>) -> (r: Option<usize>)
    ensures
        match r {
            Some(i) => find_declaration(v@, m@) == Some(i as int),
            None => find_declaration(v@, m@) is None,
        },
{
    proof {
        lemma_find_declaration(v@, m@);
    }
    let n = v.len();
    let mut i: usize = 0;
    loop
        invariant
            n == v.len(),
            i <= n,
            forall|j: int| 0 <= j < i ==> !declaration_at(v@, m@, j),
            match find_declaration(v@, m@) {
                Some(k) => declaration_at(v@, m@, k) && forall|j: int|
                    0 <= j < k ==> !declaration_at(v@, m@, j),
                None => forall|j: int| !declaration_at(v@, m@, j),
            },
        decreases n - i,
    {
        if m.len() <= n - i && matches_at(v, m, i) && (m.len() == n - i || !is_ident_char(
            v[i + m.len()],
        )) {
            assert(name_ends_at(v@, i + m@.len()));
            assert(declaration_at(v@, m@, i as int));
            return Some(i);
        }
        if i == n {
            assert forall|j: int| !declaration_at(v@, m@, j) by {
                if 0 <= j < i {
                }
            }
            return None;
        }
        i = i + 1;
    }
}

/// A line as `str::lines` yields it: a `\r` right before the `\n` is dropped.
pub open spec fn strip_cr(line: Seq<char>) -> Seq<char> {
    if line.len() > 0 && line.last() == '\r' {
        line.drop_last()
    } else {
        line
    }
}

/// The line declares the constant whose declaration opens with `m`:
/// after its leading whitespace it starts with `m`, and the name ends
/// there (no letter, digit or `_` follows).
pub open spec fn line_declares(line: Seq<char>, m: Seq<char>) -> bool {
    declaration_at(trim_start(line), m, 0)
}

/// The first line of `t` that declares the constant opened by `m`.
/// Lines end at `\n`; a final line needs none, and `\r\n` ends a line too.
pub open spec fn declaring_line(t: Seq<char>, m: Seq<char>) -> Option<Seq<char>>
    decreases t.len(),
{
    if t.len() == 0 {
        None
    } else {
        match index_of(t, '\n') {
            None => if line_declares(t, m) {
                Some(t)
            } else {
                None
            },
            Some(k) => {
                let line = strip_cr(t.take(k));
                if line_declares(line, m) {
                    Some(line)
                } else {
                    proof {
                        lemma_index_of(t, '\n');
                    }
                    declaring_line(t.skip(k + 1), m)
                }
            },
        }
    }
}

/// The text between the first `=` of a line and the first `;` after it
/// (or the end of the line), untrimmed.
pub open spec fn declared_value(line: Seq<char>) -> Option<Seq<char>> {
    match index_of(line, '=') {
        None => None,
        Some(e) => {
            let right = line.skip(e + 1);
            match index_of(right, ';') {
                None => Some(right),
                Some(s) => Some(right.take(s)),
            }
        },
    }
}

/// What reading the constant `key` from the shader text `t` gives:
/// the trimmed value text of its first declaring line.
pub open spec fn read_spec(t: Seq<char>, key: Seq<char>) -> Result<Seq<char>, ValueFault> {
    match declaring_line(t, marker(key)) {
        None => Err(ValueFault::Missing),
        Some(line) => match declared_value(line) {
            None => Err(ValueFault::Malformed),
            Some(v) => Ok(trim(v)),
        },
    }
}

/// What writing `r` as the value of `key` into `t` gives: at the first
/// `const float KEY` anywhere in `t` that no letter, digit or `_`
/// follows, everything between the next `=` and the `;` after it is
/// replaced by `r`.
pub open spec fn write_spec(t: Seq<char>, key: Seq<char>, r: Seq<char>) -> Result<
    Seq<char>,
    ValueFault,
> {
    match find_declaration(t, marker(key)) {
        None => Err(ValueFault::Missing),
        Some(st) => match index_of(t.skip(st), '=') {
            None => Err(ValueFault::Malformed),
            Some(e) => {
                let vs = st + e + 1;
                match index_of(t.skip(vs), ';') {
                    None => Err(ValueFault::Malformed),
                    Some(f) => Ok(t.take(vs) + r + t.skip(vs + f)),
                }
            },
        },
    }
}

/// Value text of the declaring line `v[ls..end]`, trimmed.
fn line_value(v: &Vec<char>, text: &str, key: &str, ls: usize, end: usize) -> (res: Result<
    String,
    ValueError,
>)
    requires
        v@ == text@,
        ls <= end <= v.len(),
    ensures
        match declared_value(text@.subrange(ls as int, end as int)) {
            Some(val) => res matches Ok(s) && s@ == trim(val),
            None => res matches Err(e) && e.fault == ValueFault::Malformed && e.key@ == key@,
        },
{
    let ghost line = text@.subrange(ls as int, end as int);
    let e = match find_char(v, '=', ls, end) {
        None => {
            return Err(ValueError::new(ValueFault::Malformed, key));
        },
        Some(e) => e,
    };
    let r0 = e + 1;
    assert(line.skip(e - ls + 1) =~= v@.subrange(r0 as int, end as int));
    let vend = match find_char(v, ';', r0, end) {
        Some(s) => {
            assert(v@.subrange(r0 as int, end as int).take(s - r0) =~= v@.subrange(
                r0 as int,
                s as int,
            ));
            s
        },
        None => end,
    };
    let a = skip_white_space(v, r0, vend);
    let b = skip_white_space_back(v, a, vend);
    Ok(String::from_str(text.substring_char(a, b)))
}

/// Reads the value text of the constant `key`: the first line whose
/// text after leading whitespace starts with `const float KEY`, with no
/// letter, digit or `_` right after, declares it; its value is what
/// stands between the first `=` and the next `;` (or the line's end),
/// trimmed.
pub fn find_value(text: &str, key: &str) -> (res: Result<String, ValueError>)
    ensures
        match read_spec(text@, key@) {
            Ok(val) => res matches Ok(s) && s@ == val,
            Err(f) => res matches Err(e) && e.fault == f && e.key@ == key@,
        },
{
    let v = to_chars(text);
    let m = marker_chars(key);
    let n = v.len();
    let ghost t = text@;
    let ghost mm = marker(key@);
    let mut ls: usize = 0;
    assert(t.skip(0) =~= t);
    loop
        invariant
            v@ == t,
            t == text@,
            m@ == mm,
            mm == marker(key@),
            n == v.len(),
            ls <= n,
            mm.len() > 0,
            declaring_line(t, mm) == declaring_line(t.skip(ls as int), mm),
        decreases n - ls,
    {
        if ls == n {
            return Err(ValueError::new(ValueFault::Missing, key));
        }
        let ghost u = t.skip(ls as int);
        assert(v@.subrange(ls as int, n as int) =~= u);
        let nl = find_char(&v, '\n', ls, n);
        let end = match nl {
            Some(k) => {
                if k > ls && v[k - 1] == '\r' {
                    k - 1
                } else {
                    k
                }
            },
            None => n,
        };
        proof {
            match nl {
                Some(k) => {
                    assert(u.take(k - ls) =~= t.subrange(ls as int, k as int));
                    if k > ls {
                        assert(t.subrange(ls as int, k as int).drop_last() =~= t.subrange(
                            ls as int,
                            k - 1,
                        ));
                    }
                    assert(strip_cr(u.take(k - ls)) == t.subrange(ls as int, end as int));
                },
                None => {},
            }
        }
        let w = skip_white_space(&v, ls, end);
        let declares = m.len() <= end - w && matches_at(&v, &m, w) && (m.len() == end - w
            || !is_ident_char(v[w + m.len()]));
        proof {
            let tl = t.subrange(w as int, end as int);
            if m.len() <= end - w {
                assert(tl.subrange(0, mm.len() as int) =~= t.subrange(w as int, w + mm.len()));
                if m.len() < end - w {
                    assert(tl[mm.len() as int] == t[w + mm.len()]);
                }
            }
            assert(declares == line_declares(t.subrange(ls as int, end as int), mm));
        }
        if declares {
            return line_value(&v, text, key, ls, end);
        }
        match nl {
            None => {
                return Err(ValueError::new(ValueFault::Missing, key));
            },
            Some(k) => {
                assert(u.skip(k - ls + 1) =~= t.skip(k + 1));
                ls = k + 1;
            },
        }
    }
}

/// Writes `replacement` as the value of the constant `key`: finds the
/// first `const float KEY` anywhere in `text` with no letter, digit or
/// `_` right after, then the first `=` from there and the first `;`
/// after it, and replaces what lies between.
/// On an error `text` is left as it was.
pub fn replace_value(text: &mut String, key: &str, replacement: &str) -> (res: Result<
    (),
    ValueError,
>)
    ensures
        match write_spec(old(text)@, key@, replacement@) {
            Ok(t) => res is Ok && final(text)@ == t,
            Err(f) => res matches Err(e) && e.fault == f && e.key@ == key@ && final(text)@ == old(
                text,
            )@,
        },
{
    let ghost t = text@;
    let v = to_chars(text.as_str());
    let m = marker_chars(key);
    let n = v.len();
    let st = match find_declaration_in(&v, &m) {
        None => {
            return Err(ValueError::new(ValueFault::Missing, key));
        },
        Some(st) => st,
    };
    proof {
        lemma_find_declaration(t, m@);
    }
    assert(v@.subrange(st as int, n as int) =~= t.skip(st as int));
    let eq = match find_char(&v, '=', st, n) {
        None => {
            return Err(ValueError::new(ValueFault::Malformed, key));
        },
        Some(eq) => eq,
    };
    let vs = eq + 1;
    assert(v@.subrange(vs as int, n as int) =~= t.skip(vs as int));
    let sc = match find_char(&v, ';', vs, n) {
        None => {
            return Err(ValueError::new(ValueFault::Malformed, key));
        },
        Some(sc) => sc,
    };
    let mut out = String::from_str(text.as_str().substring_char(0, vs));
    out.append(replacement);
    out.append(text.as_str().substring_char(sc, n));
    assert(t.subrange(0, vs as int) =~= t.take(vs as int));
    assert(t.subrange(sc as int, n as int) =~= t.skip(sc as int));
    *text = out;
    Ok(())
}

/// Writing the values `reps` for the constants `keys`, pairwise and in
/// order, as far as the shorter of the two goes; the first fault stops it
/// and names its constant.
pub open spec fn write_all_spec(t: Seq<char>, keys: Seq<Seq<char>>, reps: Seq<Seq<char>>) -> Result<
    Seq<char>,
    (ValueFault, Seq<char>),
>
    decreases keys.len(),
{
    if keys.len() == 0 || reps.len() == 0 {
        Ok(t)
    } else {
        match write_spec(t, keys[0], reps[0]) {
            Err(f) => Err((f, keys[0])),
            Ok(t2) => write_all_spec(t2, keys.drop_first(), reps.drop_first()),
        }
    }
}

/// The views of a list of string slices.
pub open spec fn str_views(keys: Seq<&str>) -> Seq<Seq<char>> {
    keys.map_values(|k: &str| k@)
}

/// The views of a list of strings.
pub open spec fn string_views(reps: Seq<String>) -> Seq<Seq<char>> {
    reps.map_values(|r: String| r@)
}

/// The new shader text after writing `replacements[i]` as the value of
/// `keys[i]` for each pair, in order; pairs beyond the shorter list are
/// ignored, and the first failing write is the error.
pub fn write_values(text: &str, keys: &[&str], replacements: &[String]) -> (res: Result<
    String,
    ValueError,
>)
    ensures
        match write_all_spec(text@, str_views(keys@), string_views(replacements@)) {
            Ok(t) => res matches Ok(s) && s@ == t,
            Err((f, k)) => res matches Err(e) && e.fault == f && e.key@ == k,
        },
{
    let ghost ks = str_views(keys@);
    let ghost rs = string_views(replacements@);
    let mut out = String::from_str(text);
    let count = if keys.len() < replacements.len() {
        keys.len()
    } else {
        replacements.len()
    };
    let mut i: usize = 0;
    assert(ks.skip(0) =~= ks);
    assert(rs.skip(0) =~= rs);
    while i < count
        invariant
            count <= keys.len(),
            count <= replacements.len(),
            count == keys.len() || count == replacements.len(),
            i <= count,
            ks == str_views(keys@),
            rs == string_views(replacements@),
            write_all_spec(text@, ks, rs) == write_all_spec(
                out@,
                ks.skip(i as int),
                rs.skip(i as int),
            ),
        decreases count - i,
    {
        assert(ks.skip(i as int)[0] == keys@[i as int]@);
        assert(rs.skip(i as int)[0] == replacements@[i as int]@);
        assert(ks.skip(i as int).drop_first() =~= ks.skip(i + 1));
        assert(rs.skip(i as int).drop_first() =~= rs.skip(i + 1));
        match replace_value(&mut out, keys[i], replacements[i].as_str()) {
            Ok(()) => {},
            Err(e) => {
                return Err(e);
            },
        }
        i = i + 1;
    }
    assert(ks.skip(i as int).len() == 0 || rs.skip(i as int).len() == 0);
    Ok(out)
}

/// `c` does not occur in `s`.
pub open spec fn free_of(s: Seq<char>, c: char) -> bool {
    forall|i: int| 0 <= i < s.len() ==> s[i] != c
}

proof fn lemma_index_of_is(s: Seq<char>, c: char, p: int)
    requires
        0 <= p < s.len(),
        s[p] == c,
        free_of(s.take(p), c),
    ensures
        index_of(s, c) == Some(p),
{
    lemma_index_of(s, c);
    assert forall|j: int| 0 <= j < p implies s[j] != c by {
        assert(s.take(p)[j] == s[j]);
    }
}

/// The declaration opening of a key without `=` or line break has
/// neither, and starts with a character that is not whitespace.
pub(crate) proof fn lemma_marker_chars(key: Seq<char>)
    ensures
        marker(key).len() == 12 + key.len(),
        marker(key)[0] == 'c',
        !white_space(marker(key)[0]),
        free_of(key, '=') ==> free_of(marker(key), '='),
        free_of(key, '\n') ==> free_of(marker(key), '\n'),
{
    let m = marker(key);
    assert forall|i: int| 12 <= i < m.len() implies m[i] == key[i - 12] by {}
}

/// Trimming the start of a line leaves one of its suffixes.
proof fn lemma_trim_start_suffix(l: Seq<char>) -> (w: int)
    ensures
        0 <= w <= l.len(),
        trim_start(l) == l.skip(w),
    decreases l.len(),
{
    if l.len() > 0 && white_space(l[0]) {
        let w1 = lemma_trim_start_suffix(l.drop_first());
        assert(l.drop_first().skip(w1) =~= l.skip(w1 + 1));
        w1 + 1
    } else {
        assert(l.skip(0) =~= l);
        0
    }
}

/// Leading whitespace followed by a non-whitespace character is what
/// trimming the start removes.
proof fn lemma_trim_start_prefix(ws: Seq<char>, b: Seq<char>)
    requires
        forall|i: int| 0 <= i < ws.len() ==> white_space(ws[i]),
        b.len() > 0,
        !white_space(b[0]),
    ensures
        trim_start(ws + b) == b,
    decreases ws.len(),
{
    if ws.len() == 0 {
        assert(ws + b =~= b);
    } else {
        assert((ws + b).drop_first() =~= ws.drop_first() + b);
        lemma_trim_start_prefix(ws.drop_first(), b);
    }
}

/// Complete lines in front of `x` that hold no declaration do not change
/// which line declares the constant.
pub(crate) proof fn lemma_skip_lines(pre: Seq<char>, x: Seq<char>, m: Seq<char>)
    requires
        pre.len() == 0 || pre.last() == '\n',
        forall|i: int| 0 <= i < pre.len() ==> !declaration_at(pre + x, m, i),
    ensures
        declaring_line(pre + x, m) == declaring_line(x, m),
    decreases pre.len(),
{
    let s = pre + x;
    if pre.len() == 0 {
        assert(s =~= x);
    } else {
        lemma_index_of(pre, '\n');
        let k = index_of(pre, '\n')->0;
        assert(s.take(k) =~= pre.take(k));
        assert(free_of(s.take(k), '\n'));
        lemma_index_of_is(s, '\n', k);
        let line = strip_cr(s.take(k));
        let w = lemma_trim_start_suffix(line);
        if line_declares(line, m) {
            let tl = line.skip(w);
            assert(tl.subrange(0, m.len() as int) =~= s.subrange(w, w + m.len()));
            if w + m.len() < line.len() {
                assert(tl[m.len() as int] == s[w + m.len()]);
            } else if s.take(k).len() > 0 && s.take(k).last() == '\r' {
                assert(s[k - 1] == '\r');
            } else {
                assert(s[k] == '\n');
            }
            assert(declaration_at(s, m, w));
            assert(false);
        }
        let pre2 = pre.skip(k + 1);
        assert(s.skip(k + 1) =~= pre2 + x);
        assert forall|i: int| 0 <= i < pre2.len() implies !declaration_at(pre2 + x, m, i) by {
            lemma_declaration_skip(s, m, k + 1, i);
        }
        if pre2.len() > 0 {
            assert(pre2.last() == pre.last());
        }
        lemma_skip_lines(pre2, x, m);
    }
}

/// The first line of `x`, as `str::lines` yields it.
spec fn first_line(x: Seq<char>) -> Seq<char> {
    match index_of(x, '\n') {
        None => x,
        Some(k) => strip_cr(x.take(k)),
    }
}

/// When the first `q + 1` characters of `x` hold no line break and the
/// last of them is `;`, the first line of `x` reaches past that `;`.
proof fn lemma_first_line_reaches(x: Seq<char>, q: int) -> (len: int)
    requires
        0 <= q < x.len(),
        x[q] == ';',
        free_of(x.take(q + 1), '\n'),
    ensures
        q + 1 <= len <= x.len(),
        first_line(x) == x.take(len),
{
    lemma_index_of(x, '\n');
    match index_of(x, '\n') {
        None => {
            assert(x.take(x.len() as int) =~= x);
            x.len() as int
        },
        Some(k) => {
            if k <= q {
                assert(x.take(q + 1)[k] == x[k]);
            }
            if x.take(k).last() == '\r' {
                assert(k - 1 != q);
                assert(x.take(k).drop_last() =~= x.take(k - 1));
                k - 1
            } else {
                k
            }
        },
    }
}

/// The first line of a non-empty text declares the constant exactly when
/// `declaring_line` picks it.
proof fn lemma_declaring_first_line(x: Seq<char>, m: Seq<char>)
    requires
        x.len() > 0,
        line_declares(first_line(x), m),
    ensures
        declaring_line(x, m) == Some(first_line(x)),
{
}

/// A line `ws + m + rest` whose name ends after `m` declares the constant.
proof fn lemma_line_declares(line: Seq<char>, ws: Seq<char>, m: Seq<char>)
    requires
        forall|i: int| 0 <= i < ws.len() ==> white_space(ws[i]),
        m.len() > 0,
        !white_space(m[0]),
        ws.len() + m.len() < line.len(),
        line.subrange(0, ws.len() as int) == ws,
        line.subrange(ws.len() as int, (ws.len() + m.len()) as int) == m,
        name_ends_at(line, (ws.len() + m.len()) as int),
    ensures
        line_declares(line, m),
{
    let b = line.skip(ws.len() as int);
    assert(ws + b =~= line);
    assert(b[0] == m[0]);
    lemma_trim_start_prefix(ws, b);
    assert(b.subrange(0, m.len() as int) =~= m);
    assert(b[m.len() as int] == line[(ws.len() + m.len()) as int]);
}

/// The value of a line `head + "=" + r + ";" + rest` whose head has no
/// `=` is `r`, when `r` has no `;`.
proof fn lemma_line_value(line: Seq<char>, p: int, r: Seq<char>)
    requires
        0 <= p,
        p + 1 + r.len() < line.len(),
        free_of(line.take(p), '='),
        line[p] == '=',
        line.subrange(p + 1, p + 1 + r.len()) == r,
        line[p + 1 + r.len()] == ';',
        free_of(r, ';'),
    ensures
        declared_value(line) == Some(r),
{
    lemma_index_of_is(line, '=', p);
    let right = line.skip(p + 1);
    assert(right[r.len() as int] == ';');
    assert(right.take(r.len() as int) =~= r);
    lemma_index_of_is(right, ';', r.len() as int);
}

/// The line `ws + m + mid + "=" + r + ";" + post` (up to its end) declares
/// the constant opened by `m`, and its value is `r`.
pub(crate) proof fn lemma_declaration_line(
    ws: Seq<char>,
    m: Seq<char>,
    mid: Seq<char>,
    r: Seq<char>,
    post: Seq<char>,
)
    requires
        forall|i: int| 0 <= i < ws.len() ==> white_space(ws[i]) && ws[i] != '\n',
        m.len() > 0,
        !white_space(m[0]),
        free_of(m, '\n'),
        free_of(m, '='),
        free_of(mid, '\n'),
        free_of(mid, '='),
        mid.len() == 0 || !ident_char(mid[0]),
        free_of(r, '\n'),
        free_of(r, ';'),
    ensures
        ({
            let x = ws + m + mid + seq!['='] + r + seq![';'] + post;
            declaring_line(x, m) matches Some(line) && declared_value(line) == Some(r)
        }),
{
    let head = ws + m + mid;
    let x = head + seq!['='] + r + seq![';'] + post;
    let p = head.len() as int;
    let q = p + 1 + r.len();
    let upto = x.take(q + 1);
    assert(free_of(upto, '\n')) by {
        assert forall|i: int| 0 <= i < q + 1 implies #[trigger] upto[i] != '\n' by {
            if i < ws.len() {
            } else if i < ws.len() + m.len() {
                assert(x[i] == m[i - ws.len()]);
            } else if i < p {
                assert(x[i] == mid[i - ws.len() - m.len()]);
            } else if i == p {
            } else if i < q {
                assert(x[i] == r[i - p - 1]);
            } else {
            }
        }
    }
    assert(x[q] == ';');
    let len = lemma_first_line_reaches(x, q);
    let line = x.take(len);
    assert(line.subrange(0, ws.len() as int) =~= ws);
    assert(line.subrange(ws.len() as int, (ws.len() + m.len()) as int) =~= m);
    assert(line[(ws.len() + m.len()) as int] == if mid.len() == 0 {
        '='
    } else {
        mid[0]
    });
    lemma_line_declares(line, ws, m);
    lemma_declaring_first_line(x, m);
    assert(free_of(line.take(p), '=')) by {
        assert forall|i: int| 0 <= i < p implies line.take(p)[i] != '=' by {
            if i < ws.len() {
                assert(line.take(p)[i] == ws[i]);
            } else if i < ws.len() + m.len() {
                assert(line.take(p)[i] == m[i - ws.len()]);
            } else {
                assert(line.take(p)[i] == mid[i - ws.len() - m.len()]);
            }
        }
    }
    assert(line.subrange(p + 1, q) =~= r);
    lemma_line_value(line, p, r);
}

/// Writing into a declaration of the `const float KEY <mid>= <old>;`
/// shape that comes first replaces `old` by `r`.
pub(crate) proof fn lemma_write_shape(
    head: Seq<char>,
    m: Seq<char>,
    mid: Seq<char>,
    old_value: Seq<char>,
    post: Seq<char>,
    r: Seq<char>,
)
    requires
        free_of(m, '='),
        free_of(mid, '='),
        free_of(old_value, ';'),
    ensures
        ({
            let t = head + m + mid + seq!['='] + old_value + seq![';'] + post;
            let st = head.len() as int;
            let vs = st + m.len() + mid.len() + 1;
            &&& index_of(t.skip(st), '=') == Some((m.len() + mid.len()) as int)
            &&& index_of(t.skip(vs), ';') == Some(old_value.len() as int)
            &&& t.take(vs) + r + t.skip(vs + old_value.len()) == head + m + mid + seq!['='] + r
                + seq![';'] + post
        }),
{
    let t = head + m + mid + seq!['='] + old_value + seq![';'] + post;
    let st = head.len() as int;
    let e: int = (m.len() + mid.len()) as int;
    let tail = t.skip(st);
    assert(tail =~= m + mid + seq!['='] + old_value + seq![';'] + post);
    assert(free_of(tail.take(e), '=')) by {
        assert forall|i: int| 0 <= i < e implies tail.take(e)[i] != '=' by {
            if i < m.len() {
                assert(tail[i] == m[i]);
            } else {
                assert(tail[i] == mid[i - m.len()]);
            }
        }
    }
    lemma_index_of_is(tail, '=', e);
    let vs: int = st + e + 1;
    let rest = t.skip(vs);
    assert(rest =~= old_value + seq![';'] + post);
    assert(rest.take(old_value.len() as int) =~= old_value);
    lemma_index_of_is(rest, ';', old_value.len() as int);
    assert(t.take(vs) + r + t.skip(vs + old_value.len()) =~= head + m + mid + seq!['='] + r
        + seq![';'] + post);
}

/// Declarations before position `|pre|` are the same in two texts that
/// agree up to past the declaration opening standing at `|pre| + |ws|`.
proof fn lemma_no_earlier_declaration(pre: Seq<char>, t: Seq<char>, u: Seq<char>, m: Seq<char>, common: int)
    requires
        pre.len() + m.len() <= common,
        common <= t.len(),
        common <= u.len(),
        t.subrange(0, common) == u.subrange(0, common),
        forall|i: int| 0 <= i < pre.len() ==> !declaration_at(t, m, i),
    ensures
        forall|i: int| 0 <= i < pre.len() ==> !declaration_at(u, m, i),
{
    let ts = t.subrange(0, common);
    let us = u.subrange(0, common);
    assert forall|j: int| 0 <= j < common implies #[trigger] t[j] == u[j] by {
        assert(ts[j] == t[j]);
        assert(us[j] == u[j]);
        assert(ts[j] == us[j]);
    }
    assert forall|i: int| 0 <= i < pre.len() implies !declaration_at(u, m, i) by {
        assert(!declaration_at(t, m, i));
        assert(t[i + m.len()] == u[i + m.len()]);
        assert(u.subrange(i, i + m.len()) =~= t.subrange(i, i + m.len()));
    }
}

/// Read after write: when the constant's first declaration has the
/// `const float KEY <mid>= <old>;` shape on a line of its own (after
/// optional indentation, with `mid` empty or not starting with a letter,
/// digit or `_`),
/// writing a value text `r` without `;` or line break and reading the
/// constant back gives `r` trimmed.
pub proof fn law_read_after_write(
    pre: Seq<char>,
    ws: Seq<char>,
    key: Seq<char>,
    mid: Seq<char>,
    old_value: Seq<char>,
    post: Seq<char>,
    r: Seq<char>,
)
    requires
        pre.len() == 0 || pre.last() == '\n',
        forall|i: int| 0 <= i < ws.len() ==> white_space(ws[i]) && ws[i] != '\n',
        free_of(key, '\n'),
        free_of(key, '='),
        free_of(mid, '\n'),
        free_of(mid, '='),
        mid.len() == 0 || !ident_char(mid[0]),
        free_of(old_value, ';'),
        free_of(r, '\n'),
        free_of(r, ';'),
        find_declaration(
            pre + ws + marker(key) + mid + seq!['='] + old_value + seq![';'] + post,
            marker(key),
        ) == Some((pre.len() + ws.len()) as int),
    ensures
        ({
            let t = pre + ws + marker(key) + mid + seq!['='] + old_value + seq![';'] + post;
            let written = pre + ws + marker(key) + mid + seq!['='] + r + seq![';'] + post;
            &&& write_spec(t, key, r) == Ok::<Seq<char>, ValueFault>(written)
            &&& read_spec(written, key) == Ok::<Seq<char>, ValueFault>(trim(r))
        }),
{
    let m = marker(key);
    lemma_marker_chars(key);
    let head = pre + ws;
    let t = pre + ws + m + mid + seq!['='] + old_value + seq![';'] + post;
    let written = pre + ws + m + mid + seq!['='] + r + seq![';'] + post;
    assert(t =~= head + m + mid + seq!['='] + old_value + seq![';'] + post);
    assert(written =~= head + m + mid + seq!['='] + r + seq![';'] + post);
    lemma_write_shape(head, m, mid, old_value, post, r);
    let x = ws + m + mid + seq!['='] + r + seq![';'] + post;
    assert(written =~= pre + x);
    lemma_find_declaration(t, m);
    let common = (pre.len() + ws.len() + m.len()) as int;
    assert(t.subrange(0, common) =~= written.subrange(0, common));
    lemma_no_earlier_declaration(pre, t, written, m, common);
    lemma_skip_lines(pre, x, m);
    lemma_declaration_line(ws, m, mid, r, post);
}

/// Last write wins: writing `b` over a written `a` gives what writing `b`
/// alone gives, and writing the same value again changes nothing, when
/// the key holds no `=` and `a` no `;`.
pub proof fn law_last_write_wins(t: Seq<char>, key: Seq<char>, a: Seq<char>, b: Seq<char>)
    requires
        free_of(key, '='),
        free_of(a, ';'),
        write_spec(t, key, a) is Ok,
    ensures
        write_spec(write_spec(t, key, a)->Ok_0, key, b) == write_spec(t, key, b),
        write_spec(write_spec(t, key, a)->Ok_0, key, a) == write_spec(t, key, a),
{
    let m = marker(key);
    lemma_marker_chars(key);
    lemma_find_declaration(t, m);
    let st = find_declaration(t, m)->0;
    lemma_index_of(t.skip(st), '=');
    let e = index_of(t.skip(st), '=')->0;
    let vs = st + e + 1;
    lemma_index_of(t.skip(vs), ';');
    let f = index_of(t.skip(vs), ';')->0;
    let t1 = t.take(vs) + a + t.skip(vs + f);
    // The name's `=` comes after the declaration opening.
    assert(e >= m.len()) by {
        if e < m.len() {
            assert(t.skip(st)[e] == t[st + e]);
            assert(t.subrange(st, st + m.len())[e] == t[st + e]);
        }
    }
    assert forall|i: int| 0 <= i < vs implies t1[i] == t[i] by {}
    // The same declaration comes first in `t1`.
    assert forall|j: int| 0 <= j <= st implies declaration_at(t1, m, j) == declaration_at(
        t,
        m,
        j,
    ) by {
        if j + m.len() < t.len() {
            assert(t1.subrange(j, j + m.len()) =~= t.subrange(j, j + m.len()));
        }
    }
    lemma_find_declaration(t1, m);
    assert(find_declaration(t1, m) == Some(st));
    // The same `=` follows it.
    assert(t1.skip(st)[e] == '=');
    assert(t1.skip(st).take(e) =~= t.skip(st).take(e));
    assert(free_of(t.skip(st).take(e), '=')) by {
        assert forall|j: int| 0 <= j < e implies t.skip(st).take(e)[j] != '=' by {
            assert(t.skip(st).take(e)[j] == t.skip(st)[j]);
        }
    }
    lemma_index_of_is(t1.skip(st), '=', e);
    // The `;` after the written value is the old one.
    assert(t.skip(vs)[f] == ';');
    assert(t1.skip(vs) =~= a + t.skip(vs + f));
    assert(t1.skip(vs).take(a.len() as int) =~= a);
    lemma_index_of_is(t1.skip(vs), ';', a.len() as int);
    assert(t1.take(vs) =~= t.take(vs));
    assert(t1.skip(vs + a.len()) =~= t.skip(vs + f));
}

} // verus!
