//! Whole shader texts laid out as a run of declarations: writing every
//! value and reading each back.

use vstd::prelude::*;
use crate::shader::{
    declaration_at, declaration_opening, find_declaration, free_of, lemma_declaration_line,
    lemma_declaration_skip, lemma_find_declaration, lemma_marker_chars, lemma_skip_lines,
    lemma_write_shape, marker, read_spec, write_all_spec, write_spec, ValueFault,
};
use crate::text::{ident_char, occurs_at, trim, white_space};

verus! {

/// A name made of identifier characters only.
pub open spec fn name_chars(k: Seq<char>) -> bool {
    k.len() > 0 && forall|i: int| 0 <= i < k.len() ==> ident_char(k[i])
}

/// `s` holds no declaration opening `const float `.
pub open spec fn clean(s: Seq<char>) -> bool {
    forall|p: int| !occurs_at(s, declaration_opening(), p)
}

/// The declaration `const float KEY =VALUE;`.
pub open spec fn entry(key: Seq<char>, val: Seq<char>) -> Seq<char> {
    marker(key) + seq![' '] + seq!['='] + val + seq![';']
}

/// The declarations `a..b`, each followed by the gap after it.
pub open spec fn entries(
    gaps: Seq<Seq<char>>,
    keys: Seq<Seq<char>>,
    vals: Seq<Seq<char>>,
    a: int,
    b: int,
) -> Seq<char>
    decreases b - a,
{
    if b <= a {
        Seq::empty()
    } else {
        entries(gaps, keys, vals, a, b - 1) + entry(keys[b - 1], vals[b - 1]) + gaps[b]
    }
}

/// The text up to the declaration `i`: the first gap and the
/// declarations before `i` with their gaps.
pub open spec fn before(
    gaps: Seq<Seq<char>>,
    keys: Seq<Seq<char>>,
    vals: Seq<Seq<char>>,
    i: int,
) -> Seq<char> {
    gaps[0] + entries(gaps, keys, vals, 0, i)
}

/// A text of declarations of `keys` with the values `vals`:
/// `gaps[0]`, the declaration of `keys[0]`, `gaps[1]`, and so on.
pub open spec fn laid_out(gaps: Seq<Seq<char>>, keys: Seq<Seq<char>>, vals: Seq<Seq<char>>) -> Seq<
    char,
> {
    before(gaps, keys, vals, keys.len() as int)
}

/// The shape the laws below ask for: one more gap than keys; every
/// declaration starts a line; no gap holds a declaration opening; the
/// keys are distinct identifiers.
pub open spec fn layout_ok(gaps: Seq<Seq<char>>, keys: Seq<Seq<char>>, vals: Seq<Seq<char>>) -> bool {
    &&& gaps.len() == keys.len() + 1
    &&& vals.len() == keys.len()
    &&& gaps[0].len() == 0 || gaps[0].last() == '\n'
    &&& forall|j: int| 1 <= j < keys.len() ==> gaps[j].len() > 0 && gaps[j].last() == '\n'
    &&& forall|j: int| 0 <= j < gaps.len() ==> clean(#[trigger] gaps[j])
    &&& forall|j: int| 0 <= j < keys.len() ==> name_chars(#[trigger] keys[j])
    &&& forall|i: int, j: int| 0 <= i < j < keys.len() ==> keys[i] != keys[j]
}

proof fn lemma_entries_split(
    gaps: Seq<Seq<char>>,
    keys: Seq<Seq<char>>,
    vals: Seq<Seq<char>>,
    a: int,
    c: int,
    b: int,
)
    requires
        a <= c <= b,
    ensures
        entries(gaps, keys, vals, a, b) == entries(gaps, keys, vals, a, c) + entries(
            gaps,
            keys,
            vals,
            c,
            b,
        ),
    decreases b - c,
{
    if b == c {
        assert(entries(gaps, keys, vals, a, c) + Seq::empty() =~= entries(gaps, keys, vals, a, c));
    } else {
        lemma_entries_split(gaps, keys, vals, a, c, b - 1);
        assert(entries(gaps, keys, vals, a, b) =~= entries(gaps, keys, vals, a, c) + entries(
            gaps,
            keys,
            vals,
            c,
            b,
        ));
    }
}

proof fn lemma_entries_update(
    gaps: Seq<Seq<char>>,
    keys: Seq<Seq<char>>,
    vals: Seq<Seq<char>>,
    a: int,
    b: int,
    j: int,
    x: Seq<char>,
)
    requires
        0 <= j < vals.len(),
        0 <= a,
        b <= vals.len(),
        j < a || b <= j,
    ensures
        entries(gaps, keys, vals.update(j, x), a, b) == entries(gaps, keys, vals, a, b),
    decreases b - a,
{
    if b > a {
        lemma_entries_update(gaps, keys, vals, a, b - 1, j, x);
        assert(vals.update(j, x)[b - 1] == vals[b - 1]);
    }
}

proof fn lemma_occurs_prefix(s: Seq<char>, a: Seq<char>, m: Seq<char>, p: int)
    requires
        occurs_at(s, a + m, p),
    ensures
        occurs_at(s, a, p),
{
    assert(s.subrange(p, p + a.len()) =~= s.subrange(p, p + a.len() + m.len()).subrange(
        0,
        a.len() as int,
    ));
    assert((a + m).subrange(0, a.len() as int) =~= a);
}

proof fn lemma_occurs_skip(s: Seq<char>, m: Seq<char>, d: int, q: int)
    requires
        0 <= d <= s.len(),
        0 <= q,
    ensures
        occurs_at(s.skip(d), m, q) == occurs_at(s, m, q + d),
{
    if q + d + m.len() <= s.len() {
        assert(s.skip(d).subrange(q, q + m.len()) =~= s.subrange(q + d, q + d + m.len()));
    }
}

proof fn lemma_opening_chars()
    ensures
        declaration_opening().len() == 12,
        declaration_opening()[0] == 'c',
        forall|t: int| 1 <= t < 12 ==> declaration_opening()[t] != 'c',
        declaration_opening()[1] == 'o',
        declaration_opening()[2] == 'n',
        declaration_opening()[3] == 's',
        declaration_opening()[5] == ' ',
        declaration_opening()[6] == 'f',
        forall|t: int|
            0 <= t < 12 ==> declaration_opening()[t] != '\n' && declaration_opening()[t] != ';'
                && declaration_opening()[t] != '=',
{
}

/// No declaration opening starts inside a declaration `entry(k, v)`
/// (after its first character), whatever follows it.
proof fn lemma_entry_inside(k: Seq<char>, v: Seq<char>, rest: Seq<char>, d: int)
    requires
        name_chars(k),
        clean(v),
        1 <= d < entry(k, v).len(),
    ensures
        !occurs_at(entry(k, v) + rest, declaration_opening(), d),
{
    let o = declaration_opening();
    let e = entry(k, v);
    let w = e + rest;
    lemma_opening_chars();
    let l: int = (12 + k.len()) as int;
    assert(e.len() == l + 3 + v.len());
    if occurs_at(w, o, d) {
        assert forall|t: int| 0 <= t < 12 implies w[d + t] == o[t] by {
            assert(w.subrange(d, d + 12)[t] == w[d + t]);
        }
        assert(forall|t: int| 0 <= t < k.len() ==> w[12 + t] == k[t]);
        assert(w[l] == ' ');
        assert(w[l + 1] == '=');
        assert(w[l + 2 + v.len() as int] == ';');
        if d < 12 {
            assert(w[d] == o[d]);
        } else if d < l {
            if d + 5 < l {
                assert(w[d + 5] == k[d + 5 - 12]);
            } else if d + 5 == l {
                assert(w[d + 6] == '=');
            } else if d + 5 == l + 1 {
            } else {
                assert(w[l] == o[l - d]);
            }
        } else if d < l + 2 {
        } else if d + 12 <= l + 2 + v.len() {
            assert(w.subrange(d, d + 12) =~= v.subrange(d - l - 2, d - l - 2 + 12));
            assert(occurs_at(v, o, d - l - 2));
        } else {
            assert(w[l + 2 + v.len() as int] == o[l + 2 + v.len() - d]);
        }
    }
}

/// No declaration opening starts inside a gap that holds none and ends
/// its line, whatever follows.
proof fn lemma_gap_inside(g: Seq<char>, z: Seq<char>, q: int)
    requires
        clean(g),
        g.len() > 0,
        g.last() == '\n',
        0 <= q < g.len(),
    ensures
        !occurs_at(g + z, declaration_opening(), q),
{
    let o = declaration_opening();
    lemma_opening_chars();
    if occurs_at(g + z, o, q) {
        if q + 12 <= g.len() {
            assert((g + z).subrange(q, q + 12) =~= g.subrange(q, q + 12));
            assert(occurs_at(g, o, q));
        } else {
            let t = g.len() - 1 - q;
            assert((g + z).subrange(q, q + 12)[t] == (g + z)[g.len() - 1]);
            assert(o[t] == '\n');
        }
    }
}

/// A declaration of one identifier never stands where another's opens.
proof fn lemma_other_name(kk: Seq<char>, k: Seq<char>, rest: Seq<char>)
    requires
        name_chars(kk),
        name_chars(k),
        kk != k,
    ensures
        !declaration_at(marker(k) + seq![' '] + rest, marker(kk), 0),
{
    let s = marker(k) + seq![' '] + rest;
    lemma_marker_chars(k);
    lemma_marker_chars(kk);
    if declaration_at(s, marker(kk), 0) {
        assert forall|t: int| 0 <= t < kk.len() implies s[12 + t] == kk[t] by {
            assert(s.subrange(0, marker(kk).len() as int)[12 + t] == marker(kk)[12 + t]);
        }
        assert forall|t: int| 0 <= t < k.len() implies s[12 + t] == k[t] by {}
        assert(s[(12 + k.len()) as int] == ' ');
        if kk.len() > k.len() {
            assert(kk[k.len() as int] == ' ');
        } else if kk.len() < k.len() {
            assert(s[(12 + kk.len()) as int] == k[kk.len() as int]);
        } else {
            assert(kk =~= k);
        }
    }
}

/// No declaration of another name starts in a declaration or in the gap
/// after it.
proof fn lemma_no_declaration_in_piece(
    k: Seq<char>,
    v: Seq<char>,
    g: Seq<char>,
    z: Seq<char>,
    kk: Seq<char>,
    q: int,
)
    requires
        name_chars(k),
        clean(v),
        clean(g),
        g.len() > 0,
        g.last() == '\n',
        name_chars(kk),
        kk != k,
        0 <= q < entry(k, v).len() + g.len(),
    ensures
        !declaration_at(entry(k, v) + g + z, marker(kk), q),
{
    let e = entry(k, v);
    let y = e + g + z;
    let o = declaration_opening();
    assert(marker(kk) =~= o + kk);
    if q == 0 {
        assert(y =~= marker(k) + seq![' '] + (seq!['='] + v + seq![';'] + g + z));
        lemma_other_name(kk, k, seq!['='] + v + seq![';'] + g + z);
    } else if declaration_at(y, marker(kk), q) {
        lemma_occurs_prefix(y, o, kk, q);
        if q < e.len() {
            assert(y =~= e + (g + z));
            lemma_entry_inside(k, v, g + z, q);
        } else {
            let q2 = q - e.len();
            assert(y.skip(e.len() as int) =~= g + z);
            lemma_occurs_skip(y, o, e.len() as int, q2);
            lemma_gap_inside(g, z, q2);
        }
    }
}

/// No declaration of a name not among the first `j` keys stands before
/// the `j`-th declaration.
proof fn lemma_no_declaration_before(
    gaps: Seq<Seq<char>>,
    keys: Seq<Seq<char>>,
    vals: Seq<Seq<char>>,
    j: int,
    kk: Seq<char>,
    z: Seq<char>,
)
    requires
        layout_ok(gaps, keys, vals),
        0 <= j < keys.len(),
        name_chars(kk),
        forall|t: int| 0 <= t < j ==> keys[t] != kk,
        forall|t: int| 0 <= t < j ==> clean(#[trigger] vals[t]),
    ensures
        forall|p: int|
            0 <= p < before(gaps, keys, vals, j).len() ==> !declaration_at(
                before(gaps, keys, vals, j) + z,
                marker(kk),
                p,
            ),
    decreases j,
{
    let b = before(gaps, keys, vals, j);
    let x = b + z;
    let mk = marker(kk);
    let o = declaration_opening();
    assert(mk =~= o + kk);
    if j == 0 {
        assert(b =~= gaps[0]);
        assert(clean(gaps[0]));
        assert forall|p: int| 0 <= p < b.len() implies !declaration_at(x, mk, p) by {
            if declaration_at(x, mk, p) {
                lemma_occurs_prefix(x, o, kk, p);
                lemma_gap_inside(gaps[0], z, p);
            }
        }
    } else {
        let b0 = before(gaps, keys, vals, j - 1);
        let k = keys[j - 1];
        let v = vals[j - 1];
        let g = gaps[j];
        let y = entry(k, v) + g + z;
        assert(b =~= b0 + entry(k, v) + g);
        assert(x =~= b0 + y);
        assert(name_chars(k));
        assert(clean(v));
        assert(clean(g));
        lemma_no_declaration_before(gaps, keys, vals, j - 1, kk, y);
        assert forall|p: int| 0 <= p < b.len() implies !declaration_at(x, mk, p) by {
            if p >= b0.len() {
                assert(x.skip(b0.len() as int) =~= y);
                lemma_declaration_skip(x, mk, b0.len() as int, p - b0.len());
                lemma_no_declaration_in_piece(k, v, g, z, kk, p - b0.len());
            }
        }
    }
}

proof fn lemma_name_free(k: Seq<char>)
    requires
        name_chars(k),
    ensures
        free_of(k, '='),
        free_of(k, '\n'),
        free_of(marker(k), '='),
        free_of(marker(k), '\n'),
        marker(k).len() == 12 + k.len(),
        marker(k).len() > 0,
        !white_space(marker(k)[0]),
{
    assert forall|t: int| 0 <= t < k.len() implies k[t] != '=' && k[t] != '\n' by {
        assert(ident_char(k[t]));
    }
    lemma_marker_chars(k);
}

/// The text around its `i`-th declaration.
proof fn lemma_around(gaps: Seq<Seq<char>>, keys: Seq<Seq<char>>, vals: Seq<Seq<char>>, i: int)
    requires
        0 <= i < keys.len(),
    ensures
        laid_out(gaps, keys, vals) == before(gaps, keys, vals, i) + entry(keys[i], vals[i]) + (
        gaps[i + 1] + entries(gaps, keys, vals, i + 1, keys.len() as int)),
{
    let n = keys.len() as int;
    lemma_entries_split(gaps, keys, vals, 0, i, n);
    lemma_entries_split(gaps, keys, vals, i, i + 1, n);
    assert(entries(gaps, keys, vals, i, i) == Seq::<char>::empty());
    assert(entries(gaps, keys, vals, i, i + 1) =~= entry(keys[i], vals[i]) + gaps[i + 1]);
    assert(laid_out(gaps, keys, vals) =~= before(gaps, keys, vals, i) + entry(keys[i], vals[i]) + (
    gaps[i + 1] + entries(gaps, keys, vals, i + 1, n)));
}

/// The `i`-th declaration is the first one of its key.
proof fn lemma_first_declaration(
    gaps: Seq<Seq<char>>,
    keys: Seq<Seq<char>>,
    vals: Seq<Seq<char>>,
    i: int,
    z: Seq<char>,
)
    requires
        layout_ok(gaps, keys, vals),
        0 <= i < keys.len(),
        forall|t: int| 0 <= t < i ==> clean(#[trigger] vals[t]),
    ensures
        find_declaration(
            before(gaps, keys, vals, i) + entry(keys[i], vals[i]) + z,
            marker(keys[i]),
        ) == Some(before(gaps, keys, vals, i).len() as int),
        forall|p: int|
            0 <= p < before(gaps, keys, vals, i).len() ==> !declaration_at(
                before(gaps, keys, vals, i) + (entry(keys[i], vals[i]) + z),
                marker(keys[i]),
                p,
            ),
{
    let b = before(gaps, keys, vals, i);
    let k = keys[i];
    let m = marker(k);
    let x = b + entry(k, vals[i]) + z;
    assert(name_chars(k));
    lemma_name_free(k);
    lemma_no_declaration_before(gaps, keys, vals, i, k, entry(k, vals[i]) + z);
    assert(x =~= b + (entry(k, vals[i]) + z));
    assert(x.subrange(b.len() as int, (b.len() + m.len()) as int) =~= m);
    assert(x[(b.len() + m.len()) as int] == ' ');
    assert(declaration_at(x, m, b.len() as int));
    lemma_find_declaration(x, m);
}

/// Writing into a declaration that comes first replaces its value.
proof fn lemma_write_at(b: Seq<char>, k: Seq<char>, v: Seq<char>, tail: Seq<char>, r: Seq<char>)
    requires
        name_chars(k),
        free_of(v, ';'),
        find_declaration(b + entry(k, v) + tail, marker(k)) == Some(b.len() as int),
    ensures
        write_spec(b + entry(k, v) + tail, k, r) == Ok::<Seq<char>, ValueFault>(
            b + entry(k, r) + tail,
        ),
{
    let m = marker(k);
    lemma_name_free(k);
    lemma_write_shape(b, m, seq![' '], v, tail, r);
    assert(b + entry(k, v) + tail =~= b + m + seq![' '] + seq!['='] + v + seq![';'] + tail);
    assert(b + m + seq![' '] + seq!['='] + r + seq![';'] + tail =~= b + entry(k, r) + tail);
}

/// Writing the `i`-th value of a laid-out text puts it in its declaration.
proof fn lemma_write_step(
    gaps: Seq<Seq<char>>,
    keys: Seq<Seq<char>>,
    vals: Seq<Seq<char>>,
    i: int,
    r: Seq<char>,
)
    requires
        layout_ok(gaps, keys, vals),
        0 <= i < keys.len(),
        forall|t: int| 0 <= t < i ==> clean(#[trigger] vals[t]),
        free_of(vals[i], ';'),
    ensures
        write_spec(laid_out(gaps, keys, vals), keys[i], r) == Ok::<Seq<char>, ValueFault>(
            laid_out(gaps, keys, vals.update(i, r)),
        ),
{
    let n = keys.len() as int;
    let vals2 = vals.update(i, r);
    let b = before(gaps, keys, vals, i);
    let tail = gaps[i + 1] + entries(gaps, keys, vals, i + 1, n);
    lemma_around(gaps, keys, vals, i);
    lemma_around(gaps, keys, vals2, i);
    lemma_entries_update(gaps, keys, vals, 0, i, i, r);
    lemma_entries_update(gaps, keys, vals, i + 1, n, i, r);
    assert(name_chars(keys[i]));
    lemma_first_declaration(gaps, keys, vals, i, tail);
    lemma_write_at(b, keys[i], vals[i], tail, r);
}

/// The values, the first `i` of them written.
pub open spec fn written(olds: Seq<Seq<char>>, reps: Seq<Seq<char>>, i: int) -> Seq<Seq<char>> {
    Seq::new(olds.len(), |j: int| if j < i { reps[j] } else { olds[j] })
}

proof fn lemma_write_all_from(
    gaps: Seq<Seq<char>>,
    keys: Seq<Seq<char>>,
    olds: Seq<Seq<char>>,
    reps: Seq<Seq<char>>,
    i: int,
)
    requires
        layout_ok(gaps, keys, olds),
        reps.len() == keys.len(),
        forall|j: int| 0 <= j < keys.len() ==> free_of(#[trigger] olds[j], ';'),
        forall|j: int| 0 <= j < keys.len() ==> clean(#[trigger] reps[j]),
        0 <= i <= keys.len(),
    ensures
        write_all_spec(laid_out(gaps, keys, written(olds, reps, i)), keys.skip(i), reps.skip(i))
            == Ok::<Seq<char>, (ValueFault, Seq<char>)>(laid_out(gaps, keys, reps)),
    decreases keys.len() - i,
{
    let w = written(olds, reps, i);
    if i == keys.len() {
        assert(w =~= reps);
        assert(keys.skip(i).len() == 0);
    } else {
        assert(layout_ok(gaps, keys, w));
        assert forall|t: int| 0 <= t < i implies clean(#[trigger] w[t]) by {
            assert(w[t] == reps[t]);
        }
        assert(w[i] == olds[i]);
        lemma_write_step(gaps, keys, w, i, reps[i]);
        assert(w.update(i, reps[i]) =~= written(olds, reps, i + 1));
        assert(keys.skip(i)[0] == keys[i]);
        assert(reps.skip(i)[0] == reps[i]);
        assert(keys.skip(i).drop_first() =~= keys.skip(i + 1));
        assert(reps.skip(i).drop_first() =~= reps.skip(i + 1));
        lemma_write_all_from(gaps, keys, olds, reps, i + 1);
    }
}

proof fn lemma_read_each(gaps: Seq<Seq<char>>, keys: Seq<Seq<char>>, vals: Seq<Seq<char>>, i: int)
    requires
        layout_ok(gaps, keys, vals),
        0 <= i < keys.len(),
        forall|j: int| 0 <= j < keys.len() ==> clean(#[trigger] vals[j]),
        free_of(vals[i], ';'),
        free_of(vals[i], '\n'),
    ensures
        read_spec(laid_out(gaps, keys, vals), keys[i]) == Ok::<Seq<char>, ValueFault>(
            trim(vals[i]),
        ),
{
    let n = keys.len() as int;
    let b = before(gaps, keys, vals, i);
    let tail = gaps[i + 1] + entries(gaps, keys, vals, i + 1, n);
    let k = keys[i];
    let m = marker(k);
    lemma_around(gaps, keys, vals, i);
    assert(name_chars(k));
    lemma_name_free(k);
    lemma_first_declaration(gaps, keys, vals, i, tail);
    if i > 0 {
        let b0 = before(gaps, keys, vals, i - 1);
        assert(b =~= b0 + entry(keys[i - 1], vals[i - 1]) + gaps[i]);
        assert(b.last() == gaps[i].last());
    }
    assert(laid_out(gaps, keys, vals) =~= b + (entry(k, vals[i]) + tail));
    lemma_skip_lines(b, entry(k, vals[i]) + tail, m);
    let nothing = Seq::<char>::empty();
    assert(nothing + m + seq![' '] + seq!['='] + vals[i] + seq![';'] + tail =~= entry(k, vals[i])
        + tail);
    assert(!ident_char(' '));
    lemma_declaration_line(nothing, m, seq![' '], vals[i], tail);
}

/// Writing every value of a laid-out shader text and reading each back:
/// when the declarations of distinct identifier keys each start a line,
/// in the order of the keys, the gaps between them hold no declaration
/// opening and the old values no `;`, writing value texts without `;`,
/// line break or declaration opening gives the same text with the new
/// values, and reading any key back gives its new value, trimmed.
pub proof fn law_write_all_then_read(
    gaps: Seq<Seq<char>>,
    keys: Seq<Seq<char>>,
    olds: Seq<Seq<char>>,
    reps: Seq<Seq<char>>,
)
    requires
        layout_ok(gaps, keys, olds),
        reps.len() == keys.len(),
        forall|j: int| 0 <= j < keys.len() ==> free_of(#[trigger] olds[j], ';'),
        forall|j: int|
            0 <= j < keys.len() ==> free_of(#[trigger] reps[j], ';') && free_of(reps[j], '\n')
                && clean(reps[j]),
    ensures
        write_all_spec(laid_out(gaps, keys, olds), keys, reps) == Ok::<
            Seq<char>,
            (ValueFault, Seq<char>),
        >(laid_out(gaps, keys, reps)),
        forall|i: int|
            0 <= i < keys.len() ==> read_spec(laid_out(gaps, keys, reps), #[trigger] keys[i])
                == Ok::<Seq<char>, ValueFault>(trim(reps[i])),
{
    assert(written(olds, reps, 0) =~= olds);
    assert(keys.skip(0) =~= keys);
    assert(reps.skip(0) =~= reps);
    lemma_write_all_from(gaps, keys, olds, reps, 0);
    assert(layout_ok(gaps, keys, reps));
    assert forall|i: int| 0 <= i < keys.len() implies read_spec(
        laid_out(gaps, keys, reps),
        #[trigger] keys[i],
    ) == Ok::<Seq<char>, ValueFault>(trim(reps[i])) by {
        lemma_read_each(gaps, keys, reps, i);
    }
}

} // verus!
