//! Laws that relate the Roman encoder and decoder.
use vstd::prelude::*;
use crate::roman::{
    all_glyphs, four_units, glyph_magnitude, greedy_numeral, look, magnitudes, roman_numeral,
    roman_value, signed_magnitude, table_glyphs, table_magnitude, total_from, well_ordered,
    well_placed, RomanError, TABLE_LEN,
};

verus! {

/// The magnitudes of the canonical numeral for digit `d` at scale `s`
/// (a power of ten): I, II, III, IV, V, VI, VII, VIII, IX and the like.
pub open spec fn digit_magnitudes(d: int, s: u64) -> Seq<u64> {
    let f = (5 * s) as u64;
    let t = (10 * s) as u64;
    if d == 1 {
        seq![s]
    } else if d == 2 {
        seq![s, s]
    } else if d == 3 {
        seq![s, s, s]
    } else if d == 4 {
        seq![s, f]
    } else if d == 5 {
        seq![f]
    } else if d == 6 {
        seq![f, s]
    } else if d == 7 {
        seq![f, s, s]
    } else if d == 8 {
        seq![f, s, s, s]
    } else if d == 9 {
        seq![s, t]
    } else {
        Seq::empty()
    }
}

/// Position `j` of a concatenation lies in the first part or in the second.
proof fn lemma_look_concat(a: Seq<u64>, b: Seq<u64>, j: int)
    requires
        0 <= j,
    ensures
        look(a + b, j) == if j < a.len() {
            a[j]
        } else {
            look(b, j - a.len())
        },
{
}

proof fn lemma_total_after(a: Seq<u64>, b: Seq<u64>, i: int)
    requires
        0 <= i <= b.len(),
    ensures
        total_from(a + b, a.len() + i) == total_from(b, i),
    decreases b.len() - i,
{
    if i < b.len() {
        lemma_total_after(a, b, i + 1);
        lemma_look_concat(a, b, a.len() + i + 1);
        assert((a + b)[a.len() + i] == b[i]);
    }
}

proof fn lemma_placed_after(a: Seq<u64>, b: Seq<u64>, j: int)
    requires
        0 <= j < b.len(),
    ensures
        well_placed(a + b, a.len() + j) == well_placed(b, j),
{
    lemma_look_concat(a, b, a.len() + j + 1);
    lemma_look_concat(a, b, a.len() + j + 2);
    lemma_look_concat(a, b, a.len() + j + 3);
    assert((a + b)[a.len() + j] == b[j]);
}

/// The glyphs of a digit's numeral are well placed before any numeral whose
/// glyphs are at most `s` and whose first glyph is below `s`.
proof fn lemma_head_placed(d: int, s: u64, b: Seq<u64>, j: int)
    requires
        0 <= d <= 9,
        s == 1 || s == 10 || s == 100 || s == 1000,
        forall|k: int| 0 <= k < b.len() ==> #[trigger] b[k] <= s,
        b.len() > 0 ==> b[0] < s,
        0 <= j < digit_magnitudes(d, s).len(),
    ensures
        well_placed(digit_magnitudes(d, s) + b, j),
{
    let a = digit_magnitudes(d, s);
    lemma_look_concat(a, b, j);
    lemma_look_concat(a, b, j + 1);
    lemma_look_concat(a, b, j + 2);
    lemma_look_concat(a, b, j + 3);
    assert(look(b, 0) < s || b.len() == 0);
    assert(look(b, 1) <= s);
    assert(look(b, 2) <= s);
}

/// The glyphs of a digit's numeral add up to the digit times its scale, when
/// what follows is below the scale.
proof fn lemma_head_total(d: int, s: u64, b: Seq<u64>)
    requires
        0 <= d <= 9,
        s == 1 || s == 10 || s == 100 || s == 1000,
        b.len() > 0 ==> b[0] < s,
    ensures
        total_from(digit_magnitudes(d, s) + b, 0) == d * s + total_from(
            digit_magnitudes(d, s) + b,
            digit_magnitudes(d, s).len() as int,
        ),
{
    let a = digit_magnitudes(d, s);
    let w = a + b;
    lemma_look_concat(a, b, 1);
    lemma_look_concat(a, b, 2);
    lemma_look_concat(a, b, 3);
    lemma_look_concat(a, b, 4);
    assert(look(b, 0) < s);
    if a.len() >= 1 {
        assert(total_from(w, 0) == signed_magnitude(w, 0) + total_from(w, 1));
    }
    if a.len() >= 2 {
        assert(total_from(w, 1) == signed_magnitude(w, 1) + total_from(w, 2));
    }
    if a.len() >= 3 {
        assert(total_from(w, 2) == signed_magnitude(w, 2) + total_from(w, 3));
    }
    if a.len() >= 4 {
        assert(total_from(w, 3) == signed_magnitude(w, 3) + total_from(w, 4));
    }
}

/// Putting the numeral of digit `d` at scale `s` before one whose glyphs are
/// all at most `s`, and whose first glyph is below `s`, keeps the order valid
/// and adds `d * s` to the value.
proof fn lemma_prepend_digit(d: int, s: u64, b: Seq<u64>)
    requires
        0 <= d <= 9,
        s == 1 || s == 10 || s == 100 || s == 1000,
        forall|k: int| 0 <= k < b.len() ==> 1 <= #[trigger] b[k] <= s,
        b.len() > 0 ==> b[0] < s,
        well_ordered(b),
    ensures
        well_ordered(digit_magnitudes(d, s) + b),
        total_from(digit_magnitudes(d, s) + b, 0) == d * s + total_from(b, 0),
        forall|k: int|
            0 <= k < (digit_magnitudes(d, s) + b).len() ==> #[trigger] (digit_magnitudes(d, s)
                + b)[k] <= 10 * s,
        forall|k: int|
            0 <= k < (digit_magnitudes(d, s) + b).len() ==> 1 <= #[trigger] (digit_magnitudes(
                d,
                s,
            ) + b)[k],
        (digit_magnitudes(d, s) + b).len() > 0 ==> (digit_magnitudes(d, s) + b)[0] < 10 * s,
{
    let a = digit_magnitudes(d, s);
    let w = a + b;
    assert forall|j: int| 0 <= j < w.len() implies #[trigger] well_placed(w, j) by {
        if j >= a.len() {
            lemma_placed_after(a, b, j - a.len());
            assert(well_placed(b, j - a.len()));
        } else {
            lemma_head_placed(d, s, b, j);
        }
    }
    lemma_total_after(a, b, 0);
    lemma_head_total(d, s, b);
    assert forall|k: int| 0 <= k < w.len() implies 1 <= #[trigger] w[k] <= 10 * s by {
        if k >= a.len() {
            assert(w[k] == b[k - a.len()]);
        }
    }
}

/// The magnitudes of the glyphs that the greedy encoder writes.
pub open spec fn greedy_magnitudes(r: nat, i: int, unicode: bool) -> Seq<u64> {
    magnitudes(greedy_numeral(r, i, unicode))
}

proof fn lemma_magnitudes_concat(x: Seq<char>, y: Seq<char>)
    ensures
        magnitudes(x + y) == magnitudes(x) + magnitudes(y),
{
    assert(magnitudes(x + y) =~= magnitudes(x) + magnitudes(y));
}

/// The magnitudes of the glyphs of each entry of the encoding table: entry 0
/// is M; from entry 1 on, each group of four at scale `s` is written
/// `s 10s`, `5s`, `s 5s`, `s`.
proof fn lemma_entry_magnitudes(i: int, unicode: bool)
    requires
        0 <= i < TABLE_LEN,
    ensures
        i == 0 ==> magnitudes(table_glyphs(i, unicode)) == seq![1000u64],
        i == 1 ==> magnitudes(table_glyphs(i, unicode)) == seq![100u64, 1000u64],
        i == 2 ==> magnitudes(table_glyphs(i, unicode)) == seq![500u64],
        i == 3 ==> magnitudes(table_glyphs(i, unicode)) == seq![100u64, 500u64],
        i == 4 ==> magnitudes(table_glyphs(i, unicode)) == seq![100u64],
        i == 5 ==> magnitudes(table_glyphs(i, unicode)) == seq![10u64, 100u64],
        i == 6 ==> magnitudes(table_glyphs(i, unicode)) == seq![50u64],
        i == 7 ==> magnitudes(table_glyphs(i, unicode)) == seq![10u64, 50u64],
        i == 8 ==> magnitudes(table_glyphs(i, unicode)) == seq![10u64],
        i == 9 ==> magnitudes(table_glyphs(i, unicode)) == seq![1u64, 10u64],
        i == 10 ==> magnitudes(table_glyphs(i, unicode)) == seq![5u64],
        i == 11 ==> magnitudes(table_glyphs(i, unicode)) == seq![1u64, 5u64],
        i == 12 ==> magnitudes(table_glyphs(i, unicode)) == seq![1u64],
{
    let m = magnitudes(table_glyphs(i, unicode));
    if i == 0 {
        assert(m =~= seq![1000u64]);
    } else if i == 1 {
        assert(m =~= seq![100u64, 1000u64]);
    } else if i == 2 {
        assert(m =~= seq![500u64]);
    } else if i == 3 {
        assert(m =~= seq![100u64, 500u64]);
    } else if i == 4 {
        assert(m =~= seq![100u64]);
    } else if i == 5 {
        assert(m =~= seq![10u64, 100u64]);
    } else if i == 6 {
        assert(m =~= seq![50u64]);
    } else if i == 7 {
        assert(m =~= seq![10u64, 50u64]);
    } else if i == 8 {
        assert(m =~= seq![10u64]);
    } else if i == 9 {
        assert(m =~= seq![1u64, 10u64]);
    } else if i == 10 {
        assert(m =~= seq![5u64]);
    } else if i == 11 {
        assert(m =~= seq![1u64, 5u64]);
    } else {
        assert(m =~= seq![1u64]);
    }
}

/// One step of the greedy encoder: an entry that fits is written and taken
/// off, one that does not is passed over.
proof fn lemma_greedy_step(r: nat, i: int, unicode: bool)
    requires
        0 <= i < TABLE_LEN,
    ensures
        r >= table_magnitude(i) ==> greedy_magnitudes(r, i, unicode) == magnitudes(
            table_glyphs(i, unicode),
        ) + greedy_magnitudes((r - table_magnitude(i)) as nat, i, unicode),
        r < table_magnitude(i) ==> greedy_magnitudes(r, i, unicode) == greedy_magnitudes(
            r,
            i + 1,
            unicode,
        ),
{
    if r >= table_magnitude(i) {
        lemma_magnitudes_concat(
            table_glyphs(i, unicode),
            greedy_numeral((r - table_magnitude(i)) as nat, i, unicode),
        );
    }
}

/// Entries `g` to `g + 3` of the table are those of scale `s`: 9s, 5s, 4s
/// and s, written `s 10s`, `5s`, `s 5s` and `s`.
pub open spec fn scale_group(g: int, s: u64, unicode: bool) -> bool {
    &&& 0 <= g && g + 3 < TABLE_LEN
    &&& 1 <= s <= 100
    &&& table_magnitude(g) == 9 * s
    &&& table_magnitude(g + 1) == 5 * s
    &&& table_magnitude(g + 2) == 4 * s
    &&& table_magnitude(g + 3) == s
    &&& magnitudes(table_glyphs(g, unicode)) == seq![s, (10 * s) as u64]
    &&& magnitudes(table_glyphs(g + 1, unicode)) == seq![(5 * s) as u64]
    &&& magnitudes(table_glyphs(g + 2, unicode)) == seq![s, (5 * s) as u64]
    &&& magnitudes(table_glyphs(g + 3, unicode)) == seq![s]
}

/// Up to three units of a scale are written one glyph each.
proof fn lemma_greedy_units(k: int, q: nat, g: int, s: u64, unicode: bool)
    requires
        scale_group(g, s, unicode),
        0 <= k <= 3,
        q < s,
    ensures
        greedy_magnitudes((k * s + q) as nat, g + 3, unicode) == digit_magnitudes(k, s)
            + greedy_magnitudes(q, g + 4, unicode),
    decreases k,
{
    lemma_greedy_step((k * s + q) as nat, g + 3, unicode);
    if k > 0 {
        lemma_greedy_units(k - 1, q, g, s, unicode);
        assert(k * s + q >= s && k * s + q - s == (k - 1) * s + q) by (nonlinear_arith)
            requires
                k >= 1,
        ;
        assert(digit_magnitudes(k, s) =~= seq![s] + digit_magnitudes(k - 1, s));
        assert(greedy_magnitudes((k * s + q) as nat, g + 3, unicode) =~= digit_magnitudes(k, s)
            + greedy_magnitudes(q, g + 4, unicode));
    } else {
        assert(k * s == 0) by (nonlinear_arith)
            requires
                k == 0,
        ;
        assert(digit_magnitudes(k, s) =~= Seq::<u64>::empty());
        assert(greedy_magnitudes(q, g + 3, unicode) =~= digit_magnitudes(k, s)
            + greedy_magnitudes(q, g + 4, unicode));
    }
}

/// The greedy encoder on the entries of one scale writes the numeral of the
/// digit `d` at that scale and hands the remainder on to the next group.
proof fn lemma_greedy_digit(d: int, q: nat, g: int, s: u64, unicode: bool)
    requires
        scale_group(g, s, unicode),
        0 <= d <= 9,
        q < s,
    ensures
        greedy_magnitudes((d * s + q) as nat, g, unicode) == digit_magnitudes(d, s)
            + greedy_magnitudes(q, g + 4, unicode),
{
    let r = (d * s + q) as nat;
    let rest = greedy_magnitudes(q, g + 4, unicode);
    lemma_greedy_step(r, g, unicode);
    assert(d * s >= 0) by (nonlinear_arith)
        requires
            d >= 0,
    ;
    assert(d >= 9 ==> d * s >= 9 * s) by (nonlinear_arith);
    assert(d >= 5 ==> d * s >= 5 * s) by (nonlinear_arith);
    assert(d >= 4 ==> d * s >= 4 * s) by (nonlinear_arith);
    assert(d <= 8 ==> d * s <= 8 * s) by (nonlinear_arith);
    assert(d <= 4 ==> d * s <= 4 * s) by (nonlinear_arith);
    assert(d <= 3 ==> d * s <= 3 * s) by (nonlinear_arith);
    assert(d == 9 ==> d * s == 9 * s) by (nonlinear_arith);
    assert(d == 4 ==> d * s == 4 * s) by (nonlinear_arith);
    assert((d - 5) * s == d * s - 5 * s) by (nonlinear_arith);
    if d == 9 {
        lemma_greedy_step(q, g, unicode);
        lemma_greedy_step(q, g + 1, unicode);
        lemma_greedy_step(q, g + 2, unicode);
        lemma_greedy_step(q, g + 3, unicode);
        assert(greedy_magnitudes(r, g, unicode) =~= digit_magnitudes(d, s) + rest);
    } else if d >= 5 {
        let r1 = ((d - 5) * s + q) as nat;
        lemma_greedy_step(r, g + 1, unicode);
        lemma_greedy_step(r1, g + 1, unicode);
        lemma_greedy_step(r1, g + 2, unicode);
        lemma_greedy_units(d - 5, q, g, s, unicode);
        assert(digit_magnitudes(d, s) =~= seq![(5 * s) as u64] + digit_magnitudes(d - 5, s));
        assert(greedy_magnitudes(r, g, unicode) =~= digit_magnitudes(d, s) + rest);
    } else if d == 4 {
        lemma_greedy_step(r, g + 1, unicode);
        lemma_greedy_step(r, g + 2, unicode);
        lemma_greedy_step(q, g + 2, unicode);
        lemma_greedy_units(0, q, g, s, unicode);
        assert(greedy_magnitudes(r, g, unicode) =~= digit_magnitudes(d, s) + rest);
    } else {
        lemma_greedy_step(r, g + 1, unicode);
        lemma_greedy_step(r, g + 2, unicode);
        lemma_greedy_units(d, q, g, s, unicode);
    }
}

proof fn lemma_scale_groups(unicode: bool)
    ensures
        scale_group(1, 100, unicode),
        scale_group(5, 10, unicode),
        scale_group(9, 1, unicode),
{
    lemma_entry_magnitudes(1, unicode);
    lemma_entry_magnitudes(2, unicode);
    lemma_entry_magnitudes(3, unicode);
    lemma_entry_magnitudes(4, unicode);
    lemma_entry_magnitudes(5, unicode);
    lemma_entry_magnitudes(6, unicode);
    lemma_entry_magnitudes(7, unicode);
    lemma_entry_magnitudes(8, unicode);
    lemma_entry_magnitudes(9, unicode);
    lemma_entry_magnitudes(10, unicode);
    lemma_entry_magnitudes(11, unicode);
    lemma_entry_magnitudes(12, unicode);
}

/// The greedy encoder writes one M for each thousand, then goes on with the
/// hundreds.
proof fn lemma_greedy_thousands(a: int, r: nat, unicode: bool)
    requires
        0 <= a <= 3,
        r < 1000,
    ensures
        greedy_magnitudes((a * 1000 + r) as nat, 0, unicode) == digit_magnitudes(a, 1000)
            + greedy_magnitudes(r, 1, unicode),
    decreases a,
{
    lemma_entry_magnitudes(0, unicode);
    lemma_greedy_step((a * 1000 + r) as nat, 0, unicode);
    if a > 0 {
        lemma_greedy_thousands(a - 1, r, unicode);
        assert(digit_magnitudes(a, 1000) =~= seq![1000u64] + digit_magnitudes(a - 1, 1000));
        assert(greedy_magnitudes((a * 1000 + r) as nat, 0, unicode) =~= digit_magnitudes(
            a,
            1000,
        ) + greedy_magnitudes(r, 1, unicode));
    } else {
        assert(greedy_magnitudes(r, 0, unicode) =~= digit_magnitudes(a, 1000) + greedy_magnitudes(
            r,
            1,
            unicode,
        ));
    }
}

/// Decoding the canonical numeral of any value from 1 to 3999, in ASCII
/// letters or in Unicode numeral forms, gives that value back.
pub proof fn lemma_roman_round_trip(n: u64, unicode: bool)
    requires
        1 <= n <= 3999,
    ensures
        roman_value(roman_numeral(n as nat, unicode)) == Ok::<u64, RomanError>(n),
{
    let a = (n / 1000) as int;
    let h = (n / 100 % 10) as int;
    let t = (n / 10 % 10) as int;
    let o = (n % 10) as int;
    assert(n % 1000 == h * 100 + n % 100);
    assert(n % 100 == t * 10 + n % 10);
    assert(n == a * 1000 + n % 1000);
    lemma_scale_groups(unicode);
    lemma_greedy_thousands(a, (n % 1000) as nat, unicode);
    lemma_greedy_digit(h, (n % 100) as nat, 1, 100, unicode);
    lemma_greedy_digit(t, (n % 10) as nat, 5, 10, unicode);
    lemma_greedy_digit(o, 0, 9, 1, unicode);
    assert(o * 1 + 0 == o);
    let w0 = greedy_magnitudes(0, 13, unicode);
    assert(w0 =~= Seq::<u64>::empty());
    assert(well_ordered(w0));
    let w1 = digit_magnitudes(o, 1) + w0;
    let w2 = digit_magnitudes(t, 10) + w1;
    let w3 = digit_magnitudes(h, 100) + w2;
    let w4 = digit_magnitudes(a, 1000) + w3;
    lemma_prepend_digit(o, 1, w0);
    lemma_prepend_digit(t, 10, w1);
    lemma_prepend_digit(h, 100, w2);
    lemma_prepend_digit(a, 1000, w3);
    let s = roman_numeral(n as nat, unicode);
    let w = magnitudes(s);
    assert(w == w4);
    assert(total_from(w, 0) == n);
    assert(s.len() > 0) by {
        if s.len() == 0 {
            assert(total_from(w, 0) == 0);
        }
    }
    assert(!four_units(s)) by {
        if four_units(s) {
            assert(w =~= seq![1u64, 1u64, 1u64, 1u64]);
            assert(well_placed(w, 0));
        }
    }
    assert(all_glyphs(s)) by {
        assert forall|i: int| 0 <= i < s.len() implies glyph_magnitude(#[trigger] s[i]) != 0 by {
            assert(w[i] >= 1);
        }
    }
}

} // verus!
