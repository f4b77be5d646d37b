//! Roman numerals: decoding a numeral into its value and encoding a value as
//! its canonical numeral.
use vstd::prelude::*;
use crate::decimal::{decimal, to_decimal};

verus! {

/// Why a conversion from or to Roman numerals failed.
#[derive(Debug, Clone, Copy, PartialEq, Eq, Structural)]
pub enum RomanError {
    /// The numeral to decode is empty.
    EmptyInput,
    /// The numeral holds a character that is no numeral glyph.
    InvalidCharacter,
    /// The glyphs are in an order or repetition that numerals do not allow.
    InvalidSequence,
    /// The numeral stands for a value beyond the range of `u64`.
    Overflow,
    /// The value to encode is outside `1..=3999`.
    OutOfRange(u64),
}

/// The sentence that describes an error.
pub open spec fn error_text(e: RomanError) -> Seq<char> {
    match e {
        RomanError::EmptyInput => "Invalid empty string"@,
        RomanError::InvalidCharacter => "Input contains invalid characters"@,
        RomanError::InvalidSequence => "Invalid sequence"@,
        RomanError::Overflow => "Value exceeds the range of 64-bit integers"@,
        RomanError::OutOfRange(n) => "The value should be between 1 and 3999 inclusive, not "@
            + decimal(n as nat),
    }
}

impl RomanError {
    /// The sentence that describes the error.
    pub fn message(&self) -> (r: String)
        ensures
            r@ == error_text(*self),
    {
        match self {
            RomanError::EmptyInput => String::from_str("Invalid empty string"),
            RomanError::InvalidCharacter => String::from_str("Input contains invalid characters"),
            RomanError::InvalidSequence => String::from_str("Invalid sequence"),
            RomanError::Overflow => String::from_str("Value exceeds the range of 64-bit integers"),
            RomanError::OutOfRange(n) => String::from_str(
                "The value should be between 1 and 3999 inclusive, not ",
            ).concat(to_decimal(*n).as_str()),
        }
    }
}

/// Magnitude of a Roman numeral glyph, ASCII letter or Unicode numeral form
/// (apostrophus included); 0 for a character that is no glyph.
pub open spec fn glyph_magnitude(c: char) -> u64 {
    match c {
        'I' | 'Ⅰ' => 1,
        'Ⅱ' => 2,
        'Ⅲ' => 3,
        'Ⅳ' => 4,
        'V' | 'Ⅴ' => 5,
        'Ⅵ' | 'ↅ' => 6,
        'Ⅶ' => 7,
        'Ⅷ' => 8,
        'Ⅸ' => 9,
        'X' | 'Ⅹ' => 10,
        'Ⅺ' => 11,
        'L' | 'Ⅼ' | 'ↆ' => 50,
        'C' | 'Ⅽ' => 100,
        'D' | 'Ⅾ' => 500,
        'M' | 'Ⅿ' | 'ↀ' => 1000,
        'ↁ' => 5000,
        'ↂ' => 10000,
        'ↇ' => 50000,
        'ↈ' => 100000,
        _ => 0,
    }
}

/// Looks a glyph up in the numeral table.
pub fn glyph_value(c: char) -> (r: u64)
    ensures
        r == glyph_magnitude(c),
{
    match c {
        'I' | 'Ⅰ' => 1,
        'Ⅱ' => 2,
        'Ⅲ' => 3,
        'Ⅳ' => 4,
        'V' | 'Ⅴ' => 5,
        'Ⅵ' | 'ↅ' => 6,
        'Ⅶ' => 7,
        'Ⅷ' => 8,
        'Ⅸ' => 9,
        'X' | 'Ⅹ' => 10,
        'Ⅺ' => 11,
        'L' | 'Ⅼ' | 'ↆ' => 50,
        'C' | 'Ⅽ' => 100,
        'D' | 'Ⅾ' => 500,
        'M' | 'Ⅿ' | 'ↀ' => 1000,
        'ↁ' => 5000,
        'ↂ' => 10000,
        'ↇ' => 50000,
        'ↈ' => 100000,
        _ => 0,
    }
}

/// The magnitudes of the glyphs of `s`, left to right.
pub open spec fn magnitudes(s: Seq<char>) -> Seq<u64> {
    s.map_values(|c: char| glyph_magnitude(c))
}

/// Every character of `s` is a numeral glyph.
pub open spec fn all_glyphs(s: Seq<char>) -> bool {
    forall|i: int| 0 <= i < s.len() ==> glyph_magnitude(#[trigger] s[i]) != 0
}

/// The magnitude at position `i`, or 0 past either end.
pub open spec fn look(w: Seq<u64>, i: int) -> u64 {
    if 0 <= i < w.len() {
        w[i]
    } else {
        0
    }
}

/// The glyph at position `i` obeys the rules of order and repetition, given
/// the three glyphs that follow it:
/// - it is not smaller than the glyph two places on (no double subtraction,
///   as in IXC);
/// - it does not begin a run of four equal glyphs;
/// - an L or a D is not doubled;
/// - when it is subtracted, what remains is not itself (LC, VX).
pub open spec fn well_placed(w: Seq<u64>, i: int) -> bool {
    let c = w[i];
    let next = look(w, i + 1);
    let second = look(w, i + 2);
    let third = look(w, i + 3);
    &&& c >= second
    &&& !(c == next && c == second && c == third)
    &&& !(c == next && (c == 50 || c == 500))
    &&& (c < next ==> next - c != c)
}

/// Every glyph of `w` is well placed.
pub open spec fn well_ordered(w: Seq<u64>) -> bool {
    forall|i: int| 0 <= i < w.len() ==> #[trigger] well_placed(w, i)
}

/// What the glyph at position `i` adds to the value: it is subtracted when a
/// larger glyph follows it, and added otherwise.
pub open spec fn signed_magnitude(w: Seq<u64>, i: int) -> int {
    if w[i] < look(w, i + 1) {
        -(w[i] as int)
    } else {
        w[i] as int
    }
}

/// The sum of the signed magnitudes from position `i` to the end.
pub open spec fn total_from(w: Seq<u64>, i: int) -> int
    decreases w.len() - i,
{
    if 0 <= i < w.len() {
        signed_magnitude(w, i) + total_from(w, i + 1)
    } else {
        0
    }
}

/// The four-unit spelling of 4 used on clock faces, ASCII or Unicode.
pub open spec fn four_units(s: Seq<char>) -> bool {
    s == seq!['I', 'I', 'I', 'I'] || s == seq!['Ⅰ', 'Ⅰ', 'Ⅰ', 'Ⅰ']
}

/// What decoding an upper-case numeral gives.
pub open spec fn roman_value(s: Seq<char>) -> Result<u64, RomanError> {
    if s.len() == 0 {
        Err(RomanError::EmptyInput)
    } else if four_units(s) {
        Ok(4)
    } else if !all_glyphs(s) {
        Err(RomanError::InvalidCharacter)
    } else if !well_ordered(magnitudes(s)) {
        Err(RomanError::InvalidSequence)
    } else if total_from(magnitudes(s), 0) > u64::MAX {
        Err(RomanError::Overflow)
    } else {
        Ok(total_from(magnitudes(s), 0) as u64)
    }
}

/// Whether `s`, of `n` characters, is the four-unit spelling of 4.
fn is_four_units(s: &str, n: usize) -> (r: bool)
    requires
        n == s@.len(),
    ensures
        r == four_units(s@),
{
    if n != 4 {
        return false;
    }
    let c0 = s.get_char(0);
    let c1 = s.get_char(1);
    let c2 = s.get_char(2);
    let c3 = s.get_char(3);
    let r = (c0 == 'I' && c1 == 'I' && c2 == 'I' && c3 == 'I') || (c0 == 'Ⅰ' && c1 == 'Ⅰ'
        && c2 == 'Ⅰ' && c3 == 'Ⅰ');
    assert(r ==> four_units(s@)) by {
        if c0 == 'I' && c1 == 'I' && c2 == 'I' && c3 == 'I' {
            assert(s@ =~= seq!['I', 'I', 'I', 'I']);
        }
        if c0 == 'Ⅰ' && c1 == 'Ⅰ' && c2 == 'Ⅰ' && c3 == 'Ⅰ' {
            assert(s@ =~= seq!['Ⅰ', 'Ⅰ', 'Ⅰ', 'Ⅰ']);
        }
    }
    r
}

/// A subtracted glyph always follows an added one, so the running total seen
/// from the right never drops below the last glyph added.
proof fn lemma_total_from_bounds(w: Seq<u64>, i: int)
    requires
        0 <= i <= w.len(),
        forall|j: int| i <= j < w.len() ==> #[trigger] well_placed(w, j),
        forall|j: int| 0 <= j < w.len() ==> 1 <= #[trigger] w[j] <= 100000,
    ensures
        0 <= total_from(w, i) <= 100000 * (w.len() - i),
        i < w.len() && w[i] >= look(w, i + 1) ==> total_from(w, i) >= w[i],
        i < w.len() ==> total_from(w, i) >= 1,
    decreases w.len() - i,
{
    if i < w.len() {
        lemma_total_from_bounds(w, i + 1);
        assert(well_placed(w, i));
        if w[i] < look(w, i + 1) {
            assert(well_placed(w, i + 1));
            assert(w[i + 1] >= look(w, i + 2));
        }
    }
}

/// Decodes a numeral that is already in upper case.
pub fn decode_uppercase(roman: &str) -> (r: Result<u64, RomanError>)
    ensures
        r == roman_value(roman@),
{
    let n = roman.unicode_len();
    if n == 0 {
        return Err(RomanError::EmptyInput);
    }
    if is_four_units(roman, n) {
        return Ok(4);
    }
    let ghost w = magnitudes(roman@);
    let mut i: usize = 0;
    while i < n
        invariant
            n == roman@.len(),
            0 <= i <= n,
            forall|j: int| 0 <= j < i ==> glyph_magnitude(#[trigger] roman@[j]) != 0,
        decreases n - i,
    {
        if glyph_value(roman.get_char(i)) == 0 {
            return Err(RomanError::InvalidCharacter);
        }
        i = i + 1;
    }
    assert(all_glyphs(roman@));
    assert forall|j: int| 0 <= j < w.len() implies 1 <= #[trigger] w[j] <= 100000 by {
        assert(glyph_magnitude(roman@[j]) != 0);
    }
    // Scan from the right. The last four magnitudes seen, oldest first:
    // window[3] is at position k. Each glyph moves the total by at most 100000,
    // so a u128 total cannot overflow on any string whose length fits in usize.
    let mut window: [u64; 4] = [0, 0, 0, 0];
    let mut total: u128 = 0;
    let mut k: usize = n;
    while k > 0
        invariant
            n == roman@.len() == w.len(),
            w == magnitudes(roman@),
            all_glyphs(roman@),
            !four_units(roman@),
            0 <= k <= n,
            forall|j: int| 0 <= j < w.len() ==> 1 <= #[trigger] w[j] <= 100000,
            window@[3] == look(w, k as int),
            window@[2] == look(w, k + 1),
            window@[1] == look(w, k + 2),
            window@[0] == look(w, k + 3),
            forall|j: int| k <= j < n ==> #[trigger] well_placed(w, j),
            total == total_from(w, k as int),
        decreases k,
    {
        k = k - 1;
        let current = glyph_value(roman.get_char(k));
        window = [window[1], window[2], window[3], current];
        let misplaced = current < window[1] || (window[0] == current && window[1] == current
            && window[2] == current) || (current == window[2] && (current == 50 || current
            == 500)) || (current < window[2] && window[2] - current == current);
        if misplaced {
            assert(!well_placed(w, k as int));
            return Err(RomanError::InvalidSequence);
        }
        proof {
            lemma_total_from_bounds(w, k + 1);
        }
        if current < window[2] {
            total = total - current as u128;
        } else {
            total = total + current as u128;
        }
    }
    proof {
        lemma_total_from_bounds(w, 0);
    }
    if total > u64::MAX as u128 {
        Err(RomanError::Overflow)
    } else {
        Ok(total as u64)
    }
}

/// The upper-case form of a string, as `str::to_uppercase` gives it.
pub uninterp spec fn upper_of(s: Seq<char>) -> Seq<char>;

/// Relies on `str::to_uppercase`: the result depends on the characters alone,
/// each character becomes one or more, and the empty string stays empty.
#[verifier::external_body]
fn uppercase(s: &str) -> (r: String)
    ensures
        r@ == upper_of(s@),
        s@.len() == 0 ==> r@.len() == 0,
        s@.len() > 0 ==> r@.len() > 0,
{
    s.to_uppercase()
}

/// Decodes a Roman numeral, in any mix of upper and lower case, into its value.
pub fn to_arabic(roman: String) -> (r: Result<u64, RomanError>)
    ensures
        r == roman_value(upper_of(roman@)),
        roman@.len() == 0 <==> r == Err::<u64, RomanError>(RomanError::EmptyInput),
{
    let upper = uppercase(roman.as_str());
    decode_uppercase(upper.as_str())
}

/// The number of entries of the encoding table.
pub const TABLE_LEN: usize = 13;

/// The magnitude of entry `i` of the encoding table, in strictly descending
/// order, subtractive pairs included.
pub open spec fn table_magnitude(i: int) -> u64 {
    if i == 0 {
        1000
    } else if i == 1 {
        900
    } else if i == 2 {
        500
    } else if i == 3 {
        400
    } else if i == 4 {
        100
    } else if i == 5 {
        90
    } else if i == 6 {
        50
    } else if i == 7 {
        40
    } else if i == 8 {
        10
    } else if i == 9 {
        9
    } else if i == 10 {
        5
    } else if i == 11 {
        4
    } else {
        1
    }
}

/// The glyphs of entry `i` of the encoding table, in ASCII letters or in
/// Unicode numeral forms.
pub open spec fn table_glyphs(i: int, unicode: bool) -> Seq<char> {
    if !unicode {
        if i == 0 {
            seq!['M']
        } else if i == 1 {
            seq!['C', 'M']
        } else if i == 2 {
            seq!['D']
        } else if i == 3 {
            seq!['C', 'D']
        } else if i == 4 {
            seq!['C']
        } else if i == 5 {
            seq!['X', 'C']
        } else if i == 6 {
            seq!['L']
        } else if i == 7 {
            seq!['X', 'L']
        } else if i == 8 {
            seq!['X']
        } else if i == 9 {
            seq!['I', 'X']
        } else if i == 10 {
            seq!['V']
        } else if i == 11 {
            seq!['I', 'V']
        } else {
            seq!['I']
        }
    } else {
        if i == 0 {
            seq!['Ⅿ']
        } else if i == 1 {
            seq!['Ⅽ', 'Ⅿ']
        } else if i == 2 {
            seq!['Ⅾ']
        } else if i == 3 {
            seq!['Ⅽ', 'Ⅾ']
        } else if i == 4 {
            seq!['Ⅽ']
        } else if i == 5 {
            seq!['Ⅹ', 'Ⅽ']
        } else if i == 6 {
            seq!['Ⅼ']
        } else if i == 7 {
            seq!['Ⅹ', 'Ⅼ']
        } else if i == 8 {
            seq!['Ⅹ']
        } else if i == 9 {
            seq!['Ⅰ', 'Ⅹ']
        } else if i == 10 {
            seq!['Ⅴ']
        } else if i == 11 {
            seq!['Ⅰ', 'Ⅴ']
        } else {
            seq!['Ⅰ']
        }
    }
}

/// Greedy encoding of `n` from entry `i` of the table on: the glyphs of the
/// first entry that does not exceed `n`, then the encoding of what is left.
pub open spec fn greedy_numeral(n: nat, i: int, unicode: bool) -> Seq<char>
    decreases TABLE_LEN - i, n,
{
    if n == 0 || i < 0 || i >= TABLE_LEN {
        Seq::empty()
    } else if n >= table_magnitude(i) {
        table_glyphs(i, unicode) + greedy_numeral((n - table_magnitude(i)) as nat, i, unicode)
    } else {
        greedy_numeral(n, i + 1, unicode)
    }
}

/// The canonical Roman numeral for `n`.
pub open spec fn roman_numeral(n: nat, unicode: bool) -> Seq<char> {
    greedy_numeral(n, 0, unicode)
}

/// Entry `i` of the encoding table: its magnitude and its glyphs.
fn table_entry(i: usize, unicode: bool) -> (r: (u64, &'static str))
    requires
        i < TABLE_LEN,
    ensures
        r.0 == table_magnitude(i as int),
        r.1@ == table_glyphs(i as int, unicode),
{
    proof {
        reveal_strlit("M");
        reveal_strlit("CM");
        reveal_strlit("D");
        reveal_strlit("CD");
        reveal_strlit("C");
        reveal_strlit("XC");
        reveal_strlit("L");
        reveal_strlit("XL");
        reveal_strlit("X");
        reveal_strlit("IX");
        reveal_strlit("V");
        reveal_strlit("IV");
        reveal_strlit("I");
        reveal_strlit("Ⅿ");
        reveal_strlit("ⅭⅯ");
        reveal_strlit("Ⅾ");
        reveal_strlit("ⅭⅮ");
        reveal_strlit("Ⅽ");
        reveal_strlit("ⅩⅭ");
        reveal_strlit("Ⅼ");
        reveal_strlit("ⅩⅬ");
        reveal_strlit("Ⅹ");
        reveal_strlit("ⅠⅩ");
        reveal_strlit("Ⅴ");
        reveal_strlit("ⅠⅤ");
        reveal_strlit("Ⅰ");
    }
    let r = if !unicode {
        match i {
            0 => (1000, "M"),
            1 => (900, "CM"),
            2 => (500, "D"),
            3 => (400, "CD"),
            4 => (100, "C"),
            5 => (90, "XC"),
            6 => (50, "L"),
            7 => (40, "XL"),
            8 => (10, "X"),
            9 => (9, "IX"),
            10 => (5, "V"),
            11 => (4, "IV"),
            _ => (1, "I"),
        }
    } else {
        match i {
            0 => (1000, "Ⅿ"),
            1 => (900, "ⅭⅯ"),
            2 => (500, "Ⅾ"),
            3 => (400, "ⅭⅮ"),
            4 => (100, "Ⅽ"),
            5 => (90, "ⅩⅭ"),
            6 => (50, "Ⅼ"),
            7 => (40, "ⅩⅬ"),
            8 => (10, "Ⅹ"),
            9 => (9, "ⅠⅩ"),
            10 => (5, "Ⅴ"),
            11 => (4, "ⅠⅤ"),
            _ => (1, "Ⅰ"),
        }
    };
    assert(r.1@ =~= table_glyphs(i as int, unicode));
    r
}

/// Encodes `input` as a canonical Roman numeral, in ASCII letters or in Unicode
/// numeral forms; values outside `1..=3999` are refused.
pub fn to_roman(input: u64, use_unicode: bool) -> (r: Result<String, RomanError>)
    ensures
        1 <= input <= 3999 ==> (r matches Ok(s) && s@ == roman_numeral(input as nat, use_unicode)),
        !(1 <= input <= 3999) ==> r == Err::<String, RomanError>(RomanError::OutOfRange(input)),
{
    if input < 1 || input > 3999 {
        return Err(RomanError::OutOfRange(input));
    }
    let mut ret = String::new();
    let mut rest = input;
    let mut i: usize = 0;
    while i < TABLE_LEN
        invariant
            i <= TABLE_LEN,
            ret@ + greedy_numeral(rest as nat, i as int, use_unicode) == roman_numeral(
                input as nat,
                use_unicode,
            ),
        decreases TABLE_LEN - i,
    {
        let (magnitude, glyphs) = table_entry(i, use_unicode);
        while rest >= magnitude
            invariant
                i < TABLE_LEN,
                magnitude == table_magnitude(i as int),
                glyphs@ == table_glyphs(i as int, use_unicode),
                ret@ + greedy_numeral(rest as nat, i as int, use_unicode) == roman_numeral(
                    input as nat,
                    use_unicode,
                ),
            decreases rest,
        {
            ret.append(glyphs);
            rest = rest - magnitude;
            assert(ret@ + greedy_numeral(rest as nat, i as int, use_unicode) =~= roman_numeral(
                input as nat,
                use_unicode,
            ));
        }
        i = i + 1;
    }
    Ok(ret)
}

} // verus!
