//! Japanese numerals: encoding a value in kanji, every nonzero digit with the
//! glyph of its power of ten.
use vstd::prelude::*;

verus! {

/// The kanji of a decimal digit.
pub open spec fn kanji_digit(d: int) -> Seq<char> {
    if d == 0 {
        seq!['零']
    } else if d == 1 {
        seq!['一']
    } else if d == 2 {
        seq!['二']
    } else if d == 3 {
        seq!['三']
    } else if d == 4 {
        seq!['四']
    } else if d == 5 {
        seq!['五']
    } else if d == 6 {
        seq!['六']
    } else if d == 7 {
        seq!['七']
    } else if d == 8 {
        seq!['八']
    } else {
        seq!['九']
    }
}

/// The kanji of the power of ten with exponent `e`, from 1 to 19; a power
/// with no glyph of its own is a multiple of the largest one below it.
pub open spec fn kanji_power(e: int) -> Seq<char> {
    if e == 1 {
        seq!['十']
    } else if e == 2 {
        seq!['百']
    } else if e == 3 {
        seq!['千']
    } else if e == 4 {
        seq!['万']
    } else if e == 5 {
        seq!['十', '万']
    } else if e == 6 {
        seq!['百', '万']
    } else if e == 7 {
        seq!['千', '万']
    } else if e == 8 {
        seq!['億']
    } else if e == 9 {
        seq!['十', '億']
    } else if e == 10 {
        seq!['百', '億']
    } else if e == 11 {
        seq!['千', '億']
    } else if e == 12 {
        seq!['兆']
    } else if e == 13 {
        seq!['十', '兆']
    } else if e == 14 {
        seq!['百', '兆']
    } else if e == 15 {
        seq!['千', '兆']
    } else if e == 16 {
        seq!['京']
    } else if e == 17 {
        seq!['十', '京']
    } else if e == 18 {
        seq!['百', '京']
    } else {
        seq!['千', '京']
    }
}

/// What digit `d` at the power of ten `e` contributes: nothing for a zero,
/// the digit alone in the units, the power alone for a one, and otherwise
/// the digit followed by the power.
pub open spec fn kanji_segment(d: int, e: int) -> Seq<char> {
    if d == 0 {
        Seq::empty()
    } else if e == 0 {
        kanji_digit(d)
    } else if d == 1 {
        kanji_power(e)
    } else {
        kanji_digit(d) + kanji_power(e)
    }
}

/// The segments of the digits of `n`, whose lowest digit stands at the power
/// `e`, most significant first.
pub open spec fn kanji_digits(n: nat, e: int) -> Seq<char>
    decreases n,
{
    if n == 0 {
        Seq::empty()
    } else {
        kanji_digits(n / 10, e + 1) + kanji_segment((n % 10) as int, e)
    }
}

/// The Japanese numeral for `n`.
pub open spec fn japanese_numeral(n: nat) -> Seq<char> {
    if n == 0 {
        kanji_digit(0)
    } else {
        kanji_digits(n, 0)
    }
}

/// Ten to the power `e`.
pub open spec fn pow10(e: nat) -> nat
    decreases e,
{
    if e == 0 {
        1
    } else {
        10 * pow10((e - 1) as nat)
    }
}

proof fn lemma_pow10_grows(e: nat)
    ensures
        pow10(e) >= e + 1,
        e >= 20 ==> pow10(e) > u64::MAX,
    decreases e,
{
    if e > 0 {
        lemma_pow10_grows((e - 1) as nat);
        if e > 20 {
            assert(pow10((e - 1) as nat) > u64::MAX);
        }
    }
    if e == 20 {
        reveal_with_fuel(pow10, 21);
        assert(pow10(20) == 100000000000000000000);
    }
}

/// The kanji of digit `d`.
fn digit_kanji(d: u64) -> (r: &'static str)
    requires
        d <= 9,
    ensures
        r@ == kanji_digit(d as int),
{
    proof {
        reveal_strlit("零");
        reveal_strlit("一");
        reveal_strlit("二");
        reveal_strlit("三");
        reveal_strlit("四");
        reveal_strlit("五");
        reveal_strlit("六");
        reveal_strlit("七");
        reveal_strlit("八");
        reveal_strlit("九");
    }
    let r = match d {
        0 => "零",
        1 => "一",
        2 => "二",
        3 => "三",
        4 => "四",
        5 => "五",
        6 => "六",
        7 => "七",
        8 => "八",
        _ => "九",
    };
    assert(r@ =~= kanji_digit(d as int));
    r
}

/// The kanji of the power of ten with exponent `e`.
fn power_kanji(e: usize) -> (r: &'static str)
    requires
        1 <= e <= 19,
    ensures
        r@ == kanji_power(e as int),
{
    proof {
        reveal_strlit("十");
        reveal_strlit("百");
        reveal_strlit("千");
        reveal_strlit("万");
        reveal_strlit("十万");
        reveal_strlit("百万");
        reveal_strlit("千万");
        reveal_strlit("億");
        reveal_strlit("十億");
        reveal_strlit("百億");
        reveal_strlit("千億");
        reveal_strlit("兆");
        reveal_strlit("十兆");
        reveal_strlit("百兆");
        reveal_strlit("千兆");
        reveal_strlit("京");
        reveal_strlit("十京");
        reveal_strlit("百京");
        reveal_strlit("千京");
    }
    let r = match e {
        1 => "十",
        2 => "百",
        3 => "千",
        4 => "万",
        5 => "十万",
        6 => "百万",
        7 => "千万",
        8 => "億",
        9 => "十億",
        10 => "百億",
        11 => "千億",
        12 => "兆",
        13 => "十兆",
        14 => "百兆",
        15 => "千兆",
        16 => "京",
        17 => "十京",
        18 => "百京",
        _ => "千京",
    };
    assert(r@ =~= kanji_power(e as int));
    r
}

/// Encodes `input` as a Japanese numeral.
pub fn to_japanese(input: u64) -> (r: String)
    ensures
        r@ == japanese_numeral(input as nat),
{
    if input == 0 {
        return String::from_str(digit_kanji(0));
    }
    let mut ret = String::new();
    let mut rest = input;
    let mut e: usize = 0;
    assert(pow10(0) == 1);
    while rest > 0
        invariant
            input > 0,
            kanji_digits(rest as nat, e as int) + ret@ == kanji_digits(input as nat, 0),
            rest * pow10(e as nat) <= input,
        decreases rest,
    {
        proof {
            lemma_pow10_grows(e as nat);
            if e >= 20 {
                assert(rest * pow10(e as nat) >= pow10(e as nat)) by (nonlinear_arith)
                    requires
                        rest >= 1,
                ;
            }
        }
        let digit = rest % 10;
        let mut segment = String::new();
        if digit != 0 {
            if e == 0 || digit != 1 {
                segment.append(digit_kanji(digit));
            }
            if e != 0 {
                segment.append(power_kanji(e));
            }
        }
        assert(segment@ =~= kanji_segment(digit as int, e as int));
        let ghost done = ret@;
        ret = segment.concat(ret.as_str());
        proof {
            let p = pow10(e as nat);
            assert((rest / 10) * pow10((e + 1) as nat) <= rest * p) by (nonlinear_arith)
                requires
                    pow10((e + 1) as nat) == 10 * p,
                    p >= 0,
            ;
            assert(kanji_digits(rest as nat, e as int) == kanji_digits((rest / 10) as nat, e + 1)
                + kanji_segment(digit as int, e as int));
            assert(kanji_digits((rest / 10) as nat, e + 1) + ret@ =~= kanji_digits(
                rest as nat,
                e as int,
            ) + done);
        }
        rest = rest / 10;
        e = e + 1;
    }
    ret
}

} // verus!
