//! Amounts as text.
//!
//! An amount is a whole number of ten-thousandths of a unit. In text it is a
//! decimal number with up to four digits after the point.

use vstd::prelude::*;
use vstd::string::StringExecFns;

verus! {

/// How many ten-thousandths make a unit.
pub const SCALE: u64 = 10000;

/// The character for the decimal digit `d`.
pub open spec fn digit(d: int) -> char {
    if d == 0 {
        '0'
    } else if d == 1 {
        '1'
    } else if d == 2 {
        '2'
    } else if d == 3 {
        '3'
    } else if d == 4 {
        '4'
    } else if d == 5 {
        '5'
    } else if d == 6 {
        '6'
    } else if d == 7 {
        '7'
    } else if d == 8 {
        '8'
    } else {
        '9'
    }
}

/// The decimal digits of `n`, without leading zeros.
pub open spec fn decimal(n: nat) -> Seq<char>
    decreases n,
{
    if n < 10 {
        seq![digit(n as int)]
    } else {
        decimal(n / 10).push(digit((n % 10) as int))
    }
}

/// The four decimal digits of `n`, a number below ten thousand.
pub open spec fn fraction(n: nat) -> Seq<char> {
    seq![
        digit((n / 1000) as int),
        digit((n / 100 % 10) as int),
        digit((n / 10 % 10) as int),
        digit((n % 10) as int),
    ]
}

/// An amount of `value` ten-thousandths as text: the sign if it is negative,
/// the whole units, a point and four digits.
pub open spec fn amount_text(value: int) -> Seq<char> {
    let magnitude = if value < 0 {
        -value
    } else {
        value
    } as nat;
    let number = decimal(magnitude / 10000) + seq!['.'] + fraction(magnitude % 10000);
    if value < 0 {
        seq!['-'] + number
    } else {
        number
    }
}

/// Whether `byte` is a decimal digit in ASCII.
pub open spec fn is_digit(byte: u8) -> bool {
    0x30 <= byte <= 0x39
}

/// Whether every byte of `text` is a decimal digit.
pub open spec fn all_digits(text: Seq<u8>) -> bool {
    forall|i: int| 0 <= i < text.len() ==> is_digit(#[trigger] text[i])
}

/// The number that the decimal digits `text` stand for; zero for no digits.
pub open spec fn number(text: Seq<u8>) -> nat
    decreases text.len(),
{
    if text.len() == 0 {
        0
    } else {
        number(text.drop_last()) * 10 + (text.last() - 0x30) as nat
    }
}

/// What one unit of a number written with `digits` digits after the point
/// counts in ten-thousandths.
pub open spec fn place(digits: int) -> nat {
    if digits <= 0 {
        10000
    } else if digits == 1 {
        1000
    } else if digits == 2 {
        100
    } else if digits == 3 {
        10
    } else {
        1
    }
}

/// Whether `text` is an amount whose whole part has `whole` digits: one or
/// more digits, and then either nothing or a point and up to four digits.
pub open spec fn is_amount(text: Seq<u8>, whole: int) -> bool {
    &&& 1 <= whole <= text.len()
    &&& all_digits(text.subrange(0, whole))
    &&& whole < text.len() ==> {
        &&& text[whole] == 0x2e
        &&& text.len() - whole - 1 <= 4
        &&& all_digits(text.subrange(whole + 1, text.len() as int))
    }
}

/// The ten-thousandths that the amount `text` stands for, where its whole
/// part has `whole` digits.
pub open spec fn amount_value(text: Seq<u8>, whole: int) -> nat {
    let units = number(text.subrange(0, whole)) * 10000;
    if whole < text.len() {
        let after = text.subrange(whole + 1, text.len() as int);
        units + number(after) * place(after.len() as int)
    } else {
        units
    }
}

/// What `text` reads as: its amount in ten-thousandths, if it is an amount
/// and that number can be stored.
pub open spec fn amount_of(text: Seq<u8>) -> Option<u64> {
    if exists|whole: int| is_amount(text, whole) {
        let whole = choose|whole: int| is_amount(text, whole);
        if amount_value(text, whole) <= u64::MAX {
            Some(amount_value(text, whole) as u64)
        } else {
            None
        }
    } else {
        None
    }
}

/// Reading one more digit multiplies the number read so far by ten and adds
/// the digit.
proof fn lemma_number_next(text: Seq<u8>, from: int, to: int)
    requires
        0 <= from <= to < text.len(),
    ensures
        number(text.subrange(from, to + 1)) == number(text.subrange(from, to)) * 10 + (text[to]
            - 0x30) as nat,
{
    assert(text.subrange(from, to + 1).drop_last() =~= text.subrange(from, to));
}

/// Reads the run of digits of `text` that starts at `from`. Returns where the
/// run ends and the number it stands for, or `None` in place of a number that
/// is too large to store.
fn read_digits(text: &[u8], from: usize) -> (r: (usize, Option<u64>))
    requires
        from <= text.len(),
    ensures
        from <= r.0 <= text.len(),
        all_digits(text@.subrange(from as int, r.0 as int)),
        r.0 < text.len() ==> !is_digit(text[r.0 as int]),
        match r.1 {
            Some(n) => n == number(text@.subrange(from as int, r.0 as int)),
            None => number(text@.subrange(from as int, r.0 as int)) > u64::MAX,
        },
{
    let mut at: usize = from;
    let mut read: Option<u64> = Some(0);
    while at < text.len() && 0x30 <= text[at] && text[at] <= 0x39
        invariant
            from <= at <= text.len(),
            all_digits(text@.subrange(from as int, at as int)),
            match read {
                Some(n) => n == number(text@.subrange(from as int, at as int)),
                None => number(text@.subrange(from as int, at as int)) > u64::MAX,
            },
        decreases text.len() - at,
    {
        proof {
            lemma_number_next(text@, from as int, at as int);
        }
        let d: u64 = (text[at] - 0x30) as u64;
        read = match read {
            Some(n) => if n <= (u64::MAX - d) / 10 {
                Some(n * 10 + d)
            } else {
                None
            },
            None => None,
        };
        at += 1;
    }
    (at, read)
}

/// Reads an amount: one or more digits, and then either nothing or a point
/// and up to four digits. The result counts ten-thousandths. Text of any
/// other shape, and an amount too large to store, give `None`.
pub fn parse_amount(text: &[u8]) -> (amount: Option<u64>)
    ensures
        amount == amount_of(text@),
{
    let (whole, units) = read_digits(text, 0);
    proof {
        // The whole part can only end where the first run of digits ends.
        assert forall|other: int| is_amount(text@, other) implies other == whole by {
            if other < whole {
                assert(text@.subrange(0, whole as int)[other] == text@[other]);
            } else if other > whole {
                assert(text@.subrange(0, other)[whole as int] == text@[whole as int]);
            }
        }
    }
    if whole == 0 {
        return None;
    }
    if whole == text.len() {
        assert(is_amount(text@, whole as int));
        return match units {
            Some(n) => if n <= u64::MAX / SCALE {
                Some(n * SCALE)
            } else {
                None
            },
            None => None,
        };
    }
    if text[whole] != 0x2e {
        return None;
    }
    let (end, after) = read_digits(text, whole + 1);
    let digits: usize = end - (whole + 1);
    if end != text.len() || digits > 4 {
        proof {
            if end < text.len() {
                assert(text@.subrange(whole + 1, text.len() as int)[end - whole - 1] == text@[end as int]);
            }
        }
        return None;
    }
    assert(is_amount(text@, whole as int));
    let place: u64 = if digits == 0 {
        10000
    } else if digits == 1 {
        1000
    } else if digits == 2 {
        100
    } else if digits == 3 {
        10
    } else {
        1
    };
    match (units, after) {
        (Some(n), Some(m)) => {
            proof {
                lemma_short_number(text@.subrange(whole + 1, text.len() as int));
                assert(m * place <= 9999 * 10000) by (nonlinear_arith)
                    requires
                        m <= 9999,
                        place <= 10000,
                ;
            }
            let value: u128 = n as u128 * SCALE as u128 + m as u128 * place as u128;
            if value <= u64::MAX as u128 {
                Some(value as u64)
            } else {
                None
            }
        },
        (None, _) => None,
        (_, None) => {
            proof {
                lemma_short_number(text@.subrange(whole + 1, text.len() as int));
            }
            None
        },
    }
}

/// A number of at most four digits is below ten thousand.
proof fn lemma_short_number(text: Seq<u8>)
    requires
        all_digits(text),
        text.len() <= 4,
    ensures
        number(text) < 10000,
{
    reveal_with_fuel(number, 5);
    if text.len() > 0 {
        assert(is_digit(text.last()));
        let a = text.drop_last();
        if a.len() > 0 {
            assert(is_digit(a.last()));
            let b = a.drop_last();
            if b.len() > 0 {
                assert(is_digit(b.last()));
                let c = b.drop_last();
                if c.len() > 0 {
                    assert(is_digit(c.last()));
                }
            }
        }
    }
}

/// The text of one decimal digit.
fn digit_str(d: u8) -> (text: &'static str)
    requires
        d < 10,
    ensures
        text@ == seq![digit(d as int)],
{
    proof {
        reveal_strlit("0");
        reveal_strlit("1");
        reveal_strlit("2");
        reveal_strlit("3");
        reveal_strlit("4");
        reveal_strlit("5");
        reveal_strlit("6");
        reveal_strlit("7");
        reveal_strlit("8");
        reveal_strlit("9");
    }
    let text = match d {
        0 => "0",
        1 => "1",
        2 => "2",
        3 => "3",
        4 => "4",
        5 => "5",
        6 => "6",
        7 => "7",
        8 => "8",
        _ => "9",
    };
    assert(text@ =~= seq![digit(d as int)]);
    text
}

/// The decimal digits of `n` as a string.
pub fn decimal_string(n: u128) -> (text: String)
    ensures
        text@ == decimal(n as nat),
    decreases n,
{
    if n < 10 {
        String::from_str(digit_str(n as u8))
    } else {
        let mut text = decimal_string(n / 10);
        text.append(digit_str((n % 10) as u8));
        text
    }
}

/// An amount of `value` ten-thousandths as a string.
pub fn format_amount(value: i128) -> (text: String)
    ensures
        text@ == amount_text(value as int),
{
    let magnitude: u128 = if value >= 0 {
        value as u128
    } else {
        (-(value + 1)) as u128 + 1
    };
    let part: u128 = magnitude % 10000;
    proof {
        reveal_strlit("-");
        reveal_strlit(".");
    }
    let mut text = String::from_str(if value < 0 {
        "-"
    } else {
        ""
    });
    text.append(decimal_string(magnitude / 10000).as_str());
    text.append(".");
    text.append(digit_str((part / 1000) as u8));
    text.append(digit_str((part / 100 % 10) as u8));
    text.append(digit_str((part / 10 % 10) as u8));
    text.append(digit_str((part % 10) as u8));
    proof {
        reveal_strlit("");
        assert(text@ =~= amount_text(value as int));
    }
    text
}

/// The bytes of a text of ASCII characters.
pub open spec fn bytes_of(text: Seq<char>) -> Seq<u8> {
    Seq::new(text.len(), |i: int| text[i] as u8)
}

/// The decimal digits of a number are digits, and stand for that number.
proof fn lemma_decimal_reads_back(n: nat)
    ensures
        decimal(n).len() >= 1,
        all_digits(bytes_of(decimal(n))),
        number(bytes_of(decimal(n))) == n,
    decreases n,
{
    let text = bytes_of(decimal(n));
    assert(text.last() == 0x30 + n % 10);
    if n < 10 {
        assert(text.drop_last() =~= Seq::<u8>::empty());
        assert(number(text.drop_last()) == 0);
    } else {
        lemma_decimal_reads_back(n / 10);
        assert(text.drop_last() =~= bytes_of(decimal(n / 10)));
        assert forall|i: int| 0 <= i < text.len() implies is_digit(#[trigger] text[i]) by {
            if i < text.len() - 1 {
                assert(text[i] == text.drop_last()[i]);
            }
        }
    }
}

/// The four digits of a number below ten thousand are digits, and stand for
/// that number.
proof fn lemma_fraction_reads_back(n: nat)
    requires
        n < 10000,
    ensures
        all_digits(bytes_of(fraction(n))),
        number(bytes_of(fraction(n))) == n,
{
    let text = bytes_of(fraction(n));
    let three = text.drop_last();
    let two = three.drop_last();
    let one = two.drop_last();
    assert(one.drop_last() =~= Seq::<u8>::empty());
    assert(number(one.drop_last()) == 0);
    assert(number(one) == n / 1000);
    assert(number(two) == n / 100);
    assert(number(three) == n / 10);
}

/// An amount that was written out reads back as the same amount.
pub proof fn lemma_written_amount_reads_back(value: u64)
    ensures
        amount_of(bytes_of(amount_text(value as int))) == Some(value),
{
    let units = decimal(value as nat / 10000);
    let parts = fraction(value as nat % 10000);
    let text = bytes_of(amount_text(value as int));
    let whole = units.len() as int;
    lemma_decimal_reads_back(value as nat / 10000);
    lemma_fraction_reads_back(value as nat % 10000);
    assert(text.subrange(0, whole) =~= bytes_of(units));
    assert(text.subrange(whole + 1, text.len() as int) =~= bytes_of(parts));
    assert(text[whole] == 0x2e);
    assert(is_amount(text, whole));
    assert forall|other: int| is_amount(text, other) implies other == whole by {
        if other < whole {
            assert(text.subrange(0, whole)[other] == text[other]);
        } else if other > whole {
            assert(text.subrange(0, other)[whole] == text[whole]);
        }
    }
}

} // verus!
