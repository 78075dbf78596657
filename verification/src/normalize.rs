use vstd::prelude::*;

verus! {

// ---------------------------------------------------------------------------
// The shape of a decimal numeral
//
// An input is a decimal numeral: an optional minus sign, one or more decimal
// digits, and optionally a decimal point followed by further digits. The sign
// is discarded (the amount in words is always unsigned), the digits before
// the point give the integer value, and the digits after it are rounded to
// whole cents, half away from zero.
// ---------------------------------------------------------------------------
/// A decimal digit character.
pub open spec fn is_digit(c: char) -> bool {
    '0' <= c && c <= '9'
}

/// The numeric value of a digit character.
pub open spec fn digit_val(c: char) -> int {
    c as int - '0' as int
}

/// Every character of the sequence is a decimal digit.
pub open spec fn all_digits(s: Seq<char>) -> bool {
    forall|i: int| 0 <= i < s.len() ==> is_digit(#[trigger] s[i])
}

/// The value of a sequence of digit characters, most significant first.
pub open spec fn digits_value(s: Seq<char>) -> nat
    decreases s.len(),
{
    if s.len() == 0 {
        0
    } else {
        (digits_value(s.drop_last()) * 10 + digit_val(s.last())) as nat
    }
}

/// The index of the first decimal point, or the length when there is none.
pub open spec fn first_dot(s: Seq<char>) -> int
    decreases s.len(),
{
    if s.len() == 0 {
        0
    } else if s[0] == '.' {
        0
    } else {
        1 + first_dot(s.skip(1))
    }
}

/// The numeral with a single leading minus sign removed.
pub open spec fn unsigned_part(s: Seq<char>) -> Seq<char> {
    if s.len() > 0 && s[0] == '-' {
        s.skip(1)
    } else {
        s
    }
}

/// The digits before the decimal point, sign removed.
pub open spec fn integer_digits(s: Seq<char>) -> Seq<char> {
    let t = unsigned_part(s);
    t.take(first_dot(t))
}

/// The digits after the decimal point, sign removed; empty when there is no
/// point or nothing follows it.
pub open spec fn fraction_digits(s: Seq<char>) -> Seq<char> {
    let t = unsigned_part(s);
    if first_dot(t) == t.len() {
        Seq::<char>::empty()
    } else {
        t.skip(first_dot(t) + 1)
    }
}

/// A well-formed input: after the optional sign there is at least one digit
/// before the decimal point (if any), and nothing but digits on either side
/// of it.
pub open spec fn is_numeral(s: Seq<char>) -> bool {
    let t = unsigned_part(s);
    &&& first_dot(t) >= 1
    &&& all_digits(integer_digits(s))
    &&& all_digits(fraction_digits(s))
}

/// The fractional digits rounded to whole cents, half away from zero:
/// the first two fraction digits, plus one when the third digit (if any)
/// is five or more. At most `100`; the value `100` carries into the
/// integer part.
pub open spec fn base_cents(f: Seq<char>) -> nat {
    let tens = if f.len() >= 1 {
        digit_val(f[0])
    } else {
        0
    };
    let ones = if f.len() >= 2 {
        digit_val(f[1])
    } else {
        0
    };
    let up: int = if f.len() >= 3 && digit_val(f[2]) >= 5 {
        1
    } else {
        0
    };
    (tens * 10 + ones + up) as nat
}

/// The whole rounded amount, in cents.
pub open spec fn total_cents(s: Seq<char>) -> nat {
    digits_value(integer_digits(s)) * 100 + base_cents(fraction_digits(s))
}

/// The amount is beyond the supported magnitude: ten trillion units or more
/// once rounded to cents.
pub open spec fn overflows(s: Seq<char>) -> bool {
    total_cents(s) >= 1_000_000_000_000_000
}

// ---------------------------------------------------------------------------
// Facts about `first_dot`
// ---------------------------------------------------------------------------
proof fn lemma_first_dot_le_len(s: Seq<char>)
    ensures
        0 <= first_dot(s) <= s.len(),
    decreases s.len(),
{
    if s.len() > 0 && s[0] != '.' {
        lemma_first_dot_le_len(s.skip(1));
    }
}

proof fn lemma_first_dot_at(s: Seq<char>, i: int)
    requires
        0 <= i <= s.len(),
        forall|j: int| 0 <= j < i ==> s[j] != '.',
        i == s.len() || s[i] == '.',
    ensures
        first_dot(s) == i,
    decreases i,
{
    if i == 0 {
        if s.len() > 0 {
            assert(s[0] == '.');
        }
    } else {
        assert(s[0] != '.');
        lemma_first_dot_at(s.skip(1), i - 1);
    }
}

// ---------------------------------------------------------------------------
// Executable helpers
// ---------------------------------------------------------------------------
/// Find the first decimal point, or return the length when there is none.
pub fn find_dot(s: &str) -> (r: usize)
    ensures
        r as int == first_dot(s@),
        r <= s@.len(),
{
    let n = s.unicode_len();
    let mut i: usize = 0;
    while i < n
        invariant
            i <= n,
            n == s@.len(),
            forall|j: int| 0 <= j < i ==> s@[j] != '.',
        decreases n - i,
    {
        if s.get_char(i) == '.' {
            proof {
                lemma_first_dot_at(s@, i as int);
            }
            return i;
        }
        i += 1;
    }
    proof {
        lemma_first_dot_at(s@, n as int);
    }
    n
}

/// Test a character for being a decimal digit.
pub fn is_digit_char(c: char) -> (r: bool)
    ensures
        r == is_digit(c),
{
    '0' <= c && c <= '9'
}

/// The numeric value of a digit character.
pub fn digit_value(c: char) -> (r: u64)
    requires
        is_digit(c),
    ensures
        r as int == digit_val(c),
        r <= 9,
{
    (c as u32 - '0' as u32) as u64
}

/// Split a string on its decimal point: the part before it and the part
/// after it. A string without a point is all "before"; the point itself
/// belongs to neither part.
pub fn split_on_decimal_point(number: String) -> (r: [String; 2])
    requires
        forall|i: int, j: int|
            0 <= i < j < number@.len() && number@[i] == '.' ==> number@[j] != '.',
    ensures
        r[0]@ == number@.take(first_dot(number@)),
        r[1]@ == (if first_dot(number@) == number@.len() {
            Seq::<char>::empty()
        } else {
            number@.skip(first_dot(number@) + 1)
        }),
{
    let s = number.as_str();
    let n = s.unicode_len();
    let d = find_dot(s);
    let before = s.substring_char(0, d).to_owned();
    let after = if d == n {
        String::new()
    } else {
        s.substring_char(d + 1, n).to_owned()
    };
    proof {
        assert(before@ =~= number@.take(first_dot(number@)));
        if d < n {
            assert(after@ =~= number@.skip(first_dot(number@) + 1));
        }
    }
    [before, after]
}

// ---------------------------------------------------------------------------
// Normalizing an input
// ---------------------------------------------------------------------------
/// The outcome of normalizing a numeral: the rounded amount split into whole
/// units and cents, or a marker that the amount is beyond the supported
/// magnitude.
#[derive(Clone, Copy, Debug, PartialEq, Eq, Structural)]
pub enum Normalized {
    Amount { units: u64, cents: u8 },
    TooLarge,
}

/// Parse and round a numeral: take the digits before the point as the unit
/// value, round the digits after it to whole cents (half away from zero,
/// a hundred cents carrying into the units), and report an amount of ten
/// trillion units or more as too large. A malformed input yields `None`.
pub fn normalize(s: &str) -> (r: Option<Normalized>)
    ensures
        r is Some <==> is_numeral(s@),
        is_numeral(s@) && overflows(s@) ==> r == Some(Normalized::TooLarge),
        is_numeral(s@) && !overflows(s@) ==> r == (Some(
            Normalized::Amount {
                units: (total_cents(s@) / 100) as u64,
                cents: (total_cents(s@) % 100) as u8,
            },
        )),
{
    let n = s.unicode_len();
    let sign: usize = if n > 0 && s.get_char(0) == '-' {
        1
    } else {
        0
    };
    let ghost t = unsigned_part(s@);
    proof {
        assert(t =~= s@.skip(sign as int));
        lemma_first_dot_le_len(t);
    }
    let dot = find_dot(s);
    proof {
        if sign == 1 {
            assert(s@[0] != '.');
            assert(first_dot(s@) == 1 + first_dot(s@.skip(1)));
        }
    }
    // The first decimal point of the unsigned part.
    let d = dot - sign;
    if d == 0 {
        return None;
    }
    // Scan the integer digits, accumulating their value; past the supported
    // magnitude only the fact of the excess is kept.
    let mut value: u64 = 0;
    let mut too_big = false;
    let mut i: usize = 0;
    while i < d
        invariant
            i <= d,
            d == first_dot(t),
            d <= t.len(),
            t == unsigned_part(s@),
            t =~= s@.skip(sign as int),
            sign as int + t.len() == s@.len(),
            n == s@.len(),
            sign == 0 || sign == 1,
            forall|j: int| 0 <= j < i ==> is_digit(#[trigger] t[j]),
            !too_big ==> value as nat == digits_value(t.take(i as int)) && value
                < 10_000_000_000_000,
            too_big ==> digits_value(t.take(i as int)) >= 10_000_000_000_000,
        decreases d - i,
    {
        let c = s.get_char(sign + i);
        assert(c == t[i as int]);
        if !is_digit_char(c) {
            proof {
                assert(integer_digits(s@)[i as int] == t[i as int]);
                assert(!all_digits(integer_digits(s@)));
            }
            return None;
        }
        let dv = digit_value(c);
        proof {
            let tk1 = t.take(i as int + 1);
            assert(tk1.drop_last() =~= t.take(i as int));
            assert(tk1.last() == t[i as int]);
        }
        if too_big {
            proof {
                assert(digits_value(t.take(i as int + 1)) == (digits_value(t.take(i as int)) * 10
                    + digit_val(t[i as int])) as nat);
                assert(digits_value(t.take(i as int)) * 10 >= digits_value(t.take(i as int)));
            }
        } else {
            value = value * 10 + dv;
            if value >= 10_000_000_000_000 {
                too_big = true;
            }
        }
        i += 1;
    }
    proof {
        assert(t.take(d as int) == integer_digits(s@));
    }
    // Scan the fraction digits; only the first three decide the cents.
    let ghost f = fraction_digits(s@);
    let mut d0: u64 = 0;
    let mut d1: u64 = 0;
    let mut d2: u64 = 0;
    if dot < n {
        proof {
            assert(f =~= t.skip(d as int + 1));
        }
        let mut j: usize = dot + 1;
        while j < n
            invariant
                dot + 1 <= j <= n,
                n == s@.len(),
                d == first_dot(t),
                dot == sign + d,
                dot < n,
                sign as int + t.len() == s@.len(),
                t =~= s@.skip(sign as int),
                f == fraction_digits(s@),
                f =~= t.skip(d as int + 1),
                f.len() == n - dot - 1,
                forall|m: int| 0 <= m < j - dot - 1 ==> is_digit(#[trigger] f[m]),
                d0 == (if j - dot - 1 >= 1 {
                    digit_val(f[0])
                } else {
                    0
                }),
                d1 == (if j - dot - 1 >= 2 {
                    digit_val(f[1])
                } else {
                    0
                }),
                d2 == (if j - dot - 1 >= 3 {
                    digit_val(f[2])
                } else {
                    0
                }),
            decreases n - j,
        {
            let c = s.get_char(j);
            assert(c == f[j - dot - 1]);
            if !is_digit_char(c) {
                proof {
                    assert(!all_digits(fraction_digits(s@)));
                }
                return None;
            }
            let dv = digit_value(c);
            if j == dot + 1 {
                d0 = dv;
            } else if j == dot + 2 {
                d1 = dv;
            } else if j == dot + 3 {
                d2 = dv;
            }
            j += 1;
        }
    } else {
        proof {
            assert(d == t.len());
            assert(f =~= Seq::<char>::empty());
        }
    }
    let cents: u64 = d0 * 10 + d1 + (if d2 >= 5 {
        1
    } else {
        0
    });
    proof {
        assert(cents as nat == base_cents(f));
        assert(is_numeral(s@));
    }
    if too_big {
        proof {
            assert(digits_value(integer_digits(s@)) * 100 >= 1_000_000_000_000_000);
        }
        return Some(Normalized::TooLarge);
    }
    let total: u64 = value * 100 + cents;
    proof {
        assert(total as nat == total_cents(s@));
    }
    if total >= 1_000_000_000_000_000 {
        Some(Normalized::TooLarge)
    } else {
        Some(Normalized::Amount { units: total / 100, cents: (total % 100) as u8 })
    }
}

} // verus!
