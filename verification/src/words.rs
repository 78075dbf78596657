use vstd::prelude::*;

verus! {

// ---------------------------------------------------------------------------
// Word tables
//
// Every rendered fragment carries a trailing separator (a space), so that
// fragments concatenate without further bookkeeping; the very last trailing
// space is dropped or replaced by the fraction suffix at the top level.
// ---------------------------------------------------------------------------
/// The word for a single digit, `0` through `9`.
pub open spec fn ones_word(d: int) -> Seq<char> {
    if d == 0 {
        "zero"@
    } else if d == 1 {
        "one"@
    } else if d == 2 {
        "two"@
    } else if d == 3 {
        "three"@
    } else if d == 4 {
        "four"@
    } else if d == 5 {
        "five"@
    } else if d == 6 {
        "six"@
    } else if d == 7 {
        "seven"@
    } else if d == 8 {
        "eight"@
    } else {
        "nine"@
    }
}

/// The irregular word for `10 + d`, for `d` in `0` through `9`.
pub open spec fn teens_word(d: int) -> Seq<char> {
    if d == 0 {
        "ten"@
    } else if d == 1 {
        "eleven"@
    } else if d == 2 {
        "twelve"@
    } else if d == 3 {
        "thirteen"@
    } else if d == 4 {
        "fourteen"@
    } else if d == 5 {
        "fifteen"@
    } else if d == 6 {
        "sixteen"@
    } else if d == 7 {
        "seventeen"@
    } else if d == 8 {
        "eighteen"@
    } else {
        "nineteen"@
    }
}

/// The word for `d * 10`, for `d` in `1` through `9`.
pub open spec fn tens_word(d: int) -> Seq<char> {
    if d == 1 {
        "ten"@
    } else if d == 2 {
        "twenty"@
    } else if d == 3 {
        "thirty"@
    } else if d == 4 {
        "forty"@
    } else if d == 5 {
        "fifty"@
    } else if d == 6 {
        "sixty"@
    } else if d == 7 {
        "seventy"@
    } else if d == 8 {
        "eighty"@
    } else {
        "ninety"@
    }
}

/// The scale word for period index `p`: thousand, million, billion, trillion.
pub open spec fn scale_word(p: int) -> Seq<char> {
    if p == 1 {
        "thousand"@
    } else if p == 2 {
        "million"@
    } else if p == 3 {
        "billion"@
    } else {
        "trillion"@
    }
}

/// Look up the word for a single digit.
pub fn ones_str(d: u64) -> (r: &'static str)
    requires
        d < 10,
    ensures
        r@ == ones_word(d as int),
{
    match d {
        0 => "zero",
        1 => "one",
        2 => "two",
        3 => "three",
        4 => "four",
        5 => "five",
        6 => "six",
        7 => "seven",
        8 => "eight",
        _ => "nine",
    }
}

/// Look up the irregular word for `10 + d`.
pub fn teens_str(d: u64) -> (r: &'static str)
    requires
        d < 10,
    ensures
        r@ == teens_word(d as int),
{
    match d {
        0 => "ten",
        1 => "eleven",
        2 => "twelve",
        3 => "thirteen",
        4 => "fourteen",
        5 => "fifteen",
        6 => "sixteen",
        7 => "seventeen",
        8 => "eighteen",
        _ => "nineteen",
    }
}

/// Look up the word for `d * 10`.
pub fn tens_str(d: u64) -> (r: &'static str)
    requires
        1 <= d < 10,
    ensures
        r@ == tens_word(d as int),
{
    match d {
        1 => "ten",
        2 => "twenty",
        3 => "thirty",
        4 => "forty",
        5 => "fifty",
        6 => "sixty",
        7 => "seventy",
        8 => "eighty",
        _ => "ninety",
    }
}

/// Look up the scale word for period index `p`.
pub fn scale_str(p: u64) -> (r: &'static str)
    requires
        1 <= p <= 4,
    ensures
        r@ == scale_word(p as int),
{
    match p {
        1 => "thousand",
        2 => "million",
        3 => "billion",
        _ => "trillion",
    }
}

// ---------------------------------------------------------------------------
// Rendering a value below one thousand
// ---------------------------------------------------------------------------
/// The words for a value `r` with `1 <= r <= 99`, with a trailing space:
/// a single digit word, an irregular teen word, or a tens word joined to a
/// ones word by a hyphen.
pub open spec fn below_hundred_words(r: int) -> Seq<char> {
    if r < 10 {
        ones_word(r) + " "@
    } else if r < 20 {
        teens_word(r - 10) + " "@
    } else if r % 10 == 0 {
        tens_word(r / 10) + " "@
    } else {
        tens_word(r / 10) + "-"@ + ones_word(r % 10) + " "@
    }
}

/// The words for one period value `m` with `1 <= m <= 999`, with a trailing
/// space: an optional hundreds part followed by the below-one-hundred part.
pub open spec fn period_words(m: int) -> Seq<char> {
    let h = m / 100;
    let r = m % 100;
    if h == 0 {
        below_hundred_words(r)
    } else if r == 0 {
        ones_word(h) + " hundred "@
    } else {
        ones_word(h) + " hundred "@ + below_hundred_words(r)
    }
}

/// Render a value below one hundred.
pub fn below_hundred_to_words(r: u64) -> (s: String)
    requires
        1 <= r <= 99,
    ensures
        s@ == below_hundred_words(r as int),
{
    let mut s = String::new();
    if r < 10 {
        s.append(ones_str(r));
        s.append(" ");
    } else if r < 20 {
        s.append(teens_str(r - 10));
        s.append(" ");
    } else {
        let t: u64 = r / 10;
        let o: u64 = r % 10;
        s.append(tens_str(t));
        if o > 0 {
            s.append("-");
            s.append(ones_str(o));
            s.append(" ");
        } else {
            s.append(" ");
        }
    }
    proof {
        assert(s@ =~= below_hundred_words(r as int));
    }
    s
}

/// Render one period value.
pub fn period_to_words(m: u64) -> (s: String)
    requires
        1 <= m <= 999,
    ensures
        s@ == period_words(m as int),
{
    let h: u64 = m / 100;
    let r: u64 = m % 100;
    let mut s = String::new();
    if h > 0 {
        s.append(ones_str(h));
        s.append(" hundred ");
    }
    if r > 0 {
        let bh = below_hundred_to_words(r);
        s.append(bh.as_str());
    }
    proof {
        assert(s@ =~= period_words(m as int));
    }
    s
}

// ---------------------------------------------------------------------------
// Rendering the whole integer part
// ---------------------------------------------------------------------------
/// `1000^p`.
pub open spec fn pow1000(p: nat) -> nat
    decreases p,
{
    if p == 0 {
        1
    } else {
        1000 * pow1000((p - 1) as nat)
    }
}

/// The words for the integer value `n` laid out over the periods `p` down to
/// `0`, with a trailing space. A period whose three digits are all zero
/// contributes nothing, its scale word included; a nonzero period is followed
/// by its scale word, then by a comma when any nonzero period follows and by
/// a plain space otherwise. Meaningful for `n < 1000 * pow1000(p)`.
pub open spec fn int_words_at(n: nat, p: nat) -> Seq<char>
    decreases p,
{
    if p == 0 {
        if n == 0 {
            Seq::<char>::empty()
        } else {
            period_words(n as int)
        }
    } else {
        let top = n / pow1000(p);
        let rest = n % pow1000(p);
        (if top == 0 {
            Seq::<char>::empty()
        } else {
            period_words(top as int) + scale_word(p as int) + (if rest == 0 {
                " "@
            } else {
                ", "@
            })
        }) + int_words_at(rest, (p - 1) as nat)
    }
}

/// The words for the integer part of the amount, with a trailing space.
/// Zero is rendered as the word "zero"; any other supported value is laid
/// out over the five periods up to the trillions.
pub open spec fn integer_words(n: nat) -> Seq<char> {
    if n == 0 {
        "zero "@
    } else {
        int_words_at(n, 4)
    }
}

/// The words for a period value are never empty and end in a space.
proof fn lemma_period_words_space(m: int)
    ensures
        period_words(m).len() >= 1,
        period_words(m).last() == ' ',
{
    reveal_strlit(" ");
    reveal_strlit(" hundred ");
}

/// `1000^p` is positive.
proof fn lemma_pow1000_pos(p: nat)
    ensures
        pow1000(p) >= 1,
    decreases p,
{
    if p > 0 {
        lemma_pow1000_pos((p - 1) as nat);
    }
}

/// The value zero contributes no words at any period.
proof fn lemma_int_words_at_zero(p: nat)
    ensures
        int_words_at(0, p) == Seq::<char>::empty(),
    decreases p,
{
    if p > 0 {
        lemma_pow1000_pos(p);
        lemma_int_words_at_zero((p - 1) as nat);
        assert(int_words_at(0, p) =~= Seq::<char>::empty());
    }
}

/// The words for a nonzero value are never empty and end in a space.
proof fn lemma_int_words_at_space(n: nat, p: nat)
    requires
        n > 0,
    ensures
        int_words_at(n, p).len() >= 1,
        int_words_at(n, p).last() == ' ',
    decreases p,
{
    if p == 0 {
        lemma_period_words_space(n as int);
    } else {
        let top = n / pow1000(p);
        let rest = n % pow1000(p);
        lemma_pow1000_pos(p);
        if top == 0 {
            vstd::arithmetic::div_mod::lemma_fundamental_div_mod(n as int, pow1000(p) as int);
            assert(rest == n);
            lemma_int_words_at_space(rest, (p - 1) as nat);
        } else if rest == 0 {
            reveal_strlit(" ");
            lemma_int_words_at_zero((p - 1) as nat);
            lemma_period_words_space(top as int);
        } else {
            lemma_int_words_at_space(rest, (p - 1) as nat);
        }
    }
}

/// The rendered integer part is never empty and ends in a single trailing
/// space, which the formatter drops or replaces with the fraction suffix.
pub proof fn lemma_integer_words_trailing_space(n: nat)
    ensures
        integer_words(n).len() >= 1,
        integer_words(n).last() == ' ',
{
    if n == 0 {
        reveal_strlit("zero ");
    } else {
        lemma_int_words_at_space(n, 4);
    }
}

/// Zero suppression across a period: in a value made of a millions period
/// and a units period, with nothing in the thousands, the all-zero thousands
/// period contributes no words and no scale word, and the comma after
/// "million" appears exactly when the units period is nonzero.
pub proof fn lemma_zero_period_suppressed(a: int, b: int)
    requires
        1 <= a <= 999,
        0 <= b <= 999,
    ensures
        integer_words((a * 1000000 + b) as nat) == period_words(a) + "million"@ + (if b == 0 {
            " "@
        } else {
            ", "@ + period_words(b)
        }),
{
    reveal_with_fuel(pow1000, 6);
    reveal_with_fuel(int_words_at, 6);
    let n = (a * 1000000 + b) as nat;
    assert(1_000_000 <= n < 1_000_000_000);
    vstd::arithmetic::div_mod::lemma_basic_div(n as int, 1_000_000_000_000);
    vstd::arithmetic::div_mod::lemma_small_mod(n, 1_000_000_000_000);
    vstd::arithmetic::div_mod::lemma_basic_div(n as int, 1_000_000_000);
    vstd::arithmetic::div_mod::lemma_small_mod(n, 1_000_000_000);
    vstd::arithmetic::div_mod::lemma_fundamental_div_mod_converse(n as int, 1_000_000, a, b);
    assert(n % 1_000_000 == b);
    if b == 0 {
        vstd::arithmetic::div_mod::lemma_basic_div(0, 1000);
        vstd::arithmetic::div_mod::lemma_small_mod(0, 1000);
        assert(int_words_at(0, 1) =~= Seq::<char>::empty());
        assert(integer_words(n) =~= period_words(a) + "million"@ + " "@);
    } else {
        vstd::arithmetic::div_mod::lemma_basic_div(b, 1000);
        vstd::arithmetic::div_mod::lemma_small_mod(b as nat, 1000);
        assert(int_words_at(b as nat, 1) =~= period_words(b));
        assert(integer_words(n) =~= period_words(a) + "million"@ + ", "@ + period_words(b));
    }
}

/// The tens column of one period: the tens word, joined to the ones place
/// by a hyphen when the ones digit of the same period (the next byte of the
/// digit buffer) is nonzero, and followed by a space otherwise. A zero tens
/// digit yields nothing.
pub fn handle_tens(next: usize, idx: usize, mantissa: Vec<u8>) -> (r: String)
    requires
        next > 0 ==> next < 10 && idx + 1 < mantissa.len(),
    ensures
        next == 0 ==> r@ == Seq::<char>::empty(),
        next > 0 ==> r@ == tens_word(next as int) + (if mantissa@[idx + 1] != 0 {
            "-"@
        } else {
            " "@
        }),
{
    if next > 0 {
        let mut s = tens_str(next as u64).to_owned();
        if mantissa[idx + 1] != 0 {
            s.append("-");
        } else {
            s.append(" ");
        }
        return s;
    }
    String::new()
}

/// `1000^p` as a machine integer, for the supported period indices.
fn pow1000_exec(p: u64) -> (r: u64)
    requires
        p <= 4,
    ensures
        r as nat == pow1000(p as nat),
        r >= 1,
{
    proof {
        reveal_with_fuel(pow1000, 5);
    }
    match p {
        0 => 1,
        1 => 1_000,
        2 => 1_000_000,
        3 => 1_000_000_000,
        _ => 1_000_000_000_000,
    }
}

/// Render the integer part of the amount as words, most significant period
/// first, with a trailing space.
pub fn integer_part_words(n: u64) -> (s: String)
    requires
        n < 10_000_000_000_000,
    ensures
        s@ == integer_words(n as nat),
{
    let mut s = String::new();
    if n == 0 {
        s.append("zero ");
        proof {
            assert(s@ =~= integer_words(n as nat));
        }
        return s;
    }
    let mut rest: u64 = n;
    let mut p: u64 = 4;
    proof {
        reveal_with_fuel(pow1000, 6);
        assert(s@ + int_words_at(rest as nat, p as nat) =~= int_words_at(n as nat, 4));
    }
    while p > 0
        invariant
            p <= 4,
            (rest as nat) < pow1000((p + 1) as nat),
            1 <= n < 10_000_000_000_000,
            integer_words(n as nat) == s@ + int_words_at(rest as nat, p as nat),
        decreases p,
    {
        let div = pow1000_exec(p);
        proof {
            assert(pow1000((p + 1) as nat) == 1000 * pow1000(p as nat));
            vstd::arithmetic::div_mod::lemma_multiply_divide_lt(rest as int, div as int, 1000);
        }
        let top: u64 = rest / div;
        let new_rest: u64 = rest % div;
        let ghost s_before: Seq<char> = s@;
        if top > 0 {
            let pw = period_to_words(top);
            s.append(pw.as_str());
            s.append(scale_str(p));
            if new_rest > 0 {
                s.append(", ");
            } else {
                s.append(" ");
            }
        }
        proof {
            assert(s@ + int_words_at(new_rest as nat, (p - 1) as nat) =~= s_before
                + int_words_at(rest as nat, p as nat));
        }
        rest = new_rest;
        p = p - 1;
    }
    if rest > 0 {
        let pw = period_to_words(rest);
        s.append(pw.as_str());
    }
    proof {
        assert(s@ =~= integer_words(n as nat));
    }
    s
}

} // verus!
