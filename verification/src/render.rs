use crate::normalize::is_numeral;
use crate::normalize::normalize;
use crate::normalize::overflows;
use crate::normalize::total_cents;
use crate::normalize::Normalized;
use crate::words::integer_words;
use crate::words::lemma_integer_words_trailing_space;
use crate::words::integer_part_words;
use vstd::prelude::*;

verus! {

// ---------------------------------------------------------------------------
// The final string: fraction suffix and capitalization
// ---------------------------------------------------------------------------
/// The character for a single digit.
pub open spec fn digit_word(d: int) -> Seq<char> {
    if d == 0 {
        "0"@
    } else if d == 1 {
        "1"@
    } else if d == 2 {
        "2"@
    } else if d == 3 {
        "3"@
    } else if d == 4 {
        "4"@
    } else if d == 5 {
        "5"@
    } else if d == 6 {
        "6"@
    } else if d == 7 {
        "7"@
    } else if d == 8 {
        "8"@
    } else {
        "9"@
    }
}

/// The cents as a decimal numeral without a leading zero: one digit below
/// ten, two digits otherwise.
pub open spec fn cents_numeral(c: int) -> Seq<char> {
    if c < 10 {
        digit_word(c)
    } else {
        digit_word(c / 10) + digit_word(c % 10)
    }
}

/// A lower-case ASCII letter turned upper case; any other character is left
/// unchanged.
pub open spec fn upper_char(c: char) -> char {
    if 'a' <= c && c <= 'z' {
        (c as int - 32) as char
    } else {
        c
    }
}

/// The string with its first character turned upper case; an empty string
/// stays empty.
pub open spec fn capitalized(s: Seq<char>) -> Seq<char> {
    if s.len() == 0 {
        s
    } else {
        seq![upper_char(s[0])] + s.skip(1)
    }
}

/// What rendering a well-formed numeral yields. An amount of ten trillion
/// units or more gives the fixed overflow sentence. Otherwise the integer
/// part is spelt out in words; zero cents are suppressed together with the
/// renderer's trailing space, and nonzero cents follow as "and N/100".
/// Capitalization, when asked for, turns the first letter upper case.
pub open spec fn rendered(s: Seq<char>, capitalise: bool) -> Seq<char> {
    if overflows(s) {
        "number too large"@
    } else {
        let n = total_cents(s) / 100;
        let c = total_cents(s) % 100;
        let w = integer_words(n);
        let body = if c == 0 {
            w.drop_last()
        } else {
            w + "and "@ + cents_numeral(c as int) + "/100"@
        };
        if capitalise {
            capitalized(body)
        } else {
            body
        }
    }
}

// ---------------------------------------------------------------------------
// Executable helpers
// ---------------------------------------------------------------------------
/// Look up the character for a single digit.
fn digit_str(d: u64) -> (r: &'static str)
    requires
        d < 10,
    ensures
        r@ == digit_word(d as int),
{
    match d {
        0 => "0",
        1 => "1",
        2 => "2",
        3 => "3",
        4 => "4",
        5 => "5",
        6 => "6",
        7 => "7",
        8 => "8",
        _ => "9",
    }
}

/// Render the cents as a decimal numeral without a leading zero.
fn cents_numeral_str(c: u64) -> (r: String)
    requires
        c < 100,
    ensures
        r@ == cents_numeral(c as int),
{
    if c < 10 {
        digit_str(c).to_owned()
    } else {
        let mut s = digit_str(c / 10).to_owned();
        s.append(digit_str(c % 10));
        s
    }
}

/// The upper-case letter for a lower-case ASCII letter, or nothing for any
/// other character.
fn upper_letter_str(c: char) -> (r: Option<&'static str>)
    ensures
        'a' <= c && c <= 'z' ==> (r matches Some(u) && u@ == seq![upper_char(c)]),
        !('a' <= c && c <= 'z') ==> r is None,
{
    proof {
        reveal_strlit("A");
        reveal_strlit("B");
        reveal_strlit("C");
        reveal_strlit("D");
        reveal_strlit("E");
        reveal_strlit("F");
        reveal_strlit("G");
        reveal_strlit("H");
        reveal_strlit("I");
        reveal_strlit("J");
        reveal_strlit("K");
        reveal_strlit("L");
        reveal_strlit("M");
        reveal_strlit("N");
        reveal_strlit("O");
        reveal_strlit("P");
        reveal_strlit("Q");
        reveal_strlit("R");
        reveal_strlit("S");
        reveal_strlit("T");
        reveal_strlit("U");
        reveal_strlit("V");
        reveal_strlit("W");
        reveal_strlit("X");
        reveal_strlit("Y");
        reveal_strlit("Z");
    }
    match c {
        'a' => Some("A"),
        'b' => Some("B"),
        'c' => Some("C"),
        'd' => Some("D"),
        'e' => Some("E"),
        'f' => Some("F"),
        'g' => Some("G"),
        'h' => Some("H"),
        'i' => Some("I"),
        'j' => Some("J"),
        'k' => Some("K"),
        'l' => Some("L"),
        'm' => Some("M"),
        'n' => Some("N"),
        'o' => Some("O"),
        'p' => Some("P"),
        'q' => Some("Q"),
        'r' => Some("R"),
        's' => Some("S"),
        't' => Some("T"),
        'u' => Some("U"),
        'v' => Some("V"),
        'w' => Some("W"),
        'x' => Some("X"),
        'y' => Some("Y"),
        'z' => Some("Z"),
        _ => None,
    }
}

/// Turn the first letter of a word upper case. A string whose first
/// character is not a lower-case ASCII letter, and the empty string, come
/// back unchanged.
pub fn capitalise_first_letter(word: String) -> (r: String)
    ensures
        r@ == capitalized(word@),
{
    let len = word.as_str().unicode_len();
    if len == 0 {
        return word;
    }
    let c = word.as_str().get_char(0);
    match upper_letter_str(c) {
        Some(u) => {
            let mut s = u.to_owned();
            s.append(word.as_str().substring_char(1, len));
            proof {
                assert(s@ =~= capitalized(word@));
            }
            s
        },
        None => {
            proof {
                assert(word@ =~= capitalized(word@));
            }
            word
        },
    }
}

// ---------------------------------------------------------------------------
// Laws
// ---------------------------------------------------------------------------
/// Idempotence of sign: a numeral and the same numeral with a minus sign in
/// front are equally well formed and render to the same words.
pub proof fn lemma_render_ignores_sign(s: Seq<char>, capitalise: bool)
    requires
        s.len() == 0 || s[0] != '-',
    ensures
        is_numeral(seq!['-'] + s) == is_numeral(s),
        rendered(seq!['-'] + s, capitalise) == rendered(s, capitalise),
{
    let m = seq!['-'] + s;
    assert(m[0] == '-');
    assert(crate::normalize::unsigned_part(m) =~= s);
    assert(crate::normalize::unsigned_part(s) == s);
}

/// Capitalization touches nothing but a leading lower-case letter: a string
/// that is empty or starts with any other character comes back unchanged.
pub proof fn lemma_capitalized_non_letter(s: Seq<char>)
    requires
        s.len() == 0 || !('a' <= s[0] && s[0] <= 'z'),
    ensures
        capitalized(s) == s,
{
    if s.len() > 0 {
        assert(capitalized(s) =~= s);
    }
}

// ---------------------------------------------------------------------------
// The public operation
// ---------------------------------------------------------------------------
/// Convert a decimal numeral to its English words, the fraction rounded to
/// cents and rendered as "and N/100", zero cents suppressed. The sign is
/// ignored; an amount of ten trillion units or more yields the fixed
/// sentence "number too large"; a malformed input yields `None`.
pub fn number_to_words(number: &str, should_capitalise_first_word: bool) -> (r: Option<String>)
    ensures
        r is Some <==> is_numeral(number@),
        r matches Some(out) ==> out@ == rendered(number@, should_capitalise_first_word),
{
    match normalize(number) {
        None => None,
        Some(Normalized::TooLarge) => Some("number too large".to_owned()),
        Some(Normalized::Amount { units, cents }) => {
            proof {
                vstd::arithmetic::div_mod::lemma_multiply_divide_lt(
                    total_cents(number@) as int,
                    100,
                    10_000_000_000_000,
                );
                lemma_integer_words_trailing_space(units as nat);
            }
            let w = integer_part_words(units);
            let body = if cents == 0 {
                let wlen = w.as_str().unicode_len();
                let trimmed = w.as_str().substring_char(0, wlen - 1).to_owned();
                proof {
                    assert(trimmed@ =~= integer_words(units as nat).drop_last());
                }
                trimmed
            } else {
                let mut s = w;
                s.append("and ");
                let cn = cents_numeral_str(cents as u64);
                s.append(cn.as_str());
                s.append("/100");
                proof {
                    assert(s@ =~= integer_words(units as nat) + "and "@ + cents_numeral(
                        cents as int,
                    ) + "/100"@);
                }
                s
            };
            if should_capitalise_first_word {
                Some(capitalise_first_letter(body))
            } else {
                Some(body)
            }
        },
    }
}

} // verus!
