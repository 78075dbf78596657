use number_to_text::number_to_words;

fn words(input: &str, capitalise: bool) -> String {
    number_to_words(input, capitalise).expect("well-formed numeral")
}

#[test]
fn zero_renders_as_zero() {
    assert_eq!(words("0", false), "zero");
    assert_eq!(words("0", true), "Zero");
    assert_eq!(words("0.00", false), "zero");
}

#[test]
fn sign_is_ignored() {
    assert_eq!(words("-1100000", true), "One million, one hundred thousand");
    assert_eq!(words("1100000", true), "One million, one hundred thousand");
    assert_eq!(words("-15.04", false), words("15.04", false));
    assert_eq!(words("-0", false), "zero");
}

#[test]
fn teen_boundary() {
    assert_eq!(words("15.04", true), "Fifteen and 4/100");
    assert_eq!(words("15", false), "fifteen");
    assert_eq!(words("10000000", true), "Ten million");
}

#[test]
fn hyphenation() {
    assert_eq!(
        words("99988389.123", true),
        "Ninety-nine million, nine hundred eighty-eight thousand, \
         three hundred eighty-nine and 12/100"
    );
}

#[test]
fn zero_suppression_across_a_period() {
    assert_eq!(words("1000012", false), "one million, twelve");
}

#[test]
fn rounding_edge() {
    assert_eq!(words("123.005", false), "one hundred twenty-three and 1/100");
    assert_eq!(words("123.004", false), "one hundred twenty-three");
    assert_eq!(words("123.006", false), "one hundred twenty-three and 1/100");
    assert_eq!(words("123.9999", false), "one hundred twenty-four");
}

#[test]
fn cents_carry_into_units() {
    assert_eq!(words("0.999", true), "One");
    assert_eq!(
        words("0.999999999999999999999999999999999999999999999999999", true),
        "One"
    );
    assert_eq!(words("999999999999.9999", true), "One trillion");
}

#[test]
fn overflow_boundary() {
    assert_eq!(
        words("9999999999999.99", true),
        "Nine trillion, nine hundred ninety-nine billion, \
         nine hundred ninety-nine million, nine hundred ninety-nine thousand, \
         nine hundred ninety-nine and 99/100"
    );
    assert_eq!(words("10000000000000", true), "number too large");
    assert_eq!(words("10000000000000.00", false), "number too large");
    // One cent above the ceiling, reached through rounding.
    assert_eq!(words("9999999999999.995", false), "number too large");
    assert_eq!(words("99999999999999", false), "number too large");
}

#[test]
fn large_amounts() {
    assert_eq!(
        words("9308120381241.876", true),
        "Nine trillion, three hundred eight billion, one hundred twenty million, \
         three hundred eighty-one thousand, two hundred forty-one and 88/100"
    );
    assert_eq!(
        words("9890984381241.55", true),
        "Nine trillion, eight hundred ninety billion, nine hundred eighty-four million, \
         three hundred eighty-one thousand, two hundred forty-one and 55/100"
    );
    assert_eq!(
        words("9999999999999.0100", true),
        "Nine trillion, nine hundred ninety-nine billion, nine hundred ninety-nine million, \
         nine hundred ninety-nine thousand, nine hundred ninety-nine and 1/100"
    );
    assert_eq!(
        words("9999999999999.09999", true),
        "Nine trillion, nine hundred ninety-nine billion, nine hundred ninety-nine million, \
         nine hundred ninety-nine thousand, nine hundred ninety-nine and 10/100"
    );
    assert_eq!(
        words("9999999999999.989", true),
        "Nine trillion, nine hundred ninety-nine billion, nine hundred ninety-nine million, \
         nine hundred ninety-nine thousand, nine hundred ninety-nine and 99/100"
    );
}

#[test]
fn small_integers_lower_case() {
    assert_eq!(words("1", false), "one");
    assert_eq!(words("1266", false), "one thousand, two hundred sixty-six");
    assert_eq!(
        words("1230812", false),
        "one million, two hundred thirty thousand, eight hundred twelve"
    );
    assert_eq!(
        words("99988389", false),
        "ninety-nine million, nine hundred eighty-eight thousand, three hundred eighty-nine"
    );
}

#[test]
fn small_integers_capitalised() {
    assert_eq!(words("1", true), "One");
    assert_eq!(words("15", true), "Fifteen");
    assert_eq!(words("1266", true), "One thousand, two hundred sixty-six");
    assert_eq!(
        words("1230812", true),
        "One million, two hundred thirty thousand, eight hundred twelve"
    );
    assert_eq!(
        words("99988389", true),
        "Ninety-nine million, nine hundred eighty-eight thousand, three hundred eighty-nine"
    );
}

#[test]
fn fractions_and_plain_decimals() {
    assert_eq!(words("0.099", true), "Zero and 10/100");
    assert_eq!(words("1.0", true), "One");
    assert_eq!(words("222.22", true), "Two hundred twenty-two and 22/100");
    assert_eq!(words("1.", false), "one");
    assert_eq!(words("007", false), "seven");
}

#[test]
fn word_boundaries() {
    assert_eq!(words("19", false), "nineteen");
    assert_eq!(words("20", false), "twenty");
    assert_eq!(words("21", false), "twenty-one");
    assert_eq!(words("100", false), "one hundred");
    assert_eq!(words("110", false), "one hundred ten");
    assert_eq!(words("1000000000000", false), "one trillion");
    assert_eq!(words("1000000001", false), "one billion, one");
    assert_eq!(words("0.005", false), "zero and 1/100");
    assert_eq!(words("0.01", false), "zero and 1/100");
}

#[test]
fn malformed_inputs_are_rejected() {
    assert_eq!(number_to_words("", false), None);
    assert_eq!(number_to_words("-", false), None);
    assert_eq!(number_to_words(".", false), None);
    assert_eq!(number_to_words(".5", false), None);
    assert_eq!(number_to_words("abc", false), None);
    assert_eq!(number_to_words("12a", false), None);
    assert_eq!(number_to_words("1.2.3", false), None);
    assert_eq!(number_to_words("1,5", false), None);
    assert_eq!(number_to_words("--5", false), None);
    assert_eq!(number_to_words("1.5e6", false), None);
}
