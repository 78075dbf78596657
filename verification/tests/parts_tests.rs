use number_to_text::below_hundred_to_words;
use number_to_text::capitalise_first_letter;
use number_to_text::find_dot;
use number_to_text::handle_tens;
use number_to_text::integer_part_words;
use number_to_text::normalize;
use number_to_text::ones_str;
use number_to_text::period_to_words;
use number_to_text::scale_str;
use number_to_text::split_on_decimal_point;
use number_to_text::teens_str;
use number_to_text::tens_str;
use number_to_text::Normalized;

#[test]
fn test_capitalisation() {
    assert_eq!(capitalise_first_letter("one and".to_string()), "One and");
    assert_eq!(
        capitalise_first_letter("fifteen and 4/100".to_string()),
        "Fifteen and 4/100"
    );
    assert_eq!(capitalise_first_letter("ninety".to_string()), "Ninety");
    assert_eq!(capitalise_first_letter("12345".to_string()), "12345");
    assert_eq!(capitalise_first_letter("tWELVE".to_string()), "TWELVE");
    assert_eq!(capitalise_first_letter("$banana".to_string()), "$banana");
    assert_eq!(capitalise_first_letter("".to_string()), "");
}

#[test]
fn splitting_test() {
    let cases: [(&str, &str, &str); 10] = [
        ("0.0", "0", "0"),
        ("0.00", "0", "00"),
        ("1.0", "1", "0"),
        ("1.1", "1", "1"),
        ("99.999", "99", "999"),
        ("000.0", "000", "0"),
        ("9999999999.99", "9999999999", "99"),
        ("1.", "1", ""),
        (".", "", ""),
        ("", "", ""),
    ];
    for (input, before, after) in cases {
        let r = split_on_decimal_point(input.to_string());
        assert_eq!(r[0].as_str(), before);
        assert_eq!(r[1].as_str(), after);
    }
}

#[test]
fn finding_the_decimal_point() {
    assert_eq!(find_dot("12.5"), 2);
    assert_eq!(find_dot(".5"), 0);
    assert_eq!(find_dot("125"), 3);
    assert_eq!(find_dot(""), 0);
}

#[test]
fn normalize_rounds_half_away_from_zero() {
    assert_eq!(
        normalize("123.005"),
        Some(Normalized::Amount { units: 123, cents: 1 })
    );
    assert_eq!(
        normalize("123.004"),
        Some(Normalized::Amount { units: 123, cents: 0 })
    );
    assert_eq!(
        normalize("123.456"),
        Some(Normalized::Amount { units: 123, cents: 46 })
    );
    assert_eq!(
        normalize("123.4"),
        Some(Normalized::Amount { units: 123, cents: 40 })
    );
    assert_eq!(
        normalize("123.9999"),
        Some(Normalized::Amount { units: 124, cents: 0 })
    );
}

#[test]
fn normalize_boundaries() {
    assert_eq!(
        normalize("9999999999999.99"),
        Some(Normalized::Amount { units: 9999999999999, cents: 99 })
    );
    assert_eq!(normalize("9999999999999.995"), Some(Normalized::TooLarge));
    assert_eq!(normalize("10000000000000"), Some(Normalized::TooLarge));
    assert_eq!(
        normalize("9999999999999.99999"),
        Some(Normalized::TooLarge)
    );
    assert_eq!(normalize("not a number"), None);
    assert_eq!(
        normalize("0"),
        Some(Normalized::Amount { units: 0, cents: 0 })
    );
}

#[test]
fn word_tables() {
    assert_eq!(ones_str(0), "zero");
    assert_eq!(ones_str(9), "nine");
    assert_eq!(teens_str(0), "ten");
    assert_eq!(teens_str(5), "fifteen");
    assert_eq!(tens_str(2), "twenty");
    assert_eq!(tens_str(9), "ninety");
    assert_eq!(scale_str(1), "thousand");
    assert_eq!(scale_str(4), "trillion");
}

#[test]
fn test_handle_tens() {
    assert_eq!(handle_tens(5, 1, vec![2, 5, 0]), "fifty ");
    assert_eq!(handle_tens(5, 1, vec![2, 5, 3]), "fifty-");
    assert_eq!(handle_tens(0, 0, vec![0, 0]), "");
    assert_eq!(handle_tens(1, 0, vec![1, 0]), "ten ");
}

#[test]
fn rendering_pieces() {
    assert_eq!(below_hundred_to_words(42), "forty-two ");
    assert_eq!(below_hundred_to_words(7), "seven ");
    assert_eq!(below_hundred_to_words(13), "thirteen ");
    assert_eq!(below_hundred_to_words(60), "sixty ");
    assert_eq!(period_to_words(999), "nine hundred ninety-nine ");
    assert_eq!(period_to_words(100), "one hundred ");
    assert_eq!(period_to_words(305), "three hundred five ");
    assert_eq!(period_to_words(17), "seventeen ");
    assert_eq!(integer_part_words(0), "zero ");
    assert_eq!(integer_part_words(1000012), "one million, twelve ");
    assert_eq!(integer_part_words(250000), "two hundred fifty thousand ");
}
