use iban::countries::{format_row_at, COUNTRY_COUNT};
use iban::pattern::{CharClass, Run};
use iban::{validate_iban_country, FormatTable, IbanCountryResult};

/// A text that fits the given runs, built from one sample character per class.
fn fitting_text(runs: &[Run]) -> String {
    let mut text = String::new();
    for run in runs {
        let ch = match run.class {
            CharClass::Digit => '7',
            CharClass::Upper => 'Q',
            CharClass::UpperOrDigit => 'K',
            CharClass::UpperToLowerZ => 'M',
            CharClass::Exact(c) => c,
        };
        for _ in 0..run.count {
            text.push(ch);
        }
    }
    text
}

fn code_of(i: usize) -> String {
    let (first, second, _) = format_row_at(i);
    let mut code = String::new();
    code.push(first);
    code.push(second);
    code
}

#[test]
fn germany_valid() {
    assert_eq!(validate_iban_country("DE44500105175407324931"), IbanCountryResult::Valid);
}

#[test]
fn germany_letters_invalid() {
    assert_eq!(validate_iban_country("DE44ABCDE5175407324931"), IbanCountryResult::Invalid);
}

#[test]
fn unknown_country_zz() {
    assert_eq!(
        validate_iban_country("ZZ44500105175407324931"),
        IbanCountryResult::CountryUnknown
    );
}

#[test]
fn united_kingdom_valid() {
    assert_eq!(validate_iban_country("GB82WEST12345698765432"), IbanCountryResult::Valid);
}

#[test]
fn united_kingdom_one_digit_short_invalid() {
    assert_eq!(validate_iban_country("GB82WEST1234569876543"), IbanCountryResult::Invalid);
}

#[test]
fn every_country_accepts_a_fitting_remainder() {
    for i in 0..COUNTRY_COUNT {
        let (_, _, runs) = format_row_at(i);
        let address = code_of(i) + &fitting_text(&runs);
        assert_eq!(validate_iban_country(&address), IbanCountryResult::Valid, "{}", address);
    }
}

#[test]
fn every_country_rejects_a_longer_remainder() {
    for i in 0..COUNTRY_COUNT {
        let (_, _, runs) = format_row_at(i);
        let address = code_of(i) + &fitting_text(&runs) + "1";
        assert_eq!(validate_iban_country(&address), IbanCountryResult::Invalid, "{}", address);
    }
}

#[test]
fn every_country_rejects_a_shorter_remainder() {
    for i in 0..COUNTRY_COUNT {
        let (_, _, runs) = format_row_at(i);
        let mut remainder = fitting_text(&runs);
        remainder.pop();
        let address = code_of(i) + &remainder;
        assert_eq!(validate_iban_country(&address), IbanCountryResult::Invalid, "{}", address);
    }
}

#[test]
fn every_country_rejects_a_wrong_class() {
    for i in 0..COUNTRY_COUNT {
        let (_, _, runs) = format_row_at(i);
        // The check digits are digits in every row: a letter there must fail.
        let remainder = fitting_text(&runs);
        let address = code_of(i) + "X" + &remainder[1..];
        assert_eq!(validate_iban_country(&address), IbanCountryResult::Invalid, "{}", address);
    }
}

#[test]
fn unknown_prefixes_whatever_follows() {
    for prefix in ["ZZ", "XX", "de", "12", "D1", "  "] {
        for rest in ["44500105175407324931", "", "82WEST12345698765432", "???"] {
            let address = String::from(prefix) + rest;
            assert_eq!(
                validate_iban_country(&address),
                IbanCountryResult::CountryUnknown,
                "{}",
                address
            );
        }
    }
}

#[test]
fn repeated_calls_agree() {
    for address in [
        "DE44500105175407324931",
        "DE44ABCDE5175407324931",
        "ZZ44500105175407324931",
        "",
    ] {
        let first = validate_iban_country(address);
        let second = validate_iban_country(address);
        assert_eq!(first, second);
    }
    let table = FormatTable::new();
    assert_eq!(
        table.classify("GB82WEST12345698765432"),
        validate_iban_country("GB82WEST12345698765432")
    );
}

#[test]
fn matchers_agree_on_each_row() {
    let table = FormatTable::new();
    for i in 0..COUNTRY_COUNT {
        let (_, _, runs) = format_row_at(i);
        let prefix_found = table.prefix_matches(&code_of(i));
        assert_eq!(prefix_found, vec![i]);
        let remainder_found = table.remainder_matches(&fitting_text(&runs));
        assert!(remainder_found.contains(&i));
    }
}

#[test]
fn remainder_matches_lists_every_fitting_row() {
    let table = FormatTable::new();
    // Twenty digits fit Germany, Costa Rica, Montenegro and Serbia.
    let found = table.remainder_matches("44500105175407324931");
    let codes: Vec<String> = found.iter().map(|&i| code_of(i)).collect();
    assert_eq!(codes, vec!["CR", "DE", "ME", "RS"]);
}

#[test]
fn short_addresses_are_unknown() {
    assert_eq!(validate_iban_country(""), IbanCountryResult::CountryUnknown);
    assert_eq!(validate_iban_country("D"), IbanCountryResult::CountryUnknown);
}

#[test]
fn code_alone_is_invalid() {
    assert_eq!(validate_iban_country("DE"), IbanCountryResult::Invalid);
}

#[test]
fn non_ascii_characters() {
    assert_eq!(validate_iban_country("ÄÖ44500105175407324931"), IbanCountryResult::CountryUnknown);
    // Only ASCII digits count as digits.
    assert_eq!(
        validate_iban_country("DE\u{0664}\u{0664}500105175407324931"),
        IbanCountryResult::Invalid
    );
}

#[test]
fn romania_range_takes_lowercase() {
    assert_eq!(validate_iban_country("RO49AAAA1B31007593840000"), IbanCountryResult::Valid);
    assert_eq!(validate_iban_country("RO49aaaa1B31007593840000"), IbanCountryResult::Valid);
    assert_eq!(validate_iban_country("RO49aaaa1b31007593840000"), IbanCountryResult::Invalid);
}

#[test]
fn lowercase_rejected_elsewhere() {
    assert_eq!(validate_iban_country("GB82west12345698765432"), IbanCountryResult::Invalid);
}

#[test]
fn table_row_contents() {
    let (first, second, runs) = format_row_at(23);
    assert_eq!((first, second), ('G', 'B'));
    assert_eq!(runs, vec![Run::digits(2), Run::upper(4), Run::digits(14)]);
    assert_eq!(code_of(0), "AD");
    assert_eq!(code_of(COUNTRY_COUNT - 1), "XK");
}
