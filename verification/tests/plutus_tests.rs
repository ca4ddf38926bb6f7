use plutus::plutus_error::{check, PlutusError, PlutusFormat};

fn query(pairs: &[(&str, &str)]) -> Vec<(String, String)> {
    pairs.iter().map(|(k, v)| (String::from(*k), String::from(*v))).collect()
}

#[test]
fn missing_argument_is_reported() {
    let q = query(&[("name", "x")]);
    let r = check(&q, vec![("id", PlutusFormat::BigNumber)]);
    assert_eq!(r, PlutusError::InvalidArguments);
}

#[test]
fn all_arguments_present_and_well_formed() {
    let q = query(&[("id", "42"), ("name", "anything at all"), ("amount", "3.5")]);
    let r = check(
        &q,
        vec![
            ("id", PlutusFormat::BigNumber),
            ("name", PlutusFormat::Unspecified),
            ("amount", PlutusFormat::Float),
        ],
    );
    assert_eq!(r, PlutusError::Success);
}

#[test]
fn number_format_is_exactly_32_bits() {
    let ok = ["0", "2147483647", "-2147483648", "+17", "-0"];
    for v in ok {
        let q = query(&[("n", v)]);
        assert_eq!(check(&q, vec![("n", PlutusFormat::Number)]), PlutusError::Success);
    }
    let bad = ["2147483648", "-2147483649", "12a", "", "-", "+", "1.0", "99999999999999999999"];
    for v in bad {
        let q = query(&[("n", v)]);
        assert_eq!(check(&q, vec![("n", PlutusFormat::Number)]), PlutusError::InvalidFormat);
    }
}

#[test]
fn bignumber_format_is_exactly_64_bits() {
    let ok = ["9223372036854775807", "-9223372036854775808", "0"];
    for v in ok {
        let q = query(&[("n", v)]);
        assert_eq!(check(&q, vec![("n", PlutusFormat::BigNumber)]), PlutusError::Success);
    }
    let bad = ["9223372036854775808", "-9223372036854775809", "ten"];
    for v in bad {
        let q = query(&[("n", v)]);
        assert_eq!(check(&q, vec![("n", PlutusFormat::BigNumber)]), PlutusError::InvalidFormat);
    }
}

#[test]
fn float_format_is_a_plain_decimal_amount() {
    let ok = ["1", "1.5", "-0.5", ".5", "1.", "+2.25", "000.000"];
    for v in ok {
        let q = query(&[("x", v)]);
        assert_eq!(check(&q, vec![("x", PlutusFormat::Float)]), PlutusError::Success);
    }
    let bad = [".", "1.2.3", "abc", "", "-", "1e5", "NaN", "inf"];
    for v in bad {
        let q = query(&[("x", v)]);
        assert_eq!(check(&q, vec![("x", PlutusFormat::Float)]), PlutusError::InvalidFormat);
    }
}

#[test]
fn key_format_is_lowercase_digits_underscore() {
    let ok = ["abc_123", "a", "", "_"];
    for v in ok {
        let q = query(&[("k", v)]);
        assert_eq!(check(&q, vec![("k", PlutusFormat::Key)]), PlutusError::Success);
    }
    let bad = ["Abc", "a b", "a-b", "päck"];
    for v in bad {
        let q = query(&[("k", v)]);
        assert_eq!(check(&q, vec![("k", PlutusFormat::Key)]), PlutusError::InvalidFormat);
    }
}

#[test]
fn flexible_key_and_unspecified_pass_anything_present() {
    let q = query(&[("a", "ANY thing-压"), ("b", "")]);
    let r = check(&q, vec![("a", PlutusFormat::FlexibleKey), ("b", PlutusFormat::Unspecified)]);
    assert_eq!(r, PlutusError::Success);
}

#[test]
fn first_failure_wins() {
    let q = query(&[("n", "bad")]);
    // the missing argument is listed after the malformed one
    let r = check(&q, vec![("n", PlutusFormat::Number), ("m", PlutusFormat::Number)]);
    assert_eq!(r, PlutusError::InvalidFormat);
    let r = check(&q, vec![("m", PlutusFormat::Number), ("n", PlutusFormat::Number)]);
    assert_eq!(r, PlutusError::InvalidArguments);
}
