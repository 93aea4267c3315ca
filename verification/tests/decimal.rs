use account_codec::string_codec;
use account_codec::DecodeError;

#[test]
fn renders_zero_as_single_digit() {
    assert_eq!(string_codec::serialize(0), "0");
}

#[test]
fn renders_small_and_large_values() {
    assert_eq!(string_codec::serialize(6), "6");
    assert_eq!(string_codec::serialize(2932070), "2932070");
    assert_eq!(string_codec::serialize(u64::MAX), "18446744073709551615");
}

#[test]
fn numeric_round_trip_is_exact() {
    for n in [
        0u64,
        1,
        9,
        10,
        99,
        100,
        2932070,
        1_000_000_007,
        u64::MAX - 1,
        u64::MAX,
    ] {
        let text = string_codec::serialize(n);
        assert_eq!(string_codec::deserialize(&text), Ok(n));
    }
}

#[test]
fn accepts_leading_zeros() {
    assert_eq!(string_codec::deserialize("007"), Ok(7));
    assert_eq!(string_codec::deserialize("000"), Ok(0));
}

#[test]
fn rejects_empty_string() {
    assert_eq!(
        string_codec::deserialize(""),
        Err(DecodeError::MalformedNumber)
    );
}

#[test]
fn rejects_signs() {
    assert_eq!(
        string_codec::deserialize("+5"),
        Err(DecodeError::MalformedNumber)
    );
    assert_eq!(
        string_codec::deserialize("-5"),
        Err(DecodeError::MalformedNumber)
    );
}

#[test]
fn rejects_non_digits() {
    assert_eq!(
        string_codec::deserialize("12a3"),
        Err(DecodeError::MalformedNumber)
    );
    assert_eq!(
        string_codec::deserialize("1 2"),
        Err(DecodeError::MalformedNumber)
    );
    assert_eq!(
        string_codec::deserialize("0x10"),
        Err(DecodeError::MalformedNumber)
    );
}

#[test]
fn rejects_values_beyond_64_bits() {
    assert_eq!(
        string_codec::deserialize("18446744073709551615"),
        Ok(u64::MAX)
    );
    assert_eq!(
        string_codec::deserialize("18446744073709551616"),
        Err(DecodeError::MalformedNumber)
    );
    assert_eq!(
        string_codec::deserialize("99999999999999999999"),
        Err(DecodeError::MalformedNumber)
    );
}
