use yak_core::message::decimal_string;
use yak_core::{Error, Message};

#[test]
fn messages_in_text() {
    assert_eq!(Message::Shutdown.to_string(), "Shutdown");
    assert_eq!(Message::Pong.to_string(), "Pong");
    assert_eq!(Message::Ping(0).to_string(), "Ping(0)");
    assert_eq!(Message::Ping(7).to_string(), "Ping(7)");
    assert_eq!(Message::Ping(100).to_string(), "Ping(100)");
    assert_eq!(Message::Ping(u32::MAX).to_string(), "Ping(4294967295)");
}

#[test]
fn decimal_string_writes_numerals_without_leading_zeros() {
    for n in [0u32, 1, 9, 10, 11, 99, 100, 101, 309, 1000, 65535, 1_000_000_000, u32::MAX - 1, u32::MAX] {
        assert_eq!(decimal_string(n), format!("{}", n));
    }
    for n in 0..2000u32 {
        assert_eq!(decimal_string(n), format!("{}", n));
    }
}

#[test]
fn messages_compare_by_variant_and_payload() {
    assert_eq!(Message::Ping(1), Message::Ping(1));
    assert_ne!(Message::Ping(1), Message::Ping(2));
    assert_ne!(Message::Pong, Message::Shutdown);
}

#[test]
fn error_in_words() {
    assert_eq!(Error::InvalidAddress.to_string(), "value is not a valid address");
    assert_eq!(Error::InvalidAddress, Error::InvalidAddress);
}
