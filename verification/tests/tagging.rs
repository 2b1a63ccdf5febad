use chat_hub::tag::{render_u64, tag_message};

#[test]
fn renders_zero() {
    assert_eq!(render_u64(0).as_str(), "0");
}

#[test]
fn renders_single_digits() {
    for d in 0..10u64 {
        assert_eq!(render_u64(d), d.to_string());
    }
}

#[test]
fn renders_multi_digit_numbers() {
    assert_eq!(render_u64(10).as_str(), "10");
    assert_eq!(render_u64(42).as_str(), "42");
    assert_eq!(render_u64(100).as_str(), "100");
    assert_eq!(render_u64(1234567890).as_str(), "1234567890");
    assert_eq!(render_u64(u64::MAX).as_str(), "18446744073709551615");
}

#[test]
fn tags_message_with_sender_id() {
    assert_eq!(tag_message(1, "hello").as_str(), "<User#1>: hello");
    assert_eq!(tag_message(42, "ping").as_str(), "<User#42>: ping");
}

#[test]
fn tags_empty_text() {
    assert_eq!(tag_message(7, "").as_str(), "<User#7>: ");
}
