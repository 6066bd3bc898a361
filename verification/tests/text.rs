use lynx_element_bridge::text::{decimal, message_with, str_eq};

#[test]
fn decimal_text_matches_the_standard_formatting() {
    for n in [0u64, 7, 10, 99, 100, 65535, 1_000_000_007, u64::MAX] {
        assert_eq!(decimal(n), n.to_string());
    }
    assert_eq!(message_with("session ", 12, " is busy"), "session 12 is busy");
    assert!(str_eq("héllo", "héllo"));
    assert!(!str_eq("a", "b"));
}
