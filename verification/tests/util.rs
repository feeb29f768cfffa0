use mail::util::downcased_string;

#[test]
fn test_downcased_string() {
    let msg = downcased_string(b"Reply-to", 0, b"Reply-To");
    assert!(msg.is_ok());
}
