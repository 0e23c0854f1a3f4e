use frameid::identifier::{push_decimal, Identifier, Segment};

#[test]
fn canonical_text_is_prefix_then_decimal() {
    assert_eq!(Identifier::new("f:".to_string(), 0).canonical_text(), "f:0");
    assert_eq!(Identifier::new("s:".to_string(), 123).canonical_text(), "s:123");
    assert_eq!(Identifier::new(String::new(), 7).canonical_text(), "7");
    assert_eq!(
        Identifier::new("e:".to_string(), u64::MAX).canonical_text(),
        "e:18446744073709551615"
    );
}

#[test]
fn decimal_has_no_leading_zeros() {
    let mut s = String::from("x");
    push_decimal(&mut s, 100);
    assert_eq!(s, "x100");
    let mut z = String::new();
    push_decimal(&mut z, 0);
    assert_eq!(z, "0");
}

#[test]
fn identifiers_compare_by_canonical_text() {
    let a = Identifier::new("f:1".to_string(), 0);
    let b = Identifier::new("f:".to_string(), 10);
    assert!(a == b);
    let c = Identifier::new("f:".to_string(), 11);
    assert!(a != c);
}

#[test]
fn segment_markers() {
    assert_eq!(Segment::Start.marker(), "s:");
    assert_eq!(Segment::Frames.marker(), "f:");
    assert_eq!(Segment::End.marker(), "e:");
}
