use webcam_direct::interface_index::InterfaceIndex;

#[test]
fn test_from_u16() {
    let index: u16 = 42;
    let interface_index = InterfaceIndex(index);
    assert_eq!(interface_index.0, 42);
}

#[test]
fn test_into_u16() {
    let interface_index = InterfaceIndex(42);
    let index: u16 = interface_index.into();
    assert_eq!(index, 42);
}

#[test]
fn test_display() {
    let interface_index = InterfaceIndex(42);
    assert_eq!(interface_index.to_string(), "42");
}

#[test]
fn decimal_text_of_edges() {
    assert_eq!(InterfaceIndex(0).to_string(), "0");
    assert_eq!(InterfaceIndex(10).to_string(), "10");
    assert_eq!(InterfaceIndex(65535).to_string(), "65535");
}
