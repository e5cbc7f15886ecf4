use jbob::errors::Error;

#[test]
fn an_error_carries_its_message() {
    let e = Error::new("something failed");
    assert_eq!(e.message(), "something failed");
    assert_eq!(e.to_string(), "something failed");
    let e = Error::from(String::from("made from a string"));
    assert_eq!(e.message(), "made from a string");
    let e: Error = String::new().into();
    assert_eq!(e.to_string(), "");
}
