use mycelium_bitfield::interrupt::RegistrationError;

#[test]
fn registration_error_kinds() {
    let nonexistant = RegistrationError::nonexistant();
    assert!(nonexistant.is_nonexistant());
    assert!(!nonexistant.is_already_registered());

    let already = RegistrationError::already_registered();
    assert!(already.is_already_registered());
    assert!(!already.is_nonexistant());

    let other = RegistrationError::other("handler slot poisoned");
    assert!(!other.is_nonexistant());
    assert!(!other.is_already_registered());
}

#[test]
fn registration_error_equality() {
    assert_eq!(
        RegistrationError::nonexistant(),
        RegistrationError::nonexistant()
    );
    assert_ne!(
        RegistrationError::nonexistant(),
        RegistrationError::already_registered()
    );
    assert_eq!(
        RegistrationError::other("x"),
        RegistrationError::other("x")
    );
    assert_ne!(
        RegistrationError::other("x"),
        RegistrationError::other("y")
    );
}
