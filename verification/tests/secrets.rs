use keyring_core::{mock, Entry};

#[test]
fn test_credential_roundtrip() {
    keyring_core::set_default_store(mock::Store::new().unwrap());
    let entry = Entry::new("test-service", "test-user").unwrap();
    entry.set_password("secret").unwrap();
    assert_eq!(entry.get_password().unwrap(), "secret");
    keyring_core::unset_default_store();
}
