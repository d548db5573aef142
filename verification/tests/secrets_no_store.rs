use keystroke::secrets::{load_password, save_password, SecretError, SecretService};

#[test]
fn without_a_store_no_entry_is_created() {
    keyring_core::unset_default_store();
    match save_password(SecretService::TypingCom, "teacher", "pw") {
        Err(SecretError::EntryCreate(keyring_core::Error::NoDefaultStore)) => {}
        other => panic!("unexpected {other:?}"),
    }
    match load_password(SecretService::TypingCom, "teacher") {
        Err(SecretError::EntryCreate(keyring_core::Error::NoDefaultStore)) => {}
        other => panic!("unexpected {other:?}"),
    }
}
