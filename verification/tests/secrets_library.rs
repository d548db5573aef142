use keyring_core::mock;
use keystroke::secrets::{
    keyring_service_name, load_password, load_result, save_password, save_result, SecretError,
    SecretService,
};

#[test]
fn saved_password_is_loaded_back() {
    keyring_core::set_default_store(mock::Store::new().unwrap());
    save_password(SecretService::TypingCom, "teacher", "hunter2").unwrap();
    assert_eq!(load_password(SecretService::TypingCom, "teacher").unwrap(), "hunter2");
    save_password(SecretService::TypingCom, "teacher", "changed").unwrap();
    assert_eq!(load_password(SecretService::TypingCom, "teacher").unwrap(), "changed");
    match load_password(SecretService::TypingCom, "nobody") {
        Err(SecretError::LoadPassword { service, username, source }) => {
            assert_eq!(service, "typing.com");
            assert_eq!(username, "nobody");
            assert!(matches!(source, keyring_core::Error::NoEntry));
        }
        other => panic!("unexpected {other:?}"),
    }
    keyring_core::unset_default_store();
}

#[test]
fn service_names() {
    assert_eq!(SecretService::TypingCom.as_str(), "typing.com");
    assert_eq!(keyring_service_name(&SecretService::TypingCom), "keystroke:typing.com");
}

#[test]
fn store_answers_are_reported() {
    assert!(save_result(&SecretService::TypingCom, "u", Ok(())).is_ok());
    match save_result(&SecretService::TypingCom, "u", Err(keyring_core::Error::NoEntry)) {
        Err(SecretError::SavePassword { service, username, source }) => {
            assert_eq!(service, "typing.com");
            assert_eq!(username, "u");
            assert!(matches!(source, keyring_core::Error::NoEntry));
        }
        other => panic!("unexpected {other:?}"),
    }
    assert_eq!(
        load_result(&SecretService::TypingCom, "u", Ok("pw".to_string())).unwrap(),
        "pw"
    );
    match load_result(
        &SecretService::TypingCom,
        "v",
        Err(keyring_core::Error::Invalid("a".to_string(), "b".to_string())),
    ) {
        Err(SecretError::LoadPassword { service, username, .. }) => {
            assert_eq!(service, "typing.com");
            assert_eq!(username, "v");
        }
        other => panic!("unexpected {other:?}"),
    }
}

#[test]
fn entry_answers_are_reported() {
    match keystroke::secrets::entry_result(Err(keyring_core::Error::NoDefaultStore)) {
        Err(SecretError::EntryCreate(keyring_core::Error::NoDefaultStore)) => {}
        other => panic!("unexpected {other:?}"),
    }
}
