use keyring_core::mock;
use keystroke::api::typing::auth::{begin_refresh, AuthError, TokenStep};
use keystroke::json::{Json, JsonNumber};
use keystroke::secrets::{save_password, SecretError, SecretService};

#[test]
fn a_stale_token_logs_in_with_the_kept_password() {
    keyring_core::set_default_store(mock::Store::new().unwrap());
    match begin_refresh(None, "teach", 7) {
        Err(AuthError::Secret(SecretError::LoadPassword { username, .. })) => {
            assert_eq!(username, "teach")
        }
        other => panic!("unexpected {other:?}"),
    }
    save_password(SecretService::TypingCom, "teach", "pw").unwrap();
    match begin_refresh(None, "teach", 7) {
        Ok(TokenStep::Login(body)) => {
            let expected = Json::Object(vec![
                ("login_type".to_string(), Json::Str("username".to_string())),
                ("password".to_string(), Json::Str("pw".to_string())),
                ("teacher_id".to_string(), Json::Number(JsonNumber::PosInt(7))),
            ]);
            assert_eq!(body, expected);
        }
        other => panic!("unexpected {other:?}"),
    }
    keyring_core::unset_default_store();
}
