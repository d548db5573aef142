use keystroke::api::typing::auth::{
    access_token, claims_expiration, jwt_claims, jwt_claims_segment, login_body, login_step,
    refreshed_expiration, AuthError, Token, TokenStep,
};
use keystroke::secrets::SecretError;
use keystroke::json::{Json, JsonNumber};
use keystroke::timestamp::Timestamp;

fn at(secs: i64, nanos: u32) -> Timestamp {
    Timestamp::from_parts(secs, nanos).unwrap()
}

fn obj(members: Vec<(&str, Json)>) -> Json {
    Json::Object(members.into_iter().map(|(k, v)| (k.to_string(), v)).collect())
}

const JWT: &str = "eyJhbGciOiJIUzI1NiIsInR5cCI6IkpXVCJ9.eyJleHAiOjE3MDAwMDAwMDB9.c2ln";

#[test]
fn a_new_token_is_stale() {
    let token = Token::new();
    assert_eq!(token.cached(&Timestamp::unix_epoch()), None);
    assert_eq!(token.cached(&at(1_700_000_000, 0)), None);
    assert_eq!(token.expiration(), Timestamp::unix_epoch());
}

#[test]
fn a_stored_token_is_served_until_it_expires() {
    let mut token = Token::new();
    let now = at(1_000, 0);
    assert_eq!(token.store(&now, "abc".to_string(), at(2_000, 0)), "abc");
    assert_eq!(token.cached(&at(1_999, 999_999_999)).as_deref(), Some("abc"));
    assert_eq!(token.cached(&at(2_000, 0)), None);
    // another task refreshed meanwhile: its token stays
    assert_eq!(token.store(&at(1_500, 0), "late".to_string(), at(9_000, 0)), "abc");
    assert_eq!(token.expiration(), at(2_000, 0));
    // once stale, the new token replaces it
    assert_eq!(token.store(&at(2_000, 0), "next".to_string(), at(9_000, 0)), "next");
    assert_eq!(token.cached(&at(8_000, 0)).as_deref(), Some("next"));
}

#[test]
fn login_request_body() {
    let body = login_body(4051, "pw".to_string());
    let expected = obj(vec![
        ("login_type", Json::Str("username".to_string())),
        ("password", Json::Str("pw".to_string())),
        ("teacher_id", Json::Number(JsonNumber::PosInt(4051))),
    ]);
    assert_eq!(body, expected);
}

#[test]
fn access_token_is_read() {
    let answer = obj(vec![("data", obj(vec![("access_token", Json::Str(JWT.to_string()))]))]);
    assert_eq!(access_token(answer).unwrap(), JWT);
    let answer = obj(vec![("data", obj(vec![("access_token", Json::Null)]))]);
    match access_token(answer.duplicate()) {
        Err(AuthError::MissingJsonField { field, json }) => {
            assert_eq!(field, "access_token");
            assert_eq!(json, answer);
        }
        other => panic!("unexpected {other:?}"),
    }
}

#[test]
fn jwt_claims_are_decoded() {
    assert_eq!(jwt_claims_segment(JWT), Some("eyJleHAiOjE3MDAwMDAwMDB9"));
    assert_eq!(jwt_claims_segment("a.b"), Some("b"));
    assert_eq!(jwt_claims_segment("a."), Some(""));
    assert_eq!(jwt_claims_segment("nodots"), None);
    assert_eq!(jwt_claims(JWT).unwrap(), b"{\"exp\":1700000000}".to_vec());
    assert_eq!(jwt_claims("a.eyJzdWIiOiJ4In0").unwrap(), b"{\"sub\":\"x\"}".to_vec());
    assert_eq!(jwt_claims("a.eyJzdWIiOiJ4In0="), None);
    assert_eq!(jwt_claims("a.!!!!"), None);
    assert_eq!(jwt_claims("nodots"), None);
}

#[test]
fn claims_give_the_expiry() {
    let claims = obj(vec![("exp", Json::Number(JsonNumber::PosInt(1_700_000_000)))]);
    assert_eq!(claims_expiration(&claims), Some(at(1_700_000_000, 0)));
    let claims = obj(vec![("exp", Json::Str("1700000000".to_string()))]);
    assert_eq!(claims_expiration(&claims), None);
    let claims = obj(vec![("exp", Json::Number(JsonNumber::PosInt(u64::MAX)))]);
    assert_eq!(claims_expiration(&claims), None);
    assert_eq!(claims_expiration(&obj(vec![])), None);
}

#[test]
fn tokens_are_given_up_a_minute_early() {
    let now = at(1_000, 500);
    assert_eq!(refreshed_expiration(Some(at(5_000, 0)), &now), at(4_940, 0));
    assert_eq!(refreshed_expiration(None, &now), at(4_540, 500));
    assert_eq!(
        refreshed_expiration(Some(at(i64::MIN + 10, 0)), &now),
        at(i64::MIN + 10, 0)
    );
}

#[test]
fn a_cached_token_needs_no_login() {
    match keystroke::api::typing::auth::begin_refresh(Some("abc".to_string()), "teach", 1) {
        Ok(keystroke::api::typing::auth::TokenStep::Cached(t)) => assert_eq!(t, "abc"),
        other => panic!("unexpected {other:?}"),
    }
}

#[test]
fn expiry_from_readable_claims() {
    let now = at(1_000, 0);
    let claims = obj(vec![("exp", Json::Number(JsonNumber::PosInt(5_000)))]);
    assert_eq!(keystroke::api::typing::auth::expiration_for(Some(&claims), &now), at(4_940, 0));
    assert_eq!(keystroke::api::typing::auth::expiration_for(None, &now), at(4_540, 0));
    let odd = obj(vec![("exp", Json::Str("5000".to_string()))]);
    assert_eq!(keystroke::api::typing::auth::expiration_for(Some(&odd), &now), at(4_540, 0));
}

#[test]
fn an_empty_token_is_fetched_again() {
    let mut token = Token::new();
    // a login that answered an empty token, kept with the fallback expiry
    assert_eq!(token.store(&at(1_000, 0), String::new(), at(4_540, 0)), "");
    assert_eq!(token.cached(&at(2_000, 0)), None);
    // the next fetch replaces it although its expiry lies ahead
    assert_eq!(token.store(&at(2_000, 0), "real".to_string(), at(9_000, 0)), "real");
    assert_eq!(token.cached(&at(2_001, 0)).as_deref(), Some("real"));
    // before the epoch the new token is not served either
    assert_eq!(Token::new().cached(&at(-10, 0)), None);
}

#[test]
fn a_failed_keyring_read_is_reported() {
    match login_step(Err(SecretError::EntryCreate(keyring_core::Error::NoDefaultStore)), 7) {
        Err(AuthError::Secret(SecretError::EntryCreate(keyring_core::Error::NoDefaultStore))) => {}
        other => panic!("unexpected {other:?}"),
    }
    match login_step(Ok("pw".to_string()), 7) {
        Ok(TokenStep::Login(body)) => {
            assert_eq!(body, login_body(7, "pw".to_string()))
        }
        other => panic!("unexpected {other:?}"),
    }
}
