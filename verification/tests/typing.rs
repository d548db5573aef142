use std::path::PathBuf;
use std::time::Duration;

use keystroke::api::typing::{
    activity_from_response, activity_report_body, classes_from_response, classes_url,
    find_teacher_body, login_credentials, students_from_response, students_url,
    teacher_id_from_response, SessionState, TypingClass, TypingError,
};
use keystroke::json::{Json, JsonNumber};
use keystroke::settings::Settings;

fn s(text: &str) -> Json {
    Json::Str(text.to_string())
}

fn n(v: u64) -> Json {
    Json::Number(JsonNumber::PosInt(v))
}

fn obj(members: Vec<(&str, Json)>) -> Json {
    Json::Object(members.into_iter().map(|(k, v)| (k.to_string(), v)).collect())
}

fn missing(err: &TypingError) -> (&str, &Json) {
    match err {
        TypingError::MissingJsonField { field, json } => (field.as_str(), json),
        other => panic!("unexpected {other:?}"),
    }
}

#[test]
fn login_needs_user_then_class() {
    let mut settings = Settings::default();
    assert!(matches!(login_credentials(&settings), Err(TypingError::UsernameNotSet)));
    settings.typing_class = Some(TypingClass::new(9, "Period 1".to_string()));
    assert!(matches!(login_credentials(&settings), Err(TypingError::UsernameNotSet)));
    settings.typing_class = None;
    settings.typing_username = Some("teach".to_string());
    assert!(matches!(login_credentials(&settings), Err(TypingError::SelectedClassNotSet)));
    settings.typing_class = Some(TypingClass::new(9, "Period 1".to_string()));
    let settings = Settings::from_file(Some(settings), PathBuf::from("/tmp/settings.toml"));
    let (user, class) = login_credentials(&settings).unwrap();
    assert_eq!(user, "teach");
    assert_eq!(class, TypingClass::new(9, "Period 1".to_string()));
}

#[test]
fn teacher_lookup() {
    assert_eq!(find_teacher_body("teach"), obj(vec![("username", s("teach"))]));
    let answer = obj(vec![("users", Json::Array(vec![obj(vec![("teacher_id", n(4051))])]))]);
    assert_eq!(teacher_id_from_response(answer).unwrap(), 4051);
    let answer = obj(vec![("users", Json::Array(vec![]))]);
    let err = teacher_id_from_response(answer.duplicate()).unwrap_err();
    assert_eq!(missing(&err), ("teacher_id", &answer));
    let answer = obj(vec![("users", Json::Array(vec![obj(vec![("teacher_id", s("4051"))])]))]);
    let err = teacher_id_from_response(answer.duplicate()).unwrap_err();
    assert_eq!(missing(&err), ("teacher_id", &answer));
}

#[test]
fn session_state() {
    let state = SessionState::new(12, "teach".to_string(), TypingClass::new(34, "C".to_string()));
    assert_eq!(state.teacher_id(), 12);
    assert_eq!(state.username(), "teach");
    assert_eq!(state.class_id(), 34);
}

#[test]
fn urls() {
    assert_eq!(classes_url(4051), "https://api.typing.com/teachers/teachers/4051/classes");
    assert_eq!(
        students_url(77),
        "https://api.typing.com/teachers/sections/77?include=users"
    );
}

#[test]
fn classes_are_read_in_order() {
    let answer = obj(vec![(
        "data",
        Json::Array(vec![
            obj(vec![("id", n(1)), ("name", s("Period 1"))]),
            obj(vec![("name", s("no id"))]),
            obj(vec![("id", n(3))]),
            obj(vec![("id", s("4")), ("name", s("text id"))]),
            obj(vec![("id", n(5)), ("name", s("Period 5")), ("extra", Json::Null)]),
        ]),
    )]);
    let list = classes_from_response(answer.duplicate()).unwrap();
    assert_eq!(list.len(), 5);
    let first = list[0].as_ref().unwrap();
    assert_eq!((first.id(), first.name().as_str()), (1, "Period 1"));
    assert_eq!(missing(list[1].as_ref().unwrap_err()), ("id", &answer));
    assert_eq!(missing(list[2].as_ref().unwrap_err()), ("name", &answer));
    assert_eq!(missing(list[3].as_ref().unwrap_err()), ("id", &answer));
    assert_eq!(list[4].as_ref().unwrap(), &TypingClass::new(5, "Period 5".to_string()));
}

#[test]
fn classes_need_a_data_array() {
    let answer = obj(vec![("data", obj(vec![]))]);
    let err = classes_from_response(answer.duplicate()).unwrap_err();
    assert_eq!(missing(&err), ("/data", &answer));
    let answer = obj(vec![]);
    let err = classes_from_response(answer.duplicate()).unwrap_err();
    assert_eq!(missing(&err), ("/data", &answer));
    assert!(classes_from_response(obj(vec![("data", Json::Array(vec![]))])).unwrap().is_empty());
}

#[test]
fn students_are_read_without_time() {
    let answer = obj(vec![(
        "data",
        obj(vec![(
            "students",
            Json::Array(vec![
                obj(vec![("first_name", s("Ada")), ("last_name", s("Lovelace"))]),
                obj(vec![("last_name", s("Hopper"))]),
                obj(vec![("first_name", s("Grace"))]),
            ]),
        )]),
    )]);
    let list = students_from_response(answer.duplicate()).unwrap();
    assert_eq!(list.len(), 3);
    let ada = list[0].as_ref().unwrap();
    assert_eq!((ada.first_name().as_str(), ada.last_name().as_str(), ada.time()), ("Ada", "Lovelace", None));
    assert_eq!(missing(list[1].as_ref().unwrap_err()), ("first_name", &answer));
    assert_eq!(missing(list[2].as_ref().unwrap_err()), ("last_name", &answer));
    let flat = obj(vec![("data", Json::Array(vec![]))]);
    let err = students_from_response(flat.duplicate()).unwrap_err();
    assert_eq!(missing(&err), ("/data/students", &flat));
}

#[test]
fn activity_report_request() {
    let body = activity_report_body(77, 4051, 1_700_003_600);
    let expected = obj(vec![
        ("end", n(1_700_003_600)),
        ("report", s("activity")),
        ("sections", Json::Array(vec![n(77)])),
        ("start", n(1_700_000_000)),
        ("teacher_id", n(4051)),
    ]);
    assert_eq!(body, expected);
    let early = activity_report_body(1, 2, 100);
    assert_eq!(early.get("start"), Some(&Json::Number(JsonNumber::NegInt(-3500))));
}

#[test]
fn activity_is_read_with_time() {
    let answer = obj(vec![(
        "data",
        Json::Array(vec![
            obj(vec![("first_name", s("Ada")), ("last_name", s("L")), ("time", s("300"))]),
            obj(vec![("first_name", s("Bo")), ("last_name", s("M"))]),
            obj(vec![("first_name", s("Cy")), ("last_name", s("N")), ("time", s("5m"))]),
            obj(vec![("first_name", s("Di")), ("last_name", s("O")), ("time", n(300))]),
            obj(vec![("last_name", s("P")), ("time", s("1"))]),
        ]),
    )]);
    let list = activity_from_response(answer.duplicate()).unwrap();
    assert_eq!(list.len(), 5);
    let ada = list[0].as_ref().unwrap();
    assert_eq!(ada.first_name(), "Ada");
    assert_eq!(ada.time(), Some(Duration::from_secs(300)));
    assert_eq!(missing(list[1].as_ref().unwrap_err()), ("time", &answer));
    assert!(matches!(list[2], Err(TypingError::ParseInt(_))));
    assert_eq!(missing(list[3].as_ref().unwrap_err()), ("time", &answer));
    assert_eq!(missing(list[4].as_ref().unwrap_err()), ("first_name", &answer));
    let err = activity_from_response(obj(vec![("data", s("none"))])).unwrap_err();
    assert_eq!(missing(&err).0, "/data");
}

#[test]
fn urls_spell_ids_in_decimal() {
    assert_eq!(classes_url(0), "https://api.typing.com/teachers/teachers/0/classes");
    assert_eq!(
        classes_url(u64::MAX),
        "https://api.typing.com/teachers/teachers/18446744073709551615/classes"
    );
    assert_eq!(
        students_url(1_000_000),
        "https://api.typing.com/teachers/sections/1000000?include=users"
    );
}
