//! The typing.com teacher API: what the app sends, and what it makes of
//! the answers.
use vstd::prelude::*;

use std::time::Duration;

use crate::json::{
    get_str, get_u64, pointer_array, pointer_u64, Json, JsonNumber, JsonView,
    NumberView,
};
use crate::numbers::{decimal, parse_u64, u64_to_decimal, unsigned_literal};
use crate::settings::Settings;

pub mod auth;

use auth::AuthError;

verus! {

/// `reqwest::Error`, carried opaque.
#[verifier::external_type_specification]
#[verifier::external_body]
pub struct ExRequestError(reqwest::Error);

pub type TeacherId = u64;

pub type ClassId = u64;

/// Why a call to the typing.com API failed.
#[derive(Debug)]
pub enum TypingError {
    /// The request could not be sent, or its answer read.
    Request(reqwest::Error),
    /// No bearer token could be had.
    Auth(AuthError),
    /// A number in the answer could not be read.
    ParseInt(std::num::ParseIntError),
    /// The answer lacks the member `field`; `json` is the whole answer.
    MissingJsonField { field: String, json: Json },
    /// The settings name no typing.com user.
    UsernameNotSet,
    /// The settings name no class.
    SelectedClassNotSet,
}

/// The header by which the API tells its sites apart, and the value that
/// names typing.com.
pub const APP_SITE_HEADER: &'static str = "X-App-Site";

pub const APP_SITE: &'static str = "typing";

/// Where a teacher's id is looked up by user name.
pub const TEACHER_FIND_URL: &'static str = "https://api.typing.com/teachers/auth/find";

/// Where reports are run.
pub const REPORT_URL: &'static str = "https://www.typing.com/apiv1/teacher/reports/run";

/// The span of an activity report, in seconds: the last hour.
pub const ACTIVITY_WINDOW_SECS: i64 = 3600;

/// A typing.com teacher.
#[derive(Debug)]
pub struct Teacher {
    id: TeacherId,
    username: String,
}

/// A class of a typing.com teacher.
#[derive(Debug, PartialEq, Eq)]
pub struct TypingClass {
    id: ClassId,
    name: String,
}

/// A student of a class, and the time the student spent typing, when the
/// answer reports it.
#[derive(Debug, PartialEq, Eq)]
pub struct Student {
    first_name: String,
    last_name: String,
    time: Option<Duration>,
}

pub struct TypingClassView {
    pub id: ClassId,
    pub name: Seq<char>,
}

pub struct StudentView {
    pub first_name: Seq<char>,
    pub last_name: Seq<char>,
    pub time: Option<Duration>,
}

impl View for TypingClass {
    type V = TypingClassView;

    closed spec fn view(&self) -> TypingClassView {
        TypingClassView { id: self.id, name: self.name@ }
    }
}

impl View for Student {
    type V = StudentView;

    closed spec fn view(&self) -> StudentView {
        StudentView { first_name: self.first_name@, last_name: self.last_name@, time: self.time }
    }
}

impl Clone for TypingClass {
    fn clone(&self) -> (r: TypingClass)
        ensures
            r@ == self@,
    {
        TypingClass { id: self.id, name: self.name.clone() }
    }
}

impl Clone for Student {
    fn clone(&self) -> (r: Student)
        ensures
            r@ == self@,
    {
        Student {
            first_name: self.first_name.clone(),
            last_name: self.last_name.clone(),
            time: self.time,
        }
    }
}

impl TypingClass {
    pub fn new(id: ClassId, name: String) -> (r: TypingClass)
        ensures
            r@ == (TypingClassView { id, name: name@ }),
    {
        TypingClass { id, name }
    }

    pub fn id(&self) -> (r: ClassId)
        ensures
            r == self@.id,
    {
        self.id
    }

    pub fn name(&self) -> (r: &String)
        ensures
            r@ == self@.name,
    {
        &self.name
    }
}

impl Student {
    pub fn first_name(&self) -> (r: &String)
        ensures
            r@ == self@.first_name,
    {
        &self.first_name
    }

    pub fn last_name(&self) -> (r: &String)
        ensures
            r@ == self@.last_name,
    {
        &self.last_name
    }

    pub fn time(&self) -> (r: Option<Duration>)
        ensures
            r == self@.time,
    {
        self.time
    }
}

/// What the app knows of the teacher it works for and of the class it
/// watches.
#[derive(Debug)]
pub struct SessionState {
    teacher: Teacher,
    class: TypingClass,
}

pub struct SessionStateView {
    pub teacher_id: TeacherId,
    pub username: Seq<char>,
    pub class: TypingClassView,
}

impl View for SessionState {
    type V = SessionStateView;

    closed spec fn view(&self) -> SessionStateView {
        SessionStateView {
            teacher_id: self.teacher.id,
            username: self.teacher.username@,
            class: self.class@,
        }
    }
}

impl SessionState {
    pub fn new(teacher_id: TeacherId, username: String, class: TypingClass) -> (r: SessionState)
        ensures
            r@.teacher_id == teacher_id,
            r@.username == username@,
            r@.class == class@,
    {
        SessionState { teacher: Teacher { id: teacher_id, username }, class }
    }

    pub fn teacher_id(&self) -> (r: TeacherId)
        ensures
            r == self@.teacher_id,
    {
        self.teacher.id
    }

    pub fn username(&self) -> (r: &String)
        ensures
            r@ == self@.username,
    {
        &self.teacher.username
    }

    pub fn class_id(&self) -> (r: ClassId)
        ensures
            r == self@.class.id,
    {
        self.class.id
    }
}

/// The user name and the class that a session needs, taken from the
/// settings: the user name is checked first.
pub fn login_credentials(settings: &Settings) -> (r: Result<(String, TypingClass), TypingError>)
    ensures
        match (settings@.typing_username, settings@.typing_class) {
            (None, _) => r matches Err(TypingError::UsernameNotSet),
            (Some(_), None) => r matches Err(TypingError::SelectedClassNotSet),
            (Some(u), Some(c)) => r matches Ok((user, class)) && user@ == u && class@ == c,
        },
{
    let username = match settings.typing_username() {
        Some(u) => u.clone(),
        None => {
            return Err(TypingError::UsernameNotSet);
        },
    };
    let class = match settings.typing_class() {
        Some(c) => c.clone(),
        None => {
            return Err(TypingError::SelectedClassNotSet);
        },
    };
    Ok((username, class))
}

/// The body of the request that looks a teacher up: `{"username": ..}`.
pub fn find_teacher_body(username: &str) -> (body: Json)
    ensures
        body@ == JsonView::Object(seq![("username"@, JsonView::Str(username@))]),
{
    let body = Json::Object(vec![("username".to_owned(), Json::Str(username.to_owned()))]);
    proof {
        reveal_with_fuel(<Json as View>::view, 2);
        assert(body@->Object_0 =~= seq![("username"@, JsonView::Str(username@))]);
    }
    body
}

/// The teacher's id in the answer to the lookup: `/users/0/teacher_id`.
pub fn teacher_id_from_response(response: Json) -> (r: Result<TeacherId, TypingError>)
    ensures
        match pointer_u64(response@, "/users/0/teacher_id"@) {
            Some(id) => r == Ok::<TeacherId, TypingError>(id),
            None => r matches Err(TypingError::MissingJsonField { field, json }) && field@
                == "teacher_id"@ && json@ == response@,
        },
{
    let id = match response.pointer("/users/0/teacher_id") {
        Some(v) => v.as_u64(),
        None => None,
    };
    match id {
        Some(id) => Ok(id),
        None => Err(TypingError::MissingJsonField { field: "teacher_id".to_owned(), json: response }),
    }
}

} // verus!

verus! {

/// `std::time::Duration::from_secs`, named: the duration of `secs` seconds.
pub uninterp spec fn duration_from_secs(secs: u64) -> Duration;

/// `std::time::Duration::from_secs`.
#[verifier::external_body]
fn secs_to_duration(secs: u64) -> (r: Duration)
    ensures
        r == duration_from_secs(secs),
{
    Duration::from_secs(secs)
}

/// Where a teacher's classes are listed.
pub fn classes_url(teacher_id: TeacherId) -> (url: String)
    ensures
        url@ == "https://api.typing.com/teachers/teachers/"@ + decimal(teacher_id as nat)
            + "/classes"@,
{
    let mut url = "https://api.typing.com/teachers/teachers/".to_owned();
    url.append(u64_to_decimal(teacher_id).as_str());
    url.append("/classes");
    url
}

/// Where a class and its students are listed.
pub fn students_url(class_id: ClassId) -> (url: String)
    ensures
        url@ == "https://api.typing.com/teachers/sections/"@ + decimal(class_id as nat)
            + "?include=users"@,
{
    let mut url = "https://api.typing.com/teachers/sections/".to_owned();
    url.append(u64_to_decimal(class_id).as_str());
    url.append("?include=users");
    url
}

/// The error that reports the member `field` missing from `response`.
pub open spec fn is_missing<T>(r: Result<T, TypingError>, field: Seq<char>, response: JsonView) -> bool {
    r matches Err(TypingError::MissingJsonField { field: f, json }) && f@ == field && json@ == response
}

/// What an element of the class list makes: a class from its `id` and
/// `name`, or the first of them that is missing.
pub open spec fn class_entry(item: JsonView, response: JsonView, r: Result<TypingClass, TypingError>) -> bool {
    match (get_u64(item, "id"@), get_str(item, "name"@)) {
        (None, _) => is_missing(r, "id"@, response),
        (Some(_), None) => is_missing(r, "name"@, response),
        (Some(id), Some(name)) => r matches Ok(c) && c@ == (TypingClassView { id, name }),
    }
}

/// What an element of the student list makes: a student from its
/// `first_name` and `last_name`, or the first of them that is missing.
pub open spec fn student_entry(item: JsonView, response: JsonView, r: Result<Student, TypingError>) -> bool {
    match (get_str(item, "first_name"@), get_str(item, "last_name"@)) {
        (None, _) => is_missing(r, "first_name"@, response),
        (Some(_), None) => is_missing(r, "last_name"@, response),
        (Some(first), Some(last)) => r matches Ok(s) && s@ == (StudentView {
            first_name: first,
            last_name: last,
            time: None,
        }),
    }
}

/// What an element of the activity report makes: a student from its
/// `first_name`, `last_name` and `time` (seconds, in decimal text), or the
/// first of them that is missing, or the error of reading the time.
pub open spec fn activity_entry(item: JsonView, response: JsonView, r: Result<Student, TypingError>) -> bool {
    match (get_str(item, "first_name"@), get_str(item, "last_name"@), get_str(item, "time"@)) {
        (None, _, _) => is_missing(r, "first_name"@, response),
        (Some(_), None, _) => is_missing(r, "last_name"@, response),
        (Some(_), Some(_), None) => is_missing(r, "time"@, response),
        (Some(first), Some(last), Some(time)) => match unsigned_literal(time) {
            Some(n) => if n <= u64::MAX {
                r matches Ok(s) && s@ == (StudentView {
                    first_name: first,
                    last_name: last,
                    time: Some(duration_from_secs(n as u64)),
                })
            } else {
                r matches Err(TypingError::ParseInt(_))
            },
            None => r matches Err(TypingError::ParseInt(_)),
        },
    }
}

/// An element of the activity report gives the student whose first name,
/// last name and time are that element's own `first_name`, `last_name` and
/// `time` members, the time being the number of seconds its text spells;
/// the first of these members that is missing (or not a string) is the one
/// the error names, and a time that does not spell a `u64` is a parse error.
pub proof fn lemma_activity_entry_reads_its_members(
    item: JsonView,
    response: JsonView,
    r: Result<Student, TypingError>,
)
    requires
        activity_entry(item, response, r),
    ensures
        r matches Ok(s) ==> get_str(item, "first_name"@) == Some(s@.first_name) && get_str(
            item,
            "last_name"@,
        ) == Some(s@.last_name),
        r matches Ok(s) ==> get_str(item, "time"@) is Some && unsigned_literal(
            get_str(item, "time"@)->Some_0,
        ) is Some && unsigned_literal(get_str(item, "time"@)->Some_0)->Some_0 <= u64::MAX
            && s@.time == Some(
            duration_from_secs(unsigned_literal(get_str(item, "time"@)->Some_0)->Some_0 as u64),
        ),
        get_str(item, "first_name"@) is None ==> (r matches Err(
            TypingError::MissingJsonField { field, json },
        ) && field@ == "first_name"@ && json@ == response),
        get_str(item, "first_name"@) is Some && get_str(item, "last_name"@) is None ==> (r matches Err(
            TypingError::MissingJsonField { field, json },
        ) && field@ == "last_name"@ && json@ == response),
        get_str(item, "first_name"@) is Some && get_str(item, "last_name"@) is Some && get_str(
            item,
            "time"@,
        ) is None ==> (r matches Err(TypingError::MissingJsonField { field, json }) && field@
            == "time"@ && json@ == response),
        ({
            let time = get_str(item, "time"@);
            let secs = unsigned_literal(time->Some_0);
            get_str(item, "first_name"@) is Some && get_str(item, "last_name"@) is Some
                && time is Some ==> if secs is Some && secs->Some_0 <= u64::MAX {
                r is Ok
            } else {
                r matches Err(TypingError::ParseInt(_))
            }
        }),
{
}

/// An element of the student list gives the student whose first and last
/// names are that element's own `first_name` and `last_name` members, with
/// no time; the first of these members that is missing (or not a string) is
/// the one the error names.
pub proof fn lemma_student_entry_reads_its_members(
    item: JsonView,
    response: JsonView,
    r: Result<Student, TypingError>,
)
    requires
        student_entry(item, response, r),
    ensures
        r matches Ok(s) ==> get_str(item, "first_name"@) == Some(s@.first_name) && get_str(
            item,
            "last_name"@,
        ) == Some(s@.last_name) && s@.time is None,
        get_str(item, "first_name"@) is None ==> (r matches Err(
            TypingError::MissingJsonField { field, json },
        ) && field@ == "first_name"@ && json@ == response),
        get_str(item, "first_name"@) is Some && get_str(item, "last_name"@) is None ==> (r matches Err(
            TypingError::MissingJsonField { field, json },
        ) && field@ == "last_name"@ && json@ == response),
        get_str(item, "first_name"@) is Some && get_str(item, "last_name"@) is Some ==> r is Ok,
{
}

/// An element of the class list gives the class whose id and name are that
/// element's own `id` and `name` members; the first of these that is missing
/// (or of the wrong kind) is the one the error names.
pub proof fn lemma_class_entry_reads_its_members(
    item: JsonView,
    response: JsonView,
    r: Result<TypingClass, TypingError>,
)
    requires
        class_entry(item, response, r),
    ensures
        r matches Ok(c) ==> get_u64(item, "id"@) == Some(c@.id) && get_str(item, "name"@) == Some(
            c@.name,
        ),
        get_u64(item, "id"@) is None ==> (r matches Err(TypingError::MissingJsonField { field, json })
            && field@ == "id"@ && json@ == response),
        get_u64(item, "id"@) is Some && get_str(item, "name"@) is None ==> (r matches Err(
            TypingError::MissingJsonField { field, json },
        ) && field@ == "name"@ && json@ == response),
        get_u64(item, "id"@) is Some && get_str(item, "name"@) is Some ==> r is Ok,
{
}

fn missing_field(field: &str, response: &Json) -> (e: TypingError)
    ensures
        e matches TypingError::MissingJsonField { field: f, json } && f@ == field@ && json@
            == response@,
{
    TypingError::MissingJsonField { field: field.to_owned(), json: response.duplicate() }
}

fn member_u64(item: &Json, key: &str) -> (r: Option<u64>)
    ensures
        r == get_u64(item@, key@),
{
    match item.get(key) {
        Some(v) => v.as_u64(),
        None => None,
    }
}

fn member_string(item: &Json, key: &str) -> (r: Option<String>)
    ensures
        match r {
            Some(s) => get_str(item@, key@) == Some(s@),
            None => get_str(item@, key@) is None,
        },
{
    match item.get(key) {
        Some(v) => match v.as_str() {
            Some(s) => Some(s.clone()),
            None => None,
        },
        None => None,
    }
}

fn class_from_item(item: &Json, response: &Json) -> (r: Result<TypingClass, TypingError>)
    ensures
        class_entry(item@, response@, r),
{
    let id = match member_u64(item, "id") {
        Some(id) => id,
        None => {
            return Err(missing_field("id", response));
        },
    };
    let name = match member_string(item, "name") {
        Some(name) => name,
        None => {
            return Err(missing_field("name", response));
        },
    };
    Ok(TypingClass { id, name })
}

fn student_from_item(item: &Json, response: &Json) -> (r: Result<Student, TypingError>)
    ensures
        student_entry(item@, response@, r),
{
    let first_name = match member_string(item, "first_name") {
        Some(s) => s,
        None => {
            return Err(missing_field("first_name", response));
        },
    };
    let last_name = match member_string(item, "last_name") {
        Some(s) => s,
        None => {
            return Err(missing_field("last_name", response));
        },
    };
    Ok(Student { first_name, last_name, time: None })
}

fn activity_from_item(item: &Json, response: &Json) -> (r: Result<Student, TypingError>)
    ensures
        activity_entry(item@, response@, r),
{
    let first_name = match member_string(item, "first_name") {
        Some(s) => s,
        None => {
            return Err(missing_field("first_name", response));
        },
    };
    let last_name = match member_string(item, "last_name") {
        Some(s) => s,
        None => {
            return Err(missing_field("last_name", response));
        },
    };
    let time = match member_string(item, "time") {
        Some(s) => s,
        None => {
            return Err(missing_field("time", response));
        },
    };
    match parse_u64(time.as_str()) {
        Ok(secs) => Ok(Student { first_name, last_name, time: Some(secs_to_duration(secs)) }),
        Err(e) => Err(TypingError::ParseInt(e)),
    }
}

/// The classes in the answer to a class listing: one result per element
/// of `/data`, in order.
pub fn classes_from_response(response: Json) -> (r: Result<
    Vec<Result<TypingClass, TypingError>>,
    TypingError,
>)
    ensures
        match pointer_array(response@, "/data"@) {
            None => r matches Err(TypingError::MissingJsonField { field, json }) && field@
                == "/data"@ && json@ == response@,
            Some(items) => r matches Ok(list) && list@.len() == items.len() && forall|i: int|
                0 <= i < items.len() ==> class_entry(items[i], response@, #[trigger] list@[i]),
        },
        pointer_array(response@, "/data"@) matches Some(items) ==> (r matches Ok(list) && forall|
            i: int,
        |
            0 <= i < items.len() ==> ((#[trigger] list@[i]) matches Ok(c) ==> get_u64(
                items[i],
                "id"@,
            ) == Some(c@.id) && get_str(items[i], "name"@) == Some(c@.name))),
{
    let items = match response.pointer("/data") {
        Some(v) => v.as_array(),
        None => None,
    };
    match items {
        None => Err(TypingError::MissingJsonField { field: "/data".to_owned(), json: response }),
        Some(items) => {
            let mut list: Vec<Result<TypingClass, TypingError>> = Vec::new();
            let ghost views = pointer_array(response@, "/data"@)->Some_0;
            let mut i: usize = 0;
            while i < items.len()
                invariant
                    i <= items@.len(),
                    views.len() == items@.len(),
                    forall|j: int| 0 <= j < views.len() ==> #[trigger] views[j] == items@[j]@,
                    list@.len() == i,
                    forall|j: int|
                        0 <= j < i ==> class_entry(views[j], response@, #[trigger] list@[j]),
                decreases items@.len() - i,
            {
                list.push(class_from_item(&items[i], &response));
                i = i + 1;
            }
            proof {
                assert forall|j: int| 0 <= j < views.len() implies class_entry(
                    views[j],
                    response@,
                    list@[j],
                ) && (list@[j] matches Ok(c) ==> get_u64(views[j], "id"@) == Some(c@.id) && get_str(
                    views[j],
                    "name"@,
                ) == Some(c@.name)) by {
                    lemma_class_entry_reads_its_members(views[j], response@, list@[j]);
                }
            }
            Ok(list)
        },
    }
}

/// The students in the answer to a class query: one result per element of
/// `/data/students`, in order, with no time.
pub fn students_from_response(response: Json) -> (r: Result<
    Vec<Result<Student, TypingError>>,
    TypingError,
>)
    ensures
        match pointer_array(response@, "/data/students"@) {
            None => r matches Err(TypingError::MissingJsonField { field, json }) && field@
                == "/data/students"@ && json@ == response@,
            Some(items) => r matches Ok(list) && list@.len() == items.len() && forall|i: int|
                0 <= i < items.len() ==> student_entry(items[i], response@, #[trigger] list@[i]),
        },
        pointer_array(response@, "/data/students"@) matches Some(items) ==> (r matches Ok(list)
            && forall|i: int|
            0 <= i < items.len() ==> {
                &&& (#[trigger] list@[i]) matches Ok(s) ==> get_str(items[i], "first_name"@) == Some(
                    s@.first_name,
                ) && get_str(items[i], "last_name"@) == Some(s@.last_name)
                &&& get_str(items[i], "first_name"@) is Some && get_str(items[i], "last_name"@)
                    is None ==> (list@[i] matches Err(TypingError::MissingJsonField { field, json })
                    && field@ == "last_name"@ && json@ == response@)
            }),
{
    let items = match response.pointer("/data/students") {
        Some(v) => v.as_array(),
        None => None,
    };
    match items {
        None => Err(
            TypingError::MissingJsonField { field: "/data/students".to_owned(), json: response },
        ),
        Some(items) => {
            let mut list: Vec<Result<Student, TypingError>> = Vec::new();
            let ghost views = pointer_array(response@, "/data/students"@)->Some_0;
            let mut i: usize = 0;
            while i < items.len()
                invariant
                    i <= items@.len(),
                    views.len() == items@.len(),
                    forall|j: int| 0 <= j < views.len() ==> #[trigger] views[j] == items@[j]@,
                    list@.len() == i,
                    forall|j: int|
                        0 <= j < i ==> student_entry(views[j], response@, #[trigger] list@[j]),
                decreases items@.len() - i,
            {
                list.push(student_from_item(&items[i], &response));
                i = i + 1;
            }
            proof {
                assert forall|j: int| 0 <= j < views.len() implies student_entry(
                    views[j],
                    response@,
                    list@[j],
                ) && ((list@[j] matches Ok(s) ==> get_str(views[j], "first_name"@) == Some(
                    s@.first_name,
                ) && get_str(views[j], "last_name"@) == Some(s@.last_name)) && (get_str(
                    views[j],
                    "first_name"@,
                ) is Some && get_str(views[j], "last_name"@) is None ==> (list@[j] matches Err(
                    TypingError::MissingJsonField { field, json },
                ) && field@ == "last_name"@ && json@ == response@))) by {
                    lemma_student_entry_reads_its_members(views[j], response@, list@[j]);
                }
            }
            Ok(list)
        },
    }
}

/// The body of the request for the activity report of the last hour
/// before `now` (Unix seconds) on class `class_id` of teacher `teacher_id`.
pub fn activity_report_body(class_id: ClassId, teacher_id: TeacherId, now: i64) -> (body: Json)
    requires
        now >= i64::MIN + ACTIVITY_WINDOW_SECS,
    ensures
        body@ == JsonView::Object(
            seq![
                ("end"@, JsonView::Number(crate::json::int_number(now as int))),
                ("report"@, JsonView::Str("activity"@)),
                ("sections"@, JsonView::Array(seq![JsonView::Number(NumberView::PosInt(class_id))])),
                ("start"@, JsonView::Number(crate::json::int_number(now - ACTIVITY_WINDOW_SECS))),
                ("teacher_id"@, JsonView::Number(NumberView::PosInt(teacher_id))),
            ],
        ),
{
    let start = now - ACTIVITY_WINDOW_SECS;
    let sections = Json::Array(vec![Json::Number(JsonNumber::PosInt(class_id))]);
    let body = Json::Object(
        vec![
            ("end".to_owned(), Json::Number(JsonNumber::from_i64(now))),
            ("report".to_owned(), Json::Str("activity".to_owned())),
            ("sections".to_owned(), sections),
            ("start".to_owned(), Json::Number(JsonNumber::from_i64(start))),
            ("teacher_id".to_owned(), Json::Number(JsonNumber::PosInt(teacher_id))),
        ],
    );
    proof {
        reveal_with_fuel(<Json as View>::view, 3);
        assert(body@->Object_0[2].1->Array_0 =~= seq![JsonView::Number(NumberView::PosInt(class_id))]);
        assert(body@->Object_0 =~= seq![
            ("end"@, JsonView::Number(crate::json::int_number(now as int))),
            ("report"@, JsonView::Str("activity"@)),
            ("sections"@, JsonView::Array(seq![JsonView::Number(NumberView::PosInt(class_id))])),
            ("start"@, JsonView::Number(crate::json::int_number(now - ACTIVITY_WINDOW_SECS))),
            ("teacher_id"@, JsonView::Number(NumberView::PosInt(teacher_id))),
        ]);
    }
    body
}

/// The students in an activity report: one result per element of `/data`,
/// in order, each with the time it reports.
pub fn activity_from_response(response: Json) -> (r: Result<
    Vec<Result<Student, TypingError>>,
    TypingError,
>)
    ensures
        match pointer_array(response@, "/data"@) {
            None => r matches Err(TypingError::MissingJsonField { field, json }) && field@
                == "/data"@ && json@ == response@,
            Some(items) => r matches Ok(list) && list@.len() == items.len() && forall|i: int|
                0 <= i < items.len() ==> activity_entry(items[i], response@, #[trigger] list@[i]),
        },
        pointer_array(response@, "/data"@) matches Some(items) ==> (r matches Ok(list) && forall|
            i: int,
        |
            0 <= i < items.len() ==> {
                &&& (#[trigger] list@[i]) matches Ok(s) ==> get_str(items[i], "first_name"@) == Some(
                    s@.first_name,
                ) && get_str(items[i], "last_name"@) == Some(s@.last_name) && s@.time == Some(
                    duration_from_secs(
                        unsigned_literal(get_str(items[i], "time"@)->Some_0)->Some_0 as u64,
                    ),
                )
                &&& get_str(items[i], "first_name"@) is Some && get_str(items[i], "last_name"@)
                    is None ==> (list@[i] matches Err(TypingError::MissingJsonField { field, json })
                    && field@ == "last_name"@ && json@ == response@)
            }),
{
    let items = match response.pointer("/data") {
        Some(v) => v.as_array(),
        None => None,
    };
    match items {
        None => Err(TypingError::MissingJsonField { field: "/data".to_owned(), json: response }),
        Some(items) => {
            let mut list: Vec<Result<Student, TypingError>> = Vec::new();
            let ghost views = pointer_array(response@, "/data"@)->Some_0;
            let mut i: usize = 0;
            while i < items.len()
                invariant
                    i <= items@.len(),
                    views.len() == items@.len(),
                    forall|j: int| 0 <= j < views.len() ==> #[trigger] views[j] == items@[j]@,
                    list@.len() == i,
                    forall|j: int|
                        0 <= j < i ==> activity_entry(views[j], response@, #[trigger] list@[j]),
                decreases items@.len() - i,
            {
                list.push(activity_from_item(&items[i], &response));
                i = i + 1;
            }
            proof {
                assert forall|j: int| 0 <= j < views.len() implies activity_entry(
                    views[j],
                    response@,
                    list@[j],
                ) && ((list@[j] matches Ok(s) ==> get_str(views[j], "first_name"@) == Some(
                    s@.first_name,
                ) && get_str(views[j], "last_name"@) == Some(s@.last_name) && s@.time == Some(
                    duration_from_secs(
                        unsigned_literal(get_str(views[j], "time"@)->Some_0)->Some_0 as u64,
                    ),
                )) && (get_str(
                    views[j],
                    "first_name"@,
                ) is Some && get_str(views[j], "last_name"@) is None ==> (list@[j] matches Err(
                    TypingError::MissingJsonField { field, json },
                ) && field@ == "last_name"@ && json@ == response@))) by {
                    lemma_activity_entry_reads_its_members(views[j], response@, list@[j]);
                }
            }
            Ok(list)
        },
    }
}

} // verus!
