//! A JSON document model: the values that the typing.com API sends and
//! receives, with the navigation that the API code performs on them.
//!
//! Objects keep their members in a vector; a document decoded from text
//! has distinct member names, and a member is looked up by its first
//! occurrence.  Numbers keep what the API code reads of them: a
//! non-negative integer, a negative integer, or any other number as its
//! decimal text.
use vstd::prelude::*;

use crate::numbers::{index_token, parse_array_index};
use crate::text::{
    find_char, first_from, lemma_first_in_rest, lemma_first_unique, replace_pair, replace_pair_in,
    split_on,
};

verus! {

/// A JSON number.
#[derive(Debug, PartialEq)]
pub enum JsonNumber {
    /// An integer in `0..=u64::MAX`.
    PosInt(u64),
    /// A negative integer in `i64::MIN..0`.
    NegInt(i64),
    /// Any other number, held as its decimal text.
    Real(String),
}

/// A JSON value.
#[derive(Debug, PartialEq)]
pub enum Json {
    Null,
    Bool(bool),
    Number(JsonNumber),
    Str(String),
    Array(Vec<Json>),
    Object(Vec<(String, Json)>),
}

/// The mathematical view of a [`JsonNumber`].
pub enum NumberView {
    PosInt(u64),
    NegInt(i64),
    Real(Seq<char>),
}

/// The mathematical view of a [`Json`] value.
#[verifier::ext_equal]
pub enum JsonView {
    Null,
    Bool(bool),
    Number(NumberView),
    Str(Seq<char>),
    Array(Seq<JsonView>),
    Object(Seq<(Seq<char>, JsonView)>),
}

impl View for JsonNumber {
    type V = NumberView;

    open spec fn view(&self) -> NumberView {
        match self {
            JsonNumber::PosInt(n) => NumberView::PosInt(*n),
            JsonNumber::NegInt(n) => NumberView::NegInt(*n),
            JsonNumber::Real(text) => NumberView::Real(text@),
        }
    }
}

impl View for Json {
    type V = JsonView;

    open spec fn view(&self) -> JsonView
        decreases self,
    {
        match self {
            Json::Null => JsonView::Null,
            Json::Bool(b) => JsonView::Bool(*b),
            Json::Number(n) => JsonView::Number(n@),
            Json::Str(s) => JsonView::Str(s@),
            Json::Array(items) => JsonView::Array(
                Seq::new(
                    items@.len(),
                    |i: int|
                        if 0 <= i < items@.len() {
                            items@[i].view()
                        } else {
                            JsonView::Null
                        },
                ),
            ),
            Json::Object(members) => JsonView::Object(
                Seq::new(
                    members@.len(),
                    |i: int|
                        if 0 <= i < members@.len() {
                            (members@[i].0@, members@[i].1.view())
                        } else {
                            (Seq::empty(), JsonView::Null)
                        },
                ),
            ),
        }
    }
}

/// The value of the first member named `key`, if any.
pub open spec fn member(members: Seq<(Seq<char>, JsonView)>, key: Seq<char>) -> Option<JsonView>
    decreases members.len(),
{
    if members.len() == 0 {
        None
    } else if members[0].0 == key {
        Some(members[0].1)
    } else {
        member(members.drop_first(), key)
    }
}

/// `Value::get` with a string index: the member `key` of an object, and
/// nothing for any other value.
pub open spec fn get(v: JsonView, key: Seq<char>) -> Option<JsonView> {
    match v {
        JsonView::Object(members) => member(members, key),
        _ => None,
    }
}

/// One step of a JSON pointer: an object is entered by the member named
/// `token`, an array by the element whose index `token` spells.
pub open spec fn step(v: JsonView, token: Seq<char>) -> Option<JsonView> {
    match v {
        JsonView::Object(members) => member(members, token),
        JsonView::Array(items) => match index_token(token) {
            Some(i) => if i < items.len() {
                Some(items[i as int])
            } else {
                None
            },
            None => None,
        },
        _ => None,
    }
}

/// A reference token of a JSON pointer as written, unescaped: `~1` reads
/// as `/`, then `~0` as `~`.
pub open spec fn unescape_token(t: Seq<char>) -> Seq<char> {
    replace_pair(replace_pair(t, '~', '1', "/"@), '~', '0', "~"@)
}

/// The value that the reference tokens `tokens` (as written, escaped) lead
/// to from `v`, one [`step`] each.
pub open spec fn pointer(v: JsonView, tokens: Seq<Seq<char>>) -> Option<JsonView>
    decreases tokens.len(),
{
    if tokens.len() == 0 {
        Some(v)
    } else {
        match step(v, unescape_token(tokens[0])) {
            Some(w) => pointer(w, tokens.drop_first()),
            None => None,
        }
    }
}

/// The value that the JSON pointer `p` designates in `v` (`Value::pointer`):
/// `v` itself for the empty pointer; nothing unless `p` starts with `/`;
/// otherwise the value that the `/`-separated tokens after it lead to.
pub open spec fn pointer_text(v: JsonView, p: Seq<char>) -> Option<JsonView> {
    if p.len() == 0 {
        Some(v)
    } else if p[0] != '/' {
        None
    } else {
        pointer(v, split_on(p.drop_first(), '/'))
    }
}

pub open spec fn as_u64(v: JsonView) -> Option<u64> {
    match v {
        JsonView::Number(NumberView::PosInt(n)) => Some(n),
        _ => None,
    }
}

pub open spec fn as_str(v: JsonView) -> Option<Seq<char>> {
    match v {
        JsonView::Str(s) => Some(s),
        _ => None,
    }
}

pub open spec fn as_array(v: JsonView) -> Option<Seq<JsonView>> {
    match v {
        JsonView::Array(items) => Some(items),
        _ => None,
    }
}

/// The number at the end of a pointer, when it is an integer in `u64`.
pub open spec fn pointer_u64(v: JsonView, p: Seq<char>) -> Option<u64> {
    match pointer_text(v, p) {
        Some(w) => as_u64(w),
        None => None,
    }
}

/// The string at the end of a pointer.
pub open spec fn pointer_str(v: JsonView, p: Seq<char>) -> Option<Seq<char>> {
    match pointer_text(v, p) {
        Some(w) => as_str(w),
        None => None,
    }
}

/// The array at the end of a pointer.
pub open spec fn pointer_array(v: JsonView, p: Seq<char>) -> Option<Seq<JsonView>> {
    match pointer_text(v, p) {
        Some(w) => as_array(w),
        None => None,
    }
}

/// The member `key` of an object, when it is an integer in `u64`.
pub open spec fn get_u64(v: JsonView, key: Seq<char>) -> Option<u64> {
    match get(v, key) {
        Some(w) => as_u64(w),
        None => None,
    }
}

/// The member `key` of an object, when it is a string.
pub open spec fn get_str(v: JsonView, key: Seq<char>) -> Option<Seq<char>> {
    match get(v, key) {
        Some(w) => as_str(w),
        None => None,
    }
}

/// Following `a + b` is following `a`, then `b` from where `a` led.
pub proof fn lemma_pointer_concat(v: JsonView, a: Seq<Seq<char>>, b: Seq<Seq<char>>)
    ensures
        pointer(v, a + b) == match pointer(v, a) {
            Some(w) => pointer(w, b),
            None => None,
        },
    decreases a.len(),
{
    if a.len() > 0 {
        assert((a + b).drop_first() =~= a.drop_first() + b);
        assert((a + b)[0] == a[0]);
        match step(v, unescape_token(a[0])) {
            Some(w) => lemma_pointer_concat(w, a.drop_first(), b),
            None => {},
        }
    } else {
        assert(a + b =~= b);
    }
}

/// Following the pointer `a` and then, from where it led, the pointer `b`
/// is following the pointer `a + b`.
pub proof fn lemma_pointer_text_concat(v: JsonView, a: Seq<char>, b: Seq<char>)
    requires
        a.len() > 0 && a[0] == '/',
        b.len() > 0 && b[0] == '/',
    ensures
        pointer_text(v, a + b) == match pointer_text(v, a) {
            Some(w) => pointer_text(w, b),
            None => None,
        },
{
    let ab = a + b;
    assert(ab.drop_first() =~= a.drop_first() + seq!['/'] + b.drop_first());
    crate::text::lemma_split_concat(a.drop_first(), '/', b.drop_first());
    lemma_pointer_concat(v, split_on(a.drop_first(), '/'), split_on(b.drop_first(), '/'));
}

impl JsonNumber {
    pub fn duplicate(&self) -> (r: JsonNumber)
        ensures
            r@ == self@,
    {
        match self {
            JsonNumber::PosInt(n) => JsonNumber::PosInt(*n),
            JsonNumber::NegInt(n) => JsonNumber::NegInt(*n),
            JsonNumber::Real(text) => JsonNumber::Real(text.clone()),
        }
    }
}

/// How an integer is written as a JSON number.
pub open spec fn int_number(n: int) -> NumberView {
    if n >= 0 {
        NumberView::PosInt(n as u64)
    } else {
        NumberView::NegInt(n as i64)
    }
}

impl JsonNumber {
    /// The JSON number for `n`.
    pub fn from_i64(n: i64) -> (r: JsonNumber)
        ensures
            r@ == int_number(n as int),
    {
        if n >= 0 {
            JsonNumber::PosInt(n as u64)
        } else {
            JsonNumber::NegInt(n)
        }
    }
}

impl Json {
    /// A deep copy.
    #[verifier::loop_isolation(false)]
    pub fn duplicate(&self) -> (r: Json)
        ensures
            r@ == self@,
        decreases self,
    {
        proof {
            reveal_with_fuel(<Json as View>::view, 2);
        }
        match self {
            Json::Null => Json::Null,
            Json::Bool(b) => Json::Bool(*b),
            Json::Number(n) => Json::Number(n.duplicate()),
            Json::Str(s) => Json::Str(s.clone()),
            Json::Array(items) => {
                let mut out: Vec<Json> = Vec::new();
                let mut i: usize = 0;
                while i < items.len()
                    invariant
                        i <= items@.len(),
                        out@.len() == i,
                        forall|j: int| 0 <= j < i ==> #[trigger] out@[j]@ == items@[j]@,
                    decreases items@.len() - i,
                {
                    proof {
                        assert(decreases_to!(self => items@[i as int]));
                    }
                    let d = items[i].duplicate();
                    out.push(d);
                    i = i + 1;
                }
                let ghost outv = out@;
                let r = Json::Array(out);
                assert(forall|j: int| 0 <= j < outv.len() ==> r@->Array_0[j] == outv[j]@);
                assert(r@->Array_0 =~= self@->Array_0);
                r
            },
            Json::Object(members) => {
                let mut out: Vec<(String, Json)> = Vec::new();
                let mut i: usize = 0;
                while i < members.len()
                    invariant
                        i <= members@.len(),
                        out@.len() == i,
                        forall|j: int|
                            #![trigger out@[j]]
                            0 <= j < i ==> out@[j].0@ == members@[j].0@ && out@[j].1@
                                == members@[j].1@,
                    decreases members@.len() - i,
                {
                    proof {
                        assert(decreases_to!(self => members@[i as int].1));
                    }
                    let k = members[i].0.clone();
                    let d = members[i].1.duplicate();
                    out.push((k, d));
                    i = i + 1;
                }
                let r = Json::Object(out);
                assert(r@->Object_0 =~= self@->Object_0);
                r
            },
        }
    }

    /// The member `key` of an object; nothing for any other value.
    pub fn get(&self, key: &str) -> (r: Option<&Json>)
        ensures
            match r {
                Some(x) => get(self@, key@) == Some(x@),
                None => get(self@, key@) is None,
            },
    {
        proof {
            reveal_with_fuel(<Json as View>::view, 2);
        }
        match self {
            Json::Object(members) => {
                let ghost mv = self@->Object_0;
                let wanted = key.to_owned();
                let mut i: usize = 0;
                assert(mv.skip(0) =~= mv);
                while i < members.len()
                    invariant
                        i <= members@.len(),
                        mv.len() == members@.len(),
                        forall|j: int| #![trigger mv[j]] 0 <= j < mv.len() ==> mv[j] == (members@[j].0@, members@[j].1@),
                        wanted@ == key@,
                        get(self@, key@) == member(mv, key@),
                        member(mv, key@) == member(mv.skip(i as int), key@),
                    decreases members@.len() - i,
                {
                    assert(mv[i as int] == (members@[i as int].0@, members@[i as int].1@));
                    if members[i].0 == wanted {
                        assert(mv.skip(i as int)[0] == mv[i as int]);
                        return Some(&members[i].1);
                    }
                    assert(mv.skip(i as int).drop_first() =~= mv.skip(i + 1));
                    i = i + 1;
                }
                None
            },
            _ => None,
        }
    }

    /// One JSON pointer step (see [`step`]).
    pub fn step(&self, token: &str) -> (r: Option<&Json>)
        ensures
            match r {
                Some(x) => step(self@, token@) == Some(x@),
                None => step(self@, token@) is None,
            },
    {
        proof {
            reveal_with_fuel(<Json as View>::view, 2);
        }
        match self {
            Json::Object(_) => self.get(token),
            Json::Array(items) => match parse_array_index(token) {
                Some(i) => if i < items.len() {
                    Some(&items[i])
                } else {
                    None
                },
                None => None,
            },
            _ => None,
        }
    }

    /// The value that the JSON pointer `pointer` designates (see
    /// [`pointer_text`]).
    pub fn pointer(&self, pointer: &str) -> (r: Option<&Json>)
        ensures
            match r {
                Some(x) => pointer_text(self@, pointer@) == Some(x@),
                None => pointer_text(self@, pointer@) is None,
            },
    {
        let len = pointer.unicode_len();
        if len == 0 {
            return Some(self);
        }
        if pointer.get_char(0) != '/' {
            return None;
        }
        let ghost p = pointer@;
        let mut cur: &Json = self;
        let mut start: usize = 1;
        assert(p.drop_first() =~= p.skip(1));
        loop
            invariant
                1 <= start <= len,
                len == p.len(),
                p == pointer@,
                p[0] == '/',
                pointer_text(self@, p) == crate::json::pointer(cur@, split_on(p.skip(start as int), '/')),
            decreases len - start,
        {
            let end = find_char(pointer, len, start, '/');
            let ghost rest = p.skip(start as int);
            let ghost piece = p.subrange(start as int, end as int);
            proof {
                if end < len {
                    lemma_first_in_rest(p, '/', start as int, end as int);
                    let d = choose|d: int| first_from(rest, '/', 0, d);
                    lemma_first_unique(rest, '/', 0, d, end - start);
                    assert(rest.take(end - start) =~= piece);
                    assert(rest.skip(end - start + 1) =~= p.skip(end + 1));
                    assert(split_on(rest, '/') == seq![piece] + split_on(p.skip(end + 1), '/'));
                    assert((seq![piece] + split_on(p.skip(end + 1), '/')).drop_first() =~= split_on(p.skip(end + 1), '/'));
                } else {
                    assert forall|d: int| !first_from(rest, '/', 0, d) by {
                        lemma_first_in_rest(p, '/', start as int, d + start);
                    }
                    assert(rest =~= piece);
                    assert(split_on(rest, '/') == seq![piece]);
                    assert(seq![piece].drop_first() =~= Seq::<Seq<char>>::empty());
                }
            }
            let raw = pointer.substring_char(start, end);
            let once = replace_pair_in(raw, '~', '1', "/");
            let token = replace_pair_in(once.as_str(), '~', '0', "~");
            assert(token@ == unescape_token(piece));
            match cur.step(token.as_str()) {
                Some(next) => {
                    cur = next;
                },
                None => {
                    return None;
                },
            }
            if end == len {
                assert(crate::json::pointer(cur@, Seq::<Seq<char>>::empty()) == Some(cur@));
                return Some(cur);
            }
            start = end + 1;
        }
    }

    pub fn as_u64(&self) -> (r: Option<u64>)
        ensures
            r == as_u64(self@),
    {
        match self {
            Json::Number(JsonNumber::PosInt(n)) => Some(*n),
            _ => None,
        }
    }

    pub fn as_str(&self) -> (r: Option<&String>)
        ensures
            match r {
                Some(s) => as_str(self@) == Some(s@),
                None => as_str(self@) is None,
            },
    {
        match self {
            Json::Str(s) => Some(s),
            _ => None,
        }
    }

    pub fn as_array(&self) -> (r: Option<&Vec<Json>>)
        ensures
            match r {
                Some(items) => as_array(self@) matches Some(vs) && vs.len() == items@.len()
                    && forall|i: int| 0 <= i < vs.len() ==> #[trigger] vs[i] == items@[i]@,
                None => as_array(self@) is None,
            },
    {
        proof {
            reveal_with_fuel(<Json as View>::view, 2);
        }
        match self {
            Json::Array(items) => Some(items),
            _ => None,
        }
    }
}

} // verus!

