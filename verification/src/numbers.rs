//! Decimal text of unsigned integers: writing it, reading it (through std's
//! parser where its error is wanted), and the array-index rule of JSON
//! pointers.
use vstd::prelude::*;

verus! {

/// `std::num::ParseIntError`, carried opaque.
#[verifier::external_type_specification]
#[verifier::external_body]
pub struct ExParseIntError(std::num::ParseIntError);

pub open spec fn is_digit(c: char) -> bool {
    '0' <= c && c <= '9'
}

pub open spec fn all_digits(s: Seq<char>) -> bool {
    forall|i: int| 0 <= i < s.len() ==> is_digit(#[trigger] s[i])
}

/// The number that a string of decimal digits spells.
pub open spec fn digits_value(s: Seq<char>) -> nat
    decreases s.len(),
{
    if s.len() == 0 {
        0
    } else {
        digits_value(s.drop_last()) * 10 + (s.last() as nat - '0' as nat) as nat
    }
}

/// The digit character for `d < 10`.
pub open spec fn digit_char(d: nat) -> char {
    ('0' as nat + d) as char
}

/// The decimal text of `n`: no sign, no leading zero.
pub open spec fn decimal(n: nat) -> Seq<char>
    decreases n,
{
    if n < 10 {
        seq![digit_char(n)]
    } else {
        decimal(n / 10).push(digit_char(n % 10))
    }
}

/// std's grammar for an unsigned integer in base 10: an optional `+`
/// followed by one or more ASCII digits.  The value spelled, if the text
/// follows the grammar.
pub open spec fn unsigned_literal(s: Seq<char>) -> Option<nat> {
    let d = if s.len() > 0 && s[0] == '+' {
        s.drop_first()
    } else {
        s
    };
    if d.len() > 0 && all_digits(d) {
        Some(digits_value(d))
    } else {
        None
    }
}

/// The array index that a JSON pointer token designates: decimal digits
/// with no sign and no leading zero, within `usize`.
pub open spec fn index_token(t: Seq<char>) -> Option<nat> {
    if t.len() > 0 && (t[0] == '+' || (t[0] == '0' && t.len() != 1)) {
        None
    } else {
        match unsigned_literal(t) {
            Some(n) => if n <= usize::MAX {
                Some(n)
            } else {
                None
            },
            None => None,
        }
    }
}

/// The text of the digit `d`.
fn digit_text(d: u64) -> (r: &'static str)
    requires
        d < 10,
    ensures
        r@ == seq![digit_char(d as nat)],
{
    let digits = "0123456789";
    proof {
        reveal_strlit("0123456789");
    }
    let i = d as usize;
    let r = digits.substring_char(i, i + 1);
    assert(r@ =~= seq![digit_char(d as nat)]);
    r
}

/// The decimal text of `n`, as `u64`'s `Display` writes it.
pub(crate) fn u64_to_decimal(n: u64) -> (r: String)
    ensures
        r@ == decimal(n as nat),
    decreases n,
{
    if n < 10 {
        digit_text(n).to_owned()
    } else {
        let mut text = u64_to_decimal(n / 10);
        text.append(digit_text(n % 10));
        assert(text@ =~= decimal(n as nat));
        text
    }
}

/// `str::parse::<u64>`: the value when the text is an unsigned literal in
/// range, an error otherwise.
#[verifier::external_body]
pub(crate) fn parse_u64(text: &str) -> (r: Result<u64, std::num::ParseIntError>)
    ensures
        match r {
            Ok(n) => unsigned_literal(text@) == Some(n as nat),
            Err(_) => !(unsigned_literal(text@) matches Some(n) && n <= u64::MAX),
        },
{
    text.parse::<u64>()
}

/// A prefix of a string of digits spells no more than the whole string.
proof fn lemma_digits_value_prefix(s: Seq<char>, i: int)
    requires
        all_digits(s),
        0 <= i <= s.len(),
    ensures
        digits_value(s.subrange(0, i)) <= digits_value(s),
    decreases s.len(),
{
    if i < s.len() {
        let t = s.drop_last();
        assert(all_digits(t));
        lemma_digits_value_prefix(t, i);
        assert(t.subrange(0, i) =~= s.subrange(0, i));
        assert(is_digit(s[s.len() - 1]));
    } else {
        assert(s.subrange(0, i) =~= s);
    }
}

/// The value of `text` when it is one or more decimal digits spelling a
/// number within `usize`; nothing otherwise.
fn digits_to_usize(text: &str) -> (r: Option<usize>)
    ensures
        match r {
            Some(n) => text@.len() > 0 && all_digits(text@) && digits_value(text@) == n,
            None => !(text@.len() > 0 && all_digits(text@) && digits_value(text@) <= usize::MAX),
        },
{
    let len = text.unicode_len();
    if len == 0 {
        return None;
    }
    let mut value: usize = 0;
    let mut i: usize = 0;
    while i < len
        invariant
            len == text@.len(),
            i <= len,
            all_digits(text@.subrange(0, i as int)),
            value == digits_value(text@.subrange(0, i as int)),
        decreases len - i,
    {
        let c = text.get_char(i);
        if !('0' <= c && c <= '9') {
            assert(!is_digit(text@[i as int]));
            return None;
        }
        let ghost next = text@.subrange(0, i + 1);
        assert(next.drop_last() =~= text@.subrange(0, i as int));
        let d: u32 = c as u32 - '0' as u32;
        let stepped = match value.checked_mul(10) {
            Some(m) => m.checked_add(d as usize),
            None => None,
        };
        match stepped {
            Some(v) => {
                value = v;
            },
            None => {
                proof {
                    if all_digits(text@) {
                        lemma_digits_value_prefix(text@, i + 1);
                    }
                }
                return None;
            },
        }
        i = i + 1;
    }
    assert(text@.subrange(0, len as int) =~= text@);
    Some(value)
}

/// The array index that a JSON pointer token designates (see
/// [`index_token`]).
pub fn parse_array_index(token: &str) -> (r: Option<usize>)
    ensures
        match r {
            Some(i) => index_token(token@) == Some(i as nat),
            None => index_token(token@) is None,
        },
{
    let len = token.unicode_len();
    if len > 0 {
        let first = token.get_char(0);
        if first == '+' || (first == '0' && len != 1) {
            return None;
        }
    }
    digits_to_usize(token)
}

} // verus!
