use vstd::prelude::*;
use crate::decimal::{all_digits, digits_val, is_digit};

verus! {

/// A JSON document as plain data. Numbers keep their token text, so decimal
/// values never pass through binary floating point; object members keep the
/// order the parser hands them out in (ascending key order).
pub enum JsonVal {
    Null,
    Bool(bool),
    Num(String),
    Str(String),
    Arr(Vec<JsonVal>),
    Obj(Vec<(String, JsonVal)>),
}

/// The JSON tree a text parses into, or `None` where the text is not valid
/// JSON: the result depends on the text alone.
pub uninterp spec fn json_of(s: Seq<char>) -> Option<JsonVal>;

#[verifier::external_type_specification]
#[verifier::external_body]
pub struct ExValue(serde_json::Value);

/// Relies on serde_json::from_str::<Value>: parsing is deterministic in the
/// text, objects come back keyed in ascending order, and (with exact number
/// tokens kept) the tree converts to the library's own form member for
/// member.
#[verifier::external_body]
pub(crate) fn parse_json(s: &str) -> (r: Option<JsonVal>)
    ensures
        r == json_of(s@),
{
    serde_json::from_str::<serde_json::Value>(s).ok().map(value_to_json)
}

/// Relies on the shape of serde_json::Value: each variant moves to the
/// matching variant of the library's tree, one for one; number tokens keep
/// their text.
#[verifier::external_body]
fn value_to_json(v: serde_json::Value) -> JsonVal {
    match v {
        serde_json::Value::Null => JsonVal::Null,
        serde_json::Value::Bool(b) => JsonVal::Bool(b),
        serde_json::Value::Number(n) => JsonVal::Num(n.as_str().to_string()),
        serde_json::Value::String(t) => JsonVal::Str(t),
        serde_json::Value::Array(items) => JsonVal::Arr(
            items.into_iter().map(value_to_json).collect(),
        ),
        serde_json::Value::Object(members) => JsonVal::Obj(
            members.into_iter().map(|kv| (kv.0, value_to_json(kv.1))).collect(),
        ),
    }
}

/// Relies on String::push: appends exactly one character.
#[verifier::external_body]
pub(crate) fn push_char(out: &mut String, c: char)
    ensures
        final(out)@ == old(out)@ + seq![c],
{
    out.push(c);
}

// ---------------------------------------------------------------------------
// Navigation
// ---------------------------------------------------------------------------

/// The value of the first member with the given key, from position `i` on.
pub open spec fn obj_lookup_from(fields: Seq<(String, JsonVal)>, key: Seq<char>, i: int) -> Option<
    JsonVal,
>
    decreases fields.len() - i,
{
    if i < 0 || i >= fields.len() {
        None
    } else if fields[i].0@ == key {
        Some(fields[i].1)
    } else {
        obj_lookup_from(fields, key, i + 1)
    }
}

/// The value of the first member with the given key.
pub open spec fn obj_lookup(fields: Seq<(String, JsonVal)>, key: Seq<char>) -> Option<JsonVal> {
    obj_lookup_from(fields, key, 0)
}

/// The member of an object at a key; `None` on a non-object or a missing
/// key.
pub fn json_get<'a>(j: &'a JsonVal, key: &str) -> (r: Option<&'a JsonVal>)
    ensures
        match j {
            JsonVal::Obj(fields) => match r {
                Some(v) => obj_lookup(fields@, key@) == Some(*v),
                None => obj_lookup(fields@, key@) is None,
            },
            _ => r is None,
        },
{
    match j {
        JsonVal::Obj(fields) => {
            let n = fields.len();
            let mut i: usize = 0;
            while i < n
                invariant
                    i <= n,
                    n == fields@.len(),
                    *j == JsonVal::Obj(*fields),
                    obj_lookup(fields@, key@) == obj_lookup_from(fields@, key@, i as int),
                decreases n - i,
            {
                if crate::text::str_eq(fields[i].0.as_str(), key) {
                    proof {
                        assert(obj_lookup_from(fields@, key@, i as int) == Some(
                            fields@[i as int].1,
                        ));
                    }
                    return Some(&fields[i].1);
                }
                i = i + 1;
            }
            proof {
                assert(obj_lookup_from(fields@, key@, n as int) is None);
            }
            None
        },
        _ => None,
    }
}

// ---------------------------------------------------------------------------
// Unsigned integer tokens
// ---------------------------------------------------------------------------

/// The parse of an unsigned 64-bit token: one or more digits denoting a
/// value that fits.
pub open spec fn spec_parse_u64(s: Seq<char>) -> Option<u64> {
    if s.len() >= 1 && all_digits(s) && digits_val(s) <= u64::MAX {
        Some(digits_val(s) as u64)
    } else {
        None
    }
}

/// A digit string denotes at least what any prefix of it denotes.
proof fn lemma_digits_val_prefix_le(s: Seq<char>, i: int)
    requires
        all_digits(s),
        0 <= i <= s.len(),
    ensures
        digits_val(s.take(i)) <= digits_val(s),
    decreases s.len() - i,
{
    crate::decimal::lemma_digits_val_bounds(s.take(i));
    if i < s.len() {
        lemma_digits_val_prefix_le(s, i + 1);
        assert(s.take(i + 1).drop_last() =~= s.take(i));
        assert(s.take(i + 1).last() == s[i]);
        assert(is_digit(s[i]));
        crate::decimal::lemma_digits_val_bounds(s.take(i + 1));
    } else {
        assert(s.take(i) =~= s);
    }
}

/// Parse an unsigned 64-bit token, accepting exactly what
/// [`spec_parse_u64`] describes.
pub fn parse_u64(s: &str) -> (r: Option<u64>)
    ensures
        r == spec_parse_u64(s@),
{
    let n = s.unicode_len();
    if n == 0 {
        return None;
    }
    let mut i: usize = 0;
    let mut v: u128 = 0;
    loop
        invariant
            n == s@.len(),
            n >= 1,
            i <= n,
            forall|j: int| 0 <= j < i ==> is_digit(#[trigger] s@[j]),
            v == digits_val(s@.take(i as int)),
            v <= u64::MAX,
        ensures
            i == n,
            forall|j: int| 0 <= j < i ==> is_digit(#[trigger] s@[j]),
            v == digits_val(s@.take(i as int)),
            v <= u64::MAX,
        decreases n - i,
    {
        if i >= n {
            break;
        }
        let c = s.get_char(i);
        if !('0' <= c && c <= '9') {
            return None;
        }
        let d = (c as u32) - 48;
        proof {
            assert(s@.take(i as int + 1).drop_last() =~= s@.take(i as int));
            assert(s@.take(i as int + 1).last() == s@[i as int]);
        }
        v = v * 10 + (d as u128);
        if v > u64::MAX as u128 {
            proof {
                assert(all_digits(s@.take(i as int + 1)));
                if all_digits(s@) {
                    lemma_digits_val_prefix_le(s@, i as int + 1);
                }
            }
            return None;
        }
        i = i + 1;
    }
    proof {
        assert(s@.take(n as int) =~= s@);
    }
    Some(v as u64)
}

// ---------------------------------------------------------------------------
// Emitting JSON strings
// ---------------------------------------------------------------------------

pub open spec fn hex_char(d: int) -> char {
    if d < 10 {
        crate::decimal::digit_char(d)
    } else if d == 10 { 'a' }
    else if d == 11 { 'b' }
    else if d == 12 { 'c' }
    else if d == 13 { 'd' }
    else if d == 14 { 'e' }
    else { 'f' }
}

/// How one character stands inside a JSON string literal: quote and
/// backslash escaped, control characters as `\u00XX`, all else itself.
pub open spec fn esc_char(c: char) -> Seq<char> {
    if c == '"' {
        seq!['\\', '"']
    } else if c == '\\' {
        seq!['\\', '\\']
    } else if (c as int) < 32 {
        seq!['\\', 'u', '0', '0', hex_char(c as int / 16), hex_char(c as int % 16)]
    } else {
        seq![c]
    }
}

/// A text escaped for a JSON string literal.
pub open spec fn json_escape(s: Seq<char>) -> Seq<char>
    decreases s.len(),
{
    if s.len() == 0 {
        Seq::empty()
    } else {
        json_escape(s.drop_last()) + esc_char(s.last())
    }
}

/// Append one character in its JSON-escaped form.
fn push_escaped(out: &mut String, c: char)
    ensures
        final(out)@ == old(out)@ + esc_char(c),
{
    if c == '"' {
        push_char(out, '\\');
        push_char(out, '"');
        proof {
            assert(final(out)@ =~= old(out)@ + esc_char(c));
        }
    } else if c == '\\' {
        push_char(out, '\\');
        push_char(out, '\\');
        proof {
            assert(final(out)@ =~= old(out)@ + esc_char(c));
        }
    } else if (c as u32) < 32 {
        push_char(out, '\\');
        push_char(out, 'u');
        push_char(out, '0');
        push_char(out, '0');
        let v = c as u32;
        let hi: char = if v / 16 == 0 {
            '0'
        } else {
            '1'
        };
        push_char(out, hi);
        let lo = v % 16;
        let lc: char = if lo == 0 { '0' }
        else if lo == 1 { '1' }
        else if lo == 2 { '2' }
        else if lo == 3 { '3' }
        else if lo == 4 { '4' }
        else if lo == 5 { '5' }
        else if lo == 6 { '6' }
        else if lo == 7 { '7' }
        else if lo == 8 { '8' }
        else if lo == 9 { '9' }
        else if lo == 10 { 'a' }
        else if lo == 11 { 'b' }
        else if lo == 12 { 'c' }
        else if lo == 13 { 'd' }
        else if lo == 14 { 'e' }
        else { 'f' };
        push_char(out, lc);
        proof {
            assert(hi == hex_char(c as int / 16));
            assert(lc == hex_char(c as int % 16));
            assert(final(out)@ =~= old(out)@ + esc_char(c));
        }
    } else {
        push_char(out, c);
        proof {
            assert(final(out)@ =~= old(out)@ + esc_char(c));
        }
    }
}

/// Append a whole JSON string literal: quote, escaped text, quote.
pub fn append_json_string(out: &mut String, s: &str)
    ensures
        final(out)@ == old(out)@ + seq!['"'] + json_escape(s@) + seq!['"'],
{
    push_char(out, '"');
    let n = s.unicode_len();
    let mut i: usize = 0;
    proof {
        assert(json_escape(s@.take(0)) =~= Seq::<char>::empty());
        assert(out@ =~= old(out)@ + seq!['"'] + json_escape(s@.take(0)));
    }
    while i < n
        invariant
            i <= n,
            n == s@.len(),
            out@ == old(out)@ + seq!['"'] + json_escape(s@.take(i as int)),
        decreases n - i,
    {
        let c = s.get_char(i);
        push_escaped(out, c);
        proof {
            assert(s@.take(i as int + 1).drop_last() =~= s@.take(i as int));
            assert(s@.take(i as int + 1).last() == s@[i as int]);
            assert(out@ =~= old(out)@ + seq!['"'] + json_escape(s@.take(i as int + 1)));
        }
        i = i + 1;
    }
    proof {
        assert(s@.take(n as int) =~= s@);
    }
    push_char(out, '"');
    proof {
        assert(final(out)@ =~= old(out)@ + seq!['"'] + json_escape(s@) + seq!['"']);
    }
}

} // verus!
