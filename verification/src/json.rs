//! The JSON value model used for parameter bags, request bodies and
//! response payloads.  `JsonValue` is the executable value; `JsonV` is its
//! mathematical shadow, with character sequences for strings, which every
//! contract in the crate speaks of.  The serializer's output is pinned
//! character by character.
use vstd::prelude::*;

verus! {

use crate::strutil::{spec_digit, digit_str, push_char};
use vstd::string::StringExecFns;
use vstd::string::StrSliceExecFns;

/// A JSON value.  Numbers are kept as integers: the parameter machinery
/// only ever produces and inspects integral numbers.
#[derive(Debug, PartialEq)]
pub enum JsonValue {
    Null,
    Bool(bool),
    U64(u64),
    I64(i64),
    Str(String),
    Array(Vec<JsonValue>),
    Object(Vec<(String, JsonValue)>),
}

/// The mathematical shadow of a `JsonValue`.
pub enum JsonV {
    Null,
    Bool(bool),
    U64(u64),
    I64(i64),
    Str(Seq<char>),
    Array(Seq<JsonV>),
    Object(Seq<(Seq<char>, JsonV)>),
}

/// The shadow of an executable JSON value.
pub open spec fn view_json(v: JsonValue) -> JsonV
    decreases v, 1int, 0int,
{
    match v {
        JsonValue::Null => JsonV::Null,
        JsonValue::Bool(b) => JsonV::Bool(b),
        JsonValue::U64(n) => JsonV::U64(n),
        JsonValue::I64(n) => JsonV::I64(n),
        JsonValue::Str(s) => JsonV::Str(s@),
        JsonValue::Array(items) => JsonV::Array(view_json_arr(items@, 0)),
        JsonValue::Object(entries) => JsonV::Object(view_json_obj(entries@, 0)),
    }
}

/// The shadows of the array items from `i` on.
pub open spec fn view_json_arr(items: Seq<JsonValue>, i: int) -> Seq<JsonV>
    decreases items, 0int, (items.len() - i),
    when 0 <= i <= items.len()
{
    if i == items.len() {
        Seq::empty()
    } else {
        seq![view_json(items[i])] + view_json_arr(items, i + 1)
    }
}

/// The shadows of the object entries from `i` on.
pub open spec fn view_json_obj(entries: Seq<(String, JsonValue)>, i: int) -> Seq<
    (Seq<char>, JsonV),
>
    decreases entries, 0int, (entries.len() - i),
    when 0 <= i <= entries.len()
{
    if i == entries.len() {
        Seq::empty()
    } else {
        seq![(entries[i].0@, view_json(entries[i].1))] + view_json_obj(entries, i + 1)
    }
}

/// Element-wise reading of `view_json_arr`.
pub proof fn lemma_view_arr(items: Seq<JsonValue>, i: int)
    requires
        0 <= i <= items.len(),
    ensures
        view_json_arr(items, i).len() == items.len() - i,
        forall|k: int|
            i <= k < items.len() ==> view_json_arr(items, i)[k - i] == view_json(#[trigger] items[k]),
    decreases items.len() - i,
{
    if i < items.len() {
        lemma_view_arr(items, i + 1);
    }
}

/// Element-wise reading of `view_json_obj`.
pub proof fn lemma_view_obj(entries: Seq<(String, JsonValue)>, i: int)
    requires
        0 <= i <= entries.len(),
    ensures
        view_json_obj(entries, i).len() == entries.len() - i,
        forall|k: int|
            i <= k < entries.len() ==> view_json_obj(entries, i)[k - i] == (
            #[trigger] entries[k].0@,
            view_json(entries[k].1),
            ),
    decreases entries.len() - i,
{
    if i < entries.len() {
        lemma_view_obj(entries, i + 1);
    }
}

/// Appending an item appends its shadow.
pub proof fn lemma_view_arr_push(items: Seq<JsonValue>, v: JsonValue)
    ensures
        view_json_arr(items.push(v), 0) == view_json_arr(items, 0).push(view_json(v)),
{
    lemma_view_arr(items, 0);
    lemma_view_arr(items.push(v), 0);
    assert forall|k: int| 0 <= k < items.len() + 1 implies view_json_arr(items.push(v), 0)[k]
        == view_json_arr(items, 0).push(view_json(v))[k] by {
        assert(view_json_arr(items.push(v), 0)[k] == view_json(items.push(v)[k]));
        if k < items.len() {
            assert(items.push(v)[k] == items[k]);
            assert(view_json_arr(items, 0)[k] == view_json(items[k]));
        } else {
            assert(items.push(v)[k] == v);
        }
    }
    assert(view_json_arr(items.push(v), 0) =~= view_json_arr(items, 0).push(view_json(v)));
}

impl JsonValue {
    /// The shadow of this value.
    pub open spec fn view(&self) -> JsonV {
        view_json(*self)
    }

    /// Whether this value is a string.
    pub fn is_string(&self) -> (r: bool)
        ensures
            r == (self.view() is Str),
    {
        match self {
            JsonValue::Str(_) => true,
            _ => false,
        }
    }

    /// The string inside a `Str` value.
    pub fn as_string(&self) -> (r: Option<&String>)
        ensures
            match r {
                Some(s) => self.view() is Str && s@ == self.view()->Str_0,
                None => !(self.view() is Str),
            },
    {
        match self {
            JsonValue::Str(s) => Some(s),
            _ => None,
        }
    }

    /// Whether this value is an object.
    pub fn is_object(&self) -> (r: bool)
        ensures
            r == (self.view() is Object),
    {
        match self {
            JsonValue::Object(_) => true,
            _ => false,
        }
    }
}

/// The escape of one character inside a JSON string literal: quote,
/// backslash and the common control characters get a two-character escape,
/// other control characters a `\u00..` escape, and everything else stands
/// as itself.
pub open spec fn spec_escape_char(c: char) -> Seq<char> {
    if c == '"' {
        seq!['\\', '"']
    } else if c == '\\' {
        seq!['\\', '\\']
    } else if c == '\n' {
        seq!['\\', 'n']
    } else if c == '\r' {
        seq!['\\', 'r']
    } else if c == '\t' {
        seq!['\\', 't']
    } else if (c as u32) < 0x20 {
        seq!['\\', 'u', '0', '0', spec_digit((c as u32) as int / 16), spec_digit((c as u32) as int % 16)]
    } else {
        seq![c]
    }
}

/// The body of a JSON string literal: each character escaped, in order.
pub open spec fn spec_escape(s: Seq<char>) -> Seq<char>
    decreases s.len(),
{
    if s.len() == 0 {
        Seq::empty()
    } else {
        spec_escape_char(s[0]) + spec_escape(s.drop_first())
    }
}

/// A JSON string literal: the escaped body between double quotes.
pub open spec fn spec_json_string(s: Seq<char>) -> Seq<char> {
    seq!['"'] + spec_escape(s) + seq!['"']
}

/// The decimal digits of a non-negative integer, most significant first.
pub open spec fn spec_dec(n: int) -> Seq<char>
    recommends
        n >= 0,
    decreases n,
{
    if n < 10 {
        seq![spec_digit(n)]
    } else {
        spec_dec(n / 10) + seq![spec_digit(n % 10)]
    }
}

/// The serialized form of a JSON value: compact, no added whitespace,
/// object entries and array items in their stored order.
pub open spec fn spec_json(v: JsonV) -> Seq<char>
    decreases v, 1int, 0int,
{
    match v {
        JsonV::Null => "null"@,
        JsonV::Bool(b) => if b {
            "true"@
        } else {
            "false"@
        },
        JsonV::U64(n) => spec_dec(n as int),
        JsonV::I64(n) => if n < 0 {
            seq!['-'] + spec_dec(-(n as int))
        } else {
            spec_dec(n as int)
        },
        JsonV::Str(s) => spec_json_string(s),
        JsonV::Array(items) => seq!['['] + spec_json_items(items, 0) + seq![']'],
        JsonV::Object(entries) => seq!['{'] + spec_json_entries(entries, 0) + seq!['}'],
    }
}

/// The comma-separated serializations of the array items from `i` on.
pub open spec fn spec_json_items(items: Seq<JsonV>, i: int) -> Seq<char>
    decreases items, 0int, (items.len() - i),
    when 0 <= i <= items.len()
{
    if i == items.len() {
        Seq::empty()
    } else if i == items.len() - 1 {
        spec_json(items[i])
    } else {
        spec_json(items[i]) + seq![','] + spec_json_items(items, i + 1)
    }
}

/// The comma-separated `"key":value` serializations of the object entries
/// from `i` on.
pub open spec fn spec_json_entries(entries: Seq<(Seq<char>, JsonV)>, i: int) -> Seq<char>
    decreases entries, 0int, (entries.len() - i),
    when 0 <= i <= entries.len()
{
    if i == entries.len() {
        Seq::empty()
    } else {
        let one = spec_json_string(entries[i].0) + seq![':'] + spec_json(entries[i].1);
        if i == entries.len() - 1 {
            one
        } else {
            one + seq![','] + spec_json_entries(entries, i + 1)
        }
    }
}

/// Appends the decimal digits of `n` to `out`.
pub fn write_dec(n: u64, out: &mut String)
    ensures
        final(out)@ == old(out)@ + spec_dec(n as int),
    decreases n,
{
    if n < 10 {
        out.append(digit_str(n as u8));
    } else {
        write_dec(n / 10, out);
        out.append(digit_str((n % 10) as u8));
        proof {
            assert(out@ =~= old(out)@ + spec_dec(n as int));
        }
    }
}

/// Appends the escaped body of a JSON string literal to `out`.
pub fn write_escaped(s: &str, out: &mut String)
    ensures
        final(out)@ == old(out)@ + spec_escape(s@),
{
    let n = s.unicode_len();
    let mut i: usize = 0;
    proof {
        assert(s@.skip(0) =~= s@);
    }
    while i < n
        invariant
            0 <= i <= n,
            n == s@.len(),
            out@ + spec_escape(s@.skip(i as int)) == old(out)@ + spec_escape(s@),
        decreases n - i,
    {
        let c = s.get_char(i);
        proof {
            assert(s@.skip(i as int)[0] == c);
            assert(s@.skip(i as int).drop_first() =~= s@.skip(i as int + 1));
        }
        if c == '"' {
            out.append("\\\"");
        } else if c == '\\' {
            out.append("\\\\");
        } else if c == '\n' {
            out.append("\\n");
        } else if c == '\r' {
            out.append("\\r");
        } else if c == '\t' {
            out.append("\\t");
        } else if (c as u32) < 0x20 {
            out.append("\\u00");
            out.append(digit_str(((c as u32) / 16) as u8));
            out.append(digit_str(((c as u32) % 16) as u8));
        } else {
            push_char(out, c);
            proof {
                assert(spec_escape_char(c) =~= seq![c]);
            }
        }
        proof {
            reveal_strlit("\\\"");
            reveal_strlit("\\\\");
            reveal_strlit("\\n");
            reveal_strlit("\\r");
            reveal_strlit("\\t");
            reveal_strlit("\\u00");
            assert(out@ + spec_escape(s@.skip(i as int + 1)) =~= old(out)@ + spec_escape(s@));
        }
        i += 1;
    }
    proof {
        assert(s@.skip(n as int) =~= Seq::<char>::empty());
        assert(out@ =~= out@ + spec_escape(s@.skip(n as int)));
    }
}

/// Appends a JSON string literal for `s` to `out`.
pub fn write_json_string(s: &str, out: &mut String)
    ensures
        final(out)@ == old(out)@ + spec_json_string(s@),
{
    out.append("\"");
    write_escaped(s, out);
    out.append("\"");
    proof {
        reveal_strlit("\"");
        assert(out@ =~= old(out)@ + spec_json_string(s@));
    }
}

impl JsonValue {
    /// Appends the compact serialization of this value to `out`.
    pub fn write_json(&self, out: &mut String)
        ensures
            final(out)@ == old(out)@ + spec_json(self.view()),
        decreases *self, 1int,
    {
        match self {
            JsonValue::Null => {
                out.append("null");
            },
            JsonValue::Bool(b) => {
                if *b {
                    out.append("true");
                } else {
                    out.append("false");
                }
            },
            JsonValue::U64(n) => {
                write_dec(*n, out);
            },
            JsonValue::I64(n) => {
                if *n < 0 {
                    out.append("-");
                    proof {
                        reveal_strlit("-");
                    }
                    let mag: u64 = if *n == i64::MIN {
                        9223372036854775808u64
                    } else {
                        (-*n) as u64
                    };
                    write_dec(mag, out);
                    proof {
                        assert(out@ =~= old(out)@ + spec_json(self.view()));
                    }
                } else {
                    write_dec(*n as u64, out);
                }
            },
            JsonValue::Str(s) => {
                write_json_string(s.as_str(), out);
            },
            JsonValue::Array(items) => {
                proof {
                    assert(decreases_to!(*self => self->Array_0));
                }
                JsonValue::write_array_body(items, out);
                proof {
                    assert(out@ =~= old(out)@ + spec_json(self.view()));
                }
            },
            JsonValue::Object(entries) => {
                proof {
                    assert(decreases_to!(*self => self->Object_0));
                }
                JsonValue::write_object_body(entries, out);
                proof {
                    assert(out@ =~= old(out)@ + spec_json(self.view()));
                }
            },
        }
    }

    /// The compact serialization of an array with the given items, appended
    /// to `out`.
    pub fn write_array_body(items: &Vec<JsonValue>, out: &mut String)
        ensures
            final(out)@ == old(out)@ + seq!['['] + spec_json_items(view_json_arr(items@, 0), 0)
                + seq![']'],
        decreases *items, 0int,
    {
        out.append("[");
        proof {
            reveal_strlit("[");
            reveal_strlit("]");
            lemma_view_arr(items@, 0);
        }
        let ghost vitems = view_json_arr(items@, 0);
        let ghost mid = out@;
        let mut i: usize = 0;
        while i < items.len()
            invariant
                0 <= i <= items.len(),
                vitems == view_json_arr(items@, 0),
                vitems.len() == items@.len(),
                i == 0 ==> out@ == mid,
                i > 0 && i < items.len() ==> out@ + seq![','] + spec_json_items(
                    vitems,
                    i as int,
                ) == mid + spec_json_items(vitems, 0),
                i > 0 && i == items.len() ==> out@ == mid + spec_json_items(vitems, 0),
            decreases items.len() - i,
        {
            proof {
                assert(decreases_to!(*items => items@));
                assert(decreases_to!(items@ => items@[i as int]));
            }
            if i > 0 {
                out.append(",");
            }
            items[i].write_json(out);
            i += 1;
            proof {
                reveal_strlit(",");
                lemma_view_arr(items@, 0);
                let gi = i as int;
                assert(vitems[gi - 1] == view_json(items@[gi - 1]));
                assert(spec_json_items(vitems, gi - 1) == spec_json(vitems[gi - 1]) + (
                if gi < vitems.len() {
                    seq![','] + spec_json_items(vitems, gi)
                } else {
                    Seq::<char>::empty()
                }));
                if i < items.len() {
                    assert(out@ + seq![','] + spec_json_items(vitems, i as int) =~= mid
                        + spec_json_items(vitems, 0));
                } else {
                    assert(out@ =~= mid + spec_json_items(vitems, 0));
                }
            }
        }
        out.append("]");
        proof {
            assert(out@ =~= old(out)@ + seq!['['] + spec_json_items(view_json_arr(items@, 0), 0)
                + seq![']']);
        }
    }

    /// The compact serialization of an object with the given entries,
    /// appended to `out`.
    pub fn write_object_body(entries: &Vec<(String, JsonValue)>, out: &mut String)
        ensures
            final(out)@ == old(out)@ + seq!['{'] + spec_json_entries(view_json_obj(entries@, 0), 0)
                + seq!['}'],
        decreases *entries, 0int,
    {
        out.append("{");
        proof {
            reveal_strlit("{");
            reveal_strlit("}");
            lemma_view_obj(entries@, 0);
        }
        let ghost ventries = view_json_obj(entries@, 0);
        let ghost mid = out@;
        let mut i: usize = 0;
        while i < entries.len()
            invariant
                0 <= i <= entries.len(),
                ventries == view_json_obj(entries@, 0),
                ventries.len() == entries@.len(),
                i == 0 ==> out@ == mid,
                i > 0 && i < entries.len() ==> out@ + seq![','] + spec_json_entries(
                    ventries,
                    i as int,
                ) == mid + spec_json_entries(ventries, 0),
                i > 0 && i == entries.len() ==> out@ == mid + spec_json_entries(ventries, 0),
            decreases entries.len() - i,
        {
            proof {
                assert(decreases_to!(*entries => entries@));
                assert(decreases_to!(entries@ => entries@[i as int]));
                assert(decreases_to!(entries@[i as int] => entries@[i as int].1));
            }
            if i > 0 {
                out.append(",");
            }
            write_json_string(entries[i].0.as_str(), out);
            out.append(":");
            entries[i].1.write_json(out);
            i += 1;
            proof {
                reveal_strlit(",");
                reveal_strlit(":");
                lemma_view_obj(entries@, 0);
                let gi = i as int;
                assert(ventries[gi - 1] == (entries@[gi - 1].0@, view_json(entries@[gi - 1].1)));
                assert(spec_json_entries(ventries, gi - 1) == spec_json_string(ventries[gi - 1].0)
                    + seq![':'] + spec_json(ventries[gi - 1].1) + (
                if gi < ventries.len() {
                    seq![','] + spec_json_entries(ventries, gi)
                } else {
                    Seq::<char>::empty()
                }));
                if i < entries.len() {
                    assert(out@ + seq![','] + spec_json_entries(ventries, i as int) =~= mid
                        + spec_json_entries(ventries, 0));
                } else {
                    assert(out@ =~= mid + spec_json_entries(ventries, 0));
                }
            }
        }
        out.append("}");
        proof {
            assert(out@ =~= old(out)@ + seq!['{'] + spec_json_entries(view_json_obj(entries@, 0), 0)
                + seq!['}']);
        }
    }

    /// The compact serialization of this value.
    pub fn to_json_string(&self) -> (r: String)
        ensures
            r@ == spec_json(self.view()),
    {
        let mut out = String::new();
        self.write_json(&mut out);
        proof {
            assert(out@ =~= spec_json(self.view()));
        }
        out
    }
}

} // verus!
