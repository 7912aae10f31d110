use crate::helpers::{did_you_mean, suggestion};
use crate::text::{decimal, digit_char, push_decimal, push_signed_decimal, signed_decimal};
use crate::value::{PathStep, Value, ValueKind, ValuePointerRef};
use crate::{strings_view, DeserializeError, ErrorKind, ErrorKindView, MergeWithError};
use std::ops::ControlFlow;
use vstd::prelude::*;
use vstd::string::StringExecFns;

verus! {

/// A path written in the JSON style: `.key` for a key, `[i]` for an index.
pub open spec fn json_path(path: Seq<PathStep>) -> Seq<char>
    decreases path.len(),
{
    if path.len() == 0 {
        Seq::empty()
    } else {
        match path.last() {
            PathStep::Key(k) => json_path(path.drop_last()) + "."@ + k,
            PathStep::Index(i) => json_path(path.drop_last()) + "["@ + decimal(i) + "]"@,
        }
    }
}

/// Append the JSON-style form of `location` to `s`.
pub fn push_json_path(s: &mut String, location: &ValuePointerRef)
    ensures
        final(s)@ == old(s)@ + json_path(location.path()),
    decreases location,
{
    match location {
        ValuePointerRef::Origin => {
            assert(old(s)@ + json_path(location.path()) =~= old(s)@);
        },
        ValuePointerRef::Key { key, prev } => {
            push_json_path(s, prev);
            s.append(".");
            s.append(key);
            proof {
                assert(location.path().drop_last() =~= prev.path());
                assert(final(s)@ =~= old(s)@ + json_path(location.path()));
            }
        },
        ValuePointerRef::Index { index, prev } => {
            push_json_path(s, prev);
            s.append("[");
            push_decimal(s, *index as u64);
            s.append("]");
            proof {
                assert(location.path().drop_last() =~= prev.path());
                assert(final(s)@ =~= old(s)@ + json_path(location.path()));
            }
        },
    }
}

impl<'a> ValuePointerRef<'a> {
    /// The JSON-style form of this location; empty at the root.
    pub fn as_json(&self) -> (r: String)
        ensures
            r@ == json_path(self.path()),
    {
        let mut s = String::new();
        push_json_path(&mut s, self);
        s
    }
}

/// A location described in the JSON style, after `article`; nothing at the
/// root.
pub open spec fn json_location(path: Seq<PathStep>, article: Seq<char>) -> Seq<char> {
    if path.len() == 0 {
        Seq::empty()
    } else {
        article + " `"@ + json_path(path) + "`"@
    }
}

/// Describe `location` in the JSON style, after `article`, as in
/// `` at `.key1[8].key2` ``; nothing at the root.
pub fn location_json_description(location: ValuePointerRef, article: &str) -> (r: String)
    ensures
        r@ == json_location(location.path(), article@),
{
    if location.is_origin() {
        String::new()
    } else {
        let mut s = String::from_str(article);
        s.append(" `");
        push_json_path(&mut s, &location);
        s.append("`");
        s
    }
}


/// Every value kind, in the order used to describe a set of kinds.
pub open spec fn kind_order() -> Seq<ValueKind> {
    seq![
        ValueKind::Null,
        ValueKind::Boolean,
        ValueKind::Integer,
        ValueKind::NegativeInteger,
        ValueKind::Float,
        ValueKind::String,
        ValueKind::Sequence,
        ValueKind::Object,
    ]
}

fn all_kinds() -> (r: Vec<ValueKind>)
    ensures
        r@ == kind_order(),
{
    let r = vec![
        ValueKind::Null,
        ValueKind::Boolean,
        ValueKind::Integer,
        ValueKind::NegativeInteger,
        ValueKind::Float,
        ValueKind::String,
        ValueKind::Sequence,
        ValueKind::Object,
    ];
    assert(r@ =~= kind_order());
    r
}

/// The kinds among the first `n` of [`kind_order`] that `kinds` holds, in
/// that order, each once.
pub open spec fn present_kinds(kinds: Seq<ValueKind>, n: nat) -> Seq<ValueKind>
    decreases n,
{
    if n == 0 {
        Seq::empty()
    } else if kinds.contains(kind_order()[n - 1]) {
        present_kinds(kinds, (n - 1) as nat).push(kind_order()[n - 1])
    } else {
        present_kinds(kinds, (n - 1) as nat)
    }
}

/// `kinds` sorted in [`kind_order`], without repetition.
pub open spec fn sorted_kinds(kinds: Seq<ValueKind>) -> Seq<ValueKind> {
    present_kinds(kinds, 8)
}

fn contains_kind(kinds: &Vec<ValueKind>, k: ValueKind) -> (r: bool)
    ensures
        r == kinds@.contains(k),
{
    let mut j: usize = 0;
    while j < kinds.len()
        invariant
            j <= kinds.len(),
            forall|i: int| 0 <= i < j ==> kinds@[i] != k,
        decreases kinds.len() - j,
    {
        if kinds[j] == k {
            return true;
        }
        j = j + 1;
    }
    false
}

fn sort_kinds(kinds: &Vec<ValueKind>) -> (r: Vec<ValueKind>)
    ensures
        r@ == sorted_kinds(kinds@),
{
    let order = all_kinds();
    let mut r: Vec<ValueKind> = Vec::new();
    let mut n: usize = 0;
    while n < order.len()
        invariant
            n <= order.len() == 8,
            order@ == kind_order(),
            r@ == present_kinds(kinds@, n as nat),
        decreases order.len() - n,
    {
        if contains_kind(kinds, order[n]) {
            r.push(order[n]);
        }
        n = n + 1;
    }
    r
}

/// The words for one value kind.
pub open spec fn single_kind_text(k: ValueKind) -> Seq<char> {
    match k {
        ValueKind::Null => "null"@,
        ValueKind::Boolean => "a boolean"@,
        ValueKind::Integer => "a positive integer"@,
        ValueKind::NegativeInteger => "a negative integer"@,
        ValueKind::Float => "a number"@,
        ValueKind::String => "a string"@,
        ValueKind::Sequence => "an array"@,
        ValueKind::Object => "an object"@,
    }
}

fn single_kind_str(k: ValueKind) -> (r: &'static str)
    ensures
        r@ == single_kind_text(k),
{
    match k {
        ValueKind::Null => "null",
        ValueKind::Boolean => "a boolean",
        ValueKind::Integer => "a positive integer",
        ValueKind::NegativeInteger => "a negative integer",
        ValueKind::Float => "a number",
        ValueKind::String => "a string",
        ValueKind::Sequence => "an array",
        ValueKind::Object => "an object",
    }
}

/// The words for the first kinds of a sorted list, and how many kinds they
/// cover: integers and floats together read as a number.
pub open spec fn leading_kinds_text(kinds: Seq<ValueKind>) -> (Seq<char>, nat) {
    if kinds.len() >= 2 && (kinds[0] == ValueKind::Integer || kinds[0]
        == ValueKind::NegativeInteger) && kinds[1] == ValueKind::Float {
        ("a number"@, 2)
    } else if kinds.len() >= 3 && kinds[0] == ValueKind::Integer && kinds[1]
        == ValueKind::NegativeInteger && kinds[2] == ValueKind::Float {
        ("a number"@, 3)
    } else if kinds.len() >= 2 && kinds[0] == ValueKind::Integer && kinds[1]
        == ValueKind::NegativeInteger {
        ("an integer"@, 2)
    } else if kinds.len() >= 1 {
        (single_kind_text(kinds[0]), 1)
    } else {
        (Seq::empty(), 0)
    }
}

/// A sorted list of kinds in words, as a list joined by commas and a final
/// `or`, after `count` items already written.
pub open spec fn kinds_text(kinds: Seq<ValueKind>, count: nat) -> Seq<char>
    decreases kinds.len(),
{
    let (part, used) = leading_kinds_text(kinds);
    let rest = kinds.subrange(used as int, kinds.len() as int);
    if rest.len() == 0 {
        if count == 0 {
            part
        } else if count == 1 {
            " or "@ + part
        } else {
            ", or "@ + part
        }
    } else {
        (if count == 0 {
            part
        } else {
            ", "@ + part
        }) + kinds_text(rest, count + 1)
    }
}

/// A set of value kinds in words, for JSON payloads.
pub open spec fn kinds_description_json(kinds: Seq<ValueKind>) -> Seq<char> {
    let sorted = sorted_kinds(kinds);
    if sorted.len() == 0 {
        "a different value"@
    } else {
        kinds_text(sorted, 0)
    }
}

fn leading_kinds(kinds: &Vec<ValueKind>, start: usize) -> (r: (&'static str, usize))
    requires
        start <= kinds.len(),
    ensures
        (r.0@, r.1 as nat) == leading_kinds_text(kinds@.subrange(start as int, kinds.len() as int)),
        start + r.1 <= kinds.len(),
        r.1 == 0 ==> start == kinds.len(),
{
    let ghost sub = kinds@.subrange(start as int, kinds.len() as int);
    let n = kinds.len() - start;
    proof {
        reveal_strlit("");
        assert(n >= 1 ==> sub[0] == kinds@[start as int]);
        assert(n >= 2 ==> sub[1] == kinds@[start + 1]);
        assert(n >= 3 ==> sub[2] == kinds@[start + 2]);
    }
    if n >= 2 && (kinds[start] == ValueKind::Integer || kinds[start] == ValueKind::NegativeInteger)
        && kinds[start + 1] == ValueKind::Float {
        ("a number", 2)
    } else if n >= 3 && kinds[start] == ValueKind::Integer && kinds[start + 1]
        == ValueKind::NegativeInteger && kinds[start + 2] == ValueKind::Float {
        ("a number", 3)
    } else if n >= 2 && kinds[start] == ValueKind::Integer && kinds[start + 1]
        == ValueKind::NegativeInteger {
        ("an integer", 2)
    } else if n >= 1 {
        (single_kind_str(kinds[start]), 1)
    } else {
        ("", 0)
    }
}

fn push_kinds_text(message: &mut String, kinds: &Vec<ValueKind>, start: usize, count: usize)
    requires
        start <= kinds.len(),
        count <= start,
    ensures
        final(message)@ == old(message)@ + kinds_text(
            kinds@.subrange(start as int, kinds.len() as int),
            count as nat,
        ),
    decreases kinds.len() - start,
{
    let ghost sub = kinds@.subrange(start as int, kinds.len() as int);
    let (part, used) = leading_kinds(kinds, start);
    proof {
        assert(kinds@.subrange((start + used) as int, kinds.len() as int) =~= sub.subrange(
            used as int,
            sub.len() as int,
        ));
    }
    if start + used == kinds.len() {
        if count == 0 {
            message.append(part);
        } else if count == 1 {
            message.append(" or ");
            message.append(part);
        } else {
            message.append(", or ");
            message.append(part);
        }
        proof {
            assert(final(message)@ =~= old(message)@ + kinds_text(sub, count as nat));
        }
    } else {
        if count == 0 {
            message.append(part);
        } else {
            message.append(", ");
            message.append(part);
        }
        push_kinds_text(message, kinds, start + used, count + 1);
        proof {
            assert(final(message)@ =~= old(message)@ + kinds_text(sub, count as nat));
        }
    }
}

/// Describe a set of value kinds in words for a JSON payload, as in
/// `null, a boolean, or a number`.
pub fn value_kinds_description_json(kinds: &Vec<ValueKind>) -> (r: String)
    ensures
        r@ == kinds_description_json(kinds@),
{
    let sorted = sort_kinds(kinds);
    if sorted.len() == 0 {
        String::from_str("a different value")
    } else {
        let mut message = String::new();
        push_kinds_text(&mut message, &sorted, 0, 0);
        assert(sorted@.subrange(0, sorted@.len() as int) =~= sorted@);
        message
    }
}


/// A hexadecimal digit, in lower case.
pub open spec fn hex_digit(d: nat) -> char {
    if d < 10 {
        digit_char(d)
    } else if d == 10 {
        'a'
    } else if d == 11 {
        'b'
    } else if d == 12 {
        'c'
    } else if d == 13 {
        'd'
    } else if d == 14 {
        'e'
    } else {
        'f'
    }
}

/// One character inside a JSON string literal: a quote, a backslash and the
/// control characters are escaped, everything else is written as it is.
pub open spec fn escaped_char(c: char) -> Seq<char> {
    if c == '"' {
        seq!['\\', '"']
    } else if c == '\\' {
        seq!['\\', '\\']
    } else if c == '\u{8}' {
        seq!['\\', 'b']
    } else if c == '\t' {
        seq!['\\', 't']
    } else if c == '\n' {
        seq!['\\', 'n']
    } else if c == '\u{c}' {
        seq!['\\', 'f']
    } else if c == '\r' {
        seq!['\\', 'r']
    } else if (c as u32) < 0x20 {
        seq![
            '\\',
            'u',
            '0',
            '0',
            hex_digit((c as u32 / 16) as nat),
            hex_digit((c as u32 % 16) as nat),
        ]
    } else {
        seq![c]
    }
}

/// The characters of a string, each escaped for a JSON string literal.
pub open spec fn escaped_chars(s: Seq<char>) -> Seq<char>
    decreases s.len(),
{
    if s.len() == 0 {
        Seq::empty()
    } else {
        escaped_chars(s.drop_last()) + escaped_char(s.last())
    }
}

/// A string written as a JSON string literal, between quotes.
pub open spec fn json_string_text(s: Seq<char>) -> Seq<char> {
    seq!['"'] + escaped_chars(s) + seq!['"']
}

/// Relies on `serde_json::to_string` applied to a `str`: a quote, the
/// escaped characters (per serde_json's `ESCAPE` table and
/// `write_char_escape`: `\"`, `\\`, `\b`, `\t`, `\n`, `\f`, `\r`, and
/// `\u00xx` in lower-case hexadecimal for the other control characters), a
/// quote. Writing a `str` into a `String` does not fail.
#[verifier::external_body]
fn json_quote(s: &str) -> (r: String)
    ensures
        r@ == json_string_text(s@),
{
    match serde_json::to_string(s) {
        Ok(text) => text,
        Err(_) => String::new(),
    }
}

/// A list of names, each between backticks, joined by commas.
pub open spec fn backticked_list(names: Seq<Seq<char>>) -> Seq<char>
    decreases names.len(),
{
    if names.len() == 0 {
        Seq::empty()
    } else if names.len() == 1 {
        "`"@ + names[0] + "`"@
    } else {
        backticked_list(names.drop_last()) + ", `"@ + names.last() + "`"@
    }
}

/// Append the names of `names`, each between backticks, joined by commas.
pub fn push_backticked_list(s: &mut String, names: &Vec<String>)
    ensures
        final(s)@ == old(s)@ + backticked_list(strings_view(names@)),
{
    let ghost all = strings_view(names@);
    let mut i: usize = 0;
    while i < names.len()
        invariant
            i <= names.len(),
            all == strings_view(names@),
            s@ == old(s)@ + backticked_list(all.subrange(0, i as int)),
        decreases names.len() - i,
    {
        if i == 0 {
            s.append("`");
        } else {
            s.append(", `");
        }
        s.append(names[i].as_str());
        s.append("`");
        proof {
            let pre = all.subrange(0, i as int);
            let next = all.subrange(0, i + 1);
            assert(next.drop_last() =~= pre);
            assert(next.last() == names@[i as int]@);
            reveal_with_fuel(backticked_list, 2);
            assert(s@ =~= old(s)@ + backticked_list(next));
        }
        i = i + 1;
    }
    assert(all.subrange(0, names.len() as int) =~= all);
}

/// Whether a value holds no float, at any depth.
pub open spec fn float_free(v: Value) -> bool
    decreases v, 0nat,
{
    match v {
        Value::Float(_) => false,
        Value::Sequence(items) => items_float_free(items, items.len() as nat),
        Value::Object(entries) => entries_float_free(entries, entries.len() as nat),
        _ => true,
    }
}

pub open spec fn items_float_free(items: Vec<Value>, n: nat) -> bool
    decreases items, n,
{
    if n == 0 || n > items.len() {
        true
    } else {
        items_float_free(items, (n - 1) as nat) && float_free(items[n - 1])
    }
}

pub open spec fn entries_float_free(entries: Vec<(String, Value)>, n: nat) -> bool
    decreases entries, n,
{
    if n == 0 || n > entries.len() {
        true
    } else {
        entries_float_free(entries, (n - 1) as nat) && float_free(entries[n - 1].1)
    }
}

/// A value written as compact JSON text, entries of a map in their order.
pub open spec fn json_text(v: Value) -> Seq<char>
    decreases v, 0nat,
{
    match v {
        Value::Null => "null"@,
        Value::Boolean(b) => if b {
            "true"@
        } else {
            "false"@
        },
        Value::Integer(x) => decimal(x as nat),
        Value::NegativeInteger(x) => signed_decimal(x as int),
        Value::Float(_) => "null"@,
        Value::String(s) => json_string_text(s@),
        Value::Sequence(items) => "["@ + items_text(items, items.len() as nat) + "]"@,
        Value::Object(entries) => "{"@ + entries_text(entries, entries.len() as nat) + "}"@,
    }
}

pub open spec fn items_text(items: Vec<Value>, n: nat) -> Seq<char>
    decreases items, n,
{
    if n == 0 || n > items.len() {
        Seq::empty()
    } else if n == 1 {
        json_text(items[0])
    } else {
        items_text(items, (n - 1) as nat) + ","@ + json_text(items[n - 1])
    }
}

pub open spec fn entries_text(entries: Vec<(String, Value)>, n: nat) -> Seq<char>
    decreases entries, n,
{
    if n == 0 || n > entries.len() {
        Seq::empty()
    } else {
        let e = entries[n - 1];
        let one = json_string_text(e.0@) + ":"@ + json_text(e.1);
        if n == 1 {
            one
        } else {
            entries_text(entries, (n - 1) as nat) + ","@ + one
        }
    }
}

fn is_float_free(v: &Value) -> (r: bool)
    ensures
        r == float_free(*v),
    decreases *v, 0nat,
{
    match v {
        Value::Float(_) => false,
        Value::Sequence(items) => are_items_float_free(items, items.len()),
        Value::Object(entries) => are_entries_float_free(entries, entries.len()),
        _ => true,
    }
}

fn are_items_float_free(items: &Vec<Value>, n: usize) -> (r: bool)
    requires
        n <= items.len(),
    ensures
        r == items_float_free(*items, n as nat),
    decreases *items, n,
{
    if n == 0 {
        true
    } else if !are_items_float_free(items, n - 1) {
        false
    } else {
        is_float_free(&items[n - 1])
    }
}

fn are_entries_float_free(entries: &Vec<(String, Value)>, n: usize) -> (r: bool)
    requires
        n <= entries.len(),
    ensures
        r == entries_float_free(*entries, n as nat),
    decreases *entries, n,
{
    if n == 0 {
        true
    } else if !are_entries_float_free(entries, n - 1) {
        false
    } else {
        is_float_free(&entries[n - 1].1)
    }
}

fn push_json_text(s: &mut String, v: &Value)
    ensures
        final(s)@ == old(s)@ + json_text(*v),
    decreases *v, 0nat,
{
    match v {
        Value::Null => s.append("null"),
        Value::Boolean(b) => {
            if *b {
                s.append("true");
            } else {
                s.append("false");
            }
        },
        Value::Integer(x) => push_decimal(s, *x),
        Value::NegativeInteger(x) => push_signed_decimal(s, *x),
        Value::Float(_) => s.append("null"),
        Value::String(text) => {
            let quoted = json_quote(text.as_str());
            s.append(quoted.as_str());
        },
        Value::Sequence(items) => {
            s.append("[");
            push_items_text(s, items, items.len());
            s.append("]");
            proof {
                assert(final(s)@ =~= old(s)@ + json_text(*v));
            }
        },
        Value::Object(entries) => {
            s.append("{");
            push_entries_text(s, entries, entries.len());
            s.append("}");
            proof {
                assert(final(s)@ =~= old(s)@ + json_text(*v));
            }
        },
    }
}

fn push_items_text(s: &mut String, items: &Vec<Value>, n: usize)
    requires
        n <= items.len(),
    ensures
        final(s)@ == old(s)@ + items_text(*items, n as nat),
    decreases *items, n,
{
    if n == 0 {
        assert(old(s)@ + items_text(*items, 0) =~= old(s)@);
    } else if n == 1 {
        push_json_text(s, &items[0]);
    } else {
        push_items_text(s, items, n - 1);
        s.append(",");
        push_json_text(s, &items[n - 1]);
        proof {
            assert(final(s)@ =~= old(s)@ + items_text(*items, n as nat));
        }
    }
}

fn push_entries_text(s: &mut String, entries: &Vec<(String, Value)>, n: usize)
    requires
        n <= entries.len(),
    ensures
        final(s)@ == old(s)@ + entries_text(*entries, n as nat),
    decreases *entries, n,
{
    if n == 0 {
        assert(old(s)@ + entries_text(*entries, 0) =~= old(s)@);
    } else {
        if n > 1 {
            push_entries_text(s, entries, n - 1);
            s.append(",");
        }
        let quoted = json_quote(entries[n - 1].0.as_str());
        s.append(quoted.as_str());
        s.append(":");
        push_json_text(s, &entries[n - 1].1);
        proof {
            assert(final(s)@ =~= old(s)@ + entries_text(*entries, n as nat));
        }
    }
}

/// A received value described for a JSON payload: its kind, and its JSON
/// text unless it is or holds a float.
pub open spec fn received_json(v: Value) -> Seq<char> {
    match v {
        Value::Null => "null"@,
        Value::Boolean(b) => "a boolean: `"@ + (if b {
            "true"@
        } else {
            "false"@
        }) + "`"@,
        Value::Integer(x) => "a positive integer: `"@ + decimal(x as nat) + "`"@,
        Value::NegativeInteger(x) => "a negative integer: `"@ + signed_decimal(x as int) + "`"@,
        Value::Float(_) => "a number"@,
        Value::String(s) => "a string: `"@ + json_string_text(s@) + "`"@,
        Value::Sequence(_) => if float_free(v) {
            "an array: `"@ + json_text(v) + "`"@
        } else {
            "an array"@
        },
        Value::Object(_) => if float_free(v) {
            "an object: `"@ + json_text(v) + "`"@
        } else {
            "an object"@
        },
    }
}

/// Describe a received value for a JSON payload.
pub fn value_description_with_kind_json(v: &Value) -> (r: String)
    ensures
        r@ == received_json(*v),
{
    match v {
        Value::Null => String::from_str("null"),
        Value::Boolean(b) => {
            let mut s = String::from_str("a boolean: `");
            if *b {
                s.append("true");
            } else {
                s.append("false");
            }
            s.append("`");
            s
        },
        Value::Integer(x) => {
            let mut s = String::from_str("a positive integer: `");
            push_decimal(&mut s, *x);
            s.append("`");
            s
        },
        Value::NegativeInteger(x) => {
            let mut s = String::from_str("a negative integer: `");
            push_signed_decimal(&mut s, *x);
            s.append("`");
            s
        },
        Value::Float(_) => String::from_str("a number"),
        Value::String(text) => {
            let mut s = String::from_str("a string: `");
            let quoted = json_quote(text.as_str());
            s.append(quoted.as_str());
            s.append("`");
            s
        },
        Value::Sequence(_) => {
            if is_float_free(v) {
                let mut s = String::from_str("an array: `");
                push_json_text(&mut s, v);
                s.append("`");
                s
            } else {
                String::from_str("an array")
            }
        },
        Value::Object(_) => {
            if is_float_free(v) {
                let mut s = String::from_str("an object: `");
                push_json_text(&mut s, v);
                s.append("`");
                s
            } else {
                String::from_str("an object")
            }
        },
    }
}

/// The message of a [`JsonError`] for an error kind at a location.
pub open spec fn json_message(kind: ErrorKindView, location: Seq<PathStep>) -> Seq<char> {
    match kind {
        ErrorKindView::IncorrectValueKind { actual, accepted } => "Invalid value type"@
            + json_location(location, " at"@) + ": expected "@ + kinds_description_json(accepted)
            + ", but found "@ + received_json(actual),
        ErrorKindView::MissingField { field } => "Missing field `"@ + field + "`"@ + json_location(
            location,
            " inside"@,
        ),
        ErrorKindView::UnknownKey { key, accepted } => "Unknown field `"@ + key + "`"@
            + json_location(location, " inside"@) + ": "@ + suggestion(key, accepted)
            + "expected one of "@ + backticked_list(accepted),
        ErrorKindView::UnknownValue { value, accepted } => "Unknown value `"@ + value + "`"@
            + json_location(location, " at"@) + ": "@ + suggestion(value, accepted)
            + "expected one of "@ + backticked_list(accepted),
        ErrorKindView::Unexpected { msg } => "Invalid value"@ + json_location(location, " at"@)
            + ": "@ + msg,
    }
}

/// An error for JSON payloads: one human-readable message about the first
/// failure, after which deserialization stops.
#[derive(Debug, Clone)]
pub struct JsonError(String);

impl DeepView for JsonError {
    type V = Seq<char>;

    closed spec fn deep_view(&self) -> Seq<char> {
        self.0@
    }
}

impl JsonError {
    pub fn new(msg: String) -> (r: JsonError)
        ensures
            r.deep_view() == msg@,
    {
        JsonError(msg)
    }

    /// The message.
    pub fn message(&self) -> (r: String)
        ensures
            r@ == self.deep_view(),
    {
        self.0.clone()
    }
}

impl MergeWithError<JsonError> for JsonError {
    open spec fn spec_merge(
        self_: Option<Seq<char>>,
        other: Seq<char>,
        merge_location: Seq<PathStep>,
    ) -> ControlFlow<Seq<char>, Seq<char>> {
        ControlFlow::Break(other)
    }

    fn merge(self_: Option<Self>, other: JsonError, merge_location: ValuePointerRef) -> (r:
        ControlFlow<Self, Self>) {
        ControlFlow::Break(other)
    }
}

impl DeserializeError for JsonError {
    open spec fn spec_error(
        self_: Option<Seq<char>>,
        error: ErrorKindView,
        location: Seq<PathStep>,
    ) -> ControlFlow<Seq<char>, Seq<char>> {
        ControlFlow::Break(json_message(error, location))
    }

    fn error(self_: Option<Self>, error: ErrorKind, location: ValuePointerRef) -> (r: ControlFlow<
        Self,
        Self,
    >) {
        let message = match error {
            ErrorKind::IncorrectValueKind { actual, accepted } => {
                let mut m = String::from_str("Invalid value type");
                let at = location_json_description(location, " at");
                m.append(at.as_str());
                m.append(": expected ");
                let expected = value_kinds_description_json(&accepted);
                m.append(expected.as_str());
                m.append(", but found ");
                let received = value_description_with_kind_json(&actual);
                m.append(received.as_str());
                m
            },
            ErrorKind::MissingField { field } => {
                let mut m = String::from_str("Missing field `");
                m.append(field.as_str());
                m.append("`");
                let at = location_json_description(location, " inside");
                m.append(at.as_str());
                m
            },
            ErrorKind::UnknownKey { key, accepted } => {
                let mut m = String::from_str("Unknown field `");
                m.append(key.as_str());
                m.append("`");
                let at = location_json_description(location, " inside");
                m.append(at.as_str());
                m.append(": ");
                let hint = did_you_mean(key.as_str(), &accepted);
                m.append(hint.as_str());
                m.append("expected one of ");
                push_backticked_list(&mut m, &accepted);
                m
            },
            ErrorKind::UnknownValue { value, accepted } => {
                let mut m = String::from_str("Unknown value `");
                m.append(value.as_str());
                m.append("`");
                let at = location_json_description(location, " at");
                m.append(at.as_str());
                m.append(": ");
                let hint = did_you_mean(value.as_str(), &accepted);
                m.append(hint.as_str());
                m.append("expected one of ");
                push_backticked_list(&mut m, &accepted);
                m
            },
            ErrorKind::Unexpected { msg } => {
                let mut m = String::from_str("Invalid value");
                let at = location_json_description(location, " at");
                m.append(at.as_str());
                m.append(": ");
                m.append(msg.as_str());
                m
            },
        };
        ControlFlow::Break(JsonError(message))
    }
}

} // verus!
