//! JSON text: how a document is written out, compact, the way `serde_json`
//! writes it. Storage compares a nested object or array by this text.

use vstd::prelude::*;

use crate::json::{items_view, lemma_items_view, lemma_members_view, members_view, Json, JsonNumber, JsonNumberView, JsonView};
use crate::text::{chars_of, push_char, push_signed_decimal, signed_decimal};

verus! {

/// The lower-case hex digit for `d`, which is below 16.
pub open spec fn hex_digit(d: int) -> char {
    seq!['0', '1', '2', '3', '4', '5', '6', '7', '8', '9', 'a', 'b', 'c', 'd', 'e', 'f'][d]
}

/// How `serde_json` writes `c` inside a string.
pub open spec fn escaped_char(c: char) -> Seq<char> {
    if c == '"' {
        seq!['\\', '"']
    } else if c == '\\' {
        seq!['\\', '\\']
    } else if c == '\n' {
        seq!['\\', 'n']
    } else if c == '\r' {
        seq!['\\', 'r']
    } else if c == '\t' {
        seq!['\\', 't']
    } else if c == '\u{8}' {
        seq!['\\', 'b']
    } else if c == '\u{c}' {
        seq!['\\', 'f']
    } else if (c as u32) < 0x20 {
        seq!['\\', 'u', '0', '0', hex_digit((c as u32) as int / 16), hex_digit((c as u32) as int % 16)]
    } else {
        seq![c]
    }
}

/// Every character of `s` through [`escaped_char`].
pub open spec fn escaped(s: Seq<char>) -> Seq<char>
    decreases s.len(),
{
    if s.len() == 0 {
        Seq::empty()
    } else {
        escaped(s.drop_last()) + escaped_char(s.last())
    }
}

/// `s` as a JSON string literal.
pub open spec fn quoted_json(s: Seq<char>) -> Seq<char> {
    seq!['"'] + escaped(s) + seq!['"']
}

/// The compact JSON text of a value, as `serde_json` writes it.
pub open spec fn json_text(v: JsonView) -> Seq<char>
    decreases v, 2nat,
{
    match v {
        JsonView::Null => "null"@,
        JsonView::Bool(b) => if b { "true"@ } else { "false"@ },
        JsonView::Number(JsonNumberView::Int(i)) => signed_decimal(i as int),
        JsonView::Number(JsonNumberView::Real(r)) => r.json_text,
        JsonView::String(s) => quoted_json(s),
        JsonView::Array(items) => seq!['['] + items_text(items) + seq![']'],
        JsonView::Object(members) => seq!['{'] + members_text(members) + seq!['}'],
    }
}

/// Array elements, comma-separated.
pub open spec fn items_text(s: Seq<JsonView>) -> Seq<char>
    decreases s, 0nat,
{
    if s.len() == 0 {
        Seq::empty()
    } else if s.len() == 1 {
        json_text(s[0])
    } else {
        items_text(s.drop_last()) + seq![','] + json_text(s.last())
    }
}

/// Object members, `"key":value`, comma-separated.
pub open spec fn members_text(s: Seq<(Seq<char>, JsonView)>) -> Seq<char>
    decreases s, 1nat,
{
    if s.len() == 0 {
        Seq::empty()
    } else if s.len() == 1 {
        quoted_json(s[0].0) + seq![':'] + json_text(s[0].1)
    } else {
        members_text(s.drop_last()) + seq![','] + quoted_json(s.last().0) + seq![':'] + json_text(s.last().1)
    }
}

fn hex(d: u32) -> (c: char)
    requires
        d < 16,
    ensures
        c == hex_digit(d as int),
{
    if d < 10 {
        if d == 0 { '0' } else if d == 1 { '1' } else if d == 2 { '2' } else if d == 3 { '3' }
        else if d == 4 { '4' } else if d == 5 { '5' } else if d == 6 { '6' } else if d == 7 { '7' }
        else if d == 8 { '8' } else { '9' }
    } else {
        if d == 10 { 'a' } else if d == 11 { 'b' } else if d == 12 { 'c' } else if d == 13 { 'd' }
        else if d == 14 { 'e' } else { 'f' }
    }
}

fn push_escaped_char(out: &mut String, c: char)
    ensures
        final(out)@ == old(out)@ + escaped_char(c),
{
    if c == '"' {
        push_char(out, '\\');
        push_char(out, '"');
    } else if c == '\\' {
        push_char(out, '\\');
        push_char(out, '\\');
    } else if c == '\n' {
        push_char(out, '\\');
        push_char(out, 'n');
    } else if c == '\r' {
        push_char(out, '\\');
        push_char(out, 'r');
    } else if c == '\t' {
        push_char(out, '\\');
        push_char(out, 't');
    } else if c == '\u{8}' {
        push_char(out, '\\');
        push_char(out, 'b');
    } else if c == '\u{c}' {
        push_char(out, '\\');
        push_char(out, 'f');
    } else if (c as u32) < 0x20 {
        let code = c as u32;
        push_char(out, '\\');
        push_char(out, 'u');
        push_char(out, '0');
        push_char(out, '0');
        push_char(out, hex(code / 16));
        push_char(out, hex(code % 16));
    } else {
        push_char(out, c);
    }
}

fn push_quoted(out: &mut String, s: &str)
    ensures
        final(out)@ == old(out)@ + quoted_json(s@),
{
    let chars = chars_of(s);
    let ghost start = out@;
    push_char(out, '"');
    let mut i: usize = 0;
    while i < chars.len()
        invariant
            0 <= i <= chars.len(),
            chars@ == s@,
            out@ == start + seq!['"'] + escaped(chars@.take(i as int)),
        decreases chars.len() - i,
    {
        assert(chars@.take(i + 1).drop_last() =~= chars@.take(i as int));
        push_escaped_char(out, chars[i]);
        i = i + 1;
    }
    assert(chars@.take(chars.len() as int) =~= chars@);
    push_char(out, '"');
    assert(out@ =~= start + quoted_json(s@));
}

/// Appends the compact JSON text of `v`.
#[verifier::loop_isolation(false)]
pub fn push_json(out: &mut String, v: &Json)
    ensures
        final(out)@ == old(out)@ + json_text(v@),
    decreases v,
{
    let ghost start = out@;
    match v {
        Json::Null => {
            out.append("null");
        },
        Json::Bool(b) => {
            if *b {
                out.append("true");
            } else {
                out.append("false");
            }
        },
        Json::Number(JsonNumber::Int(i)) => {
            push_signed_decimal(out, *i);
        },
        Json::Number(JsonNumber::Real(r)) => {
            out.append(r.json_text.as_str());
        },
        Json::String(s) => {
            push_quoted(out, s.as_str());
        },
        Json::Array(items) => {
            proof {
                lemma_items_view(items@);
            }
            push_char(out, '[');
            let mut i: usize = 0;
            while i < items.len()
                invariant
                    0 <= i <= items.len(),
                    items_view(items@).len() == items@.len(),
                    forall|k: int| 0 <= k < items@.len() ==> #[trigger] items_view(items@)[k] == items@[k]@,
                    out@ == start + seq!['['] + items_text(items_view(items@).take(i as int)),
                decreases items.len() - i,
            {
                proof {
                    assert(decreases_to!(*v => *items));
                    assert(decreases_to!(*items => items@));
                    assert(decreases_to!(items@ => items@[i as int]));
                }
                let ghost before = out@;
                let ghost prefix = items_view(items@).take(i as int);
                let ghost next = items_view(items@).take(i + 1);
                assert(next.drop_last() =~= prefix);
                assert(next.last() == items@[i as int]@);
                if i > 0 {
                    push_char(out, ',');
                }
                push_json(out, &items[i]);
                assert(next.len() == 1 ==> next[0] == next.last());
                assert(out@ =~= start + seq!['['] + items_text(next));
                i = i + 1;
            }
            assert(items_view(items@).take(items.len() as int) =~= items_view(items@));
            push_char(out, ']');
            assert(out@ =~= start + json_text(v@));
        },
        Json::Object(members) => {
            proof {
                lemma_members_view(members@);
            }
            push_char(out, '{');
            let mut i: usize = 0;
            while i < members.len()
                invariant
                    0 <= i <= members.len(),
                    members_view(members@).len() == members@.len(),
                    forall|k: int| 0 <= k < members@.len() ==> #[trigger] members_view(members@)[k] == (members@[k].0@, members@[k].1@),
                    out@ == start + seq!['{'] + members_text(members_view(members@).take(i as int)),
                decreases members.len() - i,
            {
                proof {
                    assert(decreases_to!(*v => *members));
                    assert(decreases_to!(*members => members@));
                    assert(decreases_to!(members@ => members@[i as int]));
                    assert(decreases_to!(members@[i as int] => members@[i as int].1));
                }
                let ghost prefix = members_view(members@).take(i as int);
                let ghost next = members_view(members@).take(i + 1);
                assert(next.drop_last() =~= prefix);
                assert(next.last() == (members@[i as int].0@, members@[i as int].1@));
                if i > 0 {
                    push_char(out, ',');
                }
                push_quoted(out, members[i].0.as_str());
                push_char(out, ':');
                push_json(out, &members[i].1);
                assert(next.len() == 1 ==> next[0] == next.last());
                assert(out@ =~= start + seq!['{'] + members_text(next));
                i = i + 1;
            }
            assert(members_view(members@).take(members.len() as int) =~= members_view(members@));
            push_char(out, '}');
            assert(out@ =~= start + json_text(v@));
        },
    }
}

} // verus!
