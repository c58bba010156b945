//! The JSON text of strings and of lists of strings, in compact form. A
//! string is written by `serde_json`; a list is put together here.

use vstd::prelude::*;
use vstd::string::*;
use crate::hexcode::hex_digit;
use crate::text::texts;

verus! {

/// How one character stands inside a JSON string: quote, backslash and the
/// control characters below U+0020 are escaped, every other character
/// stands for itself.
pub open spec fn json_escape(c: char) -> Seq<char> {
    if c == '"' {
        seq!['\\', '"']
    } else if c == '\\' {
        seq!['\\', '\\']
    } else if c == '\u{8}' {
        seq!['\\', 'b']
    } else if c == '\u{c}' {
        seq!['\\', 'f']
    } else if c == '\n' {
        seq!['\\', 'n']
    } else if c == '\r' {
        seq!['\\', 'r']
    } else if c == '\t' {
        seq!['\\', 't']
    } else if (c as u32) < 0x20 {
        seq!['\\', 'u', '0', '0', hex_digit((c as u32) as int / 16), hex_digit((c as u32) as int % 16)]
    } else {
        seq![c]
    }
}

/// The characters of `text`, each escaped for a JSON string.
pub open spec fn json_escaped(text: Seq<char>) -> Seq<char>
    decreases text.len(),
{
    if text.len() == 0 {
        Seq::<char>::empty()
    } else {
        json_escaped(text.drop_last()) + json_escape(text.last())
    }
}

/// `text` as a JSON string: escaped, between double quotes.
pub open spec fn json_string(text: Seq<char>) -> Seq<char> {
    seq!['"'] + json_escaped(text) + seq!['"']
}

/// The JSON strings of `items`, separated by commas.
pub open spec fn json_joined(items: Seq<Seq<char>>) -> Seq<char>
    decreases items.len(),
{
    if items.len() == 0 {
        Seq::<char>::empty()
    } else if items.len() == 1 {
        json_string(items[0])
    } else {
        json_joined(items.drop_last()) + seq![','] + json_string(items.last())
    }
}

/// `items` as a JSON array of strings.
pub open spec fn json_string_list(items: Seq<Seq<char>>) -> Seq<char> {
    seq!['['] + json_joined(items) + seq![']']
}

/// `serde_json::to_string` on a string slice: the text between double
/// quotes, with quote, backslash and control characters escaped as
/// `json_escape` says. Serialising a string cannot fail.
#[verifier::external_body]
pub(crate) fn json_of_str(text: &str) -> (r: String)
    ensures
        r@ == json_string(text@),
{
    serde_json::to_string(text).unwrap()
}

/// Appends the JSON strings of `items`, separated by commas.
fn push_json_joined(out: &mut String, items: &Vec<String>)
    ensures
        final(out)@ == old(out)@ + json_joined(texts(items@)),
{
    let mut i: usize = 0;
    proof {
        assert(texts(items@).take(0) =~= Seq::<Seq<char>>::empty());
    }
    while i < items.len()
        invariant
            i <= items@.len(),
            out@ == old(out)@ + json_joined(texts(items@).take(i as int)),
        decreases items@.len() - i,
    {
        let ghost prior = texts(items@).take(i as int);
        if i > 0 {
            out.push(',');
        }
        out.append(json_of_str(items[i].as_str()).as_str());
        proof {
            let next = texts(items@).take(i as int + 1);
            assert(next.drop_last() =~= prior);
            assert(next.last() == items@[i as int]@);
            if i == 0 {
                assert(next[0] == items@[0]@);
                assert(prior =~= Seq::<Seq<char>>::empty());
            }
            assert(out@ =~= old(out)@ + json_joined(next));
        }
        i += 1;
    }
    proof {
        assert(texts(items@).take(i as int) =~= texts(items@));
    }
}

/// `items` as a JSON array of strings, in compact form.
pub fn json_of_list(items: &Vec<String>) -> (r: String)
    ensures
        r@ == json_string_list(texts(items@)),
{
    let mut out = String::new();
    out.push('[');
    push_json_joined(&mut out, items);
    out.push(']');
    proof {
        assert(out@ =~= json_string_list(texts(items@)));
    }
    out
}

} // verus!
