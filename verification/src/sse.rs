//! Server-sent-event framing: one `field: value` line in, one event out.

use crate::text::{
    chars_of, find_char, index_of, lemma_index_of, slice_chars, string_of, strip_leading,
    strip_leading_chars, trim, trim_chars,
};
use vstd::prelude::*;
use vstd::string::StringExecFns;

verus! {

/// Field name and value of a line that holds a colon: the name is what
/// stands before the first colon, the value what follows the colons, both
/// without surrounding white space.
pub open spec fn sse_field(line: Seq<char>) -> Option<(Seq<char>, Seq<char>)> {
    let p = index_of(line, ':');
    if p < line.len() {
        Some((trim(line.take(p)), trim(strip_leading(line.skip(p), ':'))))
    } else {
        None
    }
}

/// The text of one event: an optional `event:` line, the `data:` line and
/// the blank line that ends the event.
pub open spec fn sse_format(event: Option<Seq<char>>, data: Seq<char>) -> Seq<char> {
    match event {
        Some(name) => "event: "@ + name + "\ndata: "@ + data + "\n\n"@,
        None => "data: "@ + data + "\n\n"@,
    }
}

/// `sse_field` on a vector of characters.
pub fn split_field(line: &Vec<char>) -> (r: Option<(Vec<char>, Vec<char>)>)
    ensures
        match r {
            Some((f, v)) => sse_field(line@) == Some((f@, v@)),
            None => sse_field(line@) is None,
        },
{
    let p: usize = find_char(line, ':');
    proof {
        lemma_index_of(line@, ':');
    }
    if p < line.len() {
        let head = slice_chars(line, 0, p);
        let tail = slice_chars(line, p, line.len());
        let field = trim_chars(&head);
        let rest = strip_leading_chars(&tail, ':');
        let value = trim_chars(&rest);
        Some((field, value))
    } else {
        None
    }
}

/// Splits one line into field name and value; `None` where the line holds
/// no colon.
pub fn parse_sse_line(line: &str) -> (r: Option<(String, String)>)
    ensures
        match r {
            Some((f, v)) => sse_field(line@) == Some((f@, v@)),
            None => sse_field(line@) is None,
        },
{
    let chars = chars_of(line);
    match split_field(&chars) {
        Some((f, v)) => Some((string_of(&f), string_of(&v))),
        None => None,
    }
}

/// Formats one event.
pub fn format_sse(event: Option<&str>, data: &str) -> (r: String)
    ensures
        r@ == sse_format(
            match event {
                Some(e) => Some(e@),
                None => None,
            },
            data@,
        ),
{
    match event {
        Some(name) => "event: ".to_owned().concat(name).concat("\ndata: ").concat(data).concat(
            "\n\n",
        ),
        None => "data: ".to_owned().concat(data).concat("\n\n"),
    }
}

} // verus!
