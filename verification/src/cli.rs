//! What the command-line client prints.

use crate::text::{chars_of, join2};
use vstd::prelude::*;
use vstd::utf8::encode_utf8;

verus! {

/// The number of bytes of a text.
pub open spec fn byte_len(text: Seq<char>) -> nat {
    encode_utf8(text).len()
}

/// `width` is the greatest number of bytes of a name, 0 where there is no name.
pub open spec fn is_width(names: Seq<String>, width: nat) -> bool {
    &&& forall|i: int| 0 <= i < names.len() ==> byte_len((#[trigger] names[i])@) <= width
    &&& width == 0 || exists|i: int|
        0 <= i < names.len() && byte_len((#[trigger] names[i])@) == width
}

/// The width of the column of names.
pub fn column_width(names: &Vec<String>) -> (width: usize)
    ensures
        is_width(names@, width as nat),
{
    let mut width: usize = 0;
    let mut i: usize = 0;
    while i < names.len()
        invariant
            i <= names@.len(),
            forall|j: int| 0 <= j < i ==> byte_len((#[trigger] names@[j])@) <= width,
            width == 0 || exists|j: int|
                0 <= j < i && byte_len((#[trigger] names@[j])@) == width,
        decreases names@.len() - i,
    {
        let n: usize = names[i].as_str().as_bytes().len();
        assert(byte_len(names@[i as int]@) == n);
        if n > width {
            width = n;
        }
        i = i + 1;
    }
    width
}

/// A text with spaces behind it, up to a width; one that is longer stays as it
/// is.
pub open spec fn padded(text: Seq<char>, width: nat) -> Seq<char> {
    text + Seq::new(
        if text.len() < width {
            (width - text.len()) as nat
        } else {
            0
        },
        |i: int| ' ',
    )
}

/// The line that shows a parameter and its value.
pub open spec fn spec_show_line(name: Seq<char>, width: nat, value: Seq<char>) -> Seq<char> {
    "  "@ + padded(name, width) + "  =  "@ + value
}

/// The line that shows a parameter and its value, where `value` is the value as
/// it is written.
pub fn show_line(name: &str, width: usize, value: &str) -> (line: String)
    ensures
        line@ == spec_show_line(name@, width as nat, value@),
{
    let mut line: String = join2("  ", name);
    let mut n: usize = chars_of(name).len();
    let ghost start = n;
    assert(padded(name@, n as nat) =~= name@);
    assert("  "@ + name@ =~= "  "@ + padded(name@, n as nat));
    while n < width
        invariant
            start == name@.len(),
            start <= n,
            n <= width || n == start,
            line@ == "  "@ + padded(name@, n as nat),
        decreases width - n,
    {
        line.push(' ');
        assert("  "@ + padded(name@, (n + 1) as nat) =~= ("  "@ + padded(name@, n as nat)).push(
            ' ',
        ));
        n = n + 1;
    }
    assert(padded(name@, n as nat) =~= padded(name@, width as nat));
    line.append("  =  ");
    line.append(value);
    line
}

/// The line that shows the active profile.
pub fn active_line(name: &str) -> (line: String)
    ensures
        line@ == (if name@.len() == 0 {
            "(no profile applied yet)"@
        } else {
            name@
        }),
{
    if name.is_empty() {
        "(no profile applied yet)".to_owned()
    } else {
        name.to_owned()
    }
}

/// Where the names have no more characters than the column is wide, the values
/// of all lines stand in one column.
pub proof fn law_values_aligned(
    a: Seq<char>,
    b: Seq<char>,
    width: nat,
    va: Seq<char>,
    vb: Seq<char>,
)
    requires
        a.len() <= width,
        b.len() <= width,
    ensures
        spec_show_line(a, width, va).len() - va.len() == spec_show_line(b, width, vb).len()
            - vb.len(),
{
}

/// A padded text is the text and spaces behind it, as long as the width, or as
/// the text where that is longer.
pub proof fn law_padded(text: Seq<char>, width: nat, i: int)
    ensures
        padded(text, width).len() == (if text.len() < width {
            width
        } else {
            text.len()
        }),
        padded(text, width).take(text.len() as int) == text,
        text.len() <= i < padded(text, width).len() ==> padded(text, width)[i] == ' ',
{
    assert(padded(text, width).take(text.len() as int) =~= text);
}

/// A line is two spaces, the name padded to the width, an equals sign with two
/// spaces on either side, and the value.
pub proof fn law_show_line(name: Seq<char>, width: nat, value: Seq<char>)
    ensures
        spec_show_line(name, width, value) == seq![' ', ' '] + padded(name, width) + seq![
            ' ',
            ' ',
            '=',
            ' ',
            ' ',
        ] + value,
{
    reveal_strlit("  ");
    reveal_strlit("  =  ");
    assert("  "@ =~= seq![' ', ' ']);
    assert("  =  "@ =~= seq![' ', ' ', '=', ' ', ' ']);
}

/// The width is the greatest byte length: no name is longer, and one is as long.
pub proof fn law_width(names: Seq<String>, width: nat, i: int)
    requires
        is_width(names, width),
        0 <= i < names.len(),
    ensures
        encode_utf8(names[i]@).len() <= width,
        width > 0 ==> exists|k: int|
            0 <= k < names.len() && encode_utf8((#[trigger] names[k])@).len() == width,
        byte_len(names[i]@) == encode_utf8(names[i]@).len(),
{
    if width > 0 {
        let k = choose|k: int| 0 <= k < names.len() && byte_len((#[trigger] names[k])@) == width;
        assert(encode_utf8(names[k]@).len() == width);
    }
}

} // verus!
