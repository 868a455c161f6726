//! The `Debug` form of byte strings and of groups of items.
use vstd::prelude::*;

use crate::format_options::FormatOptions;

verus! {

/// `text` with four spaces in front of each of its lines.
pub open spec fn indented(text: Seq<char>) -> Seq<char>
    decreases text.len(),
{
    if text.len() == 0 {
        seq![]
    } else {
        let before = text.drop_last();
        let margin = if before.len() == 0 || before.last() == '\n' {
            "    "@
        } else {
            seq![]
        };
        indented(before) + margin + seq![text.last()]
    }
}

/// One item of a group. In the alternate form it takes lines of its own, one
/// level further in; otherwise a comma parts it from the item before it.
pub open spec fn item_text(alternate: bool, first: bool, item: Seq<char>) -> Seq<char> {
    if alternate {
        (if first {
            "\n"@
        } else {
            seq![]
        }) + indented(item + ",\n"@)
    } else {
        (if first {
            seq![]
        } else {
            ", "@
        }) + item
    }
}

/// The items of a group, one after the other.
pub open spec fn items_text(alternate: bool, items: Seq<Seq<char>>) -> Seq<char>
    decreases items.len(),
{
    if items.len() == 0 {
        seq![]
    } else {
        items_text(alternate, items.drop_last()) + item_text(
            alternate,
            items.len() == 1,
            items.last(),
        )
    }
}

/// A group of items between its two delimiters.
pub open spec fn group_text(
    alternate: bool,
    open: Seq<char>,
    items: Seq<Seq<char>>,
    close: Seq<char>,
) -> Seq<char> {
    open + items_text(alternate, items) + close
}

/// The `Debug` form of a byte string: a list of integers in square brackets.
pub open spec fn bytes_text(options: FormatOptions, bytes: Seq<u8>) -> Seq<char> {
    group_text(
        options.alternate,
        "["@,
        bytes.map_values(|byte: u8| options.integer_text(byte as nat)),
        "]"@,
    )
}

/// The `Debug` form of a byte string that may be missing.
pub open spec fn optional_bytes_text(options: FormatOptions, bytes: Option<Seq<u8>>) -> Seq<char> {
    match bytes {
        None => "None"@,
        Some(bytes) => group_text(
            options.alternate,
            "Some("@,
            seq![bytes_text(options, bytes)],
            ")"@,
        ),
    }
}

/// Whether a character can stand in the text of an integer, padding aside.
pub open spec fn is_number_char(ch: char) -> bool {
    ||| '0' <= ch <= '9'
    ||| 'a' <= ch <= 'f'
    ||| 'A' <= ch <= 'F'
    ||| ch == '+'
    ||| ch == 'x'
}

/// Whether a character can stand in the text of a value, blanks and padding
/// aside.
pub open spec fn is_value_char(ch: char) -> bool {
    ||| is_number_char(ch)
    ||| ch == ','
    ||| ch == '[' || ch == ']'
    ||| ch == '(' || ch == ')'
    ||| ch == 'N' || ch == 'o' || ch == 'n' || ch == 'e'
    ||| ch == 'S' || ch == 'm'
}

/// The bytes of a byte string that may be missing.
pub open spec fn optional_view(bytes: Option<Vec<u8>>) -> Option<Seq<u8>> {
    match bytes {
        Some(bytes) => Some(bytes@),
        None => None,
    }
}

/// The texts that `items` hold.
pub open spec fn texts(items: Seq<String>) -> Seq<Seq<char>> {
    items.map_values(|item: String| item@)
}

/// Appends `text`, with four spaces in front of each of its lines, to `out`.
fn push_indented(out: &mut String, text: &str)
    ensures
        final(out)@ == old(out)@ + indented(text@),
{
    let ghost start = out@;
    let mut line_start = true;
    for ch in it: text.chars()
        invariant
            it.seq() == text@,
            line_start == (it.index() == 0 || text@[it.index() - 1] == '\n'),
            out@ == start + indented(text@.take(it.index())),
    {
        if line_start {
            out.append("    ");
        }
        out.push(ch);
        line_start = ch == '\n';
        proof {
            let next = text@.take(it.index() + 1);
            assert(next.drop_last() =~= text@.take(it.index()));
            assert(out@ =~= start + indented(next));
        }
    }
    assert(text@.take(text@.len() as int) =~= text@);
}

/// A group of items between its two delimiters.
pub(crate) fn group(alternate: bool, open: &str, items: &Vec<String>, close: &str) -> (text: String)
    ensures
        text@ == group_text(alternate, open@, texts(items@), close@),
{
    let mut text = open.to_owned();
    assert(text@ =~= open@ + items_text(alternate, texts(items@).take(0)));
    for i in 0..items.len()
        invariant
            text@ == open@ + items_text(alternate, texts(items@).take(i as int)),
    {
        let ghost before = text@;
        if alternate {
            if i == 0 {
                text.append("\n");
            }
            let mut line = items[i].clone();
            line.append(",\n");
            push_indented(&mut text, line.as_str());
        } else {
            if i > 0 {
                text.append(", ");
            }
            text.append(items[i].as_str());
        }
        proof {
            let done = texts(items@).take(i + 1);
            assert(done.drop_last() =~= texts(items@).take(i as int));
            assert(text@ =~= before + item_text(alternate, i == 0, done.last()));
            assert(text@ =~= open@ + items_text(alternate, done));
        }
    }
    assert(texts(items@).take(items@.len() as int) =~= texts(items@));
    text.append(close);
    text
}

/// The `Debug` form of a byte string.
pub(crate) fn bytes_debug(options: &FormatOptions, bytes: &Vec<u8>) -> (text: String)
    ensures
        text@ == bytes_text(*options, bytes@),
{
    let mut items: Vec<String> = Vec::new();
    for i in 0..bytes.len()
        invariant
            items@.len() == i,
            forall|j: int|
                0 <= j < i ==> (#[trigger] items@[j])@ == options.integer_text(bytes@[j] as nat),
    {
        items.push(options.integer(bytes[i] as usize));
    }
    assert(texts(items@) =~= bytes@.map_values(|byte: u8| options.integer_text(byte as nat)));
    group(options.alternate, "[", &items, "]")
}

/// The `Debug` form of a byte string that may be missing.
pub(crate) fn optional_bytes_debug(options: &FormatOptions, bytes: &Option<Vec<u8>>) -> (text:
    String)
    ensures
        text@ == optional_bytes_text(*options, optional_view(*bytes)),
{
    match bytes {
        None => "None".to_owned(),
        Some(bytes) => {
            let items = vec![bytes_debug(options, bytes)];
            assert(texts(items@) =~= seq![bytes_text(*options, bytes@)]);
            group(options.alternate, "Some(", &items, ")")
        },
    }
}

} // verus!
