//! A reader of debug forms: what a person makes of the text, told only the
//! number system and the character that pads integers.
use vstd::prelude::*;

use crate::format_options::Radix;

verus! {

/// What a debug form tells.
pub struct Reading {
    pub label: Seq<int>,
    pub context: Option<Seq<int>>,
    pub material_len: int,
}

/// `text` without spaces, line breaks and the character `fill`.
pub open spec fn stripped(fill: char, text: Seq<char>) -> Seq<char> {
    text.filter(|ch: char| ch != ' ' && ch != '\n' && ch != fill)
}

/// What stands before the first `mark` in `text`; all of it if there is none.
pub open spec fn up_to(text: Seq<char>, mark: char) -> Seq<char>
    decreases text.len(),
{
    if text.len() == 0 || text[0] == mark {
        seq![]
    } else {
        seq![text[0]] + up_to(text.skip(1), mark)
    }
}

/// What stands behind the first `mark` in `text`; nothing if there is none.
pub open spec fn past(text: Seq<char>, mark: char) -> Seq<char>
    decreases text.len(),
{
    if text.len() == 0 {
        seq![]
    } else if text[0] == mark {
        text.skip(1)
    } else {
        past(text.skip(1), mark)
    }
}

/// What stands behind `opening` in a text that begins with it.
pub open spec fn behind(text: Seq<char>, opening: Seq<char>) -> Option<Seq<char>> {
    if opening.len() <= text.len() && text.take(opening.len() as int) == opening {
        Some(text.skip(opening.len() as int))
    } else {
        None
    }
}

/// The number that `text` stands for: each digit counts the base times more than
/// the one behind it, and counting begins behind a sign and a prefix.
pub open spec fn number(radix: Radix, text: Seq<char>) -> int
    decreases text.len(),
{
    if text.len() == 0 || text.last() == '+' || text.last() == 'x' {
        0
    } else {
        let ch = text.last();
        let value = if ch <= '9' {
            ch as int - '0' as int
        } else if ch <= 'F' {
            ch as int - 'A' as int + 10
        } else {
            ch as int - 'a' as int + 10
        };
        let base: int = if radix == Radix::Decimal {
            10
        } else {
            16
        };
        number(radix, text.drop_last()) * base + value
    }
}

/// The numbers that commas part in `text`. A comma behind the last is allowed.
pub open spec fn numbers(radix: Radix, text: Seq<char>) -> Seq<int>
    decreases text.len(),
{
    if text.len() == 0 {
        seq![]
    } else if past(text, ',').len() < text.len() {
        seq![number(radix, up_to(text, ','))] + numbers(radix, past(text, ','))
    } else {
        seq![]
    }
}

/// The list at the beginning of `text`, and what follows it.
pub open spec fn list(radix: Radix, text: Seq<char>) -> Option<(Seq<int>, Seq<char>)> {
    match behind(text, seq!['[']) {
        Some(inside) => Some((numbers(radix, up_to(inside, ']')), past(inside, ']'))),
        None => None,
    }
}

/// The list that may be missing at the beginning of `text`, and what follows it.
pub open spec fn optional_list(radix: Radix, text: Seq<char>) -> Option<
    (Option<Seq<int>>, Seq<char>),
> {
    match behind(text, "None"@) {
        Some(rest) => Some((None, rest)),
        None => match behind(text, "Some("@) {
            Some(inside) => match list(radix, inside) {
                Some((elements, rest)) => Some((Some(elements), past(rest, ')'))),
                None => None,
            },
            None => None,
        },
    }
}

/// What the debug form `text` tells. The label, the context and the length are
/// each looked for behind their own names.
pub open spec fn reading(radix: Radix, fill: char, text: Seq<char>) -> Option<Reading> {
    match behind(stripped(fill, text), stripped(fill, "KeyingMaterialEntry { label: "@)) {
        Some(at_label) => match list(radix, at_label) {
            Some((label, behind_label)) => match behind(
                behind_label,
                stripped(fill, ", context: "@),
            ) {
                Some(at_context) => match optional_list(radix, at_context) {
                    Some((context, behind_context)) => match behind(
                        behind_context,
                        stripped(fill, ", material_len: "@),
                    ) {
                        Some(at_len) => Some(
                            Reading {
                                label,
                                context,
                                material_len: number(radix, up_to(up_to(at_len, '}'), ',')),
                            },
                        ),
                        None => None,
                    },
                    None => None,
                },
                None => None,
            },
            None => None,
        },
        None => None,
    }
}

} // verus!
