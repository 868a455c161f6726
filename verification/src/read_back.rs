//! Why a debug form is read back as the entry it was made of.
use vstd::prelude::*;

use crate::format_options;
use crate::format_options::{FormatOptions, Radix};
use crate::reader;
use crate::solid_text;

verus! {

pub(crate) proof fn stripped_is_solid(fill: char, text: Seq<char>)
    ensures
        reader::stripped(fill, text) == solid_text::solid(fill, text),
    decreases text.len(),
{
    reveal(Seq::filter);
    if text.len() > 0 {
        stripped_is_solid(fill, text.drop_last());
    } else {
        assert(reader::stripped(fill, text) =~= seq![]);
    }
}

/// A text is cut at its first mark.
pub(crate) proof fn cut_at_mark(a: Seq<char>, mark: char, rest: Seq<char>)
    requires
        solid_text::free_of(a, mark),
    ensures
        reader::up_to(a, mark) == a,
        reader::past(a, mark) == Seq::<char>::empty(),
        reader::up_to(a + (seq![mark] + rest), mark) == a,
        reader::past(a + (seq![mark] + rest), mark) == rest,
    decreases a.len(),
{
    let whole = a + (seq![mark] + rest);
    if a.len() == 0 {
        assert(whole.skip(1) =~= rest);
        assert(reader::up_to(whole, mark) =~= a);
        assert(reader::up_to(a, mark) =~= a);
    } else {
        let tail = a.skip(1);
        assert forall|i: int| 0 <= i < tail.len() implies #[trigger] tail[i] != mark by {
            assert(tail[i] == a[i + 1]);
        }
        cut_at_mark(tail, mark, rest);
        assert(whole[0] == a[0]);
        assert(whole.skip(1) =~= tail + (seq![mark] + rest));
        assert(seq![a[0]] + tail =~= a);
    }
}

/// What follows a known beginning is found.
pub(crate) proof fn found_behind(opening: Seq<char>, rest: Seq<char>)
    ensures
        reader::behind(opening + rest, opening) == Some(rest),
{
    assert((opening + rest).take(opening.len() as int) =~= opening);
    assert((opening + rest).skip(opening.len() as int) =~= rest);
}

pub(crate) proof fn number_of_zeros(radix: Radix, lead: Seq<char>, count: nat)
    requires
        lead.len() == 0 || lead.last() == '+' || lead.last() == 'x',
    ensures
        reader::number(radix, lead + format_options::repeated('0', count)) == 0,
    decreases count,
{
    let text = lead + format_options::repeated('0', count);
    if count == 0 {
        assert(text =~= lead);
    } else {
        let fewer = (count - 1) as nat;
        assert(text.drop_last() =~= lead + format_options::repeated('0', fewer));
        number_of_zeros(radix, lead, fewer);
    }
}

pub(crate) proof fn number_of_digits(radix: Radix, lead: Seq<char>, count: nat, n: nat)
    requires
        lead.len() == 0 || lead.last() == '+' || lead.last() == 'x',
    ensures
        reader::number(
            radix,
            lead + (format_options::repeated('0', count) + format_options::digits(radix, n)),
        ) == n,
    decreases n,
{
    let zeros = format_options::repeated('0', count);
    let text = lead + (zeros + format_options::digits(radix, n));
    match radix {
        Radix::Decimal => {
            if n < 10 {
                number_of_zeros(radix, lead, count);
                assert(text.drop_last() =~= lead + zeros);
            } else {
                number_of_digits(radix, lead, count, n / 10);
                assert(text.drop_last() =~= lead + (zeros + format_options::digits(
                    radix,
                    n / 10,
                )));
            }
        },
        _ => {
            if n < 16 {
                number_of_zeros(radix, lead, count);
                assert(text.drop_last() =~= lead + zeros);
            } else {
                number_of_digits(radix, lead, count, n / 16);
                assert(text.drop_last() =~= lead + (zeros + format_options::digits(
                    radix,
                    n / 16,
                )));
            }
        },
    }
}

pub(crate) proof fn number_of_integer(options: FormatOptions, n: nat)
    ensures
        reader::number(options.radix, solid_text::solid_integer(options, n)) == n,
{
    number_of_digits(
        options.radix,
        options.lead(),
        solid_text::leading_zeros(options, n).len(),
        n,
    );
    assert(solid_text::leading_zeros(options, n) =~= format_options::repeated(
        '0',
        solid_text::leading_zeros(options, n).len(),
    ));
}

/// The items of a group, from the first on.
pub(crate) proof fn items_from_the_front(alternate: bool, items: Seq<Seq<char>>)
    requires
        items.len() > 0,
    ensures
        solid_text::terminated(items) == items[0] + (seq![','] + solid_text::terminated(
            items.skip(1),
        )),
        items.len() > 1 ==> solid_text::solid_items(alternate, items) == items[0] + (seq![',']
            + solid_text::solid_items(alternate, items.skip(1))),
    decreases items.len(),
{
    let front = items.drop_last();
    if items.len() == 1 {
        assert(front =~= seq![]);
        assert(items.skip(1) =~= seq![]);
        assert(solid_text::terminated(front) =~= seq![]);
        assert(solid_text::terminated(items) =~= items[0] + (seq![','] + solid_text::terminated(
            items.skip(1),
        )));
    } else {
        items_from_the_front(alternate, front);
        assert(front.skip(1) =~= items.skip(1).drop_last());
        assert(solid_text::terminated(items) =~= items[0] + (seq![','] + solid_text::terminated(
            items.skip(1),
        )));
        assert(solid_text::solid_items(alternate, items) =~= items[0] + (seq![',']
            + solid_text::solid_items(alternate, items.skip(1))));
    }
}

pub(crate) proof fn numbers_of_items(
    radix: Radix,
    alternate: bool,
    items: Seq<Seq<char>>,
)
    requires
        forall|i: int|
            0 <= i < items.len() ==> solid_text::free_of(#[trigger] items[i], ',')
                && items[i].len() > 0,
    ensures
        ({
            let told = reader::numbers(radix, solid_text::solid_items(alternate, items));
            &&& told.len() == items.len()
            &&& forall|i: int|
                0 <= i < items.len() ==> #[trigger] told[i] == reader::number(radix, items[i])
        }),
    decreases items.len(),
{
    let text = solid_text::solid_items(alternate, items);
    if items.len() > 0 {
        let first = items[0];
        let others = items.skip(1);
        let rest = solid_text::solid_items(alternate, others);
        assert forall|i: int| 0 <= i < others.len() implies solid_text::free_of(
            #[trigger] others[i],
            ',',
        ) && others[i].len() > 0 by {
            assert(others[i] == items[i + 1]);
        }
        numbers_of_items(radix, alternate, others);
        items_from_the_front(alternate, items);
        cut_at_mark(first, ',', rest);
        if items.len() == 1 && !alternate {
            assert(items.drop_last() =~= seq![]);
            assert(solid_text::terminated(items.drop_last()) =~= seq![]);
            assert(text =~= first);
            assert(reader::past(text, ',') =~= rest);
        } else {
            assert(text == first + (seq![','] + rest));
        }
        let told = reader::numbers(radix, text);
        assert(told == seq![reader::number(radix, first)] + reader::numbers(radix, rest));
        assert forall|i: int| 0 <= i < items.len() implies #[trigger] told[i] == reader::number(
            radix,
            items[i],
        ) by {
            if i > 0 {
                assert(told[i] == reader::numbers(radix, rest)[i - 1]);
                assert(others[i - 1] == items[i]);
            }
        }
    }
}

/// Whether the numbers `told` are the bytes `bytes`.
pub open spec fn tells(told: Seq<int>, bytes: Seq<u8>) -> bool {
    &&& told.len() == bytes.len()
    &&& forall|i: int| 0 <= i < bytes.len() ==> #[trigger] told[i] == bytes[i]
}

/// Whether the numbers `told` are the bytes `bytes`, if there are any.
pub open spec fn tells_optional(told: Option<Seq<int>>, bytes: Option<Seq<u8>>) -> bool {
    match (told, bytes) {
        (Some(told), Some(bytes)) => tells(told, bytes),
        (None, None) => true,
        _ => false,
    }
}

pub(crate) proof fn list_of_bytes(options: FormatOptions, bytes: Seq<u8>, rest: Seq<char>)
    ensures
        ({
            let told = reader::list(options.radix, solid_text::solid_bytes(options, bytes) + rest);
            match told {
                Some((elements, after)) => tells(elements, bytes) && after == rest,
                None => false,
            }
        }),
{
    let items = solid_text::solid_elements(options, bytes);
    let body = solid_text::solid_items(options.alternate, items);
    assert forall|i: int| 0 <= i < items.len() implies solid_text::is_number_text(
        #[trigger] items[i],
    ) && items[i].len() > 0 by {
        solid_text::integers_are_number_text(options, bytes[i] as nat);
    }
    solid_text::lists_hold_no_bracket(items);
    if items.len() > 0 {
        solid_text::lists_hold_no_bracket(items.drop_last());
        assert(solid_text::is_number_text(items[items.len() - 1]));
    }
    assert(solid_text::solid_bytes(options, bytes) + rest =~= seq!['['] + (body + (seq![']']
        + rest)));
    found_behind(seq!['['], body + (seq![']'] + rest));
    cut_at_mark(body, ']', rest);
    numbers_of_items(options.radix, options.alternate, items);
    assert forall|i: int| 0 <= i < bytes.len() implies #[trigger] reader::numbers(
        options.radix,
        body,
    )[i] == bytes[i] by {
        assert(items[i] == solid_text::solid_integer(options, bytes[i] as nat));
        number_of_integer(options, bytes[i] as nat);
    }
}

pub(crate) proof fn optional_list_of_bytes(
    options: FormatOptions,
    bytes: Option<Seq<u8>>,
    rest: Seq<char>,
)
    ensures
        ({
            let told = reader::optional_list(
                options.radix,
                solid_text::solid_optional_bytes(options, bytes) + rest,
            );
            match told {
                Some((elements, after)) => tells_optional(elements, bytes) && after == rest,
                None => false,
            }
        }),
{
    reveal_strlit("None");
    reveal_strlit("Some(");
    reveal_strlit(")");
    match bytes {
        None => {
            found_behind("None"@, rest);
        },
        Some(bytes) => {
            let comma = solid_text::last_comma(options.alternate);
            let list = solid_text::solid_bytes(options, bytes);
            let inside = list + (comma + (seq![')'] + rest));
            let text = solid_text::solid_optional_bytes(options, Some(bytes)) + rest;
            assert(text =~= "Some("@ + inside);
            assert(text[0] == 'S');
            assert(text.take(4)[0] == 'S');
            assert(reader::behind(text, "None"@) is None);
            found_behind("Some("@, inside);
            list_of_bytes(options, bytes, comma + (seq![')'] + rest));
            cut_at_mark(comma, ')', rest);
        },
    }
}

} // verus!
