//! What holds of the text of every value.
use vstd::prelude::*;

use crate::debug_text;
use crate::format_options;
use crate::format_options::{Alignment, FormatOptions, Radix};
use crate::read_back;
use crate::reader;
use crate::solid_text;

verus! {

/// A numeral is made of the digits of its number system alone, and only that of
/// zero begins with a zero.
pub proof fn numerals_hold_digits_of_their_radix(radix: Radix, n: nat)
    ensures
        format_options::digits(radix, n).len() > 0,
        n > 0 ==> format_options::digits(radix, n)[0] != '0',
        forall|i: int|
            0 <= i < format_options::digits(radix, n).len() ==> {
                let ch = #[trigger] format_options::digits(radix, n)[i];
                ||| '0' <= ch <= '9'
                ||| radix == Radix::LowerHex && 'a' <= ch <= 'f'
                ||| radix == Radix::UpperHex && 'A' <= ch <= 'F'
            },
    decreases n,
{
    match radix {
        Radix::Decimal => {
            if n >= 10 {
                numerals_hold_digits_of_their_radix(radix, n / 10);
            }
        },
        _ => {
            if n >= 16 {
                numerals_hold_digits_of_their_radix(radix, n / 16);
            }
        },
    }
}

/// A numeral is positional: it has as many digits as the number needs and no
/// more, and the digit with `k` digits behind it tells how often the `k`-th power
/// of the base goes into the number, reduced by the base.
pub proof fn numerals_are_positional(radix: Radix, n: nat)
    ensures
        ({
            let text = format_options::digits(radix, n);
            let base: int = if radix == Radix::Decimal {
                10
            } else {
                16
            };
            let symbols = if radix == Radix::UpperHex {
                "0123456789ABCDEF"@
            } else {
                "0123456789abcdef"@
            };
            &&& text.len() > 0
            &&& n < vstd::arithmetic::power::pow(base, text.len())
            &&& text.len() > 1 ==> n >= vstd::arithmetic::power::pow(base, (text.len() - 1) as nat)
            &&& forall|i: int|
                0 <= i < text.len() ==> #[trigger] text[i] == symbols[(n as int
                    / vstd::arithmetic::power::pow(base, (text.len() - 1 - i) as nat)) % base]
        }),
    decreases n,
{
    reveal_strlit("0123456789ABCDEF");
    reveal_strlit("0123456789abcdef");
    let base: int = if radix == Radix::Decimal {
        10
    } else {
        16
    };
    let text = format_options::digits(radix, n);
    assert(base == radix.base());
    if n < base {
        vstd::arithmetic::power::lemma_pow0(base);
        vstd::arithmetic::power::lemma_pow1(base);
        assert(text =~= seq![radix.digit(n)]);
        assert(n as int / 1 % base == n) by {
            vstd::arithmetic::div_mod::lemma_small_mod(n, base as nat);
        }
    } else {
        let rest = (n as int / base) as nat;
        let front = format_options::digits(radix, rest);
        assert(0 < rest < n && n == base * rest + n as int % base && 0 <= n as int % base < base)
            by (nonlinear_arith)
            requires
                n >= base,
                base == 10 || base == 16,
                rest == n as int / base,
        ;
        numerals_are_positional(radix, rest);
        assert(text == front.push(radix.digit((n as int % base) as nat)));
        let len = front.len();
        vstd::arithmetic::power::lemma_pow0(base);
        let high = vstd::arithmetic::power::pow(base, len);
        let low = vstd::arithmetic::power::pow(base, (len - 1) as nat);
        reveal(vstd::arithmetic::power::pow);
        assert(vstd::arithmetic::power::pow(base, len + 1) == base * high);
        assert(high == base * low);
        assert(n < base * high) by (nonlinear_arith)
            requires
                rest < high,
                n == base * rest + n as int % base,
                n as int % base < base,
                base > 0,
        ;
        assert(rest >= low);
        assert(n >= base * low) by (nonlinear_arith)
            requires
                rest >= low,
                n == base * rest + n as int % base,
                0 <= n as int % base,
                base > 0,
        ;
        assert forall|i: int| 0 <= i < text.len() implies #[trigger] text[i] == (
        if radix == Radix::UpperHex {
            "0123456789ABCDEF"@
        } else {
            "0123456789abcdef"@
        })[(n as int / vstd::arithmetic::power::pow(base, (text.len() - 1 - i) as nat)) % base] by {
            if i < len {
                let k = (len - 1 - i) as nat;
                let p = vstd::arithmetic::power::pow(base, k);
                vstd::arithmetic::power::lemma_pow_positive(base, k);
                vstd::arithmetic::div_mod::lemma_div_denominator(n as int, base, p);
                assert(vstd::arithmetic::power::pow(base, k + 1) == base * p);
                assert(text[i] == front[i]);
            } else {
                assert(n as int / 1 == n);
            }
        }
    }
}

/// A numeral is read back as the number it was made of.
pub proof fn numerals_are_read_back(radix: Radix, n: nat)
    ensures
        reader::number(radix, format_options::digits(radix, n)) == n,
{
    let digits = format_options::digits(radix, n);
    read_back::number_of_digits(radix, Seq::empty(), 0, n);
    assert(Seq::<char>::empty() + (format_options::repeated('0', 0) + digits) =~= digits);
}

/// An integer is its numeral, with a plus sign in front if the flag `+` asks for
/// one and `0x` between them if the flag `#` meets a hexadecimal radix, padded to
/// the width and no further. Zeros of the flag `0` stand right before the
/// numeral. Other padding is all fill characters: on the left, unless the
/// alignment puts it on the right or halves it, with the odd one on the right.
pub proof fn integers_are_padded_numerals(options: FormatOptions, n: nat)
    ensures
        ({
            let text = options.integer_text(n);
            let numeral = format_options::digits(options.radix, n);
            let sign: int = if options.sign_plus {
                1
            } else {
                0
            };
            let prefix: int = if options.alternate && options.radix != Radix::Decimal {
                2
            } else {
                0
            };
            let core = sign + prefix + numeral.len();
            let gap = text.len() - core;
            let left = if options.zero_pad {
                0
            } else {
                match options.align {
                    Some(Alignment::Left) => 0,
                    Some(Alignment::Center) => gap / 2,
                    Some(Alignment::Right) => gap,
                    None => gap,
                }
            };
            let zeros = if options.zero_pad {
                gap
            } else {
                0
            };
            let start = left + sign + prefix + zeros;
            &&& text.len() == match options.width {
                Some(width) => if width > core {
                    width as int
                } else {
                    core
                },
                None => core,
            }
            &&& forall|i: int| 0 <= i < left ==> #[trigger] text[i] == options.fill
            &&& sign == 1 ==> text[left] == '+'
            &&& prefix == 2 ==> text[left + sign] == '0' && text[left + sign + 1] == 'x'
            &&& forall|i: int|
                left + sign + prefix <= i < start ==> #[trigger] text[i] == '0'
            &&& forall|i: int|
                start <= i < start + numeral.len() ==> #[trigger] text[i] == numeral[i - start]
            &&& forall|i: int|
                start + numeral.len() <= i < text.len() ==> #[trigger] text[i] == options.fill
        }),
{
}

/// Text is indented line by line: four spaces stand in front of each line, the
/// empty ones included, and nothing else changes.
pub proof fn lines_are_indented_by_four(line: Seq<char>, more: Seq<char>)
    requires
        line.len() > 0,
        line.last() == '\n' || more.len() == 0,
        forall|i: int| 0 <= i < line.len() - 1 ==> #[trigger] line[i] != '\n',
    ensures
        debug_text::indented(Seq::<char>::empty()) == Seq::<char>::empty(),
        debug_text::indented(line + more) == seq![' ', ' ', ' ', ' '] + line
            + debug_text::indented(more),
    decreases more.len(), line.len(),
{
    reveal_strlit("    ");
    if more.len() == 0 {
        assert(line + more =~= line);
        if line.len() > 1 {
            lines_are_indented_by_four(line.drop_last(), Seq::empty());
            assert(line.drop_last() + Seq::<char>::empty() =~= line.drop_last());
            assert(line.drop_last().last() == line[line.len() - 2]);
            assert(debug_text::indented(line.drop_last()) =~= seq![' ', ' ', ' ', ' ']
                + line.drop_last());
        } else {
            assert(line.drop_last() =~= Seq::<char>::empty());
            assert(debug_text::indented(line.drop_last()) =~= Seq::<char>::empty());
            assert(debug_text::indented(line) =~= "    "@ + seq![line.last()]);
        }
        assert(line =~= line.drop_last() + seq![line.last()]);
        assert(debug_text::indented(line) =~= seq![' ', ' ', ' ', ' '] + line);
    } else {
        assert((line + more).drop_last() =~= line + more.drop_last());
        lines_are_indented_by_four(line, more.drop_last());
        assert(debug_text::indented(line + more) =~= seq![' ', ' ', ' ', ' '] + line
            + debug_text::indented(more));
    }
}

/// A list without elements is a pair of brackets.
pub proof fn empty_lists_are_brackets(options: FormatOptions)
    ensures
        debug_text::bytes_text(options, Seq::<u8>::empty()) == seq!['[', ']'],
{
    reveal_strlit("[");
    reveal_strlit("]");
    assert(debug_text::bytes_text(options, Seq::<u8>::empty()) =~= seq!['[', ']']);
}

/// A list grows at its end: one more byte puts the text of that byte before the
/// closing bracket, behind a comma and a space unless it is the first. In the
/// alternate form it puts indented lines of its own there, ended by a comma.
pub proof fn lists_grow_at_their_end(options: FormatOptions, bytes: Seq<u8>, byte: u8)
    ensures
        ({
            let shorter = debug_text::bytes_text(options, bytes);
            let longer = debug_text::bytes_text(options, bytes.push(byte));
            let element = options.integer_text(byte as nat);
            &&& shorter.len() > 0
            &&& shorter.last() == ']'
            &&& longer == if options.alternate {
                shorter.drop_last() + (if bytes.len() == 0 {
                    seq!['\n']
                } else {
                    Seq::<char>::empty()
                }) + debug_text::indented(element + seq![',', '\n']) + seq![']']
            } else {
                shorter.drop_last() + (if bytes.len() == 0 {
                    Seq::<char>::empty()
                } else {
                    seq![',', ' ']
                }) + element + seq![']']
            }
        }),
{
    reveal_strlit("[");
    reveal_strlit("]");
    reveal_strlit("\n");
    reveal_strlit(",\n");
    reveal_strlit(", ");
    let texts = |b: Seq<u8>| b.map_values(|byte: u8| options.integer_text(byte as nat));
    let items = texts(bytes.push(byte));
    let element = options.integer_text(byte as nat);
    assert(items.drop_last() =~= texts(bytes));
    assert(items.last() == element);
    assert(element + ",\n"@ =~= element + seq![',', '\n']);
    assert(debug_text::bytes_text(options, bytes).drop_last() =~= seq!['['] + debug_text::items_text(
        options.alternate,
        texts(bytes),
    ));
    let longer = debug_text::bytes_text(options, bytes.push(byte));
    assert(longer =~= seq!['['] + (debug_text::items_text(options.alternate, texts(bytes))
        + debug_text::item_text(options.alternate, bytes.len() == 0, element)) + seq![']']);
    if options.alternate {
        assert(longer =~= debug_text::bytes_text(options, bytes).drop_last() + (if bytes.len()
            == 0 {
            seq!['\n']
        } else {
            Seq::<char>::empty()
        }) + debug_text::indented(element + seq![',', '\n']) + seq![']']);
    } else {
        assert(longer =~= debug_text::bytes_text(options, bytes).drop_last() + (if bytes.len()
            == 0 {
            Seq::<char>::empty()
        } else {
            seq![',', ' ']
        }) + element + seq![']']);
    }
}

/// A list is read back as the bytes it was made of: between its brackets stand as
/// many numbers as there are bytes, in the same order and with the same values.
/// Padding, if there is any besides zeros, has to be with a character that is not
/// part of values.
pub proof fn lists_are_read_back(options: FormatOptions, fill: char, bytes: Seq<u8>)
    requires
        !debug_text::is_value_char(fill),
        options.fill == fill || options.width is None || options.zero_pad,
    ensures
        match reader::list(
            options.radix,
            reader::stripped(fill, debug_text::bytes_text(options, bytes)),
        ) {
            Some((elements, rest)) => {
                &&& elements.len() == bytes.len()
                &&& forall|i: int| 0 <= i < bytes.len() ==> #[trigger] elements[i] == bytes[i]
                &&& rest.len() == 0
            },
            None => false,
        },
{
    let text = debug_text::bytes_text(options, bytes);
    read_back::stripped_is_solid(fill, text);
    solid_text::solid_of_bytes(fill, options, bytes);
    read_back::list_of_bytes(options, bytes, Seq::empty());
    assert(solid_text::solid_bytes(options, bytes) + Seq::<char>::empty()
        =~= solid_text::solid_bytes(options, bytes));
}

/// A byte string that is missing is `None`, and one that is there is its list
/// inside `Some(..)`. So an empty one is told from a missing one.
pub proof fn optional_lists_are_none_or_some(options: FormatOptions, bytes: Seq<u8>)
    ensures
        debug_text::optional_bytes_text(options, None) == "None"@,
        debug_text::optional_bytes_text(options, Some(bytes)) == if options.alternate {
            "Some(\n"@ + debug_text::indented(
                debug_text::bytes_text(options, bytes) + seq![',', '\n'],
            ) + seq![')']
        } else {
            "Some("@ + debug_text::bytes_text(options, bytes) + seq![')']
        },
        debug_text::optional_bytes_text(options, Some(bytes)).take(5) == "Some("@,
        debug_text::optional_bytes_text(options, Some(bytes)) != "None"@,
{
    reveal_strlit("None");
    reveal_strlit("Some(");
    reveal_strlit("Some(\n");
    reveal_strlit(")");
    reveal_strlit("\n");
    reveal_strlit(",\n");
    let list = debug_text::bytes_text(options, bytes);
    let items = seq![list];
    let text = debug_text::optional_bytes_text(options, Some(bytes));
    assert(items.drop_last() =~= seq![]);
    assert(debug_text::items_text(options.alternate, items.drop_last()) =~= seq![]);
    assert(debug_text::items_text(options.alternate, items) =~= debug_text::item_text(
        options.alternate,
        true,
        list,
    ));
    assert(list + ",\n"@ =~= list + seq![',', '\n']);
    if options.alternate {
        assert(text =~= "Some(\n"@ + debug_text::indented(list + seq![',', '\n']) + seq![')']);
    } else {
        assert(text =~= "Some("@ + list + seq![')']);
    }
    assert(text.take(5) =~= "Some("@);
    assert(text[0] == 'S' && "None"@[0] == 'N');
}

} // verus!
