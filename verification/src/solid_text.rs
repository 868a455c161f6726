//! Debug forms with their spaces and line breaks left out.
//!
//! Layout only adds blank characters, so two debug forms that are equal have
//! equal solid texts, and those can be read back.
use vstd::prelude::*;

use crate::debug_text;
use crate::format_options;
use crate::format_options::{FormatOptions, Radix};

verus! {

/// Whether a character is mere layout: a space, a line break, or the character
/// `fill` that pads integers.
pub open spec fn is_blank(fill: char, ch: char) -> bool {
    ch == ' ' || ch == '\n' || ch == fill
}

/// `text` without its blank characters.
pub open spec fn solid(fill: char, text: Seq<char>) -> Seq<char>
    decreases text.len(),
{
    if text.len() == 0 {
        seq![]
    } else if is_blank(fill, text.last()) {
        solid(fill, text.drop_last())
    } else {
        solid(fill, text.drop_last()).push(text.last())
    }
}

pub(crate) proof fn solid_of_sum(fill: char, a: Seq<char>, b: Seq<char>)
    ensures
        solid(fill, a + b) == solid(fill, a) + solid(fill, b),
    decreases b.len(),
{
    if b.len() == 0 {
        assert(a + b =~= a);
    } else {
        assert((a + b).drop_last() =~= a + b.drop_last());
        solid_of_sum(fill, a, b.drop_last());
    }
    assert(solid(fill, a + b) =~= solid(fill, a) + solid(fill, b));
}

pub(crate) proof fn solid_of_blanks(fill: char, text: Seq<char>)
    requires
        forall|i: int| 0 <= i < text.len() ==> is_blank(fill, #[trigger] text[i]),
    ensures
        solid(fill, text) == Seq::<char>::empty(),
    decreases text.len(),
{
    if text.len() > 0 {
        solid_of_blanks(fill, text.drop_last());
    }
}

pub(crate) proof fn solid_of_solid(fill: char, text: Seq<char>)
    requires
        forall|i: int| 0 <= i < text.len() ==> !is_blank(fill, #[trigger] text[i]),
    ensures
        solid(fill, text) == text,
    decreases text.len(),
{
    if text.len() > 0 {
        solid_of_solid(fill, text.drop_last());
        assert(text =~= text.drop_last().push(text.last()));
    }
}

pub(crate) proof fn solid_of_indented(fill: char, text: Seq<char>)
    ensures
        solid(fill, debug_text::indented(text)) == solid(fill, text),
    decreases text.len(),
{
    if text.len() > 0 {
        reveal_strlit("    ");
        let before = text.drop_last();
        let margin = if before.len() == 0 || before.last() == '\n' {
            "    "@
        } else {
            seq![]
        };
        solid_of_indented(fill, before);
        solid_of_blanks(fill, margin);
        solid_of_sum(fill, debug_text::indented(before), margin);
        solid_of_sum(fill, debug_text::indented(before) + margin, seq![text.last()]);
        solid_of_sum(fill, before, seq![text.last()]);
        assert(text =~= before + seq![text.last()]);
        assert(solid(fill, before) + Seq::<char>::empty() =~= solid(fill, before));
    }
}

/// Each of `items` with a comma behind it.
pub open spec fn terminated(items: Seq<Seq<char>>) -> Seq<char>
    decreases items.len(),
{
    if items.len() == 0 {
        seq![]
    } else {
        terminated(items.drop_last()) + items.last() + seq![',']
    }
}

/// The solid text of the items of a group.
pub open spec fn solid_items(alternate: bool, items: Seq<Seq<char>>) -> Seq<char> {
    if alternate || items.len() == 0 {
        terminated(items)
    } else {
        terminated(items.drop_last()) + items.last()
    }
}

/// What the alternate form puts behind the last item of a group.
pub open spec fn last_comma(alternate: bool) -> Seq<char> {
    if alternate {
        seq![',']
    } else {
        seq![]
    }
}

/// The solid texts of `items`.
pub open spec fn solids(fill: char, items: Seq<Seq<char>>) -> Seq<Seq<char>> {
    items.map_values(|item: Seq<char>| solid(fill, item))
}

pub(crate) proof fn solid_of_items(fill: char, alternate: bool, items: Seq<Seq<char>>)
    requires
        fill != ',',
    ensures
        solid(fill, debug_text::items_text(alternate, items)) == solid_items(
            alternate,
            solids(fill, items),
        ),
    decreases items.len(),
{
    if items.len() > 0 {
        let front = items.drop_last();
        let last = items.last();
        let first = items.len() == 1;
        let before = debug_text::items_text(alternate, front);
        solid_of_items(fill, alternate, front);
        assert(solids(fill, front) =~= solids(fill, items).drop_last());
        solid_of_sum(fill, before, debug_text::item_text(alternate, first, last));
        reveal_strlit("\n");
        reveal_strlit(",\n");
        reveal_strlit(", ");
        let comma = seq![','];
        solid_of_solid(fill, comma);
        if alternate {
            let lead = if first {
                "\n"@
            } else {
                seq![]
            };
            solid_of_blanks(fill, lead);
            solid_of_sum(fill, lead, debug_text::indented(last + ",\n"@));
            solid_of_indented(fill, last + ",\n"@);
            solid_of_sum(fill, last, ",\n"@);
            assert(",\n"@ =~= comma + seq!['\n']);
            solid_of_sum(fill, comma, seq!['\n']);
            solid_of_blanks(fill, seq!['\n']);
            assert(solid(fill, debug_text::items_text(alternate, items)) =~= solid_items(
                alternate,
                solids(fill, items),
            ));
        } else {
            let lead = if first {
                seq![]
            } else {
                ", "@
            };
            solid_of_sum(fill, lead, last);
            assert(", "@ =~= comma + seq![' ']);
            solid_of_sum(fill, comma, seq![' ']);
            solid_of_blanks(fill, seq![' ']);
            assert(solid(fill, debug_text::items_text(alternate, items)) =~= solid_items(
                alternate,
                solids(fill, items),
            ));
        }
    }
}

pub(crate) proof fn solid_items_of_one(alternate: bool, x: Seq<char>)
    ensures
        solid_items(alternate, seq![x]) == x + last_comma(alternate),
{
    let items = seq![x];
    assert(items.drop_last() =~= seq![]);
    assert(terminated(items.drop_last()) =~= seq![]);
    assert(solid_items(alternate, items) =~= x + last_comma(alternate));
}

pub(crate) proof fn solid_items_of_three(
    alternate: bool,
    x: Seq<char>,
    y: Seq<char>,
    z: Seq<char>,
)
    ensures
        solid_items(alternate, seq![x, y, z]) == x + seq![','] + y + seq![','] + z + last_comma(
            alternate,
        ),
{
    let three = seq![x, y, z];
    let two = seq![x, y];
    let one = seq![x];
    assert(three.drop_last() =~= two);
    assert(two.drop_last() =~= one);
    assert(one.drop_last() =~= seq![]);
    assert(terminated(one.drop_last()) =~= seq![]);
    assert(terminated(one) =~= x + seq![',']);
    assert(terminated(two) =~= x + seq![','] + y + seq![',']);
    assert(solid_items(alternate, three) =~= x + seq![','] + y + seq![','] + z + last_comma(
        alternate,
    ));
}

/// The solid text of a group.
pub open spec fn solid_group(
    fill: char,
    alternate: bool,
    open: Seq<char>,
    items: Seq<Seq<char>>,
    close: Seq<char>,
) -> Seq<char> {
    solid(fill, open) + solid_items(alternate, solids(fill, items)) + solid(fill, close)
}

pub(crate) proof fn solid_of_group(
    fill: char,
    alternate: bool,
    open: Seq<char>,
    items: Seq<Seq<char>>,
    close: Seq<char>,
)
    requires
        fill != ',',
    ensures
        solid(fill, debug_text::group_text(alternate, open, items, close)) == solid_group(
            fill,
            alternate,
            open,
            items,
            close,
        ),
{
    let body = debug_text::items_text(alternate, items);
    solid_of_items(fill, alternate, items);
    solid_of_sum(fill, open, body);
    solid_of_sum(fill, open + body, close);
}

/// Whether `text` holds the character `ch` nowhere.
pub open spec fn free_of(text: Seq<char>, ch: char) -> bool {
    forall|i: int| 0 <= i < text.len() ==> #[trigger] text[i] != ch
}

/// Texts that end in a comma, or are empty, are told from what follows them
/// when that holds no comma.
pub(crate) proof fn cut_at_last_comma(p: Seq<char>, x: Seq<char>, q: Seq<char>, y: Seq<char>)
    requires
        p + x == q + y,
        p.len() > 0 ==> p.last() == ',',
        q.len() > 0 ==> q.last() == ',',
        free_of(x, ','),
        free_of(y, ','),
    ensures
        p == q,
        x == y,
{
    assert(p.len() + x.len() == (p + x).len() == q.len() + y.len());
    if p.len() < q.len() {
        assert((q + y)[q.len() - 1] == ',');
        assert((p + x)[q.len() - 1] == x[q.len() - 1 - p.len()]);
    }
    if q.len() < p.len() {
        assert((p + x)[p.len() - 1] == ',');
        assert((q + y)[p.len() - 1] == y[p.len() - 1 - q.len()]);
    }
    assert(p =~= (p + x).take(p.len() as int));
    assert(q =~= (q + y).take(q.len() as int));
    assert(x =~= (p + x).skip(p.len() as int));
    assert(y =~= (q + y).skip(q.len() as int));
}

/// What stands before the first `ch` and what stands behind it are both known
/// from the whole.
pub(crate) proof fn cut_at_first(a: Seq<char>, r: Seq<char>, b: Seq<char>, s: Seq<char>, ch: char)
    requires
        a + (seq![ch] + r) == b + (seq![ch] + s),
        free_of(a, ch),
        free_of(b, ch),
    ensures
        a == b,
        r == s,
{
    let left = a + (seq![ch] + r);
    let right = b + (seq![ch] + s);
    assert(left[a.len() as int] == ch);
    assert(right[b.len() as int] == ch);
    if a.len() < b.len() {
        assert(right[a.len() as int] == b[a.len() as int]);
    }
    if b.len() < a.len() {
        assert(left[b.len() as int] == a[b.len() as int]);
    }
    assert(a =~= left.take(a.len() as int));
    assert(b =~= right.take(b.len() as int));
    assert(r =~= left.skip((a.len() + 1) as int));
    assert(s =~= right.skip((b.len() + 1) as int));
}

/// Equal texts with equal beginnings have equal ends.
pub(crate) proof fn cut_prefix(p: Seq<char>, a: Seq<char>, b: Seq<char>)
    requires
        p + a == p + b,
    ensures
        a == b,
{
    assert(a =~= (p + a).skip(p.len() as int));
    assert(b =~= (p + b).skip(p.len() as int));
}

/// Equal texts with equal ends have equal beginnings.
pub(crate) proof fn cut_suffix(a: Seq<char>, b: Seq<char>, s: Seq<char>)
    requires
        a + s == b + s,
    ensures
        a == b,
{
    assert((a + s).len() == (b + s).len());
    assert(a =~= (a + s).take(a.len() as int));
    assert(b =~= (b + s).take(b.len() as int));
}

pub(crate) proof fn terminated_is_injective(xs: Seq<Seq<char>>, ys: Seq<Seq<char>>)
    requires
        terminated(xs) == terminated(ys),
        forall|i: int| 0 <= i < xs.len() ==> free_of(#[trigger] xs[i], ','),
        forall|i: int| 0 <= i < ys.len() ==> free_of(#[trigger] ys[i], ','),
    ensures
        xs == ys,
    decreases xs.len(),
{
    if xs.len() > 0 && ys.len() > 0 {
        let p = terminated(xs.drop_last());
        let q = terminated(ys.drop_last());
        cut_suffix(p + xs.last(), q + ys.last(), seq![',']);
        cut_at_last_comma(p, xs.last(), q, ys.last());
        terminated_is_injective(xs.drop_last(), ys.drop_last());
        assert(xs =~= xs.drop_last().push(xs.last()));
        assert(ys =~= ys.drop_last().push(ys.last()));
    } else {
        assert(xs.len() == 0 <==> terminated(xs).len() == 0);
        assert(ys.len() == 0 <==> terminated(ys).len() == 0);
        assert(xs =~= ys);
    }
}

pub(crate) proof fn solid_items_is_injective(
    alternate: bool,
    xs: Seq<Seq<char>>,
    ys: Seq<Seq<char>>,
)
    requires
        solid_items(alternate, xs) == solid_items(alternate, ys),
        forall|i: int|
            0 <= i < xs.len() ==> free_of(#[trigger] xs[i], ',') && xs[i].len() > 0,
        forall|i: int|
            0 <= i < ys.len() ==> free_of(#[trigger] ys[i], ',') && ys[i].len() > 0,
    ensures
        xs == ys,
{
    if alternate {
        terminated_is_injective(xs, ys);
    } else {
        if xs.len() > 0 {
            assert(xs[xs.len() - 1] == xs.last());
        }
        if ys.len() > 0 {
            assert(ys[ys.len() - 1] == ys.last());
        }
        if xs.len() > 0 && ys.len() > 0 {
            assert(terminated(xs) == solid_items(false, xs) + seq![',']);
            assert(terminated(ys) == solid_items(false, ys) + seq![',']);
            terminated_is_injective(xs, ys);
        } else {
            assert(xs =~= ys);
        }
    }
}

/// Whether integers are padded with blank characters or zeros alone.
pub open spec fn pads_plainly(fill: char, options: FormatOptions) -> bool {
    ||| is_blank(fill, options.fill)
    ||| options.width is None
    ||| options.zero_pad
}

/// The zeros that the flag `0` puts before the digits of `n`.
pub open spec fn leading_zeros(options: FormatOptions, n: nat) -> Seq<char> {
    let number = options.lead() + format_options::digits(options.radix, n);
    format_options::repeated(
        '0',
        if options.zero_pad {
            options.shortfall(number.len())
        } else {
            0
        },
    )
}

/// The solid text of an integer.
pub open spec fn solid_integer(options: FormatOptions, n: nat) -> Seq<char> {
    options.lead() + (leading_zeros(options, n) + format_options::digits(options.radix, n))
}

/// Whether all characters of `text` can stand in the solid text of an integer.
pub open spec fn is_number_text(text: Seq<char>) -> bool {
    forall|i: int| 0 <= i < text.len() ==> debug_text::is_number_char(#[trigger] text[i])
}

/// The value of a digit.
pub open spec fn digit_value(ch: char) -> int {
    if ch <= '9' {
        ch as int - '0' as int
    } else if ch <= 'F' {
        ch as int - 'A' as int + 10
    } else {
        ch as int - 'a' as int + 10
    }
}

/// The number that a string of digits stands for.
pub open spec fn number_value(radix: Radix, text: Seq<char>) -> int
    decreases text.len(),
{
    if text.len() == 0 {
        0
    } else {
        number_value(radix, text.drop_last()) * radix.base() + digit_value(text.last())
    }
}

pub(crate) proof fn value_of_zeros(radix: Radix, count: nat)
    ensures
        number_value(radix, format_options::repeated('0', count)) == 0,
    decreases count,
{
    let zeros = format_options::repeated('0', count);
    if count > 0 {
        let fewer = (count - 1) as nat;
        assert(zeros.drop_last() =~= format_options::repeated('0', fewer));
        value_of_zeros(radix, fewer);
    }
}

pub(crate) proof fn value_of_digits(radix: Radix, count: nat, n: nat)
    ensures
        number_value(
            radix,
            format_options::repeated('0', count) + format_options::digits(radix, n),
        ) == n,
    decreases n,
{
    let zeros = format_options::repeated('0', count);
    let text = zeros + format_options::digits(radix, n);
    if n < radix.base() {
        value_of_zeros(radix, count);
        assert(text.drop_last() =~= zeros);
    } else {
        let rest = n / radix.base();
        value_of_digits(radix, count, rest);
        assert(text.drop_last() =~= zeros + format_options::digits(radix, rest));
        match radix {
            Radix::Decimal => {
                assert(n == (n / 10) * 10 + n % 10);
            },
            _ => {
                assert(n == (n / 16) * 16 + n % 16);
            },
        }
    }
}

pub(crate) proof fn digits_are_number_text(radix: Radix, n: nat)
    ensures
        is_number_text(format_options::digits(radix, n)),
        format_options::digits(radix, n).len() > 0,
    decreases n,
{
    if n >= radix.base() {
        digits_are_number_text(radix, n / radix.base());
    }
}

pub(crate) proof fn integers_are_number_text(options: FormatOptions, n: nat)
    ensures
        is_number_text(solid_integer(options, n)),
        solid_integer(options, n).len() > 0,
{
    digits_are_number_text(options.radix, n);
}

pub(crate) proof fn solid_of_integer(fill: char, options: FormatOptions, n: nat)
    requires
        !debug_text::is_value_char(fill),
        pads_plainly(fill, options),
    ensures
        solid(fill, options.integer_text(n)) == solid_integer(options, n),
{
    let digits = format_options::digits(options.radix, n);
    let number = options.lead() + digits;
    integers_are_number_text(options, n);
    if options.zero_pad {
        assert(options.integer_text(n) =~= solid_integer(options, n));
        solid_of_solid(fill, solid_integer(options, n));
    } else {
        let gap = options.shortfall(number.len());
        let left = options.left_share(gap);
        let before = format_options::repeated(options.fill, left);
        let behind = format_options::repeated(options.fill, (gap - left) as nat);
        assert(number =~= solid_integer(options, n));
        solid_of_solid(fill, number);
        solid_of_blanks(fill, before);
        solid_of_blanks(fill, behind);
        solid_of_sum(fill, before, number);
        solid_of_sum(fill, before + number, behind);
        assert(solid(fill, before) + number + solid(fill, behind) =~= number);
    }
}

pub(crate) proof fn solid_integer_is_injective(options: FormatOptions, m: nat, n: nat)
    requires
        solid_integer(options, m) == solid_integer(options, n),
    ensures
        m == n,
{
    let zeros_m = leading_zeros(options, m);
    let zeros_n = leading_zeros(options, n);
    cut_prefix(
        options.lead(),
        zeros_m + format_options::digits(options.radix, m),
        zeros_n + format_options::digits(options.radix, n),
    );
    value_of_digits(options.radix, zeros_m.len(), m);
    value_of_digits(options.radix, zeros_n.len(), n);
}

/// The solid texts of the bytes of a byte string.
pub open spec fn solid_elements(options: FormatOptions, bytes: Seq<u8>) -> Seq<Seq<char>> {
    bytes.map_values(|byte: u8| solid_integer(options, byte as nat))
}

/// The solid text of a byte string.
pub open spec fn solid_bytes(options: FormatOptions, bytes: Seq<u8>) -> Seq<char> {
    seq!['['] + solid_items(options.alternate, solid_elements(options, bytes)) + seq![']']
}

pub(crate) proof fn solid_of_bytes(fill: char, options: FormatOptions, bytes: Seq<u8>)
    requires
        !debug_text::is_value_char(fill),
        pads_plainly(fill, options),
    ensures
        solid(fill, debug_text::bytes_text(options, bytes)) == solid_bytes(options, bytes),
{
    let items = bytes.map_values(|byte: u8| options.integer_text(byte as nat));
    assert forall|i: int| 0 <= i < bytes.len() implies solid(fill, #[trigger] items[i])
        == solid_elements(options, bytes)[i] by {
        solid_of_integer(fill, options, bytes[i] as nat);
    }
    assert(solids(fill, items) =~= solid_elements(options, bytes));
    reveal_strlit("[");
    reveal_strlit("]");
    assert("["@ =~= seq!['[']);
    assert("]"@ =~= seq![']']);
    solid_of_solid(fill, "["@);
    solid_of_solid(fill, "]"@);
    solid_of_group(fill, options.alternate, "["@, items, "]"@);
}

pub(crate) proof fn lists_hold_no_bracket(items: Seq<Seq<char>>)
    requires
        forall|i: int| 0 <= i < items.len() ==> is_number_text(#[trigger] items[i]),
    ensures
        free_of(terminated(items), ']'),
    decreases items.len(),
{
    if items.len() > 0 {
        lists_hold_no_bracket(items.drop_last());
        assert(is_number_text(items[items.len() - 1]));
    }
}

/// A byte string is known from the solid text of it and what follows it, and so
/// is what follows.
pub(crate) proof fn bytes_are_read_back(
    options: FormatOptions,
    x: Seq<u8>,
    r: Seq<char>,
    y: Seq<u8>,
    s: Seq<char>,
)
    requires
        solid_bytes(options, x) + r == solid_bytes(options, y) + s,
    ensures
        x == y,
        r == s,
{
    let xs = solid_elements(options, x);
    let ys = solid_elements(options, y);
    let a = solid_items(options.alternate, xs);
    let b = solid_items(options.alternate, ys);
    assert forall|i: int| 0 <= i < xs.len() implies is_number_text(#[trigger] xs[i])
        && xs[i].len() > 0 by {
        integers_are_number_text(options, x[i] as nat);
    }
    assert forall|i: int| 0 <= i < ys.len() implies is_number_text(#[trigger] ys[i])
        && ys[i].len() > 0 by {
        integers_are_number_text(options, y[i] as nat);
    }
    lists_hold_no_bracket(xs);
    lists_hold_no_bracket(ys);
    if xs.len() > 0 {
        lists_hold_no_bracket(xs.drop_last());
        assert(is_number_text(xs[xs.len() - 1]));
    }
    if ys.len() > 0 {
        lists_hold_no_bracket(ys.drop_last());
        assert(is_number_text(ys[ys.len() - 1]));
    }
    assert(solid_bytes(options, x) + r =~= seq!['['] + (a + (seq![']'] + r)));
    assert(solid_bytes(options, y) + s =~= seq!['['] + (b + (seq![']'] + s)));
    cut_prefix(seq!['['], a + (seq![']'] + r), b + (seq![']'] + s));
    cut_at_first(a, r, b, s, ']');
    solid_items_is_injective(options.alternate, xs, ys);
    assert forall|i: int| 0 <= i < x.len() implies x[i] == y[i] by {
        assert(xs[i] == ys[i]);
        solid_integer_is_injective(options, x[i] as nat, y[i] as nat);
    }
    assert(x =~= y);
}

/// The solid text of a byte string that may be missing.
pub open spec fn solid_optional_bytes(options: FormatOptions, bytes: Option<Seq<u8>>) -> Seq<char> {
    match bytes {
        None => "None"@,
        Some(bytes) => "Some("@ + solid_bytes(options, bytes) + last_comma(options.alternate)
            + ")"@,
    }
}

pub(crate) proof fn solid_of_optional_bytes(
    fill: char,
    options: FormatOptions,
    bytes: Option<Seq<u8>>,
)
    requires
        !debug_text::is_value_char(fill),
        pads_plainly(fill, options),
    ensures
        solid(fill, debug_text::optional_bytes_text(options, bytes)) == solid_optional_bytes(
            options,
            bytes,
        ),
{
    reveal_strlit("None");
    reveal_strlit("Some(");
    reveal_strlit(")");
    solid_of_solid(fill, "None"@);
    solid_of_solid(fill, "Some("@);
    solid_of_solid(fill, ")"@);
    match bytes {
        None => {},
        Some(bytes) => {
            let items = seq![debug_text::bytes_text(options, bytes)];
            solid_of_bytes(fill, options, bytes);
            solid_of_group(fill, options.alternate, "Some("@, items, ")"@);
            assert(solids(fill, items) =~= seq![solid_bytes(options, bytes)]);
            solid_items_of_one(options.alternate, solid_bytes(options, bytes));
            assert(solid_group(fill, options.alternate, "Some("@, items, ")"@)
                =~= solid_optional_bytes(options, Some(bytes)));
        },
    }
}

/// A byte string that may be missing is known from the solid text of it and
/// what follows it, and so is what follows.
pub(crate) proof fn optional_bytes_are_read_back(
    options: FormatOptions,
    x: Option<Seq<u8>>,
    r: Seq<char>,
    y: Option<Seq<u8>>,
    s: Seq<char>,
)
    requires
        solid_optional_bytes(options, x) + r == solid_optional_bytes(options, y) + s,
    ensures
        x == y,
        r == s,
{
    reveal_strlit("None");
    reveal_strlit("Some(");
    let left = solid_optional_bytes(options, x) + r;
    let right = solid_optional_bytes(options, y) + s;
    assert(left[0] == if x is None {
        'N'
    } else {
        'S'
    });
    assert(right[0] == if y is None {
        'N'
    } else {
        'S'
    });
    match (x, y) {
        (Some(a), Some(b)) => {
            let end = last_comma(options.alternate) + ")"@;
            assert(left =~= "Some("@ + (solid_bytes(options, a) + (end + r)));
            assert(right =~= "Some("@ + (solid_bytes(options, b) + (end + s)));
            cut_prefix(
                "Some("@,
                solid_bytes(options, a) + (end + r),
                solid_bytes(options, b) + (end + s),
            );
            bytes_are_read_back(options, a, end + r, b, end + s);
            cut_prefix(end, r, s);
        },
        _ => {
            cut_prefix("None"@, r, s);
        },
    }
}

} // verus!
