//! What holds of the debug form of every entry.
use vstd::prelude::*;

use crate::debug_text;
use crate::format_options::FormatOptions;
use crate::keying_material::{
    EntryView, KeyingMaterialEntry, KeyingMaterialSpec, RedactedEntry, RedactedView,
};
use crate::read_back;
use crate::reader;
use crate::solid_text;

verus! {

/// Views hold what the fields hold, and a redacted view holds all of it but the
/// secret bytes.
pub proof fn views_hold_the_fields(
    request: KeyingMaterialSpec,
    entry: KeyingMaterialEntry,
    shown: RedactedEntry<'_>,
)
    ensures
        request@.label == request.label@,
        request@.context is Some <==> request.context is Some,
        request.context is Some ==> request@.context->0 == request.context->0@,
        request@.length == request.length,
        entry@.label == entry.label@,
        entry@.context is Some <==> entry.context is Some,
        entry.context is Some ==> entry@.context->0 == entry.context->0@,
        entry@.material == entry.material@,
        shown@.label == shown.label@,
        shown@.context is Some <==> *shown.context is Some,
        *shown.context is Some ==> shown@.context->0 == (*shown.context)->0@,
        shown@.material_len == shown.material_len,
        entry@.redacted().label == entry.label@,
        entry@.redacted().context == entry@.context,
        entry@.redacted().material_len == entry.material@.len(),
{
}

/// The debug form hides the material: two entries that differ in nothing but
/// their secret bytes have the same debug form under all format options.
pub proof fn debug_text_hides_material(options: FormatOptions, a: EntryView, b: EntryView)
    requires
        a.label == b.label,
        a.context == b.context,
        a.material.len() == b.material.len(),
    ensures
        a.debug_text(options) == b.debug_text(options),
{
}

/// The debug form hides nothing else: entries with the same debug form have the
/// same label, the same context and the same number of secret bytes, unless
/// integers are padded with a fill character of which values themselves are
/// made.
pub proof fn debug_text_hides_nothing_else(options: FormatOptions, a: EntryView, b: EntryView)
    requires
        !debug_text::is_value_char(options.fill) || options.width is None || options.zero_pad,
        a.debug_text(options) == b.debug_text(options),
    ensures
        a.label == b.label,
        a.context == b.context,
        a.material.len() == b.material.len(),
{
    let fill = if debug_text::is_value_char(options.fill) {
        ' '
    } else {
        options.fill
    };
    let x = a.redacted();
    let y = b.redacted();
    solid_of_debug_text(fill, options, x);
    solid_of_debug_text(fill, options, y);
    let frame = solid_text::solid(fill, opening(options)) + solid_text::solid(fill, "label: "@);
    solid_text::cut_prefix(
        frame,
        solid_text::solid_bytes(options, x.label) + behind_label(fill, options, x),
        solid_text::solid_bytes(options, y.label) + behind_label(fill, options, y),
    );
    solid_text::bytes_are_read_back(
        options,
        x.label,
        behind_label(fill, options, x),
        y.label,
        behind_label(fill, options, y),
    );
    solid_text::cut_prefix(
        seq![','] + solid_text::solid(fill, "context: "@),
        solid_text::solid_optional_bytes(options, x.context) + behind_context(fill, options, x),
        solid_text::solid_optional_bytes(options, y.context) + behind_context(fill, options, y),
    );
    solid_text::optional_bytes_are_read_back(
        options,
        x.context,
        behind_context(fill, options, x),
        y.context,
        behind_context(fill, options, y),
    );
    let end = solid_text::last_comma(options.alternate) + solid_text::solid(fill, closing(options));
    solid_text::cut_prefix(
        seq![','] + solid_text::solid(fill, "material_len: "@),
        solid_text::solid_integer(options, x.material_len) + end,
        solid_text::solid_integer(options, y.material_len) + end,
    );
    solid_text::cut_suffix(
        solid_text::solid_integer(options, x.material_len),
        solid_text::solid_integer(options, y.material_len),
        end,
    );
    solid_text::solid_integer_is_injective(options, x.material_len, y.material_len);
}

/// The debug form names each field and shows the entry's own value behind the
/// name: on one line between braces, or in the alternate form each on indented
/// lines of its own.
pub proof fn debug_text_names_each_field(options: FormatOptions, entry: KeyingMaterialEntry)
    ensures
        ({
            let label = debug_text::bytes_text(options, entry.label@);
            let context = match entry.context {
                Some(context) => debug_text::optional_bytes_text(options, Some(context@)),
                None => "None"@,
            };
            let material_len = options.integer_text(entry.material@.len());
            entry@.debug_text(options) == if options.alternate {
                "KeyingMaterialEntry {\n"@ + debug_text::indented("label: "@ + label + ",\n"@)
                    + debug_text::indented("context: "@ + context + ",\n"@)
                    + debug_text::indented("material_len: "@ + material_len + ",\n"@) + "}"@
            } else {
                "KeyingMaterialEntry { label: "@ + label + ", context: "@ + context
                    + ", material_len: "@ + material_len + " }"@
            }
        }),
{
    let label = debug_text::bytes_text(options, entry.label@);
    let context = match entry.context {
        Some(context) => debug_text::optional_bytes_text(options, Some(context@)),
        None => "None"@,
    };
    let material_len = options.integer_text(entry.material@.len());
    let shown = entry@.redacted();
    let a = "label: "@ + label;
    let b = "context: "@ + context;
    let c = "material_len: "@ + material_len;
    let three = shown.debug_fields(options);
    assert(three =~= seq![a, b, c]);
    let two = three.drop_last();
    let one = two.drop_last();
    assert(one.drop_last() =~= seq![]);
    let alternate = options.alternate;
    assert(debug_text::items_text(alternate, one.drop_last()) =~= seq![]);
    assert(debug_text::items_text(alternate, one) =~= debug_text::item_text(alternate, true, a));
    assert(debug_text::items_text(alternate, two) == debug_text::items_text(alternate, one)
        + debug_text::item_text(alternate, false, b));
    assert(debug_text::items_text(alternate, three) == debug_text::items_text(alternate, two)
        + debug_text::item_text(alternate, false, c));
    if alternate {
        reveal_strlit("KeyingMaterialEntry {");
        reveal_strlit("KeyingMaterialEntry {\n");
        reveal_strlit("\n");
        assert("KeyingMaterialEntry {\n"@ =~= "KeyingMaterialEntry {"@ + "\n"@);
        lined_up(
            "KeyingMaterialEntry {"@,
            "\n"@,
            debug_text::indented(a + ",\n"@),
            debug_text::indented(b + ",\n"@),
            debug_text::indented(c + ",\n"@),
            "}"@,
        );
    } else {
        reveal_strlit("KeyingMaterialEntry { ");
        reveal_strlit("KeyingMaterialEntry { label: ");
        reveal_strlit("label: ");
        reveal_strlit(", ");
        reveal_strlit(", context: ");
        reveal_strlit("context: ");
        reveal_strlit(", material_len: ");
        reveal_strlit("material_len: ");
        assert("KeyingMaterialEntry { label: "@ =~= "KeyingMaterialEntry { "@ + "label: "@);
        assert(", context: "@ =~= ", "@ + "context: "@);
        assert(", material_len: "@ =~= ", "@ + "material_len: "@);
        run_together(
            "KeyingMaterialEntry { "@,
            "label: "@,
            label,
            ", "@,
            "context: "@,
            context,
            "material_len: "@,
            material_len,
            " }"@,
        );
    }
}

/// Groups of the parts of the alternate form.
proof fn lined_up(
    open: Seq<char>,
    newline: Seq<char>,
    a: Seq<char>,
    b: Seq<char>,
    c: Seq<char>,
    close: Seq<char>,
)
    ensures
        open + ((newline + a) + (Seq::<char>::empty() + b) + (Seq::<char>::empty() + c)) + close
            == (open + newline) + a + b + c + close,
{
    assert(open + ((newline + a) + (Seq::<char>::empty() + b) + (Seq::<char>::empty() + c)) + close
        =~= (open + newline) + a + b + c + close);
}

/// Groups of the parts of the form on one line.
proof fn run_together(
    open: Seq<char>,
    name_a: Seq<char>,
    a: Seq<char>,
    comma: Seq<char>,
    name_b: Seq<char>,
    b: Seq<char>,
    name_c: Seq<char>,
    c: Seq<char>,
    close: Seq<char>,
)
    ensures
        open + ((Seq::<char>::empty() + (name_a + a)) + (comma + (name_b + b)) + (comma + (name_c
            + c))) + close == (open + name_a) + a + (comma + name_b) + b + (comma + name_c) + c
            + close,
{
    assert(open + ((Seq::<char>::empty() + (name_a + a)) + (comma + (name_b + b)) + (comma
        + (name_c + c))) + close =~= (open + name_a) + a + (comma + name_b) + b + (comma + name_c)
        + c + close);
}

/// The debug form is read back as the entry it was made of: a reader that knows
/// only the number system and the padding finds the entry's own label behind
/// `label`, its own context behind `context` and the number of its secret bytes
/// behind `material_len`. Padding, if there is any besides zeros, has to be with a
/// character that is not part of values.
pub proof fn debug_text_is_read_back(
    options: FormatOptions,
    fill: char,
    entry: KeyingMaterialEntry,
)
    requires
        !debug_text::is_value_char(fill),
        options.fill == fill || options.width is None || options.zero_pad,
    ensures
        match reader::reading(options.radix, fill, entry@.debug_text(options)) {
            Some(told) => {
                &&& told.label.len() == entry.label@.len()
                &&& forall|i: int|
                    0 <= i < entry.label@.len() ==> #[trigger] told.label[i] == entry.label@[i]
                &&& told.context is Some <==> entry.context is Some
                &&& entry.context is Some ==> {
                    &&& told.context->0.len() == entry.context->0@.len()
                    &&& forall|i: int|
                        0 <= i < entry.context->0@.len() ==> #[trigger] told.context->0[i]
                            == entry.context->0@[i]
                }
                &&& told.material_len == entry.material@.len()
            },
            None => false,
        },
{
    let shown = entry@.redacted();
    let text = shown.debug_text(options);
    let at_label = solid_text::solid_bytes(options, shown.label) + behind_label(
        fill,
        options,
        shown,
    );
    let at_context = solid_text::solid_optional_bytes(options, shown.context) + behind_context(
        fill,
        options,
        shown,
    );
    let number = solid_text::solid_integer(options, shown.material_len);
    let comma = solid_text::last_comma(options.alternate);
    let close = solid_text::solid(fill, closing(options));
    solid_of_debug_text(fill, options, shown);
    read_back::stripped_is_solid(fill, text);
    solid_of_names(fill, options);
    read_back::found_behind(reader::stripped(fill, "KeyingMaterialEntry { label: "@), at_label);
    read_back::list_of_bytes(options, shown.label, behind_label(fill, options, shown));
    read_back::found_behind(reader::stripped(fill, ", context: "@), at_context);
    read_back::optional_list_of_bytes(
        options,
        shown.context,
        behind_context(fill, options, shown),
    );
    read_back::found_behind(
        reader::stripped(fill, ", material_len: "@),
        number + (comma + close),
    );
    solid_text::integers_are_number_text(options, shown.material_len);
    assert(number + (comma + close) =~= (number + comma) + close);
    read_back::cut_at_mark(number + comma, '}', seq![]);
    assert((number + comma) + seq!['}'] =~= (number + comma) + (seq!['}'] + Seq::<char>::empty()));
    assert(close.len() == 0 ==> (number + comma) + close =~= number + comma);
    read_back::cut_at_mark(number, ',', seq![]);
    assert(options.alternate ==> number + comma =~= number + (seq![','] + Seq::<char>::empty()));
    assert(!options.alternate ==> number + comma =~= number);
    read_back::number_of_integer(options, shown.material_len);
}

/// The names between the values, with blanks left out.
proof fn solid_of_names(fill: char, options: FormatOptions)
    requires
        fill != ',',
    ensures
        reader::stripped(fill, "KeyingMaterialEntry { label: "@) == solid_text::solid(
            fill,
            opening(options),
        ) + solid_text::solid(fill, "label: "@),
        reader::stripped(fill, ", context: "@) == seq![','] + solid_text::solid(
            fill,
            "context: "@,
        ),
        reader::stripped(fill, ", material_len: "@) == seq![','] + solid_text::solid(
            fill,
            "material_len: "@,
        ),
        solid_text::solid(fill, closing(options)) == Seq::<char>::empty() || solid_text::solid(
            fill,
            closing(options),
        ) == seq!['}'],
{
    reveal_strlit("KeyingMaterialEntry { label: ");
    reveal_strlit("KeyingMaterialEntry {");
    reveal_strlit("KeyingMaterialEntry { ");
    reveal_strlit("label: ");
    reveal_strlit(", context: ");
    reveal_strlit("context: ");
    reveal_strlit(", material_len: ");
    reveal_strlit("material_len: ");
    reveal_strlit("}");
    reveal_strlit(" }");
    read_back::stripped_is_solid(fill, "KeyingMaterialEntry { label: "@);
    read_back::stripped_is_solid(fill, ", context: "@);
    read_back::stripped_is_solid(fill, ", material_len: "@);
    let space = seq![' '];
    solid_text::solid_of_blanks(fill, space);
    solid_text::solid_of_sum(fill, "KeyingMaterialEntry {"@, space);
    assert("KeyingMaterialEntry { "@ =~= "KeyingMaterialEntry {"@ + space);
    assert(solid_text::solid(fill, "KeyingMaterialEntry { "@) =~= solid_text::solid(
        fill,
        "KeyingMaterialEntry {"@,
    ));
    solid_text::solid_of_sum(fill, "KeyingMaterialEntry { "@, "label: "@);
    assert("KeyingMaterialEntry { label: "@ =~= "KeyingMaterialEntry { "@ + "label: "@);
    let comma = seq![',', ' '];
    solid_text::solid_of_solid(fill, seq![',']);
    solid_text::solid_of_sum(fill, seq![','], space);
    assert(comma =~= seq![','] + space);
    assert(solid_text::solid(fill, comma) =~= seq![',']);
    solid_text::solid_of_sum(fill, comma, "context: "@);
    assert(", context: "@ =~= comma + "context: "@);
    solid_text::solid_of_sum(fill, comma, "material_len: "@);
    assert(", material_len: "@ =~= comma + "material_len: "@);
    let brace = seq!['}'];
    if fill == '}' {
        solid_text::solid_of_blanks(fill, brace);
    } else {
        solid_text::solid_of_solid(fill, brace);
    }
    solid_text::solid_of_sum(fill, space, brace);
    assert(" }"@ =~= space + brace);
    assert("}"@ =~= brace);
    assert(solid_text::solid(fill, " }"@) =~= solid_text::solid(fill, brace));
}

/// What opens the debug form.
spec fn opening(options: FormatOptions) -> Seq<char> {
    if options.alternate {
        "KeyingMaterialEntry {"@
    } else {
        "KeyingMaterialEntry { "@
    }
}

/// What closes the debug form.
spec fn closing(options: FormatOptions) -> Seq<char> {
    if options.alternate {
        "}"@
    } else {
        " }"@
    }
}

/// The solid text from the end of the context on.
spec fn behind_context(fill: char, options: FormatOptions, shown: RedactedView) -> Seq<char> {
    seq![','] + solid_text::solid(fill, "material_len: "@) + (solid_text::solid_integer(
        options,
        shown.material_len,
    ) + (solid_text::last_comma(options.alternate) + solid_text::solid(fill, closing(options))))
}

/// The solid text from the end of the label on.
spec fn behind_label(fill: char, options: FormatOptions, shown: RedactedView) -> Seq<char> {
    seq![','] + solid_text::solid(fill, "context: "@) + (solid_text::solid_optional_bytes(
        options,
        shown.context,
    ) + behind_context(fill, options, shown))
}

/// The solid text of the debug form.
proof fn solid_of_debug_text(fill: char, options: FormatOptions, shown: RedactedView)
    requires
        !debug_text::is_value_char(fill),
        solid_text::pads_plainly(fill, options),
    ensures
        solid_text::solid(fill, shown.debug_text(options)) == solid_text::solid(
            fill,
            opening(options),
        ) + solid_text::solid(fill, "label: "@) + (solid_text::solid_bytes(options, shown.label)
            + behind_label(fill, options, shown)),
{
    let fields = shown.debug_fields(options);
    solid_text::solid_of_group(fill, options.alternate, opening(options), fields, closing(options));
    solid_text::solid_of_bytes(fill, options, shown.label);
    solid_text::solid_of_optional_bytes(fill, options, shown.context);
    solid_text::solid_of_integer(fill, options, shown.material_len);
    solid_text::solid_of_sum(fill, "label: "@, debug_text::bytes_text(options, shown.label));
    solid_text::solid_of_sum(
        fill,
        "context: "@,
        debug_text::optional_bytes_text(options, shown.context),
    );
    solid_text::solid_of_sum(fill, "material_len: "@, options.integer_text(shown.material_len));
    let label = solid_text::solid(fill, "label: "@) + solid_text::solid_bytes(options, shown.label);
    let context = solid_text::solid(fill, "context: "@) + solid_text::solid_optional_bytes(
        options,
        shown.context,
    );
    let material_len = solid_text::solid(fill, "material_len: "@) + solid_text::solid_integer(
        options,
        shown.material_len,
    );
    let items = solid_text::solids(fill, fields);
    assert(items =~= seq![label, context, material_len]);
    solid_text::solid_items_of_three(options.alternate, label, context, material_len);
    regrouped(
        solid_text::solid(fill, opening(options)),
        solid_text::solid(fill, "label: "@),
        solid_text::solid_bytes(options, shown.label),
        solid_text::solid(fill, "context: "@),
        solid_text::solid_optional_bytes(options, shown.context),
        solid_text::solid(fill, "material_len: "@),
        solid_text::solid_integer(options, shown.material_len),
        solid_text::last_comma(options.alternate),
        solid_text::solid(fill, closing(options)),
    );
}

/// The parts of a form with three named fields, grouped from the front and from
/// the back.
proof fn regrouped(
    open: Seq<char>,
    name_a: Seq<char>,
    a: Seq<char>,
    name_b: Seq<char>,
    b: Seq<char>,
    name_c: Seq<char>,
    c: Seq<char>,
    end: Seq<char>,
    close: Seq<char>,
)
    ensures
        open + (name_a + a + seq![','] + (name_b + b) + seq![','] + (name_c + c) + end) + close
            == open + name_a + (a + (seq![','] + name_b + (b + (seq![','] + name_c + (c + (end
            + close)))))),
{
    assert(open + (name_a + a + seq![','] + (name_b + b) + seq![','] + (name_c + c) + end) + close
        =~= open + name_a + (a + (seq![','] + name_b + (b + (seq![','] + name_c + (c + (end
        + close)))))));
}

} // verus!
