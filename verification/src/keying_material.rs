//! Requests for exported keying material, and what was exported.
use vstd::prelude::*;

use crate::debug_text;
use crate::format_options::FormatOptions;

verus! {

/// A `(label, context, length)` request for exported keying material
/// (RFC 5705, RFC 8446 section 7.5).
#[derive(Debug)]
pub struct KeyingMaterialSpec {
    /// The exporter label.
    pub label: Vec<u8>,
    /// The context value. A missing context differs from an empty one.
    pub context: Option<Vec<u8>>,
    /// How many bytes to export.
    pub length: usize,
}

/// The keying material that one successful export yielded.
///
/// `material` is secret. The type has no `Debug` impl; `fmt` gives its debug
/// form, which leaves the secret bytes out.
pub struct KeyingMaterialEntry {
    /// The exporter label.
    pub label: Vec<u8>,
    /// The context value.
    pub context: Option<Vec<u8>>,
    /// The exported bytes.
    pub material: Vec<u8>,
}

/// What may be shown of a [`KeyingMaterialEntry`].
pub struct RedactedEntry<'a> {
    /// The exporter label.
    pub label: &'a Vec<u8>,
    /// The context value.
    pub context: &'a Option<Vec<u8>>,
    /// How many bytes were exported.
    pub material_len: usize,
}

/// The values that a [`KeyingMaterialSpec`] stands for.
pub struct SpecView {
    pub label: Seq<u8>,
    pub context: Option<Seq<u8>>,
    pub length: nat,
}

/// The values that a [`KeyingMaterialEntry`] stands for.
pub struct EntryView {
    pub label: Seq<u8>,
    pub context: Option<Seq<u8>>,
    pub material: Seq<u8>,
}

/// The values that a [`RedactedEntry`] stands for.
pub struct RedactedView {
    pub label: Seq<u8>,
    pub context: Option<Seq<u8>>,
    pub material_len: nat,
}

impl View for KeyingMaterialSpec {
    type V = SpecView;

    open spec fn view(&self) -> SpecView {
        SpecView {
            label: self.label@,
            context: debug_text::optional_view(self.context),
            length: self.length as nat,
        }
    }
}

impl View for KeyingMaterialEntry {
    type V = EntryView;

    open spec fn view(&self) -> EntryView {
        EntryView {
            label: self.label@,
            context: debug_text::optional_view(self.context),
            material: self.material@,
        }
    }
}

impl<'a> View for RedactedEntry<'a> {
    type V = RedactedView;

    open spec fn view(&self) -> RedactedView {
        RedactedView {
            label: self.label@,
            context: debug_text::optional_view(*self.context),
            material_len: self.material_len as nat,
        }
    }
}

impl EntryView {
    /// The entry with the material reduced to its length.
    pub open spec fn redacted(self) -> RedactedView {
        RedactedView {
            label: self.label,
            context: self.context,
            material_len: self.material.len(),
        }
    }

    /// The debug form of the entry.
    pub open spec fn debug_text(self, options: FormatOptions) -> Seq<char> {
        self.redacted().debug_text(options)
    }
}

impl RedactedView {
    /// The fields of the debug form, each as a name and a value.
    pub open spec fn debug_fields(self, options: FormatOptions) -> Seq<Seq<char>> {
        seq![
            "label: "@ + debug_text::bytes_text(options, self.label),
            "context: "@ + debug_text::optional_bytes_text(options, self.context),
            "material_len: "@ + options.integer_text(self.material_len),
        ]
    }

    /// The debug form of the entry that this is shown of.
    pub open spec fn debug_text(self, options: FormatOptions) -> Seq<char> {
        let fields = self.debug_fields(options);
        if options.alternate {
            debug_text::group_text(true, "KeyingMaterialEntry {"@, fields, "}"@)
        } else {
            debug_text::group_text(false, "KeyingMaterialEntry { "@, fields, " }"@)
        }
    }
}

/// A copy of a byte string.
fn copied(bytes: &Vec<u8>) -> (copy: Vec<u8>)
    ensures
        copy@ == bytes@,
{
    let copy = bytes.clone();
    assert(copy@ =~= bytes@);
    copy
}

/// A copy of a byte string that may be missing.
fn optional_copied(bytes: &Option<Vec<u8>>) -> (copy: Option<Vec<u8>>)
    ensures
        debug_text::optional_view(copy) == debug_text::optional_view(*bytes),
        copy is Some <==> *bytes is Some,
        *bytes is Some ==> copy->0@ == (*bytes)->0@,
{
    match bytes {
        Some(bytes) => Some(copied(bytes)),
        None => None,
    }
}

impl Clone for KeyingMaterialSpec {
    fn clone(&self) -> (copy: Self)
        ensures
            copy@ == self@,
            copy.label@ == self.label@,
            copy.context is Some <==> self.context is Some,
            self.context is Some ==> copy.context->0@ == self.context->0@,
            copy.length == self.length,
    {
        KeyingMaterialSpec {
            label: copied(&self.label),
            context: optional_copied(&self.context),
            length: self.length,
        }
    }
}

impl Clone for KeyingMaterialEntry {
    fn clone(&self) -> (copy: Self)
        ensures
            copy@ == self@,
            copy.label@ == self.label@,
            copy.context is Some <==> self.context is Some,
            self.context is Some ==> copy.context->0@ == self.context->0@,
            copy.material@ == self.material@,
    {
        KeyingMaterialEntry {
            label: copied(&self.label),
            context: optional_copied(&self.context),
            material: copied(&self.material),
        }
    }
}

impl KeyingMaterialEntry {
    /// What may be shown of the entry: all but the secret bytes.
    pub fn redacted(&self) -> (shown: RedactedEntry<'_>)
        ensures
            *shown.label == self.label,
            *shown.context == self.context,
            shown.material_len == self.material@.len(),
            shown@ == self@.redacted(),
    {
        RedactedEntry {
            label: &self.label,
            context: &self.context,
            material_len: self.material.len(),
        }
    }

    /// The debug form of the entry under the given options, such as
    /// `KeyingMaterialEntry { label: [97], context: None, material_len: 32 }`.
    ///
    /// The secret bytes are not part of it, only their number.
    pub fn fmt(&self, options: &FormatOptions) -> (text: String)
        ensures
            text@ == self@.debug_text(*options),
    {
        self.redacted().fmt(options)
    }
}

impl<'a> RedactedEntry<'a> {
    /// The debug form of the entry that this is shown of.
    fn fmt(&self, options: &FormatOptions) -> (text: String)
        ensures
            text@ == self@.debug_text(*options),
    {
        let mut label = "label: ".to_owned();
        label.append(debug_text::bytes_debug(options, self.label).as_str());
        let mut context = "context: ".to_owned();
        context.append(debug_text::optional_bytes_debug(options, self.context).as_str());
        let mut material_len = "material_len: ".to_owned();
        material_len.append(options.integer(self.material_len).as_str());
        let fields = vec![label, context, material_len];
        assert(debug_text::texts(fields@) =~= self@.debug_fields(*options));
        if options.alternate {
            debug_text::group(true, "KeyingMaterialEntry {", &fields, "}")
        } else {
            debug_text::group(false, "KeyingMaterialEntry { ", &fields, " }")
        }
    }
}

} // verus!
