use std::fmt;

use tls_keying_material::{Alignment, FormatOptions, KeyingMaterialEntry, Radix};

/// The debug form as the standard formatter writes it.
struct Shown<'a>(&'a KeyingMaterialEntry);

impl<'a> fmt::Debug for Shown<'a> {
    fn fmt(&self, f: &mut fmt::Formatter<'_>) -> fmt::Result {
        f.debug_struct("KeyingMaterialEntry")
            .field("label", &self.0.label)
            .field("context", &self.0.context)
            .field("material_len", &self.0.material.len())
            .finish()
    }
}

fn entry(label: &[u8], context: Option<&[u8]>, material: &[u8]) -> KeyingMaterialEntry {
    KeyingMaterialEntry {
        label: label.to_vec(),
        context: context.map(|c| c.to_vec()),
        material: material.to_vec(),
    }
}

fn samples() -> Vec<KeyingMaterialEntry> {
    let all: Vec<u8> = (0..=255).collect();
    vec![
        entry(b"", None, b""),
        entry(b"", Some(b""), b""),
        entry(b"EXPORTER-Channel-Binding", None, &[7; 32]),
        entry(b"my-app", Some(b"alice"), &[200; 48]),
        entry(&all, Some(&all), &vec![1; 65536]),
        entry(&[0], Some(&[9, 10, 15, 16, 99, 100, 255]), &[3; 1]),
    ]
}

#[test]
fn plain_form_is_exact() {
    let e = entry(b"my-app", Some(b"bob"), &[42; 32]);
    assert_eq!(
        e.fmt(&FormatOptions::new()),
        "KeyingMaterialEntry { label: [109, 121, 45, 97, 112, 112], \
         context: Some([98, 111, 98]), material_len: 32 }"
    );
    let e = entry(b"", None, b"");
    assert_eq!(
        e.fmt(&FormatOptions::new()),
        "KeyingMaterialEntry { label: [], context: None, material_len: 0 }"
    );
}

#[test]
fn alternate_form_is_exact() {
    let mut options = FormatOptions::new();
    options.alternate = true;
    let e = entry(&[1, 2], Some(&[30]), &[42; 16]);
    assert_eq!(
        e.fmt(&options),
        "KeyingMaterialEntry {\n    label: [\n        1,\n        2,\n    ],\n    \
         context: Some(\n        [\n            30,\n        ],\n    ),\n    \
         material_len: 16,\n}"
    );
    let e = entry(&[], None, &[]);
    assert_eq!(
        e.fmt(&options),
        "KeyingMaterialEntry {\n    label: [],\n    context: None,\n    material_len: 0,\n}"
    );
}

#[test]
fn radix_sign_and_padding_are_exact() {
    let e = entry(&[10, 255], None, &[0; 300]);
    let mut options = FormatOptions::new();
    options.radix = Radix::LowerHex;
    options.zero_pad = true;
    options.width = Some(2);
    assert_eq!(
        e.fmt(&options),
        "KeyingMaterialEntry { label: [0a, ff], context: None, material_len: 12c }"
    );
    options.radix = Radix::UpperHex;
    options.sign_plus = true;
    options.width = Some(4);
    assert_eq!(
        e.fmt(&options),
        "KeyingMaterialEntry { label: [+00A, +0FF], context: None, material_len: +12C }"
    );
    options = FormatOptions::new();
    options.width = Some(5);
    options.fill = '*';
    assert_eq!(
        e.fmt(&options),
        "KeyingMaterialEntry { label: [***10, **255], context: None, material_len: **300 }"
    );
    options.align = Some(Alignment::Left);
    assert_eq!(
        e.fmt(&options),
        "KeyingMaterialEntry { label: [10***, 255**], context: None, material_len: 300** }"
    );
    options.align = Some(Alignment::Center);
    assert_eq!(
        e.fmt(&options),
        "KeyingMaterialEntry { label: [*10**, *255*], context: None, material_len: *300* }"
    );
}

#[test]
fn agrees_with_the_standard_formatter_without_width() {
    for e in samples().iter() {
        let s = Shown(e);
        let mut o = FormatOptions::new();
        assert_eq!(e.fmt(&o), format!("{:?}", s));
        o.alternate = true;
        assert_eq!(e.fmt(&o), format!("{:#?}", s));
        o.sign_plus = true;
        assert_eq!(e.fmt(&o), format!("{:+#?}", s));
        o.radix = Radix::LowerHex;
        assert_eq!(e.fmt(&o), format!("{:+#x?}", s));
        o.radix = Radix::UpperHex;
        assert_eq!(e.fmt(&o), format!("{:+#X?}", s));
        o.sign_plus = false;
        assert_eq!(e.fmt(&o), format!("{:#X?}", s));
        o.alternate = false;
        assert_eq!(e.fmt(&o), format!("{:X?}", s));
        o.radix = Radix::LowerHex;
        assert_eq!(e.fmt(&o), format!("{:x?}", s));
        // A precision changes nothing.
        assert_eq!(e.fmt(&o), format!("{:.3x?}", s));
    }
}

#[test]
fn agrees_with_the_standard_formatter_at_each_width() {
    for e in samples().iter() {
        let s = Shown(e);
        for w in 0..9u16 {
            let n = w as usize;
            let mut o = FormatOptions::new();
            o.width = Some(w);
            assert_eq!(e.fmt(&o), format!("{:n$?}", s, n = n));
            o.align = Some(Alignment::Right);
            assert_eq!(e.fmt(&o), format!("{:>n$?}", s, n = n));
            o.align = Some(Alignment::Left);
            assert_eq!(e.fmt(&o), format!("{:<n$?}", s, n = n));
            o.align = Some(Alignment::Center);
            assert_eq!(e.fmt(&o), format!("{:^n$?}", s, n = n));
            o.fill = '\u{e9}';
            assert_eq!(e.fmt(&o), format!("{:\u{e9}^n$?}", s, n = n));
            o.alternate = true;
            assert_eq!(e.fmt(&o), format!("{:\u{e9}^#n$?}", s, n = n));
            o.radix = Radix::UpperHex;
            assert_eq!(e.fmt(&o), format!("{:\u{e9}^#n$X?}", s, n = n));
            o.zero_pad = true;
            assert_eq!(e.fmt(&o), format!("{:\u{e9}^#0n$X?}", s, n = n));
            o.sign_plus = true;
            assert_eq!(e.fmt(&o), format!("{:\u{e9}^+#0n$X?}", s, n = n));
            o.radix = Radix::Decimal;
            assert_eq!(e.fmt(&o), format!("{:\u{e9}^+#0n$?}", s, n = n));
        }
    }
}

#[test]
fn agrees_with_the_standard_formatter_on_newline_fill() {
    for e in samples().iter() {
        let s = Shown(e);
        let mut o = FormatOptions::new();
        o.width = Some(6);
        o.fill = '\n';
        o.align = Some(Alignment::Center);
        assert_eq!(e.fmt(&o), format!("{:\n^6?}", s));
        o.alternate = true;
        assert_eq!(e.fmt(&o), format!("{:\n^#6?}", s));
    }
}

#[test]
fn secret_bytes_do_not_change_the_form() {
    let a = entry(b"EXPORTER-Channel-Binding", Some(b"alice"), &[0; 32]);
    let b = entry(b"EXPORTER-Channel-Binding", Some(b"alice"), &[255; 32]);
    let mut o = FormatOptions::new();
    assert_eq!(a.fmt(&o), b.fmt(&o));
    o.alternate = true;
    o.radix = Radix::LowerHex;
    assert_eq!(a.fmt(&o), b.fmt(&o));
}

#[test]
fn all_but_the_secret_bytes_can_be_told_apart() {
    let entries = [
        entry(b"a", None, &[5; 1]),
        entry(b"b", None, &[5; 1]),
        entry(b"a", Some(b""), &[5; 1]),
        entry(b"a", Some(b"b"), &[5; 1]),
        entry(b"a", None, &[5; 11]),
        entry(&[1, 11], None, &[5; 1]),
        entry(&[11, 1], None, &[5; 1]),
        entry(&[111], None, &[5; 1]),
    ];
    let mut alternate = FormatOptions::new();
    alternate.alternate = true;
    let mut starred = FormatOptions::new();
    starred.width = Some(5);
    starred.fill = '*';
    for o in [FormatOptions::new(), alternate, starred] {
        for i in 0..entries.len() {
            for j in 0..entries.len() {
                assert_eq!(entries[i].fmt(&o) == entries[j].fmt(&o), i == j);
            }
        }
    }
}

#[test]
fn a_digit_as_fill_can_make_two_lengths_look_alike() {
    let mut o = FormatOptions::new();
    o.width = Some(5);
    o.fill = '1';
    let a = entry(b"", None, &[5; 1]);
    let b = entry(b"", None, &[5; 11]);
    assert_eq!(a.fmt(&o), b.fmt(&o));
}

#[test]
fn debug_form_never_prints_material_bytes() {
    let material: Vec<u8> = (0..32u8).map(|i| 200 - 5 * i).collect();
    let e = entry(b"EXPORTER-Channel-Binding", None, &material);
    let mut o = FormatOptions::new();
    let plain = e.fmt(&o);
    o.radix = Radix::LowerHex;
    o.zero_pad = true;
    o.width = Some(2);
    let hex = e.fmt(&o);
    for window in material.windows(4) {
        let shown = format!("{:02x?}", window);
        let inner = &shown[1..shown.len() - 1];
        assert!(!plain.contains(inner));
        assert!(!hex.contains(inner));
    }
    let bytes_repr = format!("{:?}", material);
    assert!(!plain.contains(&bytes_repr));
    assert!(plain.contains("material_len: 32"));
}
