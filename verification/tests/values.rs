use tls_keying_material::{KeyingMaterialEntry, KeyingMaterialSpec};

#[test]
fn clone_of_a_spec_keeps_every_field() {
    for context in [None, Some(vec![]), Some(b"alice".to_vec())] {
        let spec = KeyingMaterialSpec {
            label: b"my-app".to_vec(),
            context: context.clone(),
            length: 32,
        };
        let copy = spec.clone();
        assert_eq!(copy.label, b"my-app".to_vec());
        assert_eq!(copy.context, context);
        assert_eq!(copy.length, 32);
    }
}

#[test]
fn clone_of_an_entry_keeps_every_field() {
    for context in [None, Some(vec![]), Some(b"alice".to_vec())] {
        let entry = KeyingMaterialEntry {
            label: b"my-app".to_vec(),
            context: context.clone(),
            material: vec![1, 2, 3],
        };
        let copy = entry.clone();
        assert_eq!(copy.label, b"my-app".to_vec());
        assert_eq!(copy.context, context);
        assert_eq!(copy.material, vec![1, 2, 3]);
    }
}

#[test]
fn spec_debug_form_shows_its_fields() {
    let spec = KeyingMaterialSpec {
        label: vec![1],
        context: Some(vec![2, 3]),
        length: 16,
    };
    assert_eq!(
        format!("{:?}", spec),
        "KeyingMaterialSpec { label: [1], context: Some([2, 3]), length: 16 }"
    );
}

#[test]
fn redacted_keeps_all_but_the_material() {
    let entry = KeyingMaterialEntry {
        label: b"my-app".to_vec(),
        context: Some(b"alice".to_vec()),
        material: vec![9; 48],
    };
    let shown = entry.redacted();
    assert_eq!(shown.label, &b"my-app".to_vec());
    assert_eq!(shown.context, &Some(b"alice".to_vec()));
    assert_eq!(shown.material_len, 48);
}
