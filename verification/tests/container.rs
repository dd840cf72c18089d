use std::io::Write;

use wallet_pass::container::{read_container, split_entry_name};
use wallet_pass::pass::{PkPassValue, SubtypeKey};

fn build_zip(entries: &[(&str, &[u8])]) -> Vec<u8> {
    let mut w = zip::ZipWriter::new(std::io::Cursor::new(Vec::new()));
    for (name, data) in entries {
        w.start_file(*name, zip::write::SimpleFileOptions::default())
            .unwrap();
        w.write_all(data).unwrap();
    }
    w.finish().unwrap().into_inner()
}

#[test]
fn locale_bundles_are_grouped() {
    let bytes = build_zip(&[
        ("pass.json", b"{}".as_slice()),
        ("en.lproj/logo.png", b"EN".as_slice()),
        ("fr.lproj/logo.png", b"FR".as_slice()),
    ]);
    let c = read_container(&bytes).unwrap();
    assert_eq!(c.entries.len(), 3);
    assert_eq!(c.entries[0].0, "pass.json");
    assert_eq!(c.locales.len(), 2);
    let langs: Vec<&str> = c.locales.iter().map(|l| l.0.as_str()).collect();
    assert!(langs.contains(&"en"));
    assert!(langs.contains(&"fr"));
    for (lang, resources) in &c.locales {
        assert_eq!(resources.len(), 1);
        assert_eq!(resources[0].0, "logo.png");
        let expected: &[u8] = if lang == "en" { b"EN" } else { b"FR" };
        assert_eq!(resources[0].1, expected);
    }
}

#[test]
fn non_bundle_entries_stay_flat() {
    let bytes = build_zip(&[("pass.json", b"{}".as_slice()), ("icon.png", b"I".as_slice())]);
    let c = read_container(&bytes).unwrap();
    assert_eq!(c.locales.len(), 0);
    assert_eq!(c.entries.len(), 2);
}

#[test]
fn one_locale_many_resources() {
    let bytes = build_zip(&[
        ("de.lproj/logo.png", b"L".as_slice()),
        ("de.lproj/pass.strings", b"S".as_slice()),
    ]);
    let c = read_container(&bytes).unwrap();
    assert_eq!(c.locales.len(), 1);
    assert_eq!(c.locales[0].0, "de");
    assert_eq!(c.locales[0].1.len(), 2);
    assert_eq!(c.locales[0].1[0].0, "logo.png");
    assert_eq!(c.locales[0].1[1].0, "pass.strings");
}

#[test]
fn entry_name_splitting() {
    assert_eq!(
        split_entry_name("en.lproj/logo.png"),
        Some(("en".to_owned(), "logo.png".to_owned()))
    );
    assert_eq!(split_entry_name("pass.json"), None);
    assert_eq!(
        split_entry_name("a/b.lproj/c.lproj/d"),
        Some(("a/b".to_owned(), "c.lproj/d".to_owned()))
    );
}

#[test]
fn unreadable_bytes_are_refused() {
    assert!(read_container(&b"garbage".to_vec()).is_err());
}

#[test]
fn field_scan_first_match() {
    let entries = vec![
        PkPassValue { key: "a".to_owned(), label: "A".to_owned(), value: "1".to_owned() },
        PkPassValue { key: "b".to_owned(), label: "B".to_owned(), value: "2".to_owned() },
        PkPassValue { key: "a".to_owned(), label: "A2".to_owned(), value: "3".to_owned() },
    ];
    assert_eq!(
        PkPassValue::scan_for_value_for_key("a", &entries).as_deref(),
        Some("1")
    );
    assert_eq!(
        PkPassValue::scan_for_value_for_key("b", &entries).as_deref(),
        Some("2")
    );
    assert_eq!(PkPassValue::scan_for_value_for_key("c", &entries), None);
    let _ = SubtypeKey::Flight;
}
