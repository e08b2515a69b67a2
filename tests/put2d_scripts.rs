use baskelian_toolbox::dat::FileType;
use baskelian_toolbox::errors::ValidationError;
use baskelian_toolbox::file::put2d::{Put2D, Put2DEntry, Put2DEntryType};

const HEAD: &str = "put2d-script\n7\n1\ndata/ui/title.txd\ndata/ui/title.txt\n";
const TYPE0_SHORT: &str = "0 0 1 2 Hello 300 400 5 6 7 8";
const TYPE1: &str = "1 1 3 tex/a.png 10 20 30 4 5 6 7 8 9 pic";

fn script(entries: &[&str]) -> String {
    let mut s = String::from(HEAD);
    s.push_str(&format!("{}\n", entries.len()));
    for e in entries {
        s.push_str(e);
        s.push('\n');
    }
    s
}

#[test]
fn type0_missing_last_field_defaults_to_zero() {
    let p = Put2D::from_data(script(&[TYPE0_SHORT, TYPE1]).as_bytes()).unwrap();
    assert_eq!(p.id, 7);
    assert_eq!(p.unknown, 1);
    assert_eq!(p.txd_path, "data/ui/title.txd");
    assert_eq!(p.txt_path, "data/ui/title.txt");
    assert_eq!(p.entry_count, 2);
    assert_eq!(p.entries.len(), 2);
    assert_eq!(p.entries[0].unknown, 0);
    match &p.entries[0].entry_type {
        Put2DEntryType::TYPE0 { entry } => {
            assert_eq!(entry.unknown_1, 1);
            assert_eq!(entry.unknown_2, 2);
            assert_eq!(entry.content, "Hello");
            assert_eq!(entry.unknown_3, 300);
            assert_eq!(entry.unknown_4, 400);
            assert_eq!(entry.unknown_8, 8);
            assert_eq!(entry.unknown_9, 0);
        }
        other => panic!("unexpected entry {:?}", other),
    }
    match &p.entries[1].entry_type {
        Put2DEntryType::TYPE1 { entry } => {
            assert_eq!(entry.unknown_1, 3);
            assert_eq!(entry.file_path, "tex/a.png");
            assert_eq!(entry.unknown_4, 30);
            assert_eq!(entry.id, 9);
            assert_eq!(entry.file_name, "pic");
        }
        other => panic!("unexpected entry {:?}", other),
    }
}

#[test]
fn type0_malformed_last_field_is_zero() {
    let line = "0 0 1 2 Hello 300 400 5 6 7 8 oops";
    let p = Put2D::from_data(script(&[line]).as_bytes()).unwrap();
    match &p.entries[0].entry_type {
        Put2DEntryType::TYPE0 { entry } => assert_eq!(entry.unknown_9, 0),
        other => panic!("unexpected entry {:?}", other),
    }
    let line = "0 0 1 2 Hello 300 400 5 6 7 8 9";
    let p = Put2D::from_data(script(&[line]).as_bytes()).unwrap();
    match &p.entries[0].entry_type {
        Put2DEntryType::TYPE0 { entry } => assert_eq!(entry.unknown_9, 9),
        other => panic!("unexpected entry {:?}", other),
    }
}

#[test]
fn type1_missing_field_is_fatal() {
    let short = "1 1 3 tex/a.png 10 20 30 4 5 6 7 8 9";
    let r = Put2D::from_data(script(&[TYPE0_SHORT, short]).as_bytes());
    assert!(matches!(r, Err(ValidationError::ParseFailure)));
    let r = FileType::from_data(script(&[short]).as_bytes());
    assert!(matches!(r, Err(ValidationError::ParseFailure)));
}

#[test]
fn other_layouts() {
    let t2 = "4 2 1 f/p.png 1 2 3 4 5 6 7 8 9 10 11 12 5 name";
    let t3 = "0 3 1 2 3 4 500 600 7 8 9  11 12";
    let t4 = "0 4 1 200 300 400 500 600 7 8 9 10 11 1200 x 14 15";
    let unknown = "9 7 a b c";
    let p = Put2D::from_text(&script(&[t2, t3, t4, unknown, "5"])).unwrap();
    match &p.entries[0].entry_type {
        Put2DEntryType::TYPE2 { entry } => {
            assert_eq!(entry.unknown_8, 7);
            assert_eq!(entry.unknown_13, 12);
            assert_eq!(entry.id, 5);
            assert_eq!(entry.file_name, "name");
        }
        other => panic!("unexpected entry {:?}", other),
    }
    assert_eq!(p.entries[0].unknown, 4);
    match &p.entries[1].entry_type {
        Put2DEntryType::TYPE3 { entry } => {
            assert_eq!(entry.unknown_5, 500);
            assert_eq!(entry.unknown_10, 0);
            assert_eq!(entry.unknown_11, 11);
            assert_eq!(entry.unknown_12, 12);
        }
        other => panic!("unexpected entry {:?}", other),
    }
    match &p.entries[2].entry_type {
        Put2DEntryType::TYPE4 { entry } => {
            assert_eq!(entry.unknown_12, 1200);
            assert_eq!(entry.unknown_13, 0);
            assert_eq!(entry.unknown_15, 15);
        }
        other => panic!("unexpected entry {:?}", other),
    }
    assert!(matches!(p.entries[3].entry_type, Put2DEntryType::UNKNOWN));
    assert_eq!(p.entries[4].unknown, 5);
    assert!(matches!(p.entries[4].entry_type, Put2DEntryType::UNKNOWN));
}

#[test]
fn entry_line_needs_byte() {
    let chars: Vec<char> = "x 0 1".chars().collect();
    assert!(Put2DEntry::from_chars(&chars).is_none());
}

#[test]
fn missing_entry_lines_fail() {
    let mut s = String::from(HEAD);
    s.push_str("3\n");
    s.push_str(TYPE0_SHORT);
    assert!(matches!(Put2D::from_text(&s), Err(ValidationError::ParseFailure)));
    assert!(matches!(Put2D::from_text("put2d-script\n7"), Err(ValidationError::ParseFailure)));
}

#[test]
fn shift_jis_text_is_decoded() {
    let mut bytes = b"put2d-script\n7\n1\ndata/ui/".to_vec();
    bytes.extend_from_slice(&[0x82, 0xA0]);
    bytes.extend_from_slice(b".txd\nx.txt\n0\n");
    let p = Put2D::from_data(&bytes).unwrap();
    assert_eq!(p.txd_path, "data/ui/\u{3042}.txd");
    assert_eq!(p.entries.len(), 0);
}

#[test]
fn malformed_shift_jis_is_incorrect_format() {
    let mut bytes = b"put2d-script\n7\n1\n".to_vec();
    bytes.extend_from_slice(&[0x81, 0x20]);
    bytes.extend_from_slice(b"\nx\n0\n");
    let r = Put2D::from_data(&bytes);
    assert!(matches!(
        r,
        Err(ValidationError::IncorrectFormat(m)) if m == "Invalid SHIFT_JIS encoding!"
    ));
}

#[test]
fn entry_type_from_str() {
    match "0 1 2 hello 300 400 5 6 7 8".parse::<Put2DEntryType>().unwrap() {
        Put2DEntryType::TYPE0 { entry } => {
            assert_eq!(entry.unknown_1, 1);
            assert_eq!(entry.unknown_2, 2);
            assert_eq!(entry.content, "hello");
            assert_eq!(entry.unknown_3, 300);
            assert_eq!(entry.unknown_4, 400);
            assert_eq!(entry.unknown_5, 5);
            assert_eq!(entry.unknown_8, 8);
            assert_eq!(entry.unknown_9, 0);
        }
        other => panic!("unexpected entry {:?}", other),
    }
    assert!(matches!(
        "1 3 ui/a.txd 10 20 30 4 5 6 7".parse::<Put2DEntryType>(),
        Err(ValidationError::ParseFailure)
    ));
    match "1 3 ui/a.txd 10 20 30 4 5 6 7 8 9 btn".parse::<Put2DEntryType>().unwrap() {
        Put2DEntryType::TYPE1 { entry } => {
            assert_eq!(entry.unknown_1, 3);
            assert_eq!(entry.file_path, "ui/a.txd");
            assert_eq!(entry.unknown_2, 10);
            assert_eq!(entry.unknown_9, 8);
            assert_eq!(entry.id, 9);
            assert_eq!(entry.file_name, "btn");
        }
        other => panic!("unexpected entry {:?}", other),
    }
    match "3 1 2 3 4 500 600 7 8 9  11 12".parse::<Put2DEntryType>().unwrap() {
        Put2DEntryType::TYPE3 { entry } => {
            assert_eq!(entry.unknown_10, 0);
            assert_eq!(entry.unknown_12, 12);
        }
        other => panic!("unexpected entry {:?}", other),
    }
    match "4 1 200 300 400 500 600 7 8 9 10 11 1200  14 15".parse::<Put2DEntryType>().unwrap() {
        Put2DEntryType::TYPE4 { entry } => {
            assert_eq!(entry.unknown_12, 1200);
            assert_eq!(entry.unknown_13, 0);
            assert_eq!(entry.unknown_15, 15);
        }
        other => panic!("unexpected entry {:?}", other),
    }
    assert!(matches!("7 x y".parse::<Put2DEntryType>(), Ok(Put2DEntryType::UNKNOWN)));
    assert!(matches!("".parse::<Put2DEntryType>(), Ok(Put2DEntryType::UNKNOWN)));
    assert!(matches!(
        "2 1 f/p.png 1 2 3 x 5 6 7 8 9 10 11 12 5 name".parse::<Put2DEntryType>(),
        Err(ValidationError::ParseFailure)
    ));
}

#[test]
fn entry_from_str() {
    let e: Put2DEntry = "6 0 1 2 hello 300 400 5 6 7 8".parse().unwrap();
    assert_eq!(e.unknown, 6);
    assert!(matches!(e.entry_type, Put2DEntryType::TYPE0 { .. }));
    assert!(matches!("x 0 1".parse::<Put2DEntry>(), Err(ValidationError::ParseFailure)));
    assert!(matches!("6 1 3 a".parse::<Put2DEntry>(), Err(ValidationError::ParseFailure)));
}

#[test]
fn ascii_script_decodes_unchanged() {
    let p = Put2D::from_data(b"put2d-script\n1\n2\na/b.txd\nc.txt\n0").unwrap();
    assert_eq!(p.txd_path, "a/b.txd");
    assert_eq!(p.txt_path, "c.txt");
}
