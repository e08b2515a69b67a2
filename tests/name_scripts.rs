use baskelian_toolbox::dat::FileType;
use baskelian_toolbox::errors::ValidationError;
use baskelian_toolbox::file::name::Name;

#[test]
fn name_script_fields() {
    let data = b"mif-name-data-script\r\n/chr/data/names/kevin.name.out\r\n2\r\nKevin\r\nKev2\r\nextra\r\n";
    let n = Name::new(data).unwrap();
    assert_eq!(n.file_path, "/chr/data/names/kevin.name.out");
    assert_eq!(n.name_count, 2);
    assert_eq!(n.names, vec!["Kevin".to_string(), "Kev2".to_string()]);
}

#[test]
fn name_script_classified() {
    let data = b"mif-name-data-script\n/p\n1\nOnly";
    match FileType::from_data(data).unwrap() {
        FileType::NAME { name } => assert_eq!(name.names, vec!["Only".to_string()]),
        _ => panic!("not a name script"),
    }
}

#[test]
fn name_script_errors() {
    assert!(matches!(Name::new(b"mif-name-data-script\n/p\n3\na\nb\n"), Err(ValidationError::ParseFailure)));
    assert!(matches!(Name::new(b"mif-name-data-script\n/p\nx\n"), Err(ValidationError::ParseFailure)));
    assert!(matches!(Name::new(b"mif-name-data-script\n/p\n1\n\xff\n"), Err(ValidationError::ParseFailure)));
    assert!(matches!(
        FileType::from_data(b"mif-name-data-script\n"),
        Err(ValidationError::ParseFailure)
    ));
}

#[test]
fn name_script_utf8_names() {
    let data = "mif-name-data-script\n/chr/a/b/ren\u{e9}.name.out\n1\nRen\u{e9}".as_bytes();
    let n = Name::new(data).unwrap();
    assert_eq!(n.names, vec!["Ren\u{e9}".to_string()]);
    assert_eq!(n.file_path, "/chr/a/b/ren\u{e9}.name.out");
}
