use baskelian_toolbox::dat::FileType;

fn kind(data: &[u8]) -> FileType {
    FileType::from_data(data).unwrap()
}

fn spaced_line(spaces: usize) -> Vec<u8> {
    let mut line = Vec::new();
    for _ in 0..spaces {
        line.extend_from_slice(b"a ");
    }
    line.extend_from_slice(b"b\nc d\n");
    line
}

#[test]
fn empty_payload_is_unknown() {
    assert!(matches!(kind(&[]), FileType::UNKNOWN));
}

#[test]
fn magic_first_bytes() {
    assert!(matches!(kind(&[0x10]), FileType::DFF));
    assert!(matches!(kind(&[0x16, 0x50, 0x4E, 0x47]), FileType::TXD));
    assert!(matches!(kind(b"\x1bput2d-script\n"), FileType::ANM));
    assert!(matches!(kind(&[0x1E, 0xFF, 0xFF]), FileType::DMA));
}

#[test]
fn png_signature() {
    assert!(matches!(kind(b"\x89PNG\r\n\x1a\n"), FileType::PNG));
    assert!(matches!(kind(b"xPN"), FileType::UNKNOWN));
}

#[test]
fn script_headers() {
    assert!(matches!(kind(b"mif-fixed-data-script\n"), FileType::FIXED));
    assert!(matches!(kind(b"mif-attached-data-script\n"), FileType::ATTACHED));
    assert!(matches!(kind(b"mif-postbl-data-script\n"), FileType::POSTBL));
    assert!(matches!(kind(b"mif-comid-data-script\n"), FileType::COMID));
    assert!(matches!(kind(b"mif-fixed-data-script"), FileType::FIXED));
    assert!(matches!(kind(b"mif-comid-data-script"), FileType::COMID));
    assert!(matches!(kind(b"font-type 1 2 3 4 5 6 7"), FileType::FTI));
    assert!(matches!(kind(b"font-type"), FileType::FTI));
    assert!(matches!(kind(b"font-typ"), FileType::UNKNOWN));
    assert!(matches!(kind(b"mif-fixed-data-scrip"), FileType::UNKNOWN));
}

#[test]
fn bare_script_header_is_a_hard_error() {
    assert!(matches!(
        FileType::from_data(b"put2d-script"),
        Err(baskelian_toolbox::errors::ValidationError::ParseFailure)
    ));
    assert!(matches!(
        FileType::from_data(b"mif-name-data-script"),
        Err(baskelian_toolbox::errors::ValidationError::ParseFailure)
    ));
}

#[test]
fn twenty_spaces_is_stats() {
    assert!(matches!(kind(&spaced_line(20)), FileType::STATS { .. }));
    assert!(matches!(kind(&spaced_line(19)), FileType::UNKNOWN));
    assert!(matches!(kind(&spaced_line(21)), FileType::UNKNOWN));
}

#[test]
fn space_scan_stops_at_limit() {
    let mut data = vec![b'x'; 140];
    data.extend_from_slice(&spaced_line(20));
    assert!(matches!(kind(&data), FileType::UNKNOWN));
    let mut data = vec![b'x'; 110];
    data.extend_from_slice(&spaced_line(20));
    assert!(matches!(kind(&data), FileType::STATS { .. }));
}

#[test]
fn mapinfo_layout() {
    let mut data = vec![0u8; 40];
    data[0] = 0x01;
    data[8] = 7;
    data[28] = 7;
    for b in &mut data[12..24] {
        *b = 0xFF;
    }
    assert!(matches!(kind(&data), FileType::MAPINFO));
    data[28] = 8;
    assert!(matches!(kind(&data), FileType::UNKNOWN));
    data[28] = 7;
    data[24] = 0xFF;
    assert!(matches!(kind(&data), FileType::UNKNOWN));
}

#[test]
fn extensions() {
    assert_eq!(kind(&[0x10]).extension(), ".dff");
    assert_eq!(kind(&[0x1B]).extension(), ".anm");
    assert_eq!(kind(b"mif-attached-data-script\n").extension(), ".cv3");
    assert_eq!(kind(b"mif-fixed-data-script\n").extension(), ".fix");
    assert_eq!(kind(&spaced_line(20)).extension(), ".stats");
    assert_eq!(kind(b"zz").extension(), "");
    assert_eq!(FileType::TXT.extension(), ".txt");
}
