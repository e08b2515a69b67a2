use baskelian_toolbox::dat::{ArchiveType, FileType, DAT};
use baskelian_toolbox::errors::{DatError, ValidationError};

fn le(v: u32) -> [u8; 4] {
    v.to_le_bytes()
}

/// One inner archive: its file count, the rows, then the payloads.
fn inner_blob(payloads: &[Vec<u8>]) -> Vec<u8> {
    let mut out = Vec::new();
    out.extend_from_slice(&le(payloads.len() as u32));
    let mut at = 4 + 8 * payloads.len();
    for p in payloads {
        out.extend_from_slice(&le(at as u32));
        out.extend_from_slice(&le(p.len() as u32));
        at += p.len();
    }
    for p in payloads {
        out.extend_from_slice(p);
    }
    out
}

fn container(inners: &[Vec<Vec<u8>>]) -> Vec<u8> {
    let blobs: Vec<Vec<u8>> = inners.iter().map(|i| inner_blob(i)).collect();
    let mut out = Vec::new();
    out.extend_from_slice(&le(inners.len() as u32));
    let mut at = 4 + 12 * inners.len();
    for (blob, files) in blobs.iter().zip(inners) {
        out.extend_from_slice(&le(at as u32));
        out.extend_from_slice(&le(blob.len() as u32));
        out.extend_from_slice(&le(files.len() as u32));
        at += blob.len();
    }
    for blob in &blobs {
        out.extend_from_slice(blob);
    }
    out
}

fn name_script() -> Vec<u8> {
    b"mif-name-data-script\n/chr/data/names/kevin.name.out\n2\nKevin\nKev2\n".to_vec()
}

fn ui_script() -> Vec<u8> {
    b"put2d-script\n3\n0\ndata/ui/title.txd\ndata/ui/title.txt\n0\n".to_vec()
}

#[test]
fn model_with_texture_is_object() {
    let files = vec![
        vec![0x10, 1, 2],
        vec![0x16, 3],
        vec![],
        vec![],
        vec![],
        vec![],
        vec![9],
    ];
    let dat = DAT::from_file(container(&[files])).unwrap();
    assert_eq!(dat.inner_dats.len(), 1);
    let inner = &dat.inner_dats[0];
    assert_eq!(inner.files.len(), 7);
    assert_eq!(inner.archive_type, ArchiveType::OBJECT);
    assert!(inner.archive_name.is_none());
}

#[test]
fn model_with_name_script_is_character() {
    let files = vec![
        vec![0x10],
        vec![0x16],
        vec![],
        vec![],
        vec![],
        vec![],
        name_script(),
        vec![0x1B, 1],
        vec![0x1B, 2],
    ];
    let dat = DAT::from_file(container(&[files])).unwrap();
    let inner = &dat.inner_dats[0];
    assert_eq!(inner.archive_type, ArchiveType::CHARACTER);
    assert_eq!(inner.archive_name.as_deref(), Some("kevin"));
    assert!(matches!(inner.files[6].file_type, FileType::NAME { .. }));
    assert_eq!(inner.files[7].file_name, None);
    assert_eq!(inner.files[8].file_name.as_deref(), Some("Kev2"));
}

#[test]
fn ui_archive_names_its_files() {
    let files = vec![ui_script(), vec![0x16, 0], b"zz".to_vec(), vec![0x10]];
    let dat = DAT::from_file(container(&[files])).unwrap();
    let inner = &dat.inner_dats[0];
    assert_eq!(inner.archive_type, ArchiveType::UI);
    assert_eq!(inner.archive_name.as_deref(), Some("title"));
    assert_eq!(inner.files[0].file_name.as_deref(), Some("title"));
    assert_eq!(inner.files[1].file_name.as_deref(), Some("title"));
    assert_eq!(inner.files[2].file_name.as_deref(), Some("title"));
    assert_eq!(inner.files[3].file_name, None);
    assert_eq!(inner.get_names().as_deref(), Some("title"));
    assert_eq!(ArchiveType::from_archive(inner), ArchiveType::UI);
}

#[test]
fn read_gives_exactly_size_bytes() {
    let a = vec![vec![0x10, 1, 2, 3], vec![], b"hello".to_vec()];
    let b = vec![vec![0x16; 10]];
    let dat = DAT::from_file(container(&[a, b])).unwrap();
    assert_eq!(dat.inner_dats.len(), 2);
    let mut count = 0;
    for inner in &dat.inner_dats {
        for file in &inner.files {
            let data = dat.read_file(inner, file).unwrap();
            assert_eq!(data.len(), file.size as usize);
            assert_eq!(file.read_file(&dat, inner).unwrap(), data);
            count += 1;
        }
    }
    assert_eq!(count, 4);
    let hello = dat.read_file(&dat.inner_dats[0], &dat.inner_dats[0].files[2]).unwrap();
    assert_eq!(hello, b"hello".to_vec());
}

#[test]
fn truncated_container_fails() {
    assert!(matches!(DAT::from_file(vec![1, 0]), Err(DatError::Truncated)));
    let mut bytes = container(&[vec![vec![0x10, 1, 2, 3]]]);
    bytes.pop();
    assert!(matches!(DAT::from_file(bytes), Err(DatError::Truncated)));
    let mut bytes = container(&[vec![vec![0x10]]]);
    bytes[0] = 2;
    assert!(matches!(DAT::from_file(bytes), Err(DatError::Truncated)));
    let dat = DAT::from_file(le(0).to_vec()).unwrap();
    assert_eq!(dat.inner_dats.len(), 0);
}

#[test]
fn broken_script_fails_the_container() {
    let files = vec![b"put2d-script\nnot a number\n".to_vec()];
    let r = DAT::from_file(container(&[files]));
    assert!(matches!(r, Err(DatError::Format(ValidationError::ParseFailure))));
}

#[test]
fn empty_inner_archive_is_unknown() {
    let dat = DAT::from_file(container(&[vec![]])).unwrap();
    assert_eq!(dat.inner_dats[0].archive_type, ArchiveType::UNKNOWN);
    assert_eq!(dat.inner_dats[0].files.len(), 0);
}
