//! The payloads of a container and their classification.

pub mod name;
pub mod put2d;
pub mod stats;

use vstd::prelude::*;

use crate::dat::{file_spec, payload, payload_in_bounds, read_le_u32, DAT, InnerDAT};
use crate::errors::{DatError, DatErrorView, ValidationError, ValidationErrorView};
use crate::text::{chars_of, opt_chars, split_chars, split_seq, strip_suffix, strip_suffix_chars};
use name::{parse_name, Name, NameView};
use put2d::{decodable_len, parse_put2d, Put2D, Put2DView};
use stats::{parse_stats, Stats, StatsEntryView};

verus! {

/// One entry of an inner archive: where its payload lies and what it is.
#[derive(Debug)]
pub struct File {
    pub file_type: FileType,
    /// A name inferred from the archive around the file, where one is.
    pub file_name: Option<String>,
    /// The payload's position, relative to its inner archive's table.
    pub offset: u32,
    /// The payload's length in bytes.
    pub size: u32,
}

/// The mathematical value of a `File`.
pub struct FileView {
    pub file_type: FileTypeView,
    pub file_name: Option<Seq<char>>,
    pub offset: u32,
    pub size: u32,
}

impl View for File {
    type V = FileView;

    open spec fn view(&self) -> FileView {
        FileView {
            file_type: self.file_type@,
            file_name: opt_chars(self.file_name),
            offset: self.offset,
            size: self.size,
        }
    }
}

impl File {
    /// Reads the file that an inner archive's table row describes: its
    /// payload is classified, and its name inferred from the files before it.
    pub fn new(
        dat_file: &DAT,
        inner_dat: &InnerDAT,
        entry: [u8; 8],
        current_files: &[File],
    ) -> (r: Result<Self, DatError>)
        requires
            decodable_len(dat_file.source().len()),
        ensures
            match file_spec(dat_file.source(), inner_dat.offset, entry@, types_of(current_files@)) {
                Ok(v) => r matches Ok(f) && f@ == v,
                Err(e) => r matches Err(x) && x@ == e,
            },
    {
        let mut file = File {
            file_type: FileType::UNKNOWN,
            file_name: None,
            offset: read_le_u32(&entry, 0),
            size: read_le_u32(&entry, 4),
        };
        proof {
            reveal(file_spec);
        }
        let data = match dat_file.read_file(inner_dat, &file) {
            Ok(d) => d,
            Err(e) => {
                return Err(e);
            },
        };
        file.file_type = match FileType::from_data(data.as_slice()) {
            Ok(t) => t,
            Err(e) => {
                return Err(DatError::Format(e));
            },
        };
        file.file_name = infer_file_name(&file.file_type, current_files);
        Ok(file)
    }

    /// Reads this file's payload from the container.
    pub fn read_file(&self, dat_file: &DAT, inner_dat: &InnerDAT) -> (r: Result<
        Vec<u8>,
        DatError,
    >)
        ensures
            payload_in_bounds(dat_file.source().len(), inner_dat.offset, self.offset, self.size)
                ==> (r matches Ok(v) && v@ == payload(
                dat_file.source(),
                inner_dat.offset,
                self.offset,
                self.size,
            ) && v@.len() == self.size),
            !payload_in_bounds(dat_file.source().len(), inner_dat.offset, self.offset, self.size)
                ==> (r matches Err(e) && e@ == DatErrorView::Truncated),
    {
        dat_file.read_file(inner_dat, self)
    }
}

/// The kinds of a sequence of files.
pub open spec fn types_of(files: Seq<File>) -> Seq<FileTypeView> {
    files.map_values(|f: File| f.file_type@)
}

/// The texture name in a texture dictionary path: its last `/`-separated
/// segment without the `.txd` suffix.
pub open spec fn texture_name(path: Seq<char>) -> Option<Seq<char>> {
    strip_suffix(split_seq(path, '/').last(), seq!['.', 't', 'x', 'd'])
}

/// The name that a file of kind `own` takes from the files `prev` before it:
/// a UI script is named after its own texture dictionary; an animation at
/// position `p > 7` takes name `p - 7` of the name script at position 6; a
/// texture dictionary or unknown file takes the texture name of a UI script
/// at position 0.
pub open spec fn inferred_file_name(own: FileTypeView, prev: Seq<FileTypeView>) -> Option<
    Seq<char>,
> {
    match own {
        FileTypeView::PUT2D { put2d_script } => texture_name(put2d_script.txd_path),
        FileTypeView::ANM => if prev.len() > 7 {
            match prev[6] {
                FileTypeView::NAME { name } => if prev.len() - 7 < name.names.len() {
                    Some(name.names[prev.len() - 7])
                } else {
                    None
                },
                _ => None,
            }
        } else {
            None
        },
        FileTypeView::TXD | FileTypeView::UNKNOWN => if prev.len() > 0 {
            match prev[0] {
                FileTypeView::PUT2D { put2d_script } => texture_name(put2d_script.txd_path),
                _ => None,
            }
        } else {
            None
        },
        _ => None,
    }
}

/// The texture name in a texture dictionary path.
pub fn texture_name_of(path: &str) -> (r: Option<String>)
    ensures
        opt_chars(r) == texture_name(path@),
{
    let chars = chars_of(path);
    let segments = split_chars(chars.as_slice(), '/');
    proof {
        crate::text::lemma_split_nonempty(path@, '/');
    }
    let last = &segments[segments.len() - 1];
    let txd: [char; 4] = ['.', 't', 'x', 'd'];
    assert(txd@ == seq!['.', 't', 'x', 'd']);
    strip_suffix_chars(last.as_slice(), &txd)
}

fn infer_file_name(own: &FileType, prev: &[File]) -> (r: Option<String>)
    ensures
        opt_chars(r) == inferred_file_name(own@, types_of(prev@)),
{
    match own {
        FileType::PUT2D { put2d_script } => texture_name_of(put2d_script.txd_path.as_str()),
        FileType::ANM => {
            if prev.len() > 7 {
                match &prev[6].file_type {
                    FileType::NAME { name } => {
                        let k = prev.len() - 7;
                        if k < name.names.len() {
                            Some(name.names[k].clone())
                        } else {
                            None
                        }
                    },
                    _ => None,
                }
            } else {
                None
            }
        },
        FileType::TXD | FileType::UNKNOWN => {
            if prev.len() > 0 {
                match &prev[0].file_type {
                    FileType::PUT2D { put2d_script } => texture_name_of(
                        put2d_script.txd_path.as_str(),
                    ),
                    _ => None,
                }
            } else {
                None
            }
        },
        _ => None,
    }
}

/// The kind of a payload, with what its own bytes decode to.
#[derive(Debug)]
pub enum FileType {
    /// RenderWare animation (first byte 0x1B)
    ANM,
    /// MIF attached data script
    ATTACHED,
    /// MIF comid data script
    COMID,
    /// RenderWare delta morph animation (first byte 0x1E)
    DMA,
    /// RenderWare model (first byte 0x10)
    DFF,
    /// MIF fixed data script
    FIXED,
    /// Font type information
    FTI,
    /// Map information
    MAPINFO,
    /// Name data script
    NAME { name: Name },
    /// Portable Network Graphics image
    PNG,
    /// MIF postbl data script
    POSTBL,
    /// UI layout script
    PUT2D { put2d_script: Put2D },
    /// Player statistics
    STATS { stats_file: Stats },
    /// RenderWare texture dictionary (first byte 0x16)
    TXD,
    TXT,
    UNKNOWN,
}

/// The mathematical value of a `FileType`.
pub enum FileTypeView {
    ANM,
    ATTACHED,
    COMID,
    DMA,
    DFF,
    FIXED,
    FTI,
    MAPINFO,
    NAME { name: NameView },
    PNG,
    POSTBL,
    PUT2D { put2d_script: Put2DView },
    STATS { stats_file: Seq<StatsEntryView> },
    TXD,
    TXT,
    UNKNOWN,
}

impl View for FileType {
    type V = FileTypeView;

    open spec fn view(&self) -> FileTypeView {
        match self {
            FileType::ANM => FileTypeView::ANM,
            FileType::ATTACHED => FileTypeView::ATTACHED,
            FileType::COMID => FileTypeView::COMID,
            FileType::DMA => FileTypeView::DMA,
            FileType::DFF => FileTypeView::DFF,
            FileType::FIXED => FileTypeView::FIXED,
            FileType::FTI => FileTypeView::FTI,
            FileType::MAPINFO => FileTypeView::MAPINFO,
            FileType::NAME { name } => FileTypeView::NAME { name: name@ },
            FileType::PNG => FileTypeView::PNG,
            FileType::POSTBL => FileTypeView::POSTBL,
            FileType::PUT2D { put2d_script } => FileTypeView::PUT2D { put2d_script: put2d_script@ },
            FileType::STATS { stats_file } => FileTypeView::STATS { stats_file: stats_file@ },
            FileType::TXD => FileTypeView::TXD,
            FileType::TXT => FileTypeView::TXT,
            FileType::UNKNOWN => FileTypeView::UNKNOWN,
        }
    }
}

/// `put2d-script`
pub open spec fn put2d_signature() -> Seq<u8> {
    seq![0x70, 0x75, 0x74, 0x32, 0x64, 0x2D, 0x73, 0x63, 0x72, 0x69, 0x70, 0x74]
}

/// `mif-fixed-data-script`
pub open spec fn fixed_signature() -> Seq<u8> {
    seq![
        0x6D, 0x69, 0x66, 0x2D, 0x66, 0x69, 0x78, 0x65, 0x64, 0x2D, 0x64, 0x61, 0x74, 0x61, 0x2D,
        0x73, 0x63, 0x72, 0x69, 0x70, 0x74,
    ]
}

/// `mif-attached-data-script`
pub open spec fn attached_signature() -> Seq<u8> {
    seq![
        0x6D, 0x69, 0x66, 0x2D, 0x61, 0x74, 0x74, 0x61, 0x63, 0x68, 0x65, 0x64, 0x2D, 0x64, 0x61,
        0x74, 0x61, 0x2D, 0x73, 0x63, 0x72, 0x69, 0x70, 0x74,
    ]
}

/// `mif-postbl-data-script`
pub open spec fn postbl_signature() -> Seq<u8> {
    seq![
        0x6D, 0x69, 0x66, 0x2D, 0x70, 0x6F, 0x73, 0x74, 0x62, 0x6C, 0x2D, 0x64, 0x61, 0x74, 0x61,
        0x2D, 0x73, 0x63, 0x72, 0x69, 0x70, 0x74,
    ]
}

/// `mif-comid-data-script`
pub open spec fn comid_signature() -> Seq<u8> {
    seq![
        0x6D, 0x69, 0x66, 0x2D, 0x63, 0x6F, 0x6D, 0x69, 0x64, 0x2D, 0x64, 0x61, 0x74, 0x61, 0x2D,
        0x73, 0x63, 0x72, 0x69, 0x70, 0x74,
    ]
}

/// `mif-name-data-script`
pub open spec fn name_signature() -> Seq<u8> {
    seq![
        0x6D, 0x69, 0x66, 0x2D, 0x6E, 0x61, 0x6D, 0x65, 0x2D, 0x64, 0x61, 0x74, 0x61, 0x2D, 0x73,
        0x63, 0x72, 0x69, 0x70, 0x74,
    ]
}

/// `font-type`
pub open spec fn font_signature() -> Seq<u8> {
    seq![0x66, 0x6F, 0x6E, 0x74, 0x2D, 0x74, 0x79, 0x70, 0x65]
}

/// `PNG`, the bytes after the first of the PNG signature
pub open spec fn png_signature() -> Seq<u8> {
    seq![0x50, 0x4E, 0x47]
}

/// A script header: the payload starts with `sig`.
pub open spec fn has_header(d: Seq<u8>, sig: Seq<u8>) -> bool {
    d.len() >= sig.len() && d.subrange(0, sig.len() as int) == sig
}

/// How far the line scan reaches: at most this many bytes.
pub const LINE_SCAN_LIMIT: usize = 150;

/// The spaces in the payload from index `i` up to its first newline, its
/// end, or `LINE_SCAN_LIMIT`, whichever comes first.
pub open spec fn spaces_in_first_line(d: Seq<u8>, i: int) -> nat
    decreases LINE_SCAN_LIMIT - i,
{
    if i < 0 || i >= LINE_SCAN_LIMIT || i >= d.len() || d[i] == 0x0A {
        0
    } else {
        (if d[i] == 0x20 {
            1nat
        } else {
            0nat
        }) + spaces_in_first_line(d, i + 1)
    }
}

/// The run of 0xFF bytes from index `i`, counted no further than index 32.
pub open spec fn ff_run(d: Seq<u8>, i: int) -> nat
    decreases 32 - i,
{
    if i < 0 || i >= 32 || i >= d.len() || d[i] != 0xFF {
        0
    } else {
        1 + ff_run(d, i + 1)
    }
}

/// The map information layout: twelve 0xFF bytes from index 12 (and not a
/// thirteenth), and the map id at index 8 repeated at index 28.
pub open spec fn is_mapinfo(d: Seq<u8>) -> bool {
    ff_run(d, 12) == 12 && d.len() > 29 && d[8] == d[28]
}

/// No magic byte, PNG signature or script header marks the payload.
pub open spec fn unsigned_payload(d: Seq<u8>) -> bool {
    &&& d.len() > 0
    &&& d[0] != 0x10 && d[0] != 0x16 && d[0] != 0x1B && d[0] != 0x1E
    &&& !(d.len() >= 4 && d.subrange(1, 4) == png_signature())
    &&& !has_header(d, put2d_signature())
    &&& !has_header(d, fixed_signature())
    &&& !has_header(d, attached_signature())
    &&& !has_header(d, postbl_signature())
    &&& !has_header(d, comid_signature())
    &&& !has_header(d, name_signature())
    &&& !has_header(d, font_signature())
}

/// The kind of a payload: the first test that matches, in this order, wins.
/// Only a script with a recognised header that does not decode is an error.
pub open spec fn classify(d: Seq<u8>) -> Result<FileTypeView, ValidationErrorView> {
    if d.len() == 0 {
        Ok(FileTypeView::UNKNOWN)
    } else if d[0] == 0x10 {
        Ok(FileTypeView::DFF)
    } else if d[0] == 0x16 {
        Ok(FileTypeView::TXD)
    } else if d[0] == 0x1B {
        Ok(FileTypeView::ANM)
    } else if d[0] == 0x1E {
        Ok(FileTypeView::DMA)
    } else if d.len() >= 4 && d.subrange(1, 4) == png_signature() {
        Ok(FileTypeView::PNG)
    } else if has_header(d, put2d_signature()) {
        match parse_put2d(d) {
            Ok(p) => Ok(FileTypeView::PUT2D { put2d_script: p }),
            Err(e) => Err(e),
        }
    } else if has_header(d, fixed_signature()) {
        Ok(FileTypeView::FIXED)
    } else if has_header(d, attached_signature()) {
        Ok(FileTypeView::ATTACHED)
    } else if has_header(d, postbl_signature()) {
        Ok(FileTypeView::POSTBL)
    } else if has_header(d, comid_signature()) {
        Ok(FileTypeView::COMID)
    } else if has_header(d, name_signature()) {
        match parse_name(d) {
            Some(n) => Ok(FileTypeView::NAME { name: n }),
            None => Err(ValidationErrorView::ParseFailure),
        }
    } else if has_header(d, font_signature()) {
        Ok(FileTypeView::FTI)
    } else if spaces_in_first_line(d, 0) == 20 {
        Ok(FileTypeView::STATS { stats_file: parse_stats(d) })
    } else if is_mapinfo(d) {
        Ok(FileTypeView::MAPINFO)
    } else {
        Ok(FileTypeView::UNKNOWN)
    }
}

/// An empty payload is of unknown kind.
pub proof fn lemma_empty_is_unknown(d: Seq<u8>)
    requires
        d.len() == 0,
    ensures
        classify(d) == Ok::<FileTypeView, ValidationErrorView>(FileTypeView::UNKNOWN),
{
}

/// The first byte alone decides the RenderWare kinds: 0x10 is a model, 0x16
/// a texture dictionary, 0x1B an animation, 0x1E a delta morph animation,
/// whatever follows.
pub proof fn lemma_magic_byte_decides(d: Seq<u8>)
    requires
        d.len() > 0,
    ensures
        d[0] == 0x10 ==> classify(d) == Ok::<FileTypeView, ValidationErrorView>(
            FileTypeView::DFF,
        ),
        d[0] == 0x16 ==> classify(d) == Ok::<FileTypeView, ValidationErrorView>(
            FileTypeView::TXD,
        ),
        d[0] == 0x1B ==> classify(d) == Ok::<FileTypeView, ValidationErrorView>(
            FileTypeView::ANM,
        ),
        d[0] == 0x1E ==> classify(d) == Ok::<FileTypeView, ValidationErrorView>(
            FileTypeView::DMA,
        ),
{
}

/// A payload that no signature marks is a statistics file exactly when its
/// first line, scanned no further than `LINE_SCAN_LIMIT` bytes, holds
/// exactly twenty spaces.
pub proof fn lemma_twenty_spaces_is_stats(d: Seq<u8>)
    requires
        unsigned_payload(d),
    ensures
        (classify(d) matches Ok(FileTypeView::STATS { .. })) <==> spaces_in_first_line(d, 0)
            == 20,
        spaces_in_first_line(d, 0) == 20 ==> classify(d) == Ok::<
            FileTypeView,
            ValidationErrorView,
        >(FileTypeView::STATS { stats_file: parse_stats(d) }),
{
}

/// Whether `d` starts with `sig`.
fn starts_with(d: &[u8], sig: &[u8]) -> (r: bool)
    ensures
        r == has_header(d@, sig@),
{
    if d.len() < sig.len() {
        return false;
    }
    let mut i: usize = 0;
    while i < sig.len()
        invariant
            i <= sig.len() <= d.len(),
            d@.subrange(0, i as int) == sig@.subrange(0, i as int),
        decreases sig.len() - i,
    {
        if d[i] != sig[i] {
            assert(d@.subrange(0, sig@.len() as int)[i as int] != sig@[i as int]);
            return false;
        }
        i += 1;
        assert(d@.subrange(0, i as int) =~= sig@.subrange(0, i as int));
    }
    assert(sig@.subrange(0, sig@.len() as int) == sig@);
    true
}

fn count_first_line_spaces(d: &[u8]) -> (r: u8)
    ensures
        r == spaces_in_first_line(d@, 0),
{
    let mut i: usize = 0;
    let mut count: u8 = 0;
    while i < LINE_SCAN_LIMIT && i < d.len() && d[i] != 0x0A
        invariant
            i <= LINE_SCAN_LIMIT,
            count <= i,
            count + spaces_in_first_line(d@, i as int) == spaces_in_first_line(d@, 0),
        decreases LINE_SCAN_LIMIT - i,
    {
        if d[i] == 0x20 {
            count += 1;
        }
        i += 1;
    }
    count
}

fn count_ff_run(d: &[u8]) -> (r: u8)
    ensures
        r == ff_run(d@, 12),
{
    let mut i: usize = 12;
    let mut count: u8 = 0;
    while i < 32 && i < d.len() && d[i] == 0xFF
        invariant
            12 <= i <= 32,
            count == i - 12,
            count + ff_run(d@, i as int) == ff_run(d@, 12),
        decreases 32 - i,
    {
        count += 1;
        i += 1;
    }
    count
}

/// The file name extension that each kind is written with.
pub open spec fn extension_of(t: FileTypeView) -> Seq<char> {
    match t {
        FileTypeView::ANM => ".anm"@,
        FileTypeView::ATTACHED => ".cv3"@,
        FileTypeView::COMID => ".comid"@,
        FileTypeView::DMA => ".dma"@,
        FileTypeView::DFF => ".dff"@,
        FileTypeView::FIXED => ".fix"@,
        FileTypeView::FTI => ".fti"@,
        FileTypeView::MAPINFO => ".mapinfo"@,
        FileTypeView::NAME { .. } => ".name"@,
        FileTypeView::PNG => ".png"@,
        FileTypeView::POSTBL => ".postbl"@,
        FileTypeView::PUT2D { .. } => ".put2d"@,
        FileTypeView::STATS { .. } => ".stats"@,
        FileTypeView::TXD => ".txd"@,
        FileTypeView::TXT => ".txt"@,
        FileTypeView::UNKNOWN => ""@,
    }
}

impl FileType {
    /// The file name extension for this kind, dot included; empty for
    /// `UNKNOWN`.
    pub fn extension(&self) -> (r: &'static str)
        ensures
            r@ == extension_of(self@),
    {
        match self {
            FileType::ANM => ".anm",
            FileType::ATTACHED => ".cv3",
            FileType::COMID => ".comid",
            FileType::DMA => ".dma",
            FileType::DFF => ".dff",
            FileType::FIXED => ".fix",
            FileType::FTI => ".fti",
            FileType::MAPINFO => ".mapinfo",
            FileType::NAME { .. } => ".name",
            FileType::PNG => ".png",
            FileType::POSTBL => ".postbl",
            FileType::PUT2D { .. } => ".put2d",
            FileType::STATS { .. } => ".stats",
            FileType::TXD => ".txd",
            FileType::TXT => ".txt",
            FileType::UNKNOWN => "",
        }
    }

    /// Classifies a payload by its signatures and layout; decodes the script
    /// and statistics kinds.
    pub fn from_data(data: &[u8]) -> (r: Result<Self, ValidationError>)
        requires
            decodable_len(data@.len()),
        ensures
            match classify(data@) {
                Ok(v) => r matches Ok(t) && t@ == v,
                Err(v) => r matches Err(e) && e@ == v,
            },
    {
        if data.len() == 0 {
            return Ok(FileType::UNKNOWN);
        }
        if data[0] == 0x10 {
            return Ok(FileType::DFF);
        }
        if data[0] == 0x16 {
            return Ok(FileType::TXD);
        }
        if data[0] == 0x1B {
            return Ok(FileType::ANM);
        }
        if data[0] == 0x1E {
            return Ok(FileType::DMA);
        }
        if data.len() >= 4 {
            let png: [u8; 3] = [0x50, 0x4E, 0x47];
            assert(png@ == png_signature());
            let tail = &data[1..4];
            if starts_with(tail, &png) {
                assert(tail@.subrange(0, 3) == tail@);
                return Ok(FileType::PNG);
            }
            assert(tail@.subrange(0, 3) == tail@);
        }
        let put2d: [u8; 12] = [
            0x70, 0x75, 0x74, 0x32, 0x64, 0x2D, 0x73, 0x63, 0x72, 0x69, 0x70, 0x74,
        ];
        assert(put2d@ == put2d_signature());
        if starts_with(data, &put2d) {
            return match Put2D::from_data(data) {
                Ok(p) => Ok(FileType::PUT2D { put2d_script: p }),
                Err(e) => Err(e),
            };
        }
        let fixed: [u8; 21] = [
            0x6D, 0x69, 0x66, 0x2D, 0x66, 0x69, 0x78, 0x65, 0x64, 0x2D, 0x64, 0x61, 0x74, 0x61,
            0x2D, 0x73, 0x63, 0x72, 0x69, 0x70, 0x74,
        ];
        assert(fixed@ == fixed_signature());
        if starts_with(data, &fixed) {
            return Ok(FileType::FIXED);
        }
        let attached: [u8; 24] = [
            0x6D, 0x69, 0x66, 0x2D, 0x61, 0x74, 0x74, 0x61, 0x63, 0x68, 0x65, 0x64, 0x2D, 0x64,
            0x61, 0x74, 0x61, 0x2D, 0x73, 0x63, 0x72, 0x69, 0x70, 0x74,
        ];
        assert(attached@ == attached_signature());
        if starts_with(data, &attached) {
            return Ok(FileType::ATTACHED);
        }
        let postbl: [u8; 22] = [
            0x6D, 0x69, 0x66, 0x2D, 0x70, 0x6F, 0x73, 0x74, 0x62, 0x6C, 0x2D, 0x64, 0x61, 0x74,
            0x61, 0x2D, 0x73, 0x63, 0x72, 0x69, 0x70, 0x74,
        ];
        assert(postbl@ == postbl_signature());
        if starts_with(data, &postbl) {
            return Ok(FileType::POSTBL);
        }
        let comid: [u8; 21] = [
            0x6D, 0x69, 0x66, 0x2D, 0x63, 0x6F, 0x6D, 0x69, 0x64, 0x2D, 0x64, 0x61, 0x74, 0x61,
            0x2D, 0x73, 0x63, 0x72, 0x69, 0x70, 0x74,
        ];
        assert(comid@ == comid_signature());
        if starts_with(data, &comid) {
            return Ok(FileType::COMID);
        }
        let name_sig: [u8; 20] = [
            0x6D, 0x69, 0x66, 0x2D, 0x6E, 0x61, 0x6D, 0x65, 0x2D, 0x64, 0x61, 0x74, 0x61, 0x2D,
            0x73, 0x63, 0x72, 0x69, 0x70, 0x74,
        ];
        assert(name_sig@ == name_signature());
        if starts_with(data, &name_sig) {
            return match Name::new(data) {
                Ok(n) => Ok(FileType::NAME { name: n }),
                Err(e) => Err(e),
            };
        }
        let font: [u8; 9] = [0x66, 0x6F, 0x6E, 0x74, 0x2D, 0x74, 0x79, 0x70, 0x65];
        assert(font@ == font_signature());
        if starts_with(data, &font) {
            return Ok(FileType::FTI);
        }
        if count_first_line_spaces(data) == 20 {
            return Ok(FileType::STATS { stats_file: Stats::from_data(data) });
        }
        if count_ff_run(data) == 12 && data.len() > 29 && data[8] == data[28] {
            Ok(FileType::MAPINFO)
        } else {
            Ok(FileType::UNKNOWN)
        }
    }
}

} // verus!
