//! The container: a table of inner archives, each with a table of files
//! whose payloads are classified as they are indexed.
//!
//! Layout, little-endian throughout: a `u32` count of inner archives, then a
//! 12-byte row for each (table offset, size, entry count). At its offset an
//! inner archive holds a `u32` count of files, then an 8-byte row for each
//! (payload offset relative to the inner archive, payload size).

use vstd::prelude::*;

pub use crate::errors;
pub use crate::file::{name, put2d, stats};
pub use crate::file::{File, FileType};

use crate::errors::{DatError, DatErrorView};
use crate::file::{
    classify, inferred_file_name, texture_name, texture_name_of, types_of, FileTypeView,
    FileView,
};
use crate::file::put2d::decodable_len;
use crate::text::{chars_of, opt_chars, split_chars, split_seq, strip_suffix, strip_suffix_chars};

verus! {

/// The little-endian `u32` at position `p` of `b`.
pub open spec fn le_u32(b: Seq<u8>, p: int) -> u32 {
    (b[p] + 0x100 * b[p + 1] + 0x1_0000 * b[p + 2] + 0x100_0000 * b[p + 3]) as u32
}

/// Reads the little-endian `u32` at position `p`.
pub fn read_le_u32(b: &[u8], p: usize) -> (r: u32)
    requires
        p + 4 <= b@.len(),
    ensures
        r == le_u32(b@, p as int),
{
    b[p] as u32 + (b[p + 1] as u32) * 0x100 + (b[p + 2] as u32) * 0x1_0000 + (b[p + 3] as u32)
        * 0x100_0000
}

/// Whether a payload of `size` bytes at `inner_offset + offset` lies within a
/// source of `len` bytes.
pub open spec fn payload_in_bounds(len: nat, inner_offset: u32, offset: u32, size: u32) -> bool {
    inner_offset + offset + size <= len
}

/// The `size` bytes of `d` from `inner_offset + offset`.
pub open spec fn payload(d: Seq<u8>, inner_offset: u32, offset: u32, size: u32) -> Seq<u8> {
    d.subrange(inner_offset + offset, inner_offset + offset + size)
}

/// The file that an 8-byte table row describes, given the kinds of the files
/// before it in its inner archive.
#[verifier::opaque]
pub open spec fn file_spec(
    d: Seq<u8>,
    inner_offset: u32,
    row: Seq<u8>,
    prev: Seq<FileTypeView>,
) -> Result<FileView, DatErrorView> {
    let offset = le_u32(row, 0);
    let size = le_u32(row, 4);
    if !payload_in_bounds(d.len(), inner_offset, offset, size) {
        Err(DatErrorView::Truncated)
    } else {
        match classify(payload(d, inner_offset, offset, size)) {
            Err(e) => Err(DatErrorView::Format(e)),
            Ok(t) => Ok(
                FileView { file_type: t, file_name: inferred_file_name(t, prev), offset, size },
            ),
        }
    }
}

/// The kinds of a sequence of file values.
pub open spec fn view_types(files: Seq<FileView>) -> Seq<FileTypeView> {
    files.map_values(|f: FileView| f.file_type)
}

/// The first `n` files of the inner archive whose table is at
/// `inner_offset`, or the first error met reading them in order.
pub open spec fn files_prefix(d: Seq<u8>, inner_offset: u32, n: nat) -> Result<
    Seq<FileView>,
    DatErrorView,
>
    decreases n,
{
    if n == 0 {
        Ok(Seq::empty())
    } else {
        match files_prefix(d, inner_offset, (n - 1) as nat) {
            Err(e) => Err(e),
            Ok(prev) => {
                let p = inner_offset + 4 + 8 * (n - 1);
                if p + 8 > d.len() {
                    Err(DatErrorView::Truncated)
                } else {
                    match file_spec(d, inner_offset, d.subrange(p, p + 8), view_types(prev)) {
                        Err(e) => Err(e),
                        Ok(f) => Ok(prev.push(f)),
                    }
                }
            },
        }
    }
}

/// All files of the inner archive whose table is at `inner_offset`.
pub open spec fn index_files_spec(d: Seq<u8>, inner_offset: u32) -> Result<
    Seq<FileView>,
    DatErrorView,
> {
    if inner_offset + 4 > d.len() {
        Err(DatErrorView::Truncated)
    } else {
        files_prefix(d, inner_offset, le_u32(d, inner_offset as int) as nat)
    }
}

/// What an inner archive holds, as its first file and siblings suggest.
#[derive(Clone, Copy, Debug, PartialEq, Eq, Structural)]
pub enum ArchiveType {
    CHARACTER,
    OBJECT,
    UI,
    UNKNOWN,
}

/// A model whose archive has more than seven entries and a name script at
/// position 6 is a character; a model followed by a texture dictionary is an
/// object; a UI script makes a UI archive. A first file of unknown kind is
/// still tested for the character layout.
pub open spec fn archive_type_of(entry_count: u32, t: Seq<FileTypeView>) -> ArchiveType {
    if t.len() == 0 {
        ArchiveType::UNKNOWN
    } else {
        match t[0] {
            FileTypeView::DFF => if entry_count > 7 && t.len() > 6 && t[6] is NAME {
                ArchiveType::CHARACTER
            } else if entry_count >= 2 && t.len() > 1 && t[1] is TXD {
                ArchiveType::OBJECT
            } else {
                ArchiveType::UNKNOWN
            },
            FileTypeView::PUT2D { .. } => ArchiveType::UI,
            FileTypeView::UNKNOWN => if entry_count > 7 && t.len() > 6 && t[6] is NAME {
                ArchiveType::CHARACTER
            } else {
                ArchiveType::UNKNOWN
            },
            _ => ArchiveType::UNKNOWN,
        }
    }
}

/// `.name.out`
pub open spec fn name_out_suffix() -> Seq<char> {
    seq!['.', 'n', 'a', 'm', 'e', '.', 'o', 'u', 't']
}

/// A character's name: segment 4 of its name script's `/`-separated source
/// path, without the `.name.out` suffix.
pub open spec fn character_name(path: Seq<char>) -> Option<Seq<char>> {
    let segs = split_seq(path, '/');
    if segs.len() > 4 {
        strip_suffix(segs[4], name_out_suffix())
    } else {
        None
    }
}

/// The name of an inner archive: a character is named by the name script at
/// position 6, a UI archive by the texture of its UI script; others have
/// none.
pub open spec fn archive_name_of(at: ArchiveType, t: Seq<FileTypeView>) -> Option<Seq<char>> {
    match at {
        ArchiveType::CHARACTER => if t.len() > 6 {
            match t[6] {
                FileTypeView::NAME { name } => character_name(name.file_path),
                _ => None,
            }
        } else {
            None
        },
        ArchiveType::UI => if t.len() > 0 {
            match t[0] {
                FileTypeView::PUT2D { put2d_script } => texture_name(put2d_script.txd_path),
                _ => None,
            }
        } else {
            None
        },
        _ => None,
    }
}

/// The mathematical value of an `InnerDAT`.
pub struct InnerDATView {
    pub offset: u32,
    pub size: u32,
    pub entry_count: u32,
    pub archive_name: Option<Seq<char>>,
    pub archive_type: ArchiveType,
    pub files: Seq<FileView>,
}

/// The inner archive that a 12-byte row of the container table describes.
#[verifier::opaque]
pub open spec fn inner_spec(d: Seq<u8>, row: Seq<u8>) -> Result<InnerDATView, DatErrorView> {
    let offset = le_u32(row, 0);
    let size = le_u32(row, 4);
    let entry_count = le_u32(row, 8);
    match index_files_spec(d, offset) {
        Err(e) => Err(e),
        Ok(files) => {
            let at = archive_type_of(entry_count, view_types(files));
            Ok(
                InnerDATView {
                    offset,
                    size,
                    entry_count,
                    archive_name: archive_name_of(at, view_types(files)),
                    archive_type: at,
                    files,
                },
            )
        },
    }
}

/// The first `n` inner archives of a container, or the first error met
/// reading them in order.
pub open spec fn inners_prefix(d: Seq<u8>, n: nat) -> Result<Seq<InnerDATView>, DatErrorView>
    decreases n,
{
    if n == 0 {
        Ok(Seq::empty())
    } else {
        match inners_prefix(d, (n - 1) as nat) {
            Err(e) => Err(e),
            Ok(prev) => {
                let p = 4 + 12 * (n - 1);
                if p + 12 > d.len() {
                    Err(DatErrorView::Truncated)
                } else {
                    match inner_spec(d, d.subrange(p, p + 12)) {
                        Err(e) => Err(e),
                        Ok(i) => Ok(prev.push(i)),
                    }
                }
            },
        }
    }
}

/// A whole container: its inner archives, or the first error met.
pub open spec fn decode_dat(d: Seq<u8>) -> Result<Seq<InnerDATView>, DatErrorView> {
    if d.len() < 4 {
        Err(DatErrorView::Truncated)
    } else {
        inners_prefix(d, le_u32(d, 0) as nat)
    }
}

proof fn lemma_files_error_stays(d: Seq<u8>, inner_offset: u32, n: nat, m: nat)
    requires
        n <= m,
        files_prefix(d, inner_offset, n) is Err,
    ensures
        files_prefix(d, inner_offset, m) == files_prefix(d, inner_offset, n),
    decreases m - n,
{
    if n < m {
        lemma_files_error_stays(d, inner_offset, n, (m - 1) as nat);
    }
}

proof fn lemma_inners_error_stays(d: Seq<u8>, n: nat, m: nat)
    requires
        n <= m,
        inners_prefix(d, n) is Err,
    ensures
        inners_prefix(d, m) == inners_prefix(d, n),
    decreases m - n,
{
    if n < m {
        lemma_inners_error_stays(d, n, (m - 1) as nat);
    }
}

fn read_row12(d: &[u8], p: usize) -> (r: [u8; 12])
    requires
        p + 12 <= d@.len(),
    ensures
        r@ == d@.subrange(p as int, p + 12),
{
    let r: [u8; 12] = [
        d[p],
        d[p + 1],
        d[p + 2],
        d[p + 3],
        d[p + 4],
        d[p + 5],
        d[p + 6],
        d[p + 7],
        d[p + 8],
        d[p + 9],
        d[p + 10],
        d[p + 11],
    ];
    assert(r@ =~= d@.subrange(p as int, p + 12));
    r
}

fn read_row8(d: &[u8], p: usize) -> (r: [u8; 8])
    requires
        p + 8 <= d@.len(),
    ensures
        r@ == d@.subrange(p as int, p + 8),
{
    let r: [u8; 8] = [d[p], d[p + 1], d[p + 2], d[p + 3], d[p + 4], d[p + 5], d[p + 6], d[p + 7]];
    assert(r@ =~= d@.subrange(p as int, p + 8));
    r
}

/// Every file of `inner` lies within a source of `len` bytes.
pub open spec fn files_in_bounds(len: nat, inner: InnerDATView) -> bool {
    forall|j: int|
        0 <= j < inner.files.len() ==> payload_in_bounds(
            len,
            inner.offset,
            (#[trigger] inner.files[j]).offset,
            inner.files[j].size,
        )
}

proof fn lemma_files_prefix_in_bounds(d: Seq<u8>, inner_offset: u32, n: nat)
    requires
        files_prefix(d, inner_offset, n) is Ok,
    ensures
        forall|j: int|
            0 <= j < files_prefix(d, inner_offset, n)->Ok_0.len() ==> payload_in_bounds(
                d.len(),
                inner_offset,
                (#[trigger] files_prefix(d, inner_offset, n)->Ok_0[j]).offset,
                files_prefix(d, inner_offset, n)->Ok_0[j].size,
            ),
    decreases n,
{
    if n > 0 {
        lemma_files_prefix_in_bounds(d, inner_offset, (n - 1) as nat);
        reveal(file_spec);
    }
}

proof fn lemma_inners_prefix_in_bounds(d: Seq<u8>, n: nat)
    requires
        inners_prefix(d, n) is Ok,
    ensures
        forall|i: int|
            0 <= i < inners_prefix(d, n)->Ok_0.len() ==> files_in_bounds(
                d.len(),
                #[trigger] inners_prefix(d, n)->Ok_0[i],
            ),
    decreases n,
{
    if n > 0 {
        lemma_inners_prefix_in_bounds(d, (n - 1) as nat);
        let prev = inners_prefix(d, (n - 1) as nat)->Ok_0;
        let p = 4 + 12 * (n - 1);
        let row = d.subrange(p, p + 12);
        reveal(inner_spec);
        let off = le_u32(row, 0);
        if off + 4 <= d.len() {
            lemma_files_prefix_in_bounds(d, off, le_u32(d, off as int) as nat);
        }
    }
}

/// Every file of a decoded container lies within it: reading it yields
/// exactly `size` bytes.
pub proof fn lemma_decoded_files_in_bounds(d: Seq<u8>, i: int, j: int)
    requires
        decode_dat(d) is Ok,
        0 <= i < decode_dat(d)->Ok_0.len(),
        0 <= j < decode_dat(d)->Ok_0[i].files.len(),
    ensures
        payload_in_bounds(
            d.len(),
            decode_dat(d)->Ok_0[i].offset,
            decode_dat(d)->Ok_0[i].files[j].offset,
            decode_dat(d)->Ok_0[i].files[j].size,
        ),
        payload(
            d,
            decode_dat(d)->Ok_0[i].offset,
            decode_dat(d)->Ok_0[i].files[j].offset,
            decode_dat(d)->Ok_0[i].files[j].size,
        ).len() == decode_dat(d)->Ok_0[i].files[j].size,
{
    lemma_inners_prefix_in_bounds(d, le_u32(d, 0) as nat);
    assert(files_in_bounds(d.len(), decode_dat(d)->Ok_0[i]));
}

/// With a model first and a texture dictionary second, an archive of seven
/// files is an object; with a name script at position 6 and more than seven
/// files it is a character.
pub proof fn lemma_model_archive_kind(entry_count: u32, t: Seq<FileTypeView>)
    requires
        t.len() == entry_count,
        entry_count >= 2,
        t[0] is DFF,
    ensures
        entry_count == 7 && t[1] is TXD ==> archive_type_of(entry_count, t)
            == ArchiveType::OBJECT,
        entry_count > 7 && t[6] is NAME ==> archive_type_of(entry_count, t)
            == ArchiveType::CHARACTER,
{
}

/// An opened container: its bytes and the inner archives decoded from them.
pub struct DAT {
    /// The container's bytes.
    pub data: Vec<u8>,
    pub inner_dats: Vec<InnerDAT>,
}

/// An inner archive and its files.
#[derive(Debug)]
pub struct InnerDAT {
    /// The position of the archive's file table in the container.
    pub offset: u32,
    pub size: u32,
    /// The entry count that the container table gives.
    pub entry_count: u32,
    pub archive_name: Option<String>,
    pub archive_type: ArchiveType,
    pub files: Vec<File>,
}

impl View for InnerDAT {
    type V = InnerDATView;

    open spec fn view(&self) -> InnerDATView {
        InnerDATView {
            offset: self.offset,
            size: self.size,
            entry_count: self.entry_count,
            archive_name: opt_chars(self.archive_name),
            archive_type: self.archive_type,
            files: self.files@.map_values(|f: File| f@),
        }
    }
}

impl DAT {
    /// The container's bytes.
    pub open spec fn source(&self) -> Seq<u8> {
        self.data@
    }

    /// The inner archives, as values.
    pub open spec fn inner_views(&self) -> Seq<InnerDATView> {
        self.inner_dats@.map_values(|i: InnerDAT| i@)
    }


    /// Opens a container from its file's bytes: reads its table, each inner
    /// archive's table, and classifies every payload. A table or payload
    /// past the end, or a script payload that does not decode, fails the
    /// whole container.
    pub fn from_file(data: Vec<u8>) -> (r: Result<Self, DatError>)
        requires
            decodable_len(data@.len()),
        ensures
            match decode_dat(data@) {
                Ok(v) => r matches Ok(dat) && dat.source() == data@ && dat.inner_views() == v,
                Err(e) => r matches Err(x) && x@ == e,
            },
    {
        if data.len() < 4 {
            return Err(DatError::Truncated);
        }
        let entry_count = read_le_u32(data.as_slice(), 0);
        let mut dat = DAT { data, inner_dats: Vec::new() };
        let ghost d = dat.data@;
        assert(dat.inner_views() =~= Seq::<InnerDATView>::empty());
        let mut i: u32 = 0;
        while i < entry_count
            invariant
                i <= entry_count,
                d == dat.data@,
                d == data@,
                d.len() >= 4 ==> decode_dat(d) == inners_prefix(d, entry_count as nat),
                d.len() >= 4,
                decodable_len(d.len()),
                entry_count == le_u32(d, 0),
                inners_prefix(d, i as nat) == Ok::<Seq<InnerDATView>, DatErrorView>(
                    dat.inner_views(),
                ),
            decreases entry_count - i,
        {
            let p: u64 = 4 + 12 * (i as u64);
            if p + 12 > dat.data.len() as u64 {
                proof {
                    assert(inners_prefix(d, (i + 1) as nat) == Err::<Seq<InnerDATView>, DatErrorView>(
                        DatErrorView::Truncated,
                    ));
                    lemma_inners_error_stays(d, (i + 1) as nat, entry_count as nat);
                }
                return Err(DatError::Truncated);
            }
            let p = p as usize;
            let row = read_row12(dat.data.as_slice(), p);
            match InnerDAT::new(&dat, row) {
                Ok(inner) => {
                    let ghost before = dat.inner_views();
                    let ghost iv = inner@;
                    dat.inner_dats.push(inner);
                    assert(dat.inner_views() =~= before.push(iv));
                },
                Err(e) => {
                    proof {
                        lemma_inners_error_stays(d, (i + 1) as nat, entry_count as nat);
                    }
                    return Err(e);
                },
            }
            i += 1;
        }
        Ok(dat)
    }

    fn index_files(&self, inner_dat: &InnerDAT) -> (r: Result<Vec<File>, DatError>)
        requires
            decodable_len(self.source().len()),
        ensures
            match index_files_spec(self.source(), inner_dat.offset) {
                Ok(v) => r matches Ok(fs) && fs@.map_values(|f: File| f@) == v,
                Err(e) => r matches Err(x) && x@ == e,
            },
    {
        let d = self.data.as_slice();
        let offset = inner_dat.offset as usize;
        if inner_dat.offset as u64 + 4 > d.len() as u64 {
            return Err(DatError::Truncated);
        }
        let entry_count = read_le_u32(d, offset);
        let mut files: Vec<File> = Vec::new();
        assert(files@.map_values(|f: File| f@) =~= Seq::<FileView>::empty());
        let mut j: u32 = 0;
        while j < entry_count
            invariant
                j <= entry_count,
                d@ == self.source(),
                decodable_len(d@.len()),
                offset == inner_dat.offset,
                offset + 4 <= d@.len(),
                entry_count == le_u32(d@, offset as int),
                files_prefix(d@, inner_dat.offset, j as nat) == Ok::<
                    Seq<FileView>,
                    DatErrorView,
                >(files@.map_values(|f: File| f@)),
            decreases entry_count - j,
        {
            let p: u64 = offset as u64 + 4 + 8 * (j as u64);
            if p + 8 > d.len() as u64 {
                proof {
                    assert(files_prefix(d@, inner_dat.offset, (j + 1) as nat) == Err::<
                        Seq<FileView>,
                        DatErrorView,
                    >(DatErrorView::Truncated));
                    lemma_files_error_stays(
                        d@,
                        inner_dat.offset,
                        (j + 1) as nat,
                        entry_count as nat,
                    );
                }
                return Err(DatError::Truncated);
            }
            let p = p as usize;
            let row = read_row8(d, p);
            let ghost prev = files@.map_values(|f: File| f@);
            assert(types_of(files@) =~= view_types(prev));
            match File::new(self, inner_dat, row, files.as_slice()) {
                Ok(f) => {
                    let ghost fv = f@;
                    files.push(f);
                    assert(files@.map_values(|f: File| f@) =~= prev.push(fv));
                },
                Err(e) => {
                    proof {
                        lemma_files_error_stays(
                        d@,
                        inner_dat.offset,
                        (j + 1) as nat,
                        entry_count as nat,
                    );
                    }
                    return Err(e);
                },
            }
            j += 1;
        }
        Ok(files)
    }

    /// The payload of `file` of `inner_dat`: `file.size` bytes from
    /// `inner_dat.offset + file.offset`, or `Truncated` where they pass the
    /// end of the container.
    pub fn read_file(&self, inner_dat: &InnerDAT, file: &File) -> (r: Result<Vec<u8>, DatError>)
        ensures
            payload_in_bounds(self.source().len(), inner_dat.offset, file.offset, file.size) ==> (
            r matches Ok(v) && v@ == payload(
                self.source(),
                inner_dat.offset,
                file.offset,
                file.size,
            ) && v@.len() == file.size),
            !payload_in_bounds(self.source().len(), inner_dat.offset, file.offset, file.size)
                ==> (r matches Err(e) && e@ == DatErrorView::Truncated),
    {
        let start: u64 = inner_dat.offset as u64 + file.offset as u64;
        let end: u64 = start + file.size as u64;
        if end > self.data.len() as u64 {
            return Err(DatError::Truncated);
        }
        let bytes = &self.data.as_slice()[start as usize..end as usize];
        Ok(vstd::slice::slice_to_vec(bytes))
    }
}

impl InnerDAT {
    /// Reads the inner archive that a container table row describes: its
    /// files, its kind and its name.
    pub fn new(dat_file: &DAT, entry: [u8; 12]) -> (r: Result<Self, DatError>)
        requires
            decodable_len(dat_file.source().len()),
        ensures
            match inner_spec(dat_file.source(), entry@) {
                Ok(v) => r matches Ok(i) && i@ == v,
                Err(e) => r matches Err(x) && x@ == e,
            },
    {
        let mut inner_dat = InnerDAT {
            offset: read_le_u32(&entry, 0),
            size: read_le_u32(&entry, 4),
            entry_count: read_le_u32(&entry, 8),
            archive_name: None,
            archive_type: ArchiveType::UNKNOWN,
            files: Vec::new(),
        };
        inner_dat.files = match dat_file.index_files(&inner_dat) {
            Ok(files) => files,
            Err(e) => {
                proof {
                    reveal(inner_spec);
                }
                return Err(e);
            },
        };
        assert(types_of(inner_dat.files@) =~= view_types(inner_dat.files@.map_values(|f: File| f@)));
        inner_dat.archive_type = ArchiveType::from_archive(&inner_dat);
        inner_dat.archive_name = inner_dat.get_names();
        proof {
            reveal(inner_spec);
        }
        Ok(inner_dat)
    }

    /// The archive's name, as its kind and files give it.
    pub fn get_names(&self) -> (r: Option<String>)
        ensures
            opt_chars(r) == archive_name_of(self.archive_type, types_of(self.files@)),
    {
        match self.archive_type {
            ArchiveType::CHARACTER => {
                if self.files.len() > 6 {
                    match &self.files[6].file_type {
                        FileType::NAME { name } => {
                            let path = chars_of(name.file_path.as_str());
                            let segs = split_chars(path.as_slice(), '/');
                            if segs.len() > 4 {
                                let suffix: [char; 9] = [
                                    '.',
                                    'n',
                                    'a',
                                    'm',
                                    'e',
                                    '.',
                                    'o',
                                    'u',
                                    't',
                                ];
                                assert(suffix@ == name_out_suffix());
                                strip_suffix_chars(segs[4].as_slice(), &suffix)
                            } else {
                                None
                            }
                        },
                        _ => None,
                    }
                } else {
                    None
                }
            },
            ArchiveType::UI => {
                if self.files.len() > 0 {
                    match &self.files[0].file_type {
                        FileType::PUT2D { put2d_script } => texture_name_of(
                            put2d_script.txd_path.as_str(),
                        ),
                        _ => None,
                    }
                } else {
                    None
                }
            },
            _ => None,
        }
    }
}

impl ArchiveType {
    /// The kind of an inner archive, from its first file and its siblings.
    pub fn from_archive(inner: &InnerDAT) -> (r: Self)
        ensures
            r == archive_type_of(inner.entry_count, types_of(inner.files@)),
    {
        if inner.files.len() == 0 {
            return ArchiveType::UNKNOWN;
        }
        let character = inner.entry_count > 7 && inner.files.len() > 6 && matches!(
            inner.files[6].file_type,
            FileType::NAME { .. }
        );
        match inner.files[0].file_type {
            FileType::DFF => {
                if character {
                    ArchiveType::CHARACTER
                } else if inner.entry_count >= 2 && inner.files.len() > 1 && matches!(
                    inner.files[1].file_type,
                    FileType::TXD
                ) {
                    ArchiveType::OBJECT
                } else {
                    ArchiveType::UNKNOWN
                }
            },
            FileType::PUT2D { .. } => ArchiveType::UI,
            FileType::UNKNOWN => {
                if character {
                    ArchiveType::CHARACTER
                } else {
                    ArchiveType::UNKNOWN
                }
            },
            _ => ArchiveType::UNKNOWN,
        }
    }
}

} // verus!
