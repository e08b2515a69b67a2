//! The UI layout script: a header line, an id, a byte, two paths, an entry
//! count and that many entry lines, each a byte followed by a record whose
//! first field selects one of five layouts.

use vstd::prelude::*;

use crate::errors::{ValidationError, ValidationErrorView};
use crate::text::{
    char_rows, chars_of, latin1, opt_chars, parse_bounded, parse_u16, parse_u8, read_u16, read_u8, split_chars,
    split_seq, string_from_chars, u16_or_zero, u8_or_zero, parse_number,
};

verus! {

/// A decoded UI layout script.
#[derive(Debug)]
pub struct Put2D {
    pub id: u16,
    pub unknown: u8,
    pub txd_path: String,
    pub txt_path: String,
    pub entry_count: usize,
    pub entries: Vec<Put2DEntry>,
}

/// One entry line of a script.
#[derive(Debug)]
pub struct Put2DEntry {
    pub unknown: u8,
    pub entry_type: Put2DEntryType,
}

/// The record of an entry, by its layout.
#[derive(Debug)]
#[allow(inconsistent_fields)]
pub enum Put2DEntryType {
    TYPE0 { entry: Type0 },
    TYPE1 { entry: Type1 },
    TYPE2 { entry: Type2 },
    TYPE3 { entry: Type3 },
    TYPE4 { entry: Type4 },
    UNKNOWN,
}

/// A layout 0 record: a content string among numbers of unknown purpose.
#[derive(Debug)]
pub struct Type0 {
    pub unknown_1: u8,
    pub unknown_2: u8,
    pub content: String,
    pub unknown_3: u16,
    pub unknown_4: u16,
    pub unknown_5: u8,
    pub unknown_6: u8,
    pub unknown_7: u8,
    pub unknown_8: u8,
    pub unknown_9: u8,
}

/// A layout 1 record: a file path, an id and a file name among numbers of
/// unknown purpose.
#[derive(Debug)]
pub struct Type1 {
    pub unknown_1: u8,
    pub file_path: String,
    pub unknown_2: u16,
    pub unknown_3: u16,
    pub unknown_4: u16,
    pub unknown_5: u8,
    pub unknown_6: u8,
    pub unknown_7: u8,
    pub unknown_8: u8,
    pub unknown_9: u8,
    pub id: u8,
    pub file_name: String,
}

/// A layout 2 record: a file path, an id and a file name among numbers of
/// unknown purpose.
#[derive(Debug)]
pub struct Type2 {
    pub unknown_1: u8,
    pub file_path: String,
    pub unknown_2: u16,
    pub unknown_3: u16,
    pub unknown_4: u16,
    pub unknown_5: u16,
    pub unknown_6: u16,
    pub unknown_7: u16,
    pub unknown_8: u16,
    pub unknown_9: u8,
    pub unknown_10: u8,
    pub unknown_11: u8,
    pub unknown_12: u8,
    pub unknown_13: u8,
    pub id: u8,
    pub file_name: String,
}

/// A layout 3 record: numbers of unknown purpose.
#[derive(Debug, Clone, Copy, PartialEq, Eq, Structural)]
pub struct Type3 {
    pub unknown_1: u8,
    pub unknown_2: u8,
    pub unknown_3: u8,
    pub unknown_4: u8,
    pub unknown_5: u16,
    pub unknown_6: u16,
    pub unknown_7: u8,
    pub unknown_8: u8,
    pub unknown_9: u8,
    pub unknown_10: u8,
    pub unknown_11: u8,
    pub unknown_12: u8,
}

/// A layout 4 record: numbers of unknown purpose.
#[derive(Debug, Clone, Copy, PartialEq, Eq, Structural)]
pub struct Type4 {
    pub unknown_1: u8,
    pub unknown_2: u16,
    pub unknown_3: u16,
    pub unknown_4: u16,
    pub unknown_5: u16,
    pub unknown_6: u16,
    pub unknown_7: u8,
    pub unknown_8: u8,
    pub unknown_9: u8,
    pub unknown_10: u8,
    pub unknown_11: u8,
    pub unknown_12: u16,
    pub unknown_13: u8,
    pub unknown_14: u8,
    pub unknown_15: u8,
}

/// The mathematical value of a `Type0`.
pub struct Type0View {
    pub unknown_1: u8,
    pub unknown_2: u8,
    pub content: Seq<char>,
    pub unknown_3: u16,
    pub unknown_4: u16,
    pub unknown_5: u8,
    pub unknown_6: u8,
    pub unknown_7: u8,
    pub unknown_8: u8,
    pub unknown_9: u8,
}

/// The mathematical value of a `Type1`.
pub struct Type1View {
    pub unknown_1: u8,
    pub file_path: Seq<char>,
    pub unknown_2: u16,
    pub unknown_3: u16,
    pub unknown_4: u16,
    pub unknown_5: u8,
    pub unknown_6: u8,
    pub unknown_7: u8,
    pub unknown_8: u8,
    pub unknown_9: u8,
    pub id: u8,
    pub file_name: Seq<char>,
}

/// The mathematical value of a `Type2`.
pub struct Type2View {
    pub unknown_1: u8,
    pub file_path: Seq<char>,
    pub unknown_2: u16,
    pub unknown_3: u16,
    pub unknown_4: u16,
    pub unknown_5: u16,
    pub unknown_6: u16,
    pub unknown_7: u16,
    pub unknown_8: u16,
    pub unknown_9: u8,
    pub unknown_10: u8,
    pub unknown_11: u8,
    pub unknown_12: u8,
    pub unknown_13: u8,
    pub id: u8,
    pub file_name: Seq<char>,
}

/// The mathematical value of a `Put2DEntryType`.
#[allow(inconsistent_fields)]
pub enum Put2DEntryTypeView {
    TYPE0 { entry: Type0View },
    TYPE1 { entry: Type1View },
    TYPE2 { entry: Type2View },
    TYPE3 { entry: Type3 },
    TYPE4 { entry: Type4 },
    UNKNOWN,
}

/// The mathematical value of a `Put2DEntry`.
pub struct Put2DEntryView {
    pub unknown: u8,
    pub entry_type: Put2DEntryTypeView,
}

/// The mathematical value of a `Put2D`.
pub struct Put2DView {
    pub id: u16,
    pub unknown: u8,
    pub txd_path: Seq<char>,
    pub txt_path: Seq<char>,
    pub entry_count: nat,
    pub entries: Seq<Put2DEntryView>,
}

impl View for Type0 {
    type V = Type0View;

    open spec fn view(&self) -> Type0View {
        Type0View {
            unknown_1: self.unknown_1,
            unknown_2: self.unknown_2,
            content: self.content@,
            unknown_3: self.unknown_3,
            unknown_4: self.unknown_4,
            unknown_5: self.unknown_5,
            unknown_6: self.unknown_6,
            unknown_7: self.unknown_7,
            unknown_8: self.unknown_8,
            unknown_9: self.unknown_9,
        }
    }
}

impl View for Type1 {
    type V = Type1View;

    open spec fn view(&self) -> Type1View {
        Type1View {
            unknown_1: self.unknown_1,
            file_path: self.file_path@,
            unknown_2: self.unknown_2,
            unknown_3: self.unknown_3,
            unknown_4: self.unknown_4,
            unknown_5: self.unknown_5,
            unknown_6: self.unknown_6,
            unknown_7: self.unknown_7,
            unknown_8: self.unknown_8,
            unknown_9: self.unknown_9,
            id: self.id,
            file_name: self.file_name@,
        }
    }
}

impl View for Type2 {
    type V = Type2View;

    open spec fn view(&self) -> Type2View {
        Type2View {
            unknown_1: self.unknown_1,
            file_path: self.file_path@,
            unknown_2: self.unknown_2,
            unknown_3: self.unknown_3,
            unknown_4: self.unknown_4,
            unknown_5: self.unknown_5,
            unknown_6: self.unknown_6,
            unknown_7: self.unknown_7,
            unknown_8: self.unknown_8,
            unknown_9: self.unknown_9,
            unknown_10: self.unknown_10,
            unknown_11: self.unknown_11,
            unknown_12: self.unknown_12,
            unknown_13: self.unknown_13,
            id: self.id,
            file_name: self.file_name@,
        }
    }
}

impl View for Put2DEntryType {
    type V = Put2DEntryTypeView;

    open spec fn view(&self) -> Put2DEntryTypeView {
        match self {
            Put2DEntryType::TYPE0 { entry } => Put2DEntryTypeView::TYPE0 { entry: entry@ },
            Put2DEntryType::TYPE1 { entry } => Put2DEntryTypeView::TYPE1 { entry: entry@ },
            Put2DEntryType::TYPE2 { entry } => Put2DEntryTypeView::TYPE2 { entry: entry@ },
            Put2DEntryType::TYPE3 { entry } => Put2DEntryTypeView::TYPE3 { entry: *entry },
            Put2DEntryType::TYPE4 { entry } => Put2DEntryTypeView::TYPE4 { entry: *entry },
            Put2DEntryType::UNKNOWN => Put2DEntryTypeView::UNKNOWN,
        }
    }
}

impl View for Put2DEntry {
    type V = Put2DEntryView;

    open spec fn view(&self) -> Put2DEntryView {
        Put2DEntryView { unknown: self.unknown, entry_type: self.entry_type@ }
    }
}

impl View for Put2D {
    type V = Put2DView;

    open spec fn view(&self) -> Put2DView {
        Put2DView {
            id: self.id,
            unknown: self.unknown,
            txd_path: self.txd_path@,
            txt_path: self.txt_path@,
            entry_count: self.entry_count as nat,
            entries: self.entries@.map_values(|e: Put2DEntry| e@),
        }
    }
}

/// Field `i` is a decimal `u8`.
pub open spec fn byte_ok(t: Seq<Seq<char>>, i: int) -> bool {
    parse_u8(t[i]) is Some
}

/// Field `i` is a decimal `u16`.
pub open spec fn word_ok(t: Seq<Seq<char>>, i: int) -> bool {
    parse_u16(t[i]) is Some
}

/// Field `i` as a `u8`.
pub open spec fn byte_of(t: Seq<Seq<char>>, i: int) -> u8 {
    u8_or_zero(t[i])
}

/// Field `i` as a `u16`.
pub open spec fn word_of(t: Seq<Seq<char>>, i: int) -> u16 {
    u16_or_zero(t[i])
}

/// A field that may be absent or malformed, and then reads as zero.
pub open spec fn lenient_byte_of(t: Seq<Seq<char>>, i: int) -> u8 {
    if i < t.len() {
        u8_or_zero(t[i])
    } else {
        0
    }
}

/// Layout 0: ten fields after the tag, the tenth optional.
pub open spec fn type0_of(t: Seq<Seq<char>>) -> Option<Put2DEntryTypeView> {
    if t.len() >= 10 && byte_ok(t, 1) && byte_ok(t, 2) && word_ok(t, 4) && word_ok(t, 5)
        && byte_ok(t, 6) && byte_ok(t, 7) && byte_ok(t, 8) && byte_ok(t, 9) {
        Some(
            Put2DEntryTypeView::TYPE0 {
                entry: Type0View {
                    unknown_1: byte_of(t, 1),
                    unknown_2: byte_of(t, 2),
                    content: t[3],
                    unknown_3: word_of(t, 4),
                    unknown_4: word_of(t, 5),
                    unknown_5: byte_of(t, 6),
                    unknown_6: byte_of(t, 7),
                    unknown_7: byte_of(t, 8),
                    unknown_8: byte_of(t, 9),
                    unknown_9: lenient_byte_of(t, 10),
                },
            },
        )
    } else {
        None
    }
}

/// Layout 1: twelve fields after the tag.
pub open spec fn type1_of(t: Seq<Seq<char>>) -> Option<Put2DEntryTypeView> {
    if t.len() >= 13 && byte_ok(t, 1) && word_ok(t, 3) && word_ok(t, 4) && word_ok(t, 5)
        && byte_ok(t, 6) && byte_ok(t, 7) && byte_ok(t, 8) && byte_ok(t, 9) && byte_ok(t, 10)
        && byte_ok(t, 11) {
        Some(
            Put2DEntryTypeView::TYPE1 {
                entry: Type1View {
                    unknown_1: byte_of(t, 1),
                    file_path: t[2],
                    unknown_2: word_of(t, 3),
                    unknown_3: word_of(t, 4),
                    unknown_4: word_of(t, 5),
                    unknown_5: byte_of(t, 6),
                    unknown_6: byte_of(t, 7),
                    unknown_7: byte_of(t, 8),
                    unknown_8: byte_of(t, 9),
                    unknown_9: byte_of(t, 10),
                    id: byte_of(t, 11),
                    file_name: t[12],
                },
            },
        )
    } else {
        None
    }
}

/// Layout 2: sixteen fields after the tag.
pub open spec fn type2_of(t: Seq<Seq<char>>) -> Option<Put2DEntryTypeView> {
    if t.len() >= 17 && byte_ok(t, 1) && word_ok(t, 3) && word_ok(t, 4) && word_ok(t, 5)
        && word_ok(t, 6) && word_ok(t, 7) && word_ok(t, 8) && word_ok(t, 9) && byte_ok(t, 10)
        && byte_ok(t, 11) && byte_ok(t, 12) && byte_ok(t, 13) && byte_ok(t, 14) && byte_ok(
        t,
        15,
    ) {
        Some(
            Put2DEntryTypeView::TYPE2 {
                entry: Type2View {
                    unknown_1: byte_of(t, 1),
                    file_path: t[2],
                    unknown_2: word_of(t, 3),
                    unknown_3: word_of(t, 4),
                    unknown_4: word_of(t, 5),
                    unknown_5: word_of(t, 6),
                    unknown_6: word_of(t, 7),
                    unknown_7: word_of(t, 8),
                    unknown_8: word_of(t, 9),
                    unknown_9: byte_of(t, 10),
                    unknown_10: byte_of(t, 11),
                    unknown_11: byte_of(t, 12),
                    unknown_12: byte_of(t, 13),
                    unknown_13: byte_of(t, 14),
                    id: byte_of(t, 15),
                    file_name: t[16],
                },
            },
        )
    } else {
        None
    }
}

/// Layout 3: twelve fields after the tag, the tenth may be malformed.
pub open spec fn type3_of(t: Seq<Seq<char>>) -> Option<Put2DEntryTypeView> {
    if t.len() >= 13 && byte_ok(t, 1) && byte_ok(t, 2) && byte_ok(t, 3) && byte_ok(t, 4)
        && word_ok(t, 5) && word_ok(t, 6) && byte_ok(t, 7) && byte_ok(t, 8) && byte_ok(t, 9)
        && byte_ok(t, 11) && byte_ok(t, 12) {
        Some(
            Put2DEntryTypeView::TYPE3 {
                entry: Type3 {
                    unknown_1: byte_of(t, 1),
                    unknown_2: byte_of(t, 2),
                    unknown_3: byte_of(t, 3),
                    unknown_4: byte_of(t, 4),
                    unknown_5: word_of(t, 5),
                    unknown_6: word_of(t, 6),
                    unknown_7: byte_of(t, 7),
                    unknown_8: byte_of(t, 8),
                    unknown_9: byte_of(t, 9),
                    unknown_10: lenient_byte_of(t, 10),
                    unknown_11: byte_of(t, 11),
                    unknown_12: byte_of(t, 12),
                },
            },
        )
    } else {
        None
    }
}

/// Layout 4: fifteen fields after the tag, the thirteenth may be malformed.
pub open spec fn type4_of(t: Seq<Seq<char>>) -> Option<Put2DEntryTypeView> {
    if t.len() >= 16 && byte_ok(t, 1) && word_ok(t, 2) && word_ok(t, 3) && word_ok(t, 4)
        && word_ok(t, 5) && word_ok(t, 6) && byte_ok(t, 7) && byte_ok(t, 8) && byte_ok(t, 9)
        && byte_ok(t, 10) && byte_ok(t, 11) && word_ok(t, 12) && byte_ok(t, 14) && byte_ok(
        t,
        15,
    ) {
        Some(
            Put2DEntryTypeView::TYPE4 {
                entry: Type4 {
                    unknown_1: byte_of(t, 1),
                    unknown_2: word_of(t, 2),
                    unknown_3: word_of(t, 3),
                    unknown_4: word_of(t, 4),
                    unknown_5: word_of(t, 5),
                    unknown_6: word_of(t, 6),
                    unknown_7: byte_of(t, 7),
                    unknown_8: byte_of(t, 8),
                    unknown_9: byte_of(t, 9),
                    unknown_10: byte_of(t, 10),
                    unknown_11: byte_of(t, 11),
                    unknown_12: word_of(t, 12),
                    unknown_13: lenient_byte_of(t, 13),
                    unknown_14: byte_of(t, 14),
                    unknown_15: byte_of(t, 15),
                },
            },
        )
    } else {
        None
    }
}

/// An entry's record from its space-separated fields `t`: the first field,
/// `0` to `4`, selects the layout; any other first field, or none, gives
/// `UNKNOWN`. `None` where a required field is absent or malformed.
pub open spec fn entry_type_of(t: Seq<Seq<char>>) -> Option<Put2DEntryTypeView> {
    if t.len() == 0 {
        Some(Put2DEntryTypeView::UNKNOWN)
    } else if t[0] == seq!['0'] {
        type0_of(t)
    } else if t[0] == seq!['1'] {
        type1_of(t)
    } else if t[0] == seq!['2'] {
        type2_of(t)
    } else if t[0] == seq!['3'] {
        type3_of(t)
    } else if t[0] == seq!['4'] {
        type4_of(t)
    } else {
        Some(Put2DEntryTypeView::UNKNOWN)
    }
}

/// An entry line: a byte, then the record made of the remaining fields.
pub open spec fn parse_put2d_entry(line: Seq<char>) -> Option<Put2DEntryView> {
    let f = split_seq(line, ' ');
    if f.len() == 0 || parse_u8(f[0]) is None {
        None
    } else {
        match entry_type_of(f.subrange(1, f.len() as int)) {
            Some(et) => Some(Put2DEntryView { unknown: u8_or_zero(f[0]), entry_type: et }),
            None => None,
        }
    }
}

/// A layout 0 record that lacks its last field still reads, with that field
/// zero; a layout 1 record that lacks a field does not read.
pub proof fn lemma_optional_last_field(t: Seq<Seq<char>>)
    ensures
        t.len() == 10 && t[0] == seq!['0'] && byte_ok(t, 1) && byte_ok(t, 2) && word_ok(t, 4)
            && word_ok(t, 5) && byte_ok(t, 6) && byte_ok(t, 7) && byte_ok(t, 8) && byte_ok(t, 9)
            ==> (entry_type_of(t) matches Some(Put2DEntryTypeView::TYPE0 { entry }) && entry.unknown_9
            == 0),
        1 <= t.len() < 13 && t[0] == seq!['1'] ==> entry_type_of(t) is None,
{
    if t.len() >= 1 && t[0] == seq!['1'] {
        assert(t[0][0] == '1');
        assert(seq!['0'][0] == '0');
        assert(t[0] != seq!['0']);
    }
}

/// A script whose entry line does not read fails as a whole.
pub proof fn lemma_bad_entry_fails_script(t: Seq<char>, i: int)
    requires
        split_seq(t, '\n').len() >= 6,
        parse_bounded(split_seq(t, '\n')[5], (split_seq(t, '\n').len() - 6) as nat) matches Some(
            n,
        ) && 0 <= i < n,
        parse_put2d_entry(split_seq(t, '\n')[6 + i]) is None,
    ensures
        parse_put2d_text(t) is None,
{
}

fn byte_at(t: &[Vec<char>], i: usize) -> (r: Option<u8>)
    requires
        i < t.len(),
    ensures
        r == parse_u8(char_rows(t@)[i as int]),
{
    read_u8(t[i].as_slice())
}

fn word_at(t: &[Vec<char>], i: usize) -> (r: Option<u16>)
    requires
        i < t.len(),
    ensures
        r == parse_u16(char_rows(t@)[i as int]),
{
    read_u16(t[i].as_slice())
}

fn text_at(t: &[Vec<char>], i: usize) -> (r: String)
    requires
        i < t.len(),
    ensures
        r@ == char_rows(t@)[i as int],
{
    string_from_chars(t[i].as_slice())
}

fn lenient_byte_at(t: &[Vec<char>], i: usize) -> (r: u8)
    ensures
        r == lenient_byte_of(char_rows(t@), i as int),
{
    if i < t.len() {
        match read_u8(t[i].as_slice()) {
            Some(v) => v,
            None => 0,
        }
    } else {
        0
    }
}

fn is_tag(f: &Vec<char>, c: char) -> (r: bool)
    ensures
        r == (f@ == seq![c]),
{
    if f.len() == 1 && f[0] == c {
        assert(f@ =~= seq![c]);
        true
    } else {
        false
    }
}

/// A script's text: lines split at `\n`; line 1 is the id, line 2 a byte,
/// lines 3 and 4 the texture dictionary and text paths, line 5 the entry
/// count `n`, lines 6 to `6 + n` the entries. `None` where any of these is
/// absent or malformed.
pub open spec fn parse_put2d_text(t: Seq<char>) -> Option<Put2DView> {
    let l = split_seq(t, '\n');
    if l.len() < 6 {
        None
    } else {
        match parse_bounded(l[5], (l.len() - 6) as nat) {
            None => None,
            Some(n) => if parse_u16(l[1]) is Some && parse_u8(l[2]) is Some && (forall|i: int|
                0 <= i < n ==> (#[trigger] parse_put2d_entry(l[6 + i])) is Some) {
                Some(
                    Put2DView {
                        id: u16_or_zero(l[1]),
                        unknown: u8_or_zero(l[2]),
                        txd_path: l[3],
                        txt_path: l[4],
                        entry_count: n,
                        entries: Seq::new(
                            n,
                            |i: int|
                                match parse_put2d_entry(l[6 + i]) {
                                    Some(e) => e,
                                    None => Put2DEntryView {
                                        unknown: 0,
                                        entry_type: Put2DEntryTypeView::UNKNOWN,
                                    },
                                },
                        ),
                    },
                )
            } else {
                None
            },
        }
    }
}

/// Texts of at most this many bytes can be decoded without the decoder's
/// buffer size computation overflowing.
pub open spec fn decodable_len(n: nat) -> bool {
    n <= usize::MAX / 8
}

/// Every byte is below 0x80.
pub open spec fn is_ascii_bytes(b: Seq<u8>) -> bool {
    forall|i: int| 0 <= i < b.len() ==> #[trigger] b[i] < 0x80
}

/// The text that Shift-JIS bytes decode to, or `None` where a byte sequence
/// is malformed.
pub uninterp spec fn shift_jis_text(b: Seq<u8>) -> Option<Seq<char>>;

/// Relies on encoding_rs's `Encoding::decode` for `SHIFT_JIS`: it returns the
/// decoded text (a byte order mark may switch the encoding) and whether any
/// sequence was malformed. ASCII-only input has no byte order mark and is
/// borrowed unchanged, without errors. It panics only where its buffer
/// size computation overflows, which `decodable_len` rules out.
#[verifier::external_body]
fn decode_shift_jis(data: &[u8]) -> (r: Option<String>)
    requires
        decodable_len(data@.len()),
    ensures
        r is None <==> shift_jis_text(data@) is None,
        r matches Some(s) ==> shift_jis_text(data@) == Some(s@),
        is_ascii_bytes(data@) ==> opt_chars(r) == Some(latin1(data@)),
{
    let (text, _, had_errors) = encoding_rs::SHIFT_JIS.decode(data);
    if had_errors {
        None
    } else {
        Some(text.into_owned())
    }
}

/// A script's bytes: Shift-JIS text that `parse_put2d_text` accepts. A
/// malformed encoding is an `IncorrectFormat` error; any other failure a
/// `ParseFailure`.
pub open spec fn parse_put2d(data: Seq<u8>) -> Result<Put2DView, ValidationErrorView> {
    match shift_jis_text(data) {
        None => Err(ValidationErrorView::IncorrectFormat("Invalid SHIFT_JIS encoding!"@)),
        Some(t) => match parse_put2d_text(t) {
            Some(v) => Ok(v),
            None => Err(ValidationErrorView::ParseFailure),
        },
    }
}

impl Put2D {
    /// Decodes a script's bytes.
    pub fn from_data(data: &[u8]) -> (r: Result<Self, ValidationError>)
        requires
            decodable_len(data@.len()),
        ensures
            match parse_put2d(data@) {
                Ok(v) => r matches Ok(p) && p@ == v,
                Err(v) => r matches Err(e) && e@ == v,
            },
            is_ascii_bytes(data@) ==> match parse_put2d_text(latin1(data@)) {
                Some(v) => r matches Ok(p) && p@ == v,
                None => r matches Err(e) && e@ == ValidationErrorView::ParseFailure,
            },
    {
        match decode_shift_jis(data) {
            None => Err(
                ValidationError::IncorrectFormat(String::from_str("Invalid SHIFT_JIS encoding!")),
            ),
            Some(text) => Self::from_text(text.as_str()),
        }
    }

    /// Decodes a script's text; any absent or malformed field is a
    /// `ParseFailure`.
    pub fn from_text(text: &str) -> (r: Result<Self, ValidationError>)
        ensures
            match parse_put2d_text(text@) {
                Some(v) => r matches Ok(p) && p@ == v,
                None => r matches Err(e) && e@ == ValidationErrorView::ParseFailure,
            },
    {
        let chars = chars_of(text);
        let lines = split_chars(chars.as_slice(), '\n');
        let ghost l = char_rows(lines@);
        assert(l == split_seq(text@, '\n'));
        if lines.len() < 6 {
            return Err(ValidationError::ParseFailure);
        }
        assert(forall|k: int| 0 <= k < lines.len() ==> l[k] == (#[trigger] lines@[k])@);
        let entry_count = match parse_number(lines[5].as_slice(), (lines.len() - 6) as u64) {
            Some(n) => n as usize,
            None => {
                return Err(ValidationError::ParseFailure);
            },
        };
        let mut entries: Vec<Put2DEntry> = Vec::new();
        let mut i: usize = 0;
        while i < entry_count
            invariant
                i <= entry_count,
                6 + entry_count <= lines.len(),
                l == char_rows(lines@),
                l == split_seq(text@, '\n'),
                parse_bounded(l[5], (l.len() - 6) as nat) == Some(entry_count as nat),
                forall|j: int| 0 <= j < i ==> (#[trigger] parse_put2d_entry(l[6 + j])) is Some,
                entries.len() == i,
                forall|j: int|
                    0 <= j < i ==> parse_put2d_entry(l[6 + j]) == Some(
                        (#[trigger] entries@[j])@,
                    ),
            decreases entry_count - i,
        {
            assert(l[6 + i] == lines@[6 + i as int]@);
            match Put2DEntry::from_chars(lines[6 + i].as_slice()) {
                Some(e) => {
                    entries.push(e);
                },
                None => {
                    return Err(ValidationError::ParseFailure);
                },
            }
            i += 1;
        }
        let id = match read_u16(lines[1].as_slice()) {
            Some(v) => v,
            None => {
                return Err(ValidationError::ParseFailure);
            },
        };
        let unknown = match read_u8(lines[2].as_slice()) {
            Some(v) => v,
            None => {
                return Err(ValidationError::ParseFailure);
            },
        };
        let txd_path = string_from_chars(lines[3].as_slice());
        let txt_path = string_from_chars(lines[4].as_slice());
        let script = Put2D { id, unknown, txd_path, txt_path, entry_count, entries };
        proof {
            let v = parse_put2d_text(text@)->Some_0;
            assert(script@.entries =~= v.entries);
        }
        Ok(script)
    }
}

impl Put2DEntry {
    /// Reads an entry line.
    pub fn from_chars(line: &[char]) -> (r: Option<Self>)
        ensures
            match parse_put2d_entry(line@) {
                Some(v) => r matches Some(e) && e@ == v,
                None => r is None,
            },
    {
        let f = split_chars(line, ' ');
        proof {
            crate::text::lemma_split_nonempty(line@, ' ');
        }
        let ghost fs = char_rows(f@);
        assert(fs[0] == f@[0]@);
        let unknown = read_u8(f[0].as_slice())?;
        let rest = &f.as_slice()[1..f.len()];
        assert(char_rows(rest@) =~= fs.subrange(1, fs.len() as int));
        let entry_type = Put2DEntryType::from_fields(rest)?;
        Some(Put2DEntry { unknown, entry_type })
    }
}

impl core::str::FromStr for Put2DEntry {
    type Err = ValidationError;

    /// Reads an entry line; one that does not read is a `ParseFailure`.
    fn from_str(s: &str) -> (r: Result<Self, ValidationError>)
        ensures
            match parse_put2d_entry(s@) {
                Some(v) => r matches Ok(x) && x@ == v,
                None => r matches Err(e) && e@ == ValidationErrorView::ParseFailure,
            },
    {
        let chars = chars_of(s);
        match Put2DEntry::from_chars(chars.as_slice()) {
            Some(e) => Ok(e),
            None => Err(ValidationError::ParseFailure),
        }
    }
}

impl core::str::FromStr for Put2DEntryType {
    type Err = ValidationError;

    /// Reads a record from its space-separated fields; one that does not read
    /// is a `ParseFailure`.
    fn from_str(s: &str) -> (r: Result<Self, ValidationError>)
        ensures
            match entry_type_of(split_seq(s@, ' ')) {
                Some(v) => r matches Ok(x) && x@ == v,
                None => r matches Err(e) && e@ == ValidationErrorView::ParseFailure,
            },
    {
        let chars = chars_of(s);
        let fields = split_chars(chars.as_slice(), ' ');
        match Put2DEntryType::from_fields(fields.as_slice()) {
            Some(t) => Ok(t),
            None => Err(ValidationError::ParseFailure),
        }
    }
}

impl Put2DEntryType {
    /// Reads a record from its space-separated fields.
    pub fn from_fields(t: &[Vec<char>]) -> (r: Option<Self>)
        ensures
            match entry_type_of(char_rows(t@)) {
                Some(v) => r matches Some(x) && x@ == v,
                None => r is None,
            },
    {
        if t.len() == 0 {
            return Some(Put2DEntryType::UNKNOWN);
        }
        if is_tag(&t[0], '0') {
            if t.len() < 10 {
                return None;
            }
            let entry = Type0 {
                unknown_1: byte_at(t, 1)?,
                unknown_2: byte_at(t, 2)?,
                content: text_at(t, 3),
                unknown_3: word_at(t, 4)?,
                unknown_4: word_at(t, 5)?,
                unknown_5: byte_at(t, 6)?,
                unknown_6: byte_at(t, 7)?,
                unknown_7: byte_at(t, 8)?,
                unknown_8: byte_at(t, 9)?,
                unknown_9: lenient_byte_at(t, 10),
            };
            Some(Put2DEntryType::TYPE0 { entry })
        } else if is_tag(&t[0], '1') {
            if t.len() < 13 {
                return None;
            }
            let entry = Type1 {
                unknown_1: byte_at(t, 1)?,
                file_path: text_at(t, 2),
                unknown_2: word_at(t, 3)?,
                unknown_3: word_at(t, 4)?,
                unknown_4: word_at(t, 5)?,
                unknown_5: byte_at(t, 6)?,
                unknown_6: byte_at(t, 7)?,
                unknown_7: byte_at(t, 8)?,
                unknown_8: byte_at(t, 9)?,
                unknown_9: byte_at(t, 10)?,
                id: byte_at(t, 11)?,
                file_name: text_at(t, 12),
            };
            Some(Put2DEntryType::TYPE1 { entry })
        } else if is_tag(&t[0], '2') {
            if t.len() < 17 {
                return None;
            }
            let entry = Type2 {
                unknown_1: byte_at(t, 1)?,
                file_path: text_at(t, 2),
                unknown_2: word_at(t, 3)?,
                unknown_3: word_at(t, 4)?,
                unknown_4: word_at(t, 5)?,
                unknown_5: word_at(t, 6)?,
                unknown_6: word_at(t, 7)?,
                unknown_7: word_at(t, 8)?,
                unknown_8: word_at(t, 9)?,
                unknown_9: byte_at(t, 10)?,
                unknown_10: byte_at(t, 11)?,
                unknown_11: byte_at(t, 12)?,
                unknown_12: byte_at(t, 13)?,
                unknown_13: byte_at(t, 14)?,
                id: byte_at(t, 15)?,
                file_name: text_at(t, 16),
            };
            Some(Put2DEntryType::TYPE2 { entry })
        } else if is_tag(&t[0], '3') {
            if t.len() < 13 {
                return None;
            }
            let entry = Type3 {
                unknown_1: byte_at(t, 1)?,
                unknown_2: byte_at(t, 2)?,
                unknown_3: byte_at(t, 3)?,
                unknown_4: byte_at(t, 4)?,
                unknown_5: word_at(t, 5)?,
                unknown_6: word_at(t, 6)?,
                unknown_7: byte_at(t, 7)?,
                unknown_8: byte_at(t, 8)?,
                unknown_9: byte_at(t, 9)?,
                unknown_10: lenient_byte_at(t, 10),
                unknown_11: byte_at(t, 11)?,
                unknown_12: byte_at(t, 12)?,
            };
            Some(Put2DEntryType::TYPE3 { entry })
        } else if is_tag(&t[0], '4') {
            if t.len() < 16 {
                return None;
            }
            let entry = Type4 {
                unknown_1: byte_at(t, 1)?,
                unknown_2: word_at(t, 2)?,
                unknown_3: word_at(t, 3)?,
                unknown_4: word_at(t, 4)?,
                unknown_5: word_at(t, 5)?,
                unknown_6: word_at(t, 6)?,
                unknown_7: byte_at(t, 7)?,
                unknown_8: byte_at(t, 8)?,
                unknown_9: byte_at(t, 9)?,
                unknown_10: byte_at(t, 10)?,
                unknown_11: byte_at(t, 11)?,
                unknown_12: word_at(t, 12)?,
                unknown_13: lenient_byte_at(t, 13),
                unknown_14: byte_at(t, 14)?,
                unknown_15: byte_at(t, 15)?,
            };
            Some(Put2DEntryType::TYPE4 { entry })
        } else {
            Some(Put2DEntryType::UNKNOWN)
        }
    }
}

} // verus!
