//! The name data script: a header line, a source path, a count, and that
//! many names, one per line.

use vstd::prelude::*;
use vstd::utf8::{decode_utf8, valid_utf8};

use crate::errors::{ValidationError, ValidationErrorView};
use crate::text::{
    char_rows, chars_of, lines_of, parse_u16, read_u16, string_from_chars, text_lines,
    u16_or_zero,
};

verus! {

/// A decoded name script.
#[derive(Debug)]
pub struct Name {
    pub file_path: String,
    pub name_count: u16,
    pub names: Vec<String>,
}

/// The mathematical value of a `Name`.
pub struct NameView {
    pub file_path: Seq<char>,
    pub name_count: u16,
    pub names: Seq<Seq<char>>,
}

impl View for Name {
    type V = NameView;

    open spec fn view(&self) -> NameView {
        NameView {
            file_path: self.file_path@,
            name_count: self.name_count,
            names: self.names@.map_values(|s: String| s@),
        }
    }
}

/// A name script's text: line 1 is the source path, line 2 the count `n`,
/// lines 3 to `3 + n` the names; line 0 is the header.
pub open spec fn parse_name_text(t: Seq<char>) -> Option<NameView> {
    let l = text_lines(t);
    if l.len() < 3 || parse_u16(l[2]) is None {
        None
    } else {
        let n = u16_or_zero(l[2]);
        if l.len() < 3 + n {
            None
        } else {
            Some(NameView { file_path: l[1], name_count: n, names: l.subrange(3, 3 + n) })
        }
    }
}

/// A name script's bytes: UTF-8 text that `parse_name_text` accepts.
pub open spec fn parse_name(data: Seq<u8>) -> Option<NameView> {
    if valid_utf8(data) {
        parse_name_text(decode_utf8(data))
    } else {
        None
    }
}

/// Relies on String::from_utf8: the bytes are accepted exactly when they are
/// valid UTF-8, and then decoded.
#[verifier::external_body]
fn utf8_text(data: &[u8]) -> (r: Option<String>)
    ensures
        r is Some <==> valid_utf8(data@),
        r matches Some(s) ==> s@ == decode_utf8(data@),
{
    String::from_utf8(data.to_vec()).ok()
}

impl Name {
    /// Decodes a name script; a payload that is not one is a parse failure.
    pub fn new(data: &[u8]) -> (r: Result<Self, ValidationError>)
        ensures
            match parse_name(data@) {
                Some(v) => r matches Ok(n) && n@ == v,
                None => r matches Err(e) && e@ == ValidationErrorView::ParseFailure,
            },
    {
        let text = match utf8_text(data) {
            Some(t) => t,
            None => {
                return Err(ValidationError::ParseFailure);
            },
        };
        let chars = chars_of(text.as_str());
        let lines = lines_of(chars.as_slice());
        let ghost l = char_rows(lines@);
        if lines.len() < 3 {
            return Err(ValidationError::ParseFailure);
        }
        assert(l[2] == lines@[2]@);
        let name_count = match read_u16(lines[2].as_slice()) {
            Some(n) => n,
            None => {
                return Err(ValidationError::ParseFailure);
            },
        };
        if lines.len() < 3 + name_count as usize {
            return Err(ValidationError::ParseFailure);
        }
        let file_path = string_from_chars(lines[1].as_slice());
        let mut names: Vec<String> = Vec::new();
        let mut i: usize = 0;
        while i < name_count as usize
            invariant
                i <= name_count,
                lines.len() >= 3 + name_count,
                l == char_rows(lines@),
                names@.map_values(|s: String| s@) == l.subrange(3, 3 + i),
            decreases name_count - i,
        {
            let ghost before = names@.map_values(|s: String| s@);
            let s = string_from_chars(lines[3 + i].as_slice());
            let ghost sv = s@;
            names.push(s);
            assert(names@.map_values(|s: String| s@) =~= before.push(sv));
            assert(l.subrange(3, 3 + i + 1) =~= l.subrange(3, 3 + i).push(l[3 + i]));
            i += 1;
        }
        Ok(Name { file_path, name_count, names })
    }
}

} // verus!
