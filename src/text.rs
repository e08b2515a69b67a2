//! Line, field, dash and comma tokenizers and decimal number parsing shared
//! by the text payload formats.

use vstd::prelude::*;

verus! {

/// The pieces of `s` between occurrences of `sep`, in order: `k` separators
/// give `k + 1` pieces, and the empty sequence gives one empty piece.
pub open spec fn split_seq<A>(s: Seq<A>, sep: A) -> Seq<Seq<A>>
    decreases s.len(),
{
    if s.len() == 0 {
        seq![Seq::empty()]
    } else {
        let rest = split_seq(s.drop_last(), sep);
        if s.last() == sep {
            rest.push(Seq::empty())
        } else {
            rest.update(rest.len() - 1, rest.last().push(s.last()))
        }
    }
}

/// Splitting always gives at least one piece.
pub proof fn lemma_split_nonempty<A>(s: Seq<A>, sep: A)
    ensures
        split_seq(s, sep).len() >= 1,
    decreases s.len(),
{
    if s.len() > 0 {
        lemma_split_nonempty(s.drop_last(), sep);
    }
}

/// The character sequences held by a vector of character vectors.
pub open spec fn char_rows(v: Seq<Vec<char>>) -> Seq<Seq<char>> {
    v.map_values(|x: Vec<char>| x@)
}

/// Splits `s` at every `sep`.
pub fn split_chars(s: &[char], sep: char) -> (r: Vec<Vec<char>>)
    ensures
        char_rows(r@) == split_seq(s@, sep),
{
    let mut pieces: Vec<Vec<char>> = Vec::new();
    let mut current: Vec<char> = Vec::new();
    let mut i: usize = 0;
    while i < s.len()
        invariant
            i <= s.len(),
            char_rows(pieces@).push(current@) == split_seq(s@.subrange(0, i as int), sep),
        decreases s.len() - i,
    {
        let c = s[i];
        proof {
            let t = s@.subrange(0, i as int + 1);
            assert(t.drop_last() == s@.subrange(0, i as int));
            assert(t.last() == c);
            lemma_split_nonempty(s@.subrange(0, i as int), sep);
        }
        let ghost old_pieces = char_rows(pieces@);
        let ghost old_current = current@;
        if c == sep {
            pieces.push(current);
            current = Vec::new();
            assert(char_rows(pieces@) =~= old_pieces.push(old_current));
        } else {
            current.push(c);
        }
        i += 1;
    }
    let ghost before = char_rows(pieces@);
    pieces.push(current);
    assert(char_rows(pieces@) =~= before.push(current@));
    assert(s@.subrange(0, s.len() as int) == s@);
    pieces
}

/// A line without the carriage return that ended it, if one did.
pub open spec fn strip_cr(l: Seq<char>) -> Seq<char> {
    if l.len() > 0 && l.last() == '\r' {
        l.drop_last()
    } else {
        l
    }
}

/// The lines of a text as std's `str::lines` gives them: split at `\n`, each
/// terminated line without a `\r` before its `\n`, and the piece after the
/// last `\n` only where it is not empty.
pub open spec fn text_lines(t: Seq<char>) -> Seq<Seq<char>> {
    let p = split_seq(t, '\n');
    let body = p.drop_last().map_values(|l: Seq<char>| strip_cr(l));
    if p.last().len() > 0 {
        body.push(p.last())
    } else {
        body
    }
}

/// Splits a text into lines as `text_lines` describes.
pub fn lines_of(t: &[char]) -> (r: Vec<Vec<char>>)
    ensures
        char_rows(r@) == text_lines(t@),
{
    let pieces = split_chars(t, '\n');
    let ghost p = char_rows(pieces@);
    proof {
        lemma_split_nonempty(t@, '\n');
    }
    let n = pieces.len();
    let mut out: Vec<Vec<char>> = Vec::new();
    let mut i: usize = 0;
    while i + 1 < n
        invariant
            n == pieces.len(),
            n >= 1,
            i + 1 <= n,
            p == char_rows(pieces@),
            p == split_seq(t@, '\n'),
            char_rows(out@) == p.subrange(0, i as int).map_values(|l: Seq<char>| strip_cr(l)),
        decreases n - i,
    {
        let line = &pieces[i];
        let ghost before = char_rows(out@);
        let len = line.len();
        let mut stripped: Vec<char> = Vec::new();
        let keep: usize = if len > 0 && line[len - 1] == '\r' {
            len - 1
        } else {
            len
        };
        let mut j: usize = 0;
        while j < keep
            invariant
                j <= keep <= line.len(),
                stripped@ == line@.subrange(0, j as int),
            decreases keep - j,
        {
            stripped.push(line[j]);
            j += 1;
        }
        assert(stripped@ == strip_cr(p[i as int]));
        let ghost sv = stripped@;
        out.push(stripped);
        assert(char_rows(out@) =~= before.push(sv));
        assert(p.subrange(0, i as int + 1) =~= p.subrange(0, i as int).push(p[i as int]));
        i += 1;
        assert(char_rows(out@) =~= p.subrange(0, i as int).map_values(
            |l: Seq<char>| strip_cr(l),
        ));
    }
    assert(p.subrange(0, n - 1) == p.drop_last());
    if pieces[n - 1].len() > 0 {
        let ghost before = char_rows(out@);
        let last = pieces[n - 1].clone();
        assert(last@ == p.last());
        out.push(last);
        assert(char_rows(out@) =~= before.push(p.last()));
    }
    out
}

/// An ASCII decimal digit.
pub open spec fn is_digit(c: char) -> bool {
    '0' <= c && c <= '9'
}

/// The value of a string of decimal digits, most significant first.
pub open spec fn digits_value(s: Seq<char>) -> nat
    decreases s.len(),
{
    if s.len() == 0 {
        0
    } else {
        digits_value(s.drop_last()) * 10 + (s.last() as nat - '0' as nat) as nat
    }
}

/// Every character is an ASCII decimal digit.
pub open spec fn all_digits(s: Seq<char>) -> bool {
    forall|i: int| 0 <= i < s.len() ==> is_digit(#[trigger] s[i])
}

/// The digits of an unsigned decimal number: one leading `+` is dropped.
pub open spec fn unsigned_digits(s: Seq<char>) -> Seq<char> {
    if s.len() > 0 && s[0] == '+' {
        s.drop_first()
    } else {
        s
    }
}

/// An unsigned decimal number as std's integer parsing reads it: an optional
/// `+`, then at least one ASCII digit and nothing else.
pub open spec fn parse_nat(s: Seq<char>) -> Option<nat> {
    let d = unsigned_digits(s);
    if d.len() > 0 && all_digits(d) {
        Some(digits_value(d))
    } else {
        None
    }
}

/// `parse_nat`, failing where the value exceeds `max`.
pub open spec fn parse_bounded(s: Seq<char>, max: nat) -> Option<nat> {
    match parse_nat(s) {
        Some(n) => if n <= max {
            Some(n)
        } else {
            None
        },
        None => None,
    }
}

proof fn lemma_digits_value_prefix(d: Seq<char>, k: int)
    requires
        0 <= k <= d.len(),
        all_digits(d),
    ensures
        digits_value(d.subrange(0, k)) <= digits_value(d),
    decreases d.len(),
{
    if k < d.len() {
        let e = d.drop_last();
        assert(all_digits(e)) by {
            assert forall|i: int| 0 <= i < e.len() implies is_digit(#[trigger] e[i]) by {
                assert(e[i] == d[i]);
            }
        }
        lemma_digits_value_prefix(e, k);
        assert(e.subrange(0, k) == d.subrange(0, k));
    } else {
        assert(d.subrange(0, k) == d);
    }
}

/// Reads an unsigned decimal number no larger than `max`.
pub fn parse_number(s: &[char], max: u64) -> (r: Option<u64>)
    ensures
        match parse_bounded(s@, max as nat) {
            Some(n) => r == Some(n as u64),
            None => r is None,
        },
{
    let start: usize = if s.len() > 0 && s[0] == '+' {
        1
    } else {
        0
    };
    let ghost d = unsigned_digits(s@);
    assert(d == s@.subrange(start as int, s@.len() as int));
    if start == s.len() {
        return None;
    }
    let mut i: usize = start;
    while i < s.len()
        invariant
            start <= i <= s.len(),
            d == s@.subrange(start as int, s@.len() as int),
            d == unsigned_digits(s@),
            start < s.len(),
            forall|j: int| start <= j < i ==> is_digit(#[trigger] s@[j]),
        decreases s.len() - i,
    {
        if !(s[i] >= '0' && s[i] <= '9') {
            assert(s@[i as int] == d[i - start]);
            assert(!is_digit(d[i - start]));
            assert(!all_digits(d));
            return None;
        }
        i += 1;
    }
    assert(all_digits(d)) by {
        assert forall|j: int| 0 <= j < d.len() implies is_digit(#[trigger] d[j]) by {
            assert(d[j] == s@[j + start]);
        }
    }
    let mut acc: u128 = 0;
    let mut i: usize = start;
    while i < s.len()
        invariant
            start <= i <= s.len(),
            d == s@.subrange(start as int, s@.len() as int),
            d == unsigned_digits(s@),
            start < s.len(),
            all_digits(d),
            acc == digits_value(d.subrange(0, i - start)),
            acc <= max,
        decreases s.len() - i,
    {
        let c = s[i];
        let ghost p = d.subrange(0, i - start + 1);
        proof {
            assert(p.drop_last() == d.subrange(0, i - start));
            assert(c == d[i - start]);
            assert(p.last() == c);
            assert(is_digit(d[i - start]));
        }
        let digit = (c as u32 - '0' as u32) as u128;
        acc = acc * 10 + digit;
        assert(acc == digits_value(p));
        if acc > max as u128 {
            proof {
                lemma_digits_value_prefix(d, i - start + 1);
            }
            return None;
        }
        i += 1;
    }
    assert(d.subrange(0, d.len() as int) == d);
    Some(acc as u64)
}

/// The `u8` that `s` spells.
pub open spec fn parse_u8(s: Seq<char>) -> Option<u8> {
    match parse_bounded(s, 0xff) {
        Some(n) => Some(n as u8),
        None => None,
    }
}

/// The `u16` that `s` spells.
pub open spec fn parse_u16(s: Seq<char>) -> Option<u16> {
    match parse_bounded(s, 0xffff) {
        Some(n) => Some(n as u16),
        None => None,
    }
}

/// The `u32` that `s` spells.
pub open spec fn parse_u32(s: Seq<char>) -> Option<u32> {
    match parse_bounded(s, 0xffff_ffff) {
        Some(n) => Some(n as u32),
        None => None,
    }
}

/// The byte that `s` spells, or zero where it spells none.
pub open spec fn u8_or_zero(s: Seq<char>) -> u8 {
    match parse_u8(s) {
        Some(v) => v,
        None => 0,
    }
}

/// The `u16` that `s` spells, or zero where it spells none.
pub open spec fn u16_or_zero(s: Seq<char>) -> u16 {
    match parse_u16(s) {
        Some(v) => v,
        None => 0,
    }
}

/// The `u32` that `s` spells, or zero where it spells none.
pub open spec fn u32_or_zero(s: Seq<char>) -> u32 {
    match parse_u32(s) {
        Some(v) => v,
        None => 0,
    }
}

/// The bytes of a list written with `sep` between its items, if every item
/// is a decimal byte.
pub open spec fn parse_u8_list(s: Seq<char>, sep: char) -> Option<Seq<u8>> {
    let items = split_seq(s, sep);
    if forall|i: int| 0 <= i < items.len() ==> (#[trigger] parse_u8(items[i])) is Some {
        Some(items.map_values(|f: Seq<char>| u8_or_zero(f)))
    } else {
        None
    }
}

/// Reads a decimal `u8`.
pub fn read_u8(s: &[char]) -> (r: Option<u8>)
    ensures
        r == parse_u8(s@),
{
    match parse_number(s, 0xff) {
        Some(n) => Some(n as u8),
        None => None,
    }
}

/// Reads a decimal `u16`.
pub fn read_u16(s: &[char]) -> (r: Option<u16>)
    ensures
        r == parse_u16(s@),
{
    match parse_number(s, 0xffff) {
        Some(n) => Some(n as u16),
        None => None,
    }
}

/// Reads a decimal `u32`.
pub fn read_u32(s: &[char]) -> (r: Option<u32>)
    ensures
        r == parse_u32(s@),
{
    match parse_number(s, 0xffff_ffff) {
        Some(n) => Some(n as u32),
        None => None,
    }
}

/// Reads a list of decimal bytes written with `sep` between its items.
pub fn read_u8_list(s: &[char], sep: char) -> (r: Option<Vec<u8>>)
    ensures
        match parse_u8_list(s@, sep) {
            Some(l) => r matches Some(v) && v@ == l,
            None => r is None,
        },
{
    let items = split_chars(s, sep);
    let ghost rows = char_rows(items@);
    let mut out: Vec<u8> = Vec::new();
    let mut i: usize = 0;
    while i < items.len()
        invariant
            i <= items.len(),
            rows == char_rows(items@),
            rows == split_seq(s@, sep),
            out@ == rows.subrange(0, i as int).map_values(|f: Seq<char>| u8_or_zero(f)),
            forall|j: int| 0 <= j < i ==> (#[trigger] parse_u8(rows[j])) is Some,
        decreases items.len() - i,
    {
        assert(rows[i as int] == items[i as int]@);
        match read_u8(items[i].as_slice()) {
            Some(v) => {
                out.push(v);
            },
            None => {
                return None;
            },
        }
        i += 1;
        assert(out@ =~= rows.subrange(0, i as int).map_values(|f: Seq<char>| u8_or_zero(f)));
    }
    assert(rows.subrange(0, rows.len() as int) == rows);
    Some(out)
}

/// The characters of an optional string.
pub open spec fn opt_chars(o: Option<String>) -> Option<Seq<char>> {
    match o {
        Some(s) => Some(s@),
        None => None,
    }
}

/// `s` without the suffix `suf`, where it ends with it.
pub open spec fn strip_suffix(s: Seq<char>, suf: Seq<char>) -> Option<Seq<char>> {
    if s.len() >= suf.len() && s.subrange(s.len() - suf.len(), s.len() as int) == suf {
        Some(s.subrange(0, s.len() - suf.len()))
    } else {
        None
    }
}

/// Removes the suffix `suf` from `s`, where `s` ends with it.
pub fn strip_suffix_chars(s: &[char], suf: &[char]) -> (r: Option<String>)
    ensures
        opt_chars(r) == strip_suffix(s@, suf@),
{
    if s.len() < suf.len() {
        return None;
    }
    let start = s.len() - suf.len();
    let mut i: usize = 0;
    while i < suf.len()
        invariant
            start + suf.len() == s.len(),
            i <= suf.len(),
            forall|j: int| 0 <= j < i ==> s@[start + j] == suf@[j],
        decreases suf.len() - i,
    {
        if s[start + i] != suf[i] {
            assert(s@.subrange(start as int, s@.len() as int)[i as int] != suf@[i as int]);
            return None;
        }
        i += 1;
    }
    assert(s@.subrange(start as int, s@.len() as int) =~= suf@);
    let kept = &s[0..start];
    Some(string_from_chars(kept))
}

/// Each byte read as the character with that code point (ISO 8859-1).
pub open spec fn latin1(b: Seq<u8>) -> Seq<char> {
    b.map_values(|x: u8| x as char)
}

/// Reads each byte as the character with that code point.
pub fn latin1_chars(b: &[u8]) -> (r: Vec<char>)
    ensures
        r@ == latin1(b@),
{
    let mut r: Vec<char> = Vec::new();
    let mut i: usize = 0;
    while i < b.len()
        invariant
            i <= b.len(),
            r@ == latin1(b@.subrange(0, i as int)),
        decreases b.len() - i,
    {
        r.push(b[i] as char);
        i += 1;
        assert(r@ =~= latin1(b@.subrange(0, i as int)));
    }
    assert(b@.subrange(0, b.len() as int) == b@);
    r
}

/// Relies on String::push: the character is appended.
#[verifier::external_body]
fn push_char(s: &mut String, c: char)
    ensures
        final(s)@ == old(s)@.push(c),
{
    s.push(c);
}

/// The string of the characters `v`.
pub fn string_from_chars(v: &[char]) -> (r: String)
    ensures
        r@ == v@,
{
    let mut r = String::new();
    let mut i: usize = 0;
    while i < v.len()
        invariant
            i <= v.len(),
            r@ == v@.subrange(0, i as int),
        decreases v.len() - i,
    {
        push_char(&mut r, v[i]);
        i += 1;
        assert(r@ =~= v@.subrange(0, i as int));
    }
    assert(v@.subrange(0, v.len() as int) == v@);
    r
}

/// The characters of `s`, in order.
pub fn chars_of(s: &str) -> (r: Vec<char>)
    ensures
        r@ == s@,
{
    let mut r: Vec<char> = Vec::new();
    for c in it: s.chars()
        invariant
            it.seq() == s@,
            r@ == s@.take(it.index() as int),
    {
        r.push(c);
    }
    assert(r@ == s@);
    r
}

} // verus!
