//! The control text of a package: its lines, and the two fields read from
//! them.

use crate::bytes::{append_bytes, bytes_eq, copy_range, has_prefix, starts_with};
use vstd::prelude::*;
use vstd::utf8::valid_utf8;

verus! {

/// `Package:`
pub open spec fn package_tag() -> Seq<u8> {
    seq![0x50u8, 0x61, 0x63, 0x6b, 0x61, 0x67, 0x65, 0x3a]
}

/// `Section:`
pub open spec fn section_tag() -> Seq<u8> {
    seq![0x53u8, 0x65, 0x63, 0x74, 0x69, 0x6f, 0x6e, 0x3a]
}

/// `main`, the branch whose name is left out of qualified names.
pub open spec fn default_branch() -> Seq<u8> {
    seq![0x6du8, 0x61, 0x69, 0x6e]
}

/// Space, tab, line feed, vertical tab, form feed, carriage return: the
/// white space of one byte.
pub open spec fn is_blank(b: u8) -> bool {
    b == 0x20 || (0x09 <= b && b <= 0x0d)
}

/// The two bytes are a white-space character: next line, or no-break space.
pub open spec fn is_blank_pair(a: u8, b: u8) -> bool {
    a == 0xc2 && (b == 0x85 || b == 0xa0)
}

/// The three bytes are a white-space character: the Ogham space mark, one of
/// the spaces of fixed width, the line or the paragraph separator, the
/// narrow no-break space, the medium mathematical space, or the ideographic
/// space.
pub open spec fn is_blank_triple(a: u8, b: u8, c: u8) -> bool {
    ||| a == 0xe1 && b == 0x9a && c == 0x80
    ||| a == 0xe2 && b == 0x80 && ((0x80 <= c && c <= 0x8a) || c == 0xa8 || c == 0xa9 || c == 0xaf)
    ||| a == 0xe2 && b == 0x81 && c == 0x9f
    ||| a == 0xe3 && b == 0x80 && c == 0x80
}

/// The number of bytes of the white-space character that `s` begins with,
/// or 0 if it begins with none.
pub open spec fn blank_head(s: Seq<u8>) -> int {
    if s.len() >= 1 && is_blank(s[0]) {
        1
    } else if s.len() >= 2 && is_blank_pair(s[0], s[1]) {
        2
    } else if s.len() >= 3 && is_blank_triple(s[0], s[1], s[2]) {
        3
    } else {
        0
    }
}

/// The number of bytes of the white-space character that `s` ends with, or
/// 0 if it ends with none.
pub open spec fn blank_tail(s: Seq<u8>) -> int {
    let n = s.len() as int;
    if n >= 1 && is_blank(s[n - 1]) {
        1
    } else if n >= 2 && is_blank_pair(s[n - 2], s[n - 1]) {
        2
    } else if n >= 3 && is_blank_triple(s[n - 3], s[n - 2], s[n - 1]) {
        3
    } else {
        0
    }
}

/// `s` without the white space at its start and at its end. The white space
/// is that of Unicode, in UTF-8.
pub open spec fn trimmed(s: Seq<u8>) -> Seq<u8>
    decreases s.len(),
{
    if blank_head(s) > 0 {
        trimmed(s.skip(blank_head(s)))
    } else if blank_tail(s) > 0 {
        trimmed(s.take(s.len() - blank_tail(s)))
    } else {
        s
    }
}

/// What is left of a text after trimming neither begins nor ends with white
/// space.
pub proof fn lemma_trimmed_is_tight(s: Seq<u8>)
    ensures
        blank_head(trimmed(s)) == 0,
        blank_tail(trimmed(s)) == 0,
        trimmed(s).len() <= s.len(),
    decreases s.len(),
{
    if blank_head(s) > 0 {
        lemma_trimmed_is_tight(s.skip(blank_head(s)));
    } else if blank_tail(s) > 0 {
        lemma_trimmed_is_tight(s.take(s.len() - blank_tail(s)));
    }
}

/// The position of the first line feed at or after `from`, or the length of
/// the text if there is none.
pub open spec fn line_end(text: Seq<u8>, from: int) -> int
    decreases text.len() - from,
{
    if from < 0 || from >= text.len() {
        text.len() as int
    } else if text[from] == 0x0a {
        from
    } else {
        line_end(text, from + 1)
    }
}

/// The line that starts at `from`: up to the next line feed, without it and
/// without a carriage return just before it.
pub open spec fn line_at(text: Seq<u8>, from: int) -> Seq<u8> {
    let end = line_end(text, from);
    let whole = text.subrange(from, end);
    if end < text.len() && whole.len() > 0 && whole.last() == 0x0d {
        whole.drop_last()
    } else {
        whole
    }
}

/// Where the line after the one that starts at `from` starts: behind the line
/// feed, or at the end of the text.
pub open spec fn next_line(text: Seq<u8>, from: int) -> int {
    if line_end(text, from) < text.len() {
        line_end(text, from) + 1
    } else {
        text.len() as int
    }
}

/// The two fields, as far as they are known.
#[derive(Clone, Debug, PartialEq, Eq)]
pub struct ControlFields {
    pub package: Option<Vec<u8>>,
    pub section: Option<Vec<u8>>,
}

/// The mathematical value of `ControlFields`.
pub ghost struct FieldValues {
    pub package: Option<Seq<u8>>,
    pub section: Option<Seq<u8>>,
}

/// The text of an optional byte vector.
pub open spec fn optional_bytes(v: Option<Vec<u8>>) -> Option<Seq<u8>> {
    match v {
        Some(bytes) => Some(bytes@),
        None => None,
    }
}

impl View for ControlFields {
    type V = FieldValues;

    open spec fn view(&self) -> FieldValues {
        FieldValues {
            package: optional_bytes(self.package),
            section: optional_bytes(self.section),
        }
    }
}

/// A line of the control text is not UTF-8.
#[derive(Clone, Copy, Debug, PartialEq, Eq, Structural)]
pub struct NotText;

impl FieldValues {
    /// Both fields are known.
    pub open spec fn complete(self) -> bool {
        self.package is Some && self.section is Some
    }

    /// The fields after `line` was read: a line that begins with `Package:`
    /// or with `Section:` sets that field to the rest of the line, trimmed.
    pub open spec fn noting(self, line: Seq<u8>) -> FieldValues {
        if has_prefix(line, package_tag()) {
            FieldValues { package: Some(trimmed(line.skip(8))), section: self.section }
        } else if has_prefix(line, section_tag()) {
            FieldValues { package: self.package, section: Some(trimmed(line.skip(8))) }
        } else {
            self
        }
    }

    /// The fields after the lines from position `from` on were read, one by
    /// one, stopping once both fields are known; a line that is not UTF-8
    /// ends the reading with an error.
    pub open spec fn reading(self, text: Seq<u8>, from: int) -> Result<FieldValues, NotText>
        decreases text.len() - from,
        when from >= 0
        via Self::reading_decreases
    {
        if from >= text.len() || self.complete() {
            Ok(self)
        } else if !valid_utf8(line_at(text, from)) {
            Err(NotText)
        } else {
            self.noting(line_at(text, from)).reading(text, next_line(text, from))
        }
    }

    #[via_fn]
    proof fn reading_decreases(self, text: Seq<u8>, from: int) {
        lemma_line_end_bounds(text, from);
    }
}

/// What reading the whole control text gives.
pub open spec fn fields_of(text: Seq<u8>) -> Result<FieldValues, NotText> {
    FieldValues { package: None, section: None }.reading(text, 0)
}

/// The name under which a package owns its files: `section/package`, with
/// the branch in front where it is not the default branch.
pub open spec fn qualified(branch: Seq<u8>, section: Seq<u8>, package: Seq<u8>) -> Seq<u8> {
    if branch == default_branch() {
        section + seq![0x2fu8] + package
    } else {
        branch + seq![0x2fu8] + section + seq![0x2fu8] + package
    }
}

pub proof fn lemma_line_end_bounds(text: Seq<u8>, from: int)
    requires
        0 <= from,
    ensures
        from <= line_end(text, from) || from > text.len(),
        line_end(text, from) <= text.len(),
        line_end(text, from) < text.len() ==> text[line_end(text, from)] == 0x0a,
        forall|i: int| from <= i < line_end(text, from) ==> text[i] != 0x0a,
    decreases text.len() - from,
{
    if from < text.len() && text[from] != 0x0a {
        lemma_line_end_bounds(text, from + 1);
    }
}

/// `std::str::from_utf8` accepts `bytes`: they are well-formed UTF-8, which
/// is the property that `vstd` writes out as `valid_utf8`.
#[verifier::external_body]
fn is_utf8(bytes: &[u8]) -> (r: bool)
    ensures
        r == valid_utf8(bytes@),
{
    std::str::from_utf8(bytes).is_ok()
}

/// Whether `b` is white space of one byte.
fn blank(b: u8) -> (r: bool)
    ensures
        r == is_blank(b),
{
    b == 0x20 || (0x09 <= b && b <= 0x0d)
}

/// Whether the three bytes are a white-space character.
fn blank_triple(a: u8, b: u8, c: u8) -> (r: bool)
    ensures
        r == is_blank_triple(a, b, c),
{
    (a == 0xe1 && b == 0x9a && c == 0x80) || (a == 0xe2 && b == 0x80 && ((0x80 <= c && c <= 0x8a)
        || c == 0xa8 || c == 0xa9 || c == 0xaf)) || (a == 0xe2 && b == 0x81 && c == 0x9f) || (a
        == 0xe3 && b == 0x80 && c == 0x80)
}

/// The length of the white-space character that `s` begins with.
fn head_blank(s: &[u8]) -> (n: usize)
    ensures
        n == blank_head(s@),
        n <= s@.len(),
{
    if s.len() >= 1 && blank(s[0]) {
        1
    } else if s.len() >= 2 && s[0] == 0xc2 && (s[1] == 0x85 || s[1] == 0xa0) {
        2
    } else if s.len() >= 3 && blank_triple(s[0], s[1], s[2]) {
        3
    } else {
        0
    }
}

/// The length of the white-space character that `s` ends with.
fn tail_blank(s: &[u8]) -> (n: usize)
    ensures
        n == blank_tail(s@),
        n <= s@.len(),
{
    let len = s.len();
    if len >= 1 && blank(s[len - 1]) {
        1
    } else if len >= 2 && s[len - 2] == 0xc2 && (s[len - 1] == 0x85 || s[len - 1] == 0xa0) {
        2
    } else if len >= 3 && blank_triple(s[len - 3], s[len - 2], s[len - 1]) {
        3
    } else {
        0
    }
}

/// Copies `s` without the white space at its start and at its end.
pub fn trim(s: &[u8]) -> (r: Vec<u8>)
    ensures
        r@ == trimmed(s@),
{
    let mut rest = s;
    loop
        invariant
            trimmed(s@) == trimmed(rest@),
        ensures
            trimmed(s@) == trimmed(rest@),
            blank_head(rest@) == 0,
        decreases rest@.len(),
    {
        let n = head_blank(rest);
        if n == 0 {
            break;
        }
        let shorter = vstd::slice::slice_subrange(rest, n, rest.len());
        proof {
            assert(shorter@ =~= rest@.skip(n as int));
        }
        rest = shorter;
    }
    loop
        invariant
            trimmed(s@) == trimmed(rest@),
            blank_head(rest@) == 0,
        ensures
            trimmed(s@) == trimmed(rest@),
            blank_head(rest@) == 0,
            blank_tail(rest@) == 0,
        decreases rest@.len(),
    {
        let n = tail_blank(rest);
        if n == 0 {
            break;
        }
        let shorter = vstd::slice::slice_subrange(rest, 0, rest.len() - n);
        proof {
            assert(shorter@ =~= rest@.take(rest@.len() - n));
        }
        rest = shorter;
    }
    copy_range(rest, 0, rest.len())
}

/// Finds the end of the line that starts at `from`.
fn find_line_end(text: &[u8], from: usize) -> (end: usize)
    requires
        from <= text.len(),
    ensures
        end == line_end(text@, from as int),
        from <= end <= text.len(),
{
    let mut i: usize = from;
    while i < text.len() && text[i] != 0x0a
        invariant
            from <= i <= text.len(),
            line_end(text@, from as int) == line_end(text@, i as int),
        decreases text.len() - i,
    {
        i += 1;
    }
    i
}

/// Reads the control text line by line and takes the value that follows
/// `Package:` and the one that follows `Section:`, each trimmed. Reading
/// stops as soon as both are known; until then a later line of a field
/// replaces an earlier one. A line that is not UTF-8 is an error.
pub fn read_fields(text: &[u8]) -> (fields: Result<ControlFields, NotText>)
    ensures
        match fields {
            Ok(found) => fields_of(text@) == Ok::<FieldValues, NotText>(found@),
            Err(e) => fields_of(text@) == Err::<FieldValues, NotText>(e),
        },
{
    let package_tag: [u8; 8] = [0x50, 0x61, 0x63, 0x6b, 0x61, 0x67, 0x65, 0x3a];
    let section_tag: [u8; 8] = [0x53, 0x65, 0x63, 0x74, 0x69, 0x6f, 0x6e, 0x3a];
    proof {
        assert(package_tag@ =~= self::package_tag());
        assert(section_tag@ =~= self::section_tag());
    }
    let mut found = ControlFields { package: None, section: None };
    let mut from: usize = 0;
    while from < text.len() && !(found.package.is_some() && found.section.is_some())
        invariant
            from <= text.len(),
            package_tag@ == self::package_tag(),
            section_tag@ == self::section_tag(),
            found@.reading(text@, from as int) == fields_of(text@),
        decreases text.len() - from,
    {
        let end = find_line_end(text, from);
        let stop = if end < text.len() && end > from && text[end - 1] == 0x0d {
            end - 1
        } else {
            end
        };
        let line = vstd::slice::slice_subrange(text, from, stop);
        proof {
            assert(line@ =~= line_at(text@, from as int));
        }
        if !is_utf8(line) {
            return Err(NotText);
        }
        if starts_with(line, package_tag.as_slice()) {
            let value = trim(vstd::slice::slice_subrange(line, 8, line.len()));
            proof {
                assert(line@.subrange(8, line@.len() as int) =~= line@.skip(8));
            }
            found.package = Some(value);
        } else if starts_with(line, section_tag.as_slice()) {
            let value = trim(vstd::slice::slice_subrange(line, 8, line.len()));
            proof {
                assert(line@.subrange(8, line@.len() as int) =~= line@.skip(8));
            }
            found.section = Some(value);
        }
        from = if end < text.len() {
            end + 1
        } else {
            end
        };
    }
    Ok(found)
}

/// Composes the qualified name of a package.
pub fn qualified_name(branch: &[u8], section: &[u8], package: &[u8]) -> (name: Vec<u8>)
    ensures
        name@ == qualified(branch@, section@, package@),
{
    let main: [u8; 4] = [0x6d, 0x61, 0x69, 0x6e];
    proof {
        assert(main@ =~= default_branch());
    }
    let mut name: Vec<u8> = Vec::new();
    if !bytes_eq(branch, main.as_slice()) {
        append_bytes(&mut name, branch);
        name.push(0x2f);
    }
    append_bytes(&mut name, section);
    name.push(0x2f);
    append_bytes(&mut name, package);
    proof {
        assert(name@ =~= qualified(branch@, section@, package@));
    }
    name
}

} // verus!
