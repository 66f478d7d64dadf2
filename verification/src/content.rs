//! The content resolver: which kind of comparison two paths call for, and the
//! two sides of it as displayable text.

use vstd::prelude::*;
use vstd::string::*;
use vstd::utf8::*;
use crate::charset::{
    encode_with_label,
    encoded,
    guess_and_decode,
    guessed_charset,
    guessed_text,
    label_known,
    utf8_text,
    MAX_CONTENT_LEN,
};
use crate::hex::{bytes_to_hex_dump, hex_dump};
use crate::types::{ReadContent, ReadContentView, SplitUnifiedDiffContent, SplitUnifiedDiffLine};

verus! {

/// Label of text that was valid UTF-8.
pub const UTF8_CHARSET: &'static str = "UTF-8";

/// Label of a file that was taken for text and holds a NUL byte.
pub const NOT_TEXTFILE_CHARSET: &'static str = "(bytes array)";

/// Label of a flattened spreadsheet diff.
pub const EXCEL_CHARSET: &'static str = "(Excel)";

/// Label of a file compared byte by byte.
pub const BINARY_CHARSET: &'static str = "(binary)";

/// Whether a NUL byte occurs in `bytes`.
pub open spec fn has_nul(bytes: Seq<u8>) -> bool {
    exists|i: int| 0 <= i < bytes.len() && bytes[i] == 0
}

/// The charset label of a file that was taken for text.
pub open spec fn text_charset(bytes: Seq<u8>) -> Seq<char> {
    if has_nul(bytes) {
        NOT_TEXTFILE_CHARSET@
    } else if valid_utf8(bytes) {
        UTF8_CHARSET@
    } else {
        guessed_charset(bytes)
    }
}

/// The displayed text of a file that was taken for text.
pub open spec fn text_body(bytes: Seq<u8>) -> Seq<char> {
    if has_nul(bytes) {
        hex_dump(bytes)
    } else if valid_utf8(bytes) {
        decode_utf8(bytes)
    } else {
        guessed_text(bytes).0
    }
}

/// What is reported of a file that was taken for text and could not be
/// decoded cleanly.
pub const AMBIGUOUS_TEXT: &'static str =
    "not binary, not utf-8 text and not any other encoded text.";

/// Whether the file's text is a best effort: it holds no NUL byte, is not
/// valid UTF-8, and decoding it in the guessed charset replaced malformed
/// sequences.
pub open spec fn is_ambiguous_text(bytes: Seq<u8>) -> bool {
    !has_nul(bytes) && !valid_utf8(bytes) && guessed_text(bytes).1
}

/// Whether the path ends in ".xlsx".
pub open spec fn is_xlsx(path: Seq<char>) -> bool {
    path.len() >= 5 && path.subrange(path.len() - 5, path.len() as int) == seq![
        '.',
        'x',
        'l',
        's',
        'x',
    ]
}

/// The kinds of comparison.
#[derive(Debug, Clone, Copy, PartialEq, Eq, Structural)]
pub enum ComparisonMode {
    /// Both sides are text.
    TextText,
    /// The old side is text and there is no new side.
    TextEmpty,
    /// There is no old side and the new side is text.
    EmptyText,
    /// Both sides are spreadsheets.
    SpreadsheetSpreadsheet,
    /// Anything else: both sides are compared as bytes.
    BinaryBinary,
}

/// The kind of comparison for two paths, of which it is known whether each
/// can be read as text. The first of these that fits: text with text; text
/// with an empty path, either way round; spreadsheet with spreadsheet; bytes.
pub open spec fn mode_of(
    old: Seq<char>,
    new: Seq<char>,
    old_is_textfile: bool,
    new_is_textfile: bool,
) -> ComparisonMode {
    if old_is_textfile && new_is_textfile {
        ComparisonMode::TextText
    } else if old_is_textfile && new.len() == 0 {
        ComparisonMode::TextEmpty
    } else if old.len() == 0 && new_is_textfile {
        ComparisonMode::EmptyText
    } else if is_xlsx(old) && is_xlsx(new) {
        ComparisonMode::SpreadsheetSpreadsheet
    } else {
        ComparisonMode::BinaryBinary
    }
}

/// What was read for a comparison of each kind: the bytes of a text or
/// binary file, or one side's segments of a spreadsheet diff.
#[derive(Debug, Clone, PartialEq, Eq)]
#[allow(inconsistent_fields)]
pub enum Comparison {
    TextText { old: Vec<u8>, new: Vec<u8> },
    TextEmpty { old: Vec<u8> },
    EmptyText { new: Vec<u8> },
    SpreadsheetSpreadsheet { old: Vec<SplitUnifiedDiffContent>, new: Vec<SplitUnifiedDiffContent> },
    BinaryBinary { old: Vec<u8>, new: Vec<u8> },
}

impl Comparison {
    /// Whether each text side is short enough to be decoded.
    pub open spec fn decodable(&self) -> bool {
        match self {
            Comparison::TextText { old, new } => old@.len() <= MAX_CONTENT_LEN && new@.len()
                <= MAX_CONTENT_LEN,
            Comparison::TextEmpty { old } => old@.len() <= MAX_CONTENT_LEN,
            Comparison::EmptyText { new } => new@.len() <= MAX_CONTENT_LEN,
            _ => true,
        }
    }
}

/// The text sides of a comparison that could not be decoded cleanly, the
/// old side first.
pub open spec fn ambiguous_sides(input: Comparison) -> Seq<Seq<u8>> {
    match input {
        Comparison::TextText { old, new } => ambiguous_side(old@) + ambiguous_side(new@),
        Comparison::TextEmpty { old } => ambiguous_side(old@),
        Comparison::EmptyText { new } => ambiguous_side(new@),
        _ => Seq::empty(),
    }
}

/// The bytes of a text side, if it could not be decoded cleanly.
pub open spec fn ambiguous_side(bytes: Seq<u8>) -> Seq<Seq<u8>> {
    if is_ambiguous_text(bytes) {
        seq![bytes]
    } else {
        Seq::empty()
    }
}

/// Whether `content` shows a file that was taken for text.
pub open spec fn shows_text(content: ReadContent, bytes: Seq<u8>) -> bool {
    content@ == (ReadContentView { charset: text_charset(bytes), content: text_body(bytes) })
}

/// Whether `content` shows a file as bytes.
pub open spec fn shows_binary(content: ReadContent, bytes: Seq<u8>) -> bool {
    content@ == (ReadContentView { charset: BINARY_CHARSET@, content: hex_dump(bytes) })
}

/// Whether `content` shows one side of a spreadsheet diff.
pub open spec fn shows_excel(content: ReadContent, segments: Seq<SplitUnifiedDiffContent>) -> bool {
    content@ == (ReadContentView { charset: EXCEL_CHARSET@, content: excel_text(segments) })
}

/// Whether `sides` are the two sides of the comparison as content, the old
/// side first: text as it is decoded, an absent side empty, a spreadsheet
/// diff flattened, anything else dumped as bytes.
pub open spec fn resolves(sides: Seq<ReadContent>, input: Comparison) -> bool {
    &&& sides.len() == 2
    &&& match input {
        Comparison::TextText { old, new } => shows_text(sides[0], old@) && shows_text(
            sides[1],
            new@,
        ),
        Comparison::TextEmpty { old } => shows_text(sides[0], old@) && sides[1].is_empty(),
        Comparison::EmptyText { new } => sides[0].is_empty() && shows_text(sides[1], new@),
        Comparison::SpreadsheetSpreadsheet { old, new } => shows_excel(sides[0], old@)
            && shows_excel(sides[1], new@),
        Comparison::BinaryBinary { old, new } => shows_binary(sides[0], old@) && shows_binary(
            sides[1],
            new@,
        ),
    }
}

/// Comparing a text against nothing and nothing against the same text gives
/// the same two contents, the other way round.
pub proof fn lemma_text_against_nothing_mirrors(
    text: Vec<u8>,
    forward: Seq<ReadContent>,
    backward: Seq<ReadContent>,
)
    requires
        resolves(forward, (Comparison::TextEmpty { old: text })),
        resolves(backward, (Comparison::EmptyText { new: text })),
    ensures
        forward[0]@ == backward[1]@,
        forward[1]@ == backward[0]@,
        forward[1].is_empty(),
{
}

/// The texts of one line: its position marker, then its text, as far as it
/// has them.
pub open spec fn line_parts(line: SplitUnifiedDiffLine) -> Seq<Seq<char>> {
    optional_part(line.pos) + optional_part(line.text)
}

/// A text that may be missing, as a sequence of one text or none.
pub open spec fn optional_part(part: Option<String>) -> Seq<Seq<char>> {
    match part {
        Some(p) => seq![p@],
        None => Seq::empty(),
    }
}

/// The texts of a run of lines.
pub open spec fn lines_parts(lines: Seq<SplitUnifiedDiffLine>) -> Seq<Seq<char>>
    decreases lines.len(),
{
    if lines.len() == 0 {
        Seq::empty()
    } else {
        lines_parts(lines.drop_last()) + line_parts(lines.last())
    }
}

/// The parts with a newline between each two of them.
pub open spec fn joined(parts: Seq<Seq<char>>) -> Seq<char>
    decreases parts.len(),
{
    if parts.len() == 0 {
        Seq::empty()
    } else if parts.len() == 1 {
        parts[0]
    } else {
        joined(parts.drop_last()).push('\n') + parts.last()
    }
}

/// One segment as text: its title and the texts of its lines, joined by
/// newlines.
pub open spec fn segment_text(segment: SplitUnifiedDiffContent) -> Seq<char> {
    joined(seq![segment.title@] + lines_parts(segment.lines@))
}

/// The texts of the segments, in their order.
pub open spec fn segment_texts(segments: Seq<SplitUnifiedDiffContent>) -> Seq<Seq<char>> {
    segments.map_values(|segment: SplitUnifiedDiffContent| segment_text(segment))
}

/// One side of a spreadsheet diff as text: its segments, with a newline
/// between each two of them.
pub open spec fn excel_text(segments: Seq<SplitUnifiedDiffContent>) -> Seq<char> {
    joined(segment_texts(segments))
}

/// Joining one more part adds a newline and the part.
pub proof fn lemma_joined_push(parts: Seq<Seq<char>>, part: Seq<char>)
    requires
        parts.len() > 0,
    ensures
        joined(parts.push(part)) == joined(parts).push('\n') + part,
{
    assert(parts.push(part).drop_last() =~= parts);
}

fn contains_nul(bytes: &[u8]) -> (r: bool)
    ensures
        r == has_nul(bytes@),
{
    let mut i: usize = 0;
    while i < bytes.len()
        invariant
            i <= bytes@.len(),
            forall|k: int| 0 <= k < i ==> bytes@[k] != 0,
        decreases bytes@.len() - i,
    {
        if bytes[i] == 0 {
            return true;
        }
        i += 1;
    }
    false
}

/// Whether a file counts as text at first sight: it could be opened and its
/// first line, up to the first newline or the end of the file, could be read
/// as text. `first_line` holds the bytes of that line, the newline included,
/// or nothing where opening or reading failed.
pub open spec fn reads_as_text(first_line: Option<Vec<u8>>) -> bool {
    first_line matches Some(line) && valid_utf8(line@)
}

/// Decides whether a file counts as text at first sight.
pub fn is_textfile(first_line: &Option<Vec<u8>>) -> (r: bool)
    ensures
        r == reads_as_text(*first_line),
{
    match first_line {
        Some(line) => utf8_text(line.as_slice()).is_some(),
        None => false,
    }
}

fn has_xlsx_extension(path: &str) -> (r: bool)
    ensures
        r == is_xlsx(path@),
{
    let len = path.unicode_len();
    if len < 5 {
        return false;
    }
    let r = path.get_char(len - 5) == '.' && path.get_char(len - 4) == 'x' && path.get_char(
        len - 3,
    ) == 'l' && path.get_char(len - 2) == 's' && path.get_char(len - 1) == 'x';
    proof {
        let tail = path@.subrange(len - 5, len as int);
        let suffix = seq!['.', 'x', 'l', 's', 'x'];
        if r {
            assert(tail =~= suffix);
        } else {
            assert(tail[0] == path@[len - 5]);
            assert(tail[1] == path@[len - 4]);
            assert(tail[2] == path@[len - 3]);
            assert(tail[3] == path@[len - 2]);
            assert(tail[4] == path@[len - 1]);
            assert(tail != suffix);
        }
    }
    r
}

/// Whether a path can take part in a comparison: nothing for a path that does
/// not exist, else whether it can be read as text or names a spreadsheet.
pub fn validate_filepath(filepath: &str, exists: bool, is_textfile: bool) -> (r: Option<bool>)
    ensures
        !exists ==> r.is_none(),
        exists ==> r == Some(is_textfile || is_xlsx(filepath@)),
{
    if !exists {
        return None;
    }
    Some(is_textfile || has_xlsx_extension(filepath))
}

/// The path to preload from a program argument: the argument, where there is
/// one and it names an existing regular file.
pub fn arg_to_filepath(arg: &Option<String>, is_file: bool) -> (r: Option<String>)
    ensures
        r == (if is_file {
            *arg
        } else {
            None
        }),
{
    match arg {
        Some(path) => if is_file {
            Some(path.clone())
        } else {
            None
        },
        None => None,
    }
}

/// Decides the kind of comparison for two paths.
pub fn comparison_mode(old: &str, new: &str, old_is_textfile: bool, new_is_textfile: bool) -> (r:
    ComparisonMode)
    ensures
        r == mode_of(old@, new@, old_is_textfile, new_is_textfile),
{
    if old_is_textfile && new_is_textfile {
        ComparisonMode::TextText
    } else if old_is_textfile && new.is_empty() {
        ComparisonMode::TextEmpty
    } else if old.is_empty() && new_is_textfile {
        ComparisonMode::EmptyText
    } else if has_xlsx_extension(old) && has_xlsx_extension(new) {
        ComparisonMode::SpreadsheetSpreadsheet
    } else {
        ComparisonMode::BinaryBinary
    }
}

/// The content of a file that was taken for text, and what there is to
/// report of it. With a NUL byte in it, the file is shown as a hex dump after
/// all. Valid UTF-8 is shown as it is. Anything else is decoded in the charset
/// that the detector guesses; where that replaced malformed sequences, the
/// text is still shown, and the report says so.
pub fn decoded_textfile(bytes: &[u8]) -> (r: (ReadContent, Option<&'static str>))
    requires
        bytes@.len() <= MAX_CONTENT_LEN,
    ensures
        shows_text(r.0, bytes@),
        r.1.is_some() == is_ambiguous_text(bytes@),
        r.1 matches Some(report) ==> report@ == AMBIGUOUS_TEXT@,
{
    if contains_nul(bytes) {
        let content = ReadContent::new(
            String::from_str(NOT_TEXTFILE_CHARSET),
            bytes_to_hex_dump(bytes),
        );
        return (content, None);
    }
    match utf8_text(bytes) {
        Some(text) => {
            proof {
                encode_utf8_decode_utf8(text@);
            }
            (ReadContent::new(String::from_str(UTF8_CHARSET), text), None)
        },
        None => {
            let (charset, text, had_errors) = guess_and_decode(bytes);
            let report = if had_errors {
                Some(AMBIGUOUS_TEXT)
            } else {
                None
            };
            (ReadContent::new(charset, text), report)
        },
    }
}

/// The content of a file that was taken for text: a hex dump where it holds
/// a NUL byte, the text itself where it is valid UTF-8, and else the text
/// decoded in the charset that the detector guesses.
pub fn textfile_content(bytes: &[u8]) -> (r: ReadContent)
    requires
        bytes@.len() <= MAX_CONTENT_LEN,
    ensures
        shows_text(r, bytes@),
        has_nul(bytes@) ==> r.charset@ == NOT_TEXTFILE_CHARSET@ && r.content@ == hex_dump(bytes@),
        !has_nul(bytes@) && valid_utf8(bytes@) ==> r.charset@ == UTF8_CHARSET@ && r.content@
            == decode_utf8(bytes@) && encode_utf8(r.content@) == bytes@,
{
    proof {
        if valid_utf8(bytes@) {
            decode_utf8_encode_utf8(bytes@);
        }
    }
    decoded_textfile(bytes).0
}

/// What there is to report of a comparison: for each text side that could
/// not be decoded cleanly one report, the old side first.
pub fn decode_reports(input: &Comparison) -> (r: Vec<&'static str>)
    requires
        input.decodable(),
    ensures
        r@.len() == ambiguous_sides(*input).len(),
        forall|i: int| 0 <= i < r@.len() ==> (#[trigger] r@[i])@ == AMBIGUOUS_TEXT@,
{
    let mut reports: Vec<&'static str> = Vec::new();
    match input {
        Comparison::TextText { old, new } => {
            if let Some(report) = decoded_textfile(old.as_slice()).1 {
                reports.push(report);
            }
            if let Some(report) = decoded_textfile(new.as_slice()).1 {
                reports.push(report);
            }
        },
        Comparison::TextEmpty { old } => {
            if let Some(report) = decoded_textfile(old.as_slice()).1 {
                reports.push(report);
            }
        },
        Comparison::EmptyText { new } => {
            if let Some(report) = decoded_textfile(new.as_slice()).1 {
                reports.push(report);
            }
        },
        _ => {},
    }
    reports
}

/// The content of a file that is compared byte by byte: its hex dump.
pub fn binary_content(bytes: &[u8]) -> (r: ReadContent)
    ensures
        shows_binary(r, bytes@),
{
    ReadContent::new(String::from_str(BINARY_CHARSET), bytes_to_hex_dump(bytes))
}

fn push_segment(content: &mut String, segment: &SplitUnifiedDiffContent)
    ensures
        final(content)@ == old(content)@ + segment_text(*segment),
{
    let ghost before = content@;
    let ghost title = seq![segment.title@];
    content.append(segment.title.as_str());
    let mut j: usize = 0;
    assert(title + lines_parts(segment.lines@.take(0)) =~= title);
    assert(content@ =~= before + joined(title));
    while j < segment.lines.len()
        invariant
            j <= segment.lines@.len(),
            title == seq![segment.title@],
            content@ == before + joined(title + lines_parts(segment.lines@.take(j as int))),
        decreases segment.lines@.len() - j,
    {
        let line = &segment.lines[j];
        let ghost parts = title + lines_parts(segment.lines@.take(j as int));
        let ghost with_pos = parts + optional_part(line.pos);
        match &line.pos {
            Some(pos) => {
                content.push('\n');
                content.append(pos.as_str());
                proof {
                    lemma_joined_push(parts, pos@);
                    assert(with_pos =~= parts.push(pos@));
                    assert(content@ =~= before + joined(with_pos));
                }
            },
            None => {
                assert(with_pos =~= parts);
            },
        }
        match &line.text {
            Some(text) => {
                content.push('\n');
                content.append(text.as_str());
                proof {
                    lemma_joined_push(with_pos, text@);
                    assert(content@ =~= before + joined(with_pos.push(text@)));
                }
            },
            None => {},
        }
        proof {
            let next = segment.lines@.take(j + 1);
            assert(next.drop_last() =~= segment.lines@.take(j as int));
            assert(next.last() == *line);
            let all = with_pos + optional_part(line.text);
            assert(content@ == before + joined(all)) by {
                if line.text is Some {
                    assert(all =~= with_pos.push(line.text.unwrap()@));
                } else {
                    assert(all =~= with_pos);
                }
            }
            assert(title + lines_parts(next) =~= all);
        }
        j += 1;
    }
    assert(segment.lines@.take(segment.lines@.len() as int) =~= segment.lines@);
}

/// One side of a spreadsheet diff as content: for each segment its title and
/// the position markers and texts of its lines, all on lines of their own.
pub fn excel_content(segments: &Vec<SplitUnifiedDiffContent>) -> (r: ReadContent)
    ensures
        shows_excel(r, segments@),
{
    let mut content = String::new();
    let mut i: usize = 0;
    let ghost texts = segment_texts(segments@);
    assert(texts.take(0) =~= Seq::<Seq<char>>::empty());
    while i < segments.len()
        invariant
            i <= segments@.len(),
            texts == segment_texts(segments@),
            content@ == joined(texts.take(i as int)),
        decreases segments@.len() - i,
    {
        if i > 0 {
            content.push('\n');
        }
        push_segment(&mut content, &segments[i]);
        proof {
            let next = texts.take(i + 1);
            assert(next.drop_last() =~= texts.take(i as int));
            assert(next.last() == segment_text(segments@[i as int]));
            if i == 0 {
                assert(content@ =~= next[0]);
            }
        }
        i += 1;
    }
    assert(texts.take(segments@.len() as int) =~= texts);
    ReadContent::new(String::from_str(EXCEL_CHARSET), content)
}

/// The two sides of a comparison as content, the old side first. Text is
/// decoded, an absent side is empty, a spreadsheet diff is flattened, and
/// anything else is dumped as bytes.
pub fn filepaths_content(input: &Comparison) -> (r: Result<Vec<ReadContent>, String>)
    requires
        input.decodable(),
    ensures
        r matches Ok(sides) && resolves(sides@, *input),
{
    let mut sides: Vec<ReadContent> = Vec::new();
    match input {
        Comparison::TextText { old, new } => {
            sides.push(textfile_content(old.as_slice()));
            sides.push(textfile_content(new.as_slice()));
        },
        Comparison::TextEmpty { old } => {
            sides.push(textfile_content(old.as_slice()));
            sides.push(ReadContent::default());
        },
        Comparison::EmptyText { new } => {
            sides.push(ReadContent::default());
            sides.push(textfile_content(new.as_slice()));
        },
        Comparison::SpreadsheetSpreadsheet { old, new } => {
            sides.push(excel_content(old));
            sides.push(excel_content(new));
        },
        Comparison::BinaryBinary { old, new } => {
            sides.push(binary_content(old.as_slice()));
            sides.push(binary_content(new.as_slice()));
        },
    }
    Ok(sides)
}

/// The bytes to write for `content`, given what encoding it under the
/// requested label gave: those bytes, or the content's UTF-8 bytes where no
/// encoding has that label.
pub fn bytes_to_save(content: &str, in_charset: Option<Vec<u8>>) -> (r: Vec<u8>)
    ensures
        in_charset matches Some(bytes) ==> r@ == bytes@,
        in_charset.is_none() ==> r@ == encode_utf8(content@),
{
    match in_charset {
        Some(bytes) => bytes,
        None => content.as_bytes_vec(),
    }
}

/// The bytes that saving `content` in `charset` writes: the content encoded
/// in the encoding known under that label, in UTF-8 where none is.
pub fn save(content: &str, charset: &str) -> (r: Vec<u8>)
    requires
        encode_utf8(content@).len() <= MAX_CONTENT_LEN,
    ensures
        label_known(charset@) ==> r@ == encoded(charset@, content@),
        !label_known(charset@) ==> r@ == encode_utf8(content@),
{
    let in_charset = encode_with_label(content, charset);
    bytes_to_save(content, in_charset)
}

} // verus!
