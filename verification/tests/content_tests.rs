use file_compare::content::{
    arg_to_filepath, binary_content, bytes_to_save, comparison_mode, decode_reports,
    decoded_textfile, excel_content, filepaths_content, is_textfile, save, textfile_content,
    validate_filepath, Comparison, ComparisonMode,
};
use file_compare::types::{ReadContent, SplitUnifiedDiffContent, SplitUnifiedDiffLine};

fn line(pos: Option<&str>, text: Option<&str>) -> SplitUnifiedDiffLine {
    SplitUnifiedDiffLine { pos: pos.map(str::to_owned), text: text.map(str::to_owned) }
}

fn segment(title: &str, lines: Vec<SplitUnifiedDiffLine>) -> SplitUnifiedDiffContent {
    SplitUnifiedDiffContent { title: title.to_owned(), lines }
}

#[test]
fn textfile_content_with_nul_is_dumped() {
    let bytes = b"ab\0cd";
    let content = textfile_content(bytes);
    assert_eq!(content.charset, "(bytes array)");
    assert_eq!(content.content, "61 62 00 63 64 \n");
}

#[test]
fn textfile_content_with_nul_only_at_the_end_is_dumped() {
    let content = textfile_content(b"abc\0");
    assert_eq!(content.charset, "(bytes array)");
    assert_eq!(content.content, "61 62 63 00 \n");
    let content = textfile_content(&[0]);
    assert_eq!(content.charset, "(bytes array)");
    assert_eq!(content.content, "00 \n");
}

#[test]
fn textfile_content_with_nul_in_a_long_file() {
    let mut bytes = vec![b'x'; 40];
    bytes[20] = 0;
    let content = textfile_content(&bytes);
    assert_eq!(content.charset, "(bytes array)");
    assert_eq!(content.content.lines().count(), 3);
    assert!(content.content.lines().all(|l| l.len() <= 48));
}

#[test]
fn textfile_content_of_utf8_is_verbatim() {
    let text = "héllo, wörld\n日本語\n";
    let content = textfile_content(text.as_bytes());
    assert_eq!(content.charset, "UTF-8");
    assert_eq!(content.content, text);
}

#[test]
fn textfile_content_of_empty_file() {
    let content = textfile_content(&[]);
    assert_eq!(content.charset, "UTF-8");
    assert_eq!(content.content, "");
}

#[test]
fn textfile_content_of_other_charset_is_decoded() {
    let text = "これは日本語のテキストファイルです。文字コードはシフトJISで保存されています。\n";
    let (bytes, _, _) = encoding_rs::SHIFT_JIS.encode(text);
    assert!(std::str::from_utf8(&bytes).is_err());
    let content = textfile_content(&bytes);
    assert_eq!(content.charset, "Shift_JIS");
    assert_eq!(content.content, text);
}

#[test]
fn textfile_content_follows_the_detector() {
    let bytes = b"caf\xe9 cr\xe8me br\xfbl\xe9e, d\xe9j\xe0 vu";
    let mut detector = chardetng::EncodingDetector::new();
    detector.feed(bytes, true);
    let encoding = detector.guess(None, false);
    let (decoded, _, _) = encoding.decode(bytes);
    let content = textfile_content(bytes);
    assert_eq!(content.charset, encoding.name());
    assert_eq!(content.content, decoded);
    assert_ne!(content.charset, "UTF-8");
    assert_ne!(content.content.as_bytes(), bytes);
}

#[test]
fn binary_content_is_a_dump() {
    let content = binary_content(&[0xde, 0xad, 0xbe, 0xef]);
    assert_eq!(content.charset, "(binary)");
    assert_eq!(content.content, "DE AD BE EF \n");
}

#[test]
fn excel_content_flattens_segments() {
    let segments = vec![
        segment(
            "--- Sheet1 (old)",
            vec![
                line(Some("@@ A1 @@"), Some("- 1")),
                line(None, Some("- 2")),
                line(Some("@@ B7 @@"), None),
                line(None, None),
            ],
        ),
        segment("--- Sheet2 (old)", vec![]),
        segment("--- Sheet3 (old)", vec![line(Some("@@ C3 @@"), Some("- x"))]),
    ];
    let content = excel_content(&segments);
    assert_eq!(content.charset, "(Excel)");
    assert_eq!(
        content.content,
        "--- Sheet1 (old)\n@@ A1 @@\n- 1\n- 2\n@@ B7 @@\n--- Sheet2 (old)\n--- Sheet3 (old)\n@@ C3 @@\n- x"
    );
}

#[test]
fn excel_content_of_no_segments() {
    let content = excel_content(&vec![]);
    assert_eq!(content.charset, "(Excel)");
    assert_eq!(content.content, "");
}

#[test]
fn comparison_mode_takes_the_first_that_fits() {
    assert_eq!(comparison_mode("a.txt", "b.txt", true, true), ComparisonMode::TextText);
    assert_eq!(comparison_mode("a.xlsx", "b.xlsx", true, true), ComparisonMode::TextText);
    assert_eq!(comparison_mode("a.txt", "", true, false), ComparisonMode::TextEmpty);
    assert_eq!(comparison_mode("", "b.txt", false, true), ComparisonMode::EmptyText);
    assert_eq!(
        comparison_mode("a.xlsx", "b.xlsx", false, false),
        ComparisonMode::SpreadsheetSpreadsheet
    );
    assert_eq!(
        comparison_mode("dir/ä.xlsx", ".xlsx", false, false),
        ComparisonMode::SpreadsheetSpreadsheet
    );
}

#[test]
fn comparison_mode_falls_back_to_bytes() {
    assert_eq!(comparison_mode("a.txt", "b.xlsx", true, false), ComparisonMode::BinaryBinary);
    assert_eq!(comparison_mode("a.xlsx", "b.bin", false, false), ComparisonMode::BinaryBinary);
    assert_eq!(comparison_mode("a.xlsx", "b.XLSX", false, false), ComparisonMode::BinaryBinary);
    assert_eq!(comparison_mode("a.xlsx", "xlsx", false, false), ComparisonMode::BinaryBinary);
    assert_eq!(comparison_mode("", "", false, false), ComparisonMode::BinaryBinary);
    assert_eq!(comparison_mode("a.bin", "", false, false), ComparisonMode::BinaryBinary);
}

#[test]
fn filepaths_content_of_two_texts() {
    let input = Comparison::TextText { old: b"one\n".to_vec(), new: b"t\0o".to_vec() };
    let sides = filepaths_content(&input).unwrap();
    assert_eq!(sides.len(), 2);
    assert_eq!(sides[0], ReadContent { charset: "UTF-8".into(), content: "one\n".into() });
    assert_eq!(
        sides[1],
        ReadContent { charset: "(bytes array)".into(), content: "74 00 6F \n".into() }
    );
}

#[test]
fn filepaths_content_of_text_against_nothing() {
    let input = Comparison::TextEmpty { old: b"old text".to_vec() };
    let sides = filepaths_content(&input).unwrap();
    assert_eq!(sides.len(), 2);
    assert_eq!(sides[0], textfile_content(b"old text"));
    assert_eq!(sides[0].content, "old text");
    assert_eq!(sides[1], ReadContent::default());
    assert_eq!(sides[1].charset, "");
    assert_eq!(sides[1].content, "");
}

#[test]
fn filepaths_content_of_nothing_against_text() {
    let input = Comparison::EmptyText { new: b"new text".to_vec() };
    let sides = filepaths_content(&input).unwrap();
    assert_eq!(sides.len(), 2);
    assert_eq!(sides[0], ReadContent::default());
    assert_eq!(sides[1], textfile_content(b"new text"));
    assert_eq!(sides[1].content, "new text");
}

#[test]
fn filepaths_content_of_two_spreadsheets() {
    assert_eq!(
        comparison_mode("a.xlsx", "b.xlsx", false, false),
        ComparisonMode::SpreadsheetSpreadsheet
    );
    let input = Comparison::SpreadsheetSpreadsheet {
        old: vec![segment("old", vec![line(Some("1"), Some("a"))])],
        new: vec![segment("new", vec![line(Some("1"), Some("b"))])],
    };
    let sides = filepaths_content(&input).unwrap();
    assert_eq!(sides.len(), 2);
    assert_eq!(sides[0].charset, "(Excel)");
    assert_eq!(sides[1].charset, "(Excel)");
    assert_eq!(sides[0].content, "old\n1\na");
    assert_eq!(sides[1].content, "new\n1\nb");
}

#[test]
fn filepaths_content_of_two_binaries() {
    let input = Comparison::BinaryBinary { old: vec![1, 2, 3], new: vec![] };
    let sides = filepaths_content(&input).unwrap();
    assert_eq!(sides.len(), 2);
    assert_eq!(sides[0], ReadContent { charset: "(binary)".into(), content: "01 02 03 \n".into() });
    assert_eq!(sides[1], ReadContent { charset: "(binary)".into(), content: "".into() });
}

#[test]
fn validate_filepath_of_missing_path_is_nothing() {
    assert_eq!(validate_filepath("missing.txt", false, false), None);
    assert_eq!(validate_filepath("missing.xlsx", false, false), None);
    assert_eq!(validate_filepath("missing.txt", false, true), None);
}

#[test]
fn validate_filepath_of_existing_path() {
    assert_eq!(validate_filepath("data.bin", true, false), Some(false));
    assert_eq!(validate_filepath("data.bin", true, true), Some(true));
    assert_eq!(validate_filepath("book.xlsx", true, false), Some(true));
    assert_eq!(validate_filepath("book.xlsx.bak", true, false), Some(false));
    assert_eq!(validate_filepath("xlsx", true, false), Some(false));
}

#[test]
fn arg_to_filepath_keeps_existing_files_only() {
    assert_eq!(arg_to_filepath(&Some("a.txt".to_owned()), true), Some("a.txt".to_owned()));
    assert_eq!(arg_to_filepath(&Some("a.txt".to_owned()), false), None);
    assert_eq!(arg_to_filepath(&None, false), None);
}

#[test]
fn save_encodes_in_the_named_charset() {
    assert_eq!(save("héllo", "windows-1252"), vec![0x68, 0xE9, 0x6C, 0x6C, 0x6F]);
    assert_eq!(save("あ", "Shift_JIS"), vec![0x82, 0xA0]);
    assert_eq!(save("héllo", "UTF-8"), "héllo".as_bytes().to_vec());
    assert_eq!(save("héllo", "utf8"), "héllo".as_bytes().to_vec());
}

#[test]
fn save_falls_back_to_utf8() {
    assert_eq!(save("héllo", "(bytes array)"), "héllo".as_bytes().to_vec());
    assert_eq!(save("héllo", ""), "héllo".as_bytes().to_vec());
    assert_eq!(save("", "no such charset"), Vec::<u8>::new());
}

#[test]
fn bytes_to_save_prefers_the_encoded_bytes() {
    assert_eq!(bytes_to_save("abc", Some(vec![1, 2])), vec![1, 2]);
    assert_eq!(bytes_to_save("abc", None), b"abc".to_vec());
}

#[test]
fn save_then_read_gives_the_text_back() {
    let text = "これは日本語のテキストファイルです。文字コードはシフトJISで保存されています。\n";
    let bytes = save(text, "Shift_JIS");
    let content = textfile_content(&bytes);
    assert_eq!(content.content, text);
    assert_eq!(save(&content.content, &content.charset), bytes);
}

#[test]
fn is_textfile_goes_by_the_first_line() {
    assert!(is_textfile(&Some(b"first line\n".to_vec())));
    assert!(is_textfile(&Some("première ligne".as_bytes().to_vec())));
    assert!(is_textfile(&Some(Vec::new())));
    assert!(is_textfile(&Some(b"PK\x03\x04\x00\x00\n".to_vec())));
    assert!(!is_textfile(&Some(b"caf\xe9\n".to_vec())));
    assert!(!is_textfile(&Some(vec![0xff, 0xfe, b'\n'])));
    assert!(!is_textfile(&None));
}

#[test]
fn text_against_nothing_mirrors() {
    let bytes = b"caf\xe9 cr\xe8me br\xfbl\xe9e".to_vec();
    let forward = filepaths_content(&Comparison::TextEmpty { old: bytes.clone() }).unwrap();
    let backward = filepaths_content(&Comparison::EmptyText { new: bytes }).unwrap();
    assert_eq!(forward[0], backward[1]);
    assert_eq!(forward[1], backward[0]);
}

fn sample(seed: u64, len: usize) -> Vec<u8> {
    let mut state = seed.wrapping_mul(6364136223846793005).wrapping_add(1442695040888963407);
    let mut bytes = Vec::new();
    while bytes.len() < len {
        state = state.wrapping_mul(6364136223846793005).wrapping_add(1442695040888963407);
        let byte = (state >> 33) as u8;
        if byte != 0 {
            bytes.push(byte);
        }
    }
    bytes
}

#[test]
fn decoded_textfile_reports_nothing_of_clean_text() {
    assert_eq!(decoded_textfile(b"plain").1, None);
    assert_eq!(decoded_textfile("ünïcödé".as_bytes()).1, None);
    assert_eq!(decoded_textfile(b"a\0b").1, None);
    assert_eq!(decoded_textfile(b"plain").0, textfile_content(b"plain"));
}

#[test]
fn decoded_textfile_follows_the_decoder() {
    let mut inputs: Vec<Vec<u8>> = (0..200u64).map(|s| sample(s, 4 + (s as usize % 60))).collect();
    inputs.push(vec![0xEF, 0xBB, 0xBF, b'a', 0xFF, b'b']);
    inputs.push(vec![0xFF, 0xFE, b'a']);
    let mut clean = 0;
    let mut replaced = 0;
    for bytes in inputs {
        if std::str::from_utf8(&bytes).is_ok() {
            continue;
        }
        let mut detector = chardetng::EncodingDetector::new();
        detector.feed(&bytes, true);
        let encoding = detector.guess(None, false);
        let (decoded, _, had_errors) = encoding.decode(&bytes);
        let (content, report) = decoded_textfile(&bytes);
        assert_eq!(content.charset, encoding.name());
        assert_eq!(content.content, decoded);
        if had_errors {
            replaced += 1;
            assert_eq!(report, Some("not binary, not utf-8 text and not any other encoded text."));
        } else {
            clean += 1;
            assert_eq!(report, None);
        }
    }
    assert!(clean > 0);
    assert!(replaced > 0);
}

#[test]
fn decoded_textfile_reports_replaced_sequences() {
    let (content, report) = decoded_textfile(&[0xEF, 0xBB, 0xBF, b'a', 0xFF, b'b']);
    assert_eq!(content.content, "a\u{FFFD}b");
    assert_eq!(report, Some("not binary, not utf-8 text and not any other encoded text."));
}

#[test]
fn decode_reports_count_the_ambiguous_sides() {
    let ambiguous = vec![0xEF, 0xBB, 0xBF, b'a', 0xFF, b'b'];
    let clean = b"caf\xe9 cr\xe8me".to_vec();
    assert!(decoded_textfile(&ambiguous).1.is_some());
    assert!(decoded_textfile(&clean).1.is_none());
    let both = Comparison::TextText { old: ambiguous.clone(), new: ambiguous.clone() };
    assert_eq!(decode_reports(&both).len(), 2);
    let one = Comparison::TextText { old: clean.clone(), new: ambiguous.clone() };
    assert_eq!(decode_reports(&one).len(), 1);
    assert_eq!(decode_reports(&Comparison::TextEmpty { old: ambiguous.clone() }).len(), 1);
    assert_eq!(decode_reports(&Comparison::EmptyText { new: clean }).len(), 0);
    let binary = Comparison::BinaryBinary { old: ambiguous.clone(), new: ambiguous };
    assert_eq!(decode_reports(&binary).len(), 0);
    let sheets = Comparison::SpreadsheetSpreadsheet { old: vec![], new: vec![] };
    assert_eq!(decode_reports(&sheets).len(), 0);
}
