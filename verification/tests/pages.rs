use chapter_text::error::ExtractError;
use chapter_text::context::{ExtractionContext, PageOutput};
use chapter_text::fonts::FontTable;
use chapter_text::operand::{Operand, Operation};
use lopdf::{Dictionary, Object};
use std::collections::BTreeMap;

fn op(operator: &str, operands: Vec<Operand>) -> Operation {
    Operation { operator: operator.to_string(), operands }
}

fn show(text: &str) -> Operation {
    op("Tj", vec![Operand::String(text.as_bytes().to_vec())])
}

fn page_of(text: &str) -> Vec<Operation> {
    vec![op("BT", Vec::new()), show(text), op("ET", Vec::new())]
}

fn font_with_encoding(encoding: &str) -> Dictionary {
    let mut font = Dictionary::new();
    font.set("Type", Object::Name(b"Font".to_vec()));
    font.set("Encoding", Object::Name(encoding.as_bytes().to_vec()));
    font
}

/// Carries out what a page asks of the output folder, on a folder held in memory.
fn carry_out(folder: &mut BTreeMap<String, String>, open: &mut String, output: PageOutput) {
    if let Some(name) = output.created {
        folder.insert(name.clone(), String::new());
        *open = name;
    }
    if let Some(text) = output.text {
        folder.get_mut(open).unwrap().push_str(&text);
    }
}

fn run(pages: &[Vec<Operation>]) -> BTreeMap<String, String> {
    let fonts = FontTable::new();
    let mut context = ExtractionContext::in_folder("book".to_string());
    let mut folder = BTreeMap::new();
    let mut open = context.file_name().to_string();
    folder.insert(open.clone(), String::new());
    for page in pages {
        let output = context.add_page(&fonts, page).unwrap();
        carry_out(&mut folder, &mut open, output);
        assert_eq!(open, context.file_name());
        assert_eq!(context.text(), "");
    }
    folder
}

#[test]
fn context_starts_with_the_preamble_file_and_writes_nothing() {
    let context = ExtractionContext::in_folder("book".to_string());
    assert_eq!(context.folder_name(), "book");
    assert_eq!(context.file_name(), "00.txt");
    assert_eq!(context.text(), "");
    assert!(!context.can_write());
}

#[test]
fn folder_is_named_after_the_document() {
    let context = ExtractionContext::new_with_saving_folder("book.pdf").unwrap();
    assert_eq!(context.folder_name(), "book");
    assert_eq!(context.file_name(), "00.txt");
    assert_eq!(context.text(), "");
    assert!(!context.can_write());
    let context = ExtractionContext::new_with_saving_folder("some/where/my.book.pdf").unwrap();
    assert_eq!(context.folder_name(), "my.book");
    let context = ExtractionContext::new_with_saving_folder("plain").unwrap();
    assert_eq!(context.folder_name(), "plain");
}

#[test]
fn path_without_file_name_gives_no_context() {
    assert!(ExtractionContext::new_with_saving_folder("").is_none());
    assert!(ExtractionContext::new_with_saving_folder("..").is_none());
    assert!(ExtractionContext::new_with_saving_folder("/").is_none());
}

#[test]
fn front_matter_produces_no_output() {
    let fonts = FontTable::new();
    let mut context = ExtractionContext::in_folder("book".to_string());
    let output = context.add_page(&fonts, &page_of("Title page")).unwrap();
    assert_eq!(output, PageOutput { created: None, text: None });
    assert!(!context.can_write());
    assert_eq!(context.file_name(), "00.txt");
    assert_eq!(context.text(), "");
}

#[test]
fn chapter_page_opens_its_file_and_is_written() {
    let fonts = FontTable::new();
    let mut context = ExtractionContext::in_folder("book".to_string());
    let output = context.add_page(&fonts, &page_of("Chapter 07 and beyond")).unwrap();
    assert_eq!(
        output,
        PageOutput {
            created: Some("07.txt".to_string()),
            text: Some("Chapter 07 and beyond\n".to_string()),
        }
    );
    assert!(context.can_write());
    assert_eq!(context.file_name(), "07.txt");
    assert_eq!(context.text(), "");
    assert_eq!(context.folder_name(), "book");
}

#[test]
fn introduction_writes_to_the_open_file() {
    let fonts = FontTable::new();
    let mut context = ExtractionContext::in_folder("book".to_string());
    let output = context.add_page(&fonts, &page_of("Introduction")).unwrap();
    assert_eq!(output, PageOutput { created: None, text: Some("Introduction\n".to_string()) });
    assert!(context.can_write());
    assert_eq!(context.file_name(), "00.txt");
}

#[test]
fn pages_without_marker_follow_the_last_decision() {
    let fonts = FontTable::new();
    let mut context = ExtractionContext::in_folder("book".to_string());
    context.add_page(&fonts, &page_of("Chapter 1: Start")).unwrap();
    let output = context.add_page(&fonts, &page_of("more of chapter one")).unwrap();
    assert_eq!(output, PageOutput { created: None, text: Some("more of chapter one\n".to_string()) });
    assert_eq!(context.file_name(), "01.txt");
    assert!(context.can_write());
}

#[test]
fn part_suppresses_until_the_next_marker() {
    let fonts = FontTable::new();
    let mut context = ExtractionContext::in_folder("book".to_string());
    context.add_page(&fonts, &page_of("Chapter 1: Start")).unwrap();
    let output = context.add_page(&fonts, &page_of("Part II")).unwrap();
    assert_eq!(output, PageOutput { created: None, text: None });
    assert!(!context.can_write());
    assert_eq!(context.file_name(), "01.txt");
    for text in ["an epigraph", "", "Index", "Part III", "more"] {
        let output = context.add_page(&fonts, &page_of(text)).unwrap();
        assert_eq!(output, PageOutput { created: None, text: None });
        assert!(!context.can_write());
        assert_eq!(context.file_name(), "01.txt");
    }
    let output = context.add_page(&fonts, &page_of("Chapter 2: Go on")).unwrap();
    assert_eq!(output.created, Some("02.txt".to_string()));
    assert!(context.can_write());
}

#[test]
fn introduction_and_appendix_end_a_suppressed_run() {
    let fonts = FontTable::new();
    let mut context = ExtractionContext::in_folder("book".to_string());
    context.add_page(&fonts, &page_of("Part I")).unwrap();
    assert!(!context.can_write());
    context.add_page(&fonts, &page_of("Introduction")).unwrap();
    assert!(context.can_write());
    context.add_page(&fonts, &page_of("Index")).unwrap();
    assert!(!context.can_write());
    context.add_page(&fonts, &page_of("Appendix A")).unwrap();
    assert!(context.can_write());
    assert_eq!(context.file_name(), "A.txt");
}

#[test]
fn second_appendix_replaces_the_first() {
    let folder = run(&[
        page_of("Chapter 1: Start"),
        page_of("Appendix A first"),
        page_of("notes to A"),
        page_of("Appendix B second"),
    ]);
    assert_eq!(folder.get("A.txt").unwrap(), "Appendix B second\n");
    assert_eq!(folder.get("01.txt").unwrap(), "Chapter 1: Start\n");
    assert_eq!(folder.get("00.txt").unwrap(), "");
    assert_eq!(folder.len(), 3);
}

#[test]
fn whole_run_fills_one_file_per_chapter() {
    let pages = vec![
        page_of("Cover"),
        page_of("Introduction"),
        page_of("to this book"),
        page_of("Part I"),
        page_of("a motto"),
        page_of("Chapter 1: One"),
        page_of("text of one"),
        page_of("Chapter 02 Two"),
        page_of("Index"),
        page_of("a, b, c"),
    ];
    let folder = run(&pages);
    assert_eq!(folder.get("00.txt").unwrap(), "Introduction\nto this book\n");
    assert_eq!(folder.get("01.txt").unwrap(), "Chapter 1: One\ntext of one\n");
    assert_eq!(folder.get("02.txt").unwrap(), "Chapter 02 Two\n");
    assert_eq!(folder.len(), 3);
    // The same pages give the same folder again.
    assert_eq!(run(&pages), folder);
}

#[test]
fn page_without_text_operators_changes_nothing() {
    let fonts = FontTable::new();
    let operations = vec![
        op("q", Vec::new()),
        op("Tf", vec![Operand::Name(b"F1".to_vec()), Operand::Integer(12)]),
        op("re", vec![Operand::Integer(0), Operand::Integer(0), Operand::Real, Operand::Real]),
        op("Q", Vec::new()),
    ];
    let mut context = ExtractionContext::in_folder("book".to_string());
    let output = context.add_page(&fonts, &operations).unwrap();
    assert_eq!(output, PageOutput { created: None, text: None });
    assert!(!context.can_write());
    assert_eq!(context.file_name(), "00.txt");

    context.add_page(&fonts, &page_of("Chapter 5.")).unwrap();
    let output = context.add_page(&fonts, &operations).unwrap();
    assert_eq!(output, PageOutput { created: None, text: Some(String::new()) });
    assert!(context.can_write());
    assert_eq!(context.file_name(), "05.txt");
    let output = context.add_page(&fonts, &Vec::new()).unwrap();
    assert_eq!(output, PageOutput { created: None, text: Some(String::new()) });
}

#[test]
fn empty_text_object_hands_over_a_line_break() {
    let fonts = FontTable::new();
    let mut context = ExtractionContext::in_folder("book".to_string());
    context.add_page(&fonts, &page_of("Introduction")).unwrap();
    let operations = vec![op("BT", Vec::new()), op("ET", Vec::new()), op("ET", Vec::new())];
    let output = context.add_page(&fonts, &operations).unwrap();
    assert_eq!(output, PageOutput { created: None, text: Some("\n".to_string()) });
    assert!(context.can_write());
    assert_eq!(context.file_name(), "00.txt");
}

#[test]
fn end_of_text_object_adds_one_line_break_only() {
    let mut context = ExtractionContext::in_folder("book".to_string());
    context.end_text_object();
    assert_eq!(context.text(), "\n");
    context.end_text_object();
    assert_eq!(context.text(), "\n");
    context.append_text("line");
    context.end_text_object();
    assert_eq!(context.text(), "\nline\n");
    context.end_text_object();
    assert_eq!(context.text(), "\nline\n");
    context.clear_text();
    assert_eq!(context.text(), "");
}

#[test]
fn several_text_objects_give_one_line_each() {
    let fonts = FontTable::new();
    let mut context = ExtractionContext::in_folder("book".to_string());
    let operations = vec![
        show("Introduction"),
        op("ET", Vec::new()),
        op("ET", Vec::new()),
        op("TJ", vec![Operand::Array(vec![
            Operand::String(b"two".to_vec()),
            Operand::Integer(-250),
            Operand::String(b"words".to_vec()),
        ])]),
        op("ET", Vec::new()),
    ];
    let output = context.add_page(&fonts, &operations).unwrap();
    assert_eq!(output.text, Some("Introduction\ntwo words \n".to_string()));
}

#[test]
fn font_operator_without_operand_is_an_error() {
    let fonts = FontTable::new();
    let mut context = ExtractionContext::in_folder("book".to_string());
    let operations = vec![show("Chapter 1: x"), op("Tf", Vec::new()), show("rest")];
    assert_eq!(context.add_page(&fonts, &operations), Err(ExtractError::OperandType));
    assert_eq!(context.text(), "");
    assert!(!context.can_write());
    assert_eq!(context.file_name(), "00.txt");
}

#[test]
fn font_operator_with_another_operand_is_an_error() {
    let fonts = FontTable::new();
    for wrong in [
        Operand::Integer(12),
        Operand::String(b"F1".to_vec()),
        Operand::Real,
        Operand::Array(vec![Operand::Name(b"F1".to_vec())]),
        Operand::Null,
    ] {
        let mut context = ExtractionContext::in_folder("book".to_string());
        let operations = vec![op("Tf", vec![wrong, Operand::Integer(12)])];
        assert_eq!(context.add_page(&fonts, &operations), Err(ExtractError::OperandType));
    }
}

#[test]
fn chapter_page_without_number_is_an_error() {
    let fonts = FontTable::new();
    let mut context = ExtractionContext::in_folder("book".to_string());
    context.add_page(&fonts, &page_of("Introduction")).unwrap();
    assert_eq!(context.add_page(&fonts, &[show("Chapter ")].into_iter().collect()), Err(ExtractError::ChapterNumber));
    assert_eq!(context.text(), "");
    assert!(context.can_write());
    assert_eq!(context.file_name(), "00.txt");
    // One character and the line break of the text object make the two characters.
    let output = context.add_page(&fonts, &page_of("Chapter 7")).unwrap();
    assert_eq!(output.created, Some("07.txt".to_string()));
}

#[test]
fn text_operator_without_operand_is_an_error() {
    let fonts = FontTable::new();
    for operator in ["Tj", "TJ"] {
        let mut context = ExtractionContext::in_folder("book".to_string());
        context.add_page(&fonts, &page_of("Introduction")).unwrap();
        let operations = vec![show("shown before"), op(operator, Vec::new()), show("rest")];
        assert_eq!(context.add_page(&fonts, &operations), Err(ExtractError::OperandType));
        assert_eq!(context.text(), "");
        assert!(context.can_write());
        assert_eq!(context.file_name(), "00.txt");
    }
}

#[test]
fn text_operator_with_another_operand_is_an_error() {
    let fonts = FontTable::new();
    for operator in ["Tj", "TJ"] {
        for wrong in [
            Operand::Null,
            Operand::Boolean(true),
            Operand::Integer(-200),
            Operand::Real,
            Operand::Name(b"x".to_vec()),
            Operand::Dictionary,
            Operand::Stream,
            Operand::Reference(1, 0),
        ] {
            let mut context = ExtractionContext::in_folder("book".to_string());
            let operations = vec![op(operator, vec![wrong, Operand::String(b"late".to_vec())])];
            assert_eq!(context.add_page(&fonts, &operations), Err(ExtractError::OperandType));
        }
    }
}

#[test]
fn text_operators_take_a_string_or_an_array() {
    let fonts = FontTable::new();
    let mut context = ExtractionContext::in_folder("book".to_string());
    context.add_page(&fonts, &page_of("Introduction")).unwrap();
    let operations = vec![
        op("Tj", vec![Operand::String(b"a".to_vec())]),
        op("TJ", vec![Operand::String(b"b".to_vec())]),
        op("Tj", vec![Operand::Array(vec![Operand::String(b"c".to_vec())])]),
        op("TJ", vec![Operand::Array(Vec::new())]),
        op("Tj", vec![Operand::String(Vec::new())]),
    ];
    let output = context.add_page(&fonts, &operations).unwrap();
    assert_eq!(output.text, Some("abc  ".to_string()));
}

#[test]
fn text_operator_hands_all_its_operands_to_the_collector() {
    let fonts = FontTable::new();
    let mut context = ExtractionContext::in_folder("book".to_string());
    context.add_page(&fonts, &page_of("Introduction")).unwrap();
    let operations = vec![op(
        "Tj",
        vec![
            Operand::String(b"a".to_vec()),
            Operand::Name(b"x".to_vec()),
            Operand::Integer(-200),
            Operand::Real,
            Operand::String(b"b".to_vec()),
        ],
    )];
    let output = context.add_page(&fonts, &operations).unwrap();
    assert_eq!(output.text, Some("a b".to_string()));
}

#[test]
fn apply_operation_checks_the_text_operand() {
    let fonts = FontTable::new();
    let mut context = ExtractionContext::in_folder("book".to_string());
    context.append_text("kept");
    assert_eq!(
        context.apply_operation(&fonts, Some("WinAnsiEncoding"), &op("Tj", Vec::new())),
        Err(ExtractError::OperandType)
    );
    assert_eq!(
        context.apply_operation(&fonts, None, &op("TJ", vec![Operand::Integer(-300)])),
        Err(ExtractError::OperandType)
    );
    assert_eq!(context.text(), "kept");
    assert_eq!(
        context.apply_operation(&fonts, None, &op("TJ", vec![Operand::Array(vec![Operand::Integer(-300)])])),
        Ok(None)
    );
    assert_eq!(context.text(), "kept  ");
}

#[test]
fn font_selects_the_encoding_of_what_follows() {
    let win = font_with_encoding("WinAnsiEncoding");
    let plain = Dictionary::new();
    let mut fonts = FontTable::new();
    fonts.insert(b"F1".to_vec(), &win);
    fonts.insert(b"F2".to_vec(), &plain);
    let euro = || op("Tj", vec![Operand::String(vec![0x41, 0x80])]);
    let set = |name: &[u8]| op("Tf", vec![Operand::Name(name.to_vec()), Operand::Integer(10)]);
    let operations = vec![
        show("Introduction "),
        euro(),
        set(b"F1"),
        euro(),
        set(b"F2"),
        euro(),
        set(b"F1"),
        set(b"F9"),
        euro(),
    ];
    let mut context = ExtractionContext::in_folder("book".to_string());
    let output = context.add_page(&fonts, &operations).unwrap();
    assert_eq!(output.text, Some("Introduction AA\u{20AC}AA\u{20AC}".to_string()));
}

#[test]
fn encoding_does_not_carry_over_to_the_next_page() {
    let win = font_with_encoding("WinAnsiEncoding");
    let mut fonts = FontTable::new();
    fonts.insert(b"F1".to_vec(), &win);
    let mut context = ExtractionContext::in_folder("book".to_string());
    let first = vec![
        show("Introduction"),
        op("Tf", vec![Operand::Name(b"F1".to_vec())]),
        op("Tj", vec![Operand::String(vec![0x80])]),
    ];
    let output = context.add_page(&fonts, &first).unwrap();
    assert_eq!(output.text, Some("Introduction\u{20AC}".to_string()));
    let second = vec![op("Tj", vec![Operand::String(vec![0x41, 0x80])])];
    let output = context.add_page(&fonts, &second).unwrap();
    assert_eq!(output.text, Some("A".to_string()));
}

#[test]
fn apply_operation_returns_the_active_encoding() {
    let win = font_with_encoding("WinAnsiEncoding");
    let mut fonts = FontTable::new();
    fonts.insert(b"F1".to_vec(), &win);
    let mut context = ExtractionContext::in_folder("book".to_string());
    let set = op("Tf", vec![Operand::Name(b"F1".to_vec())]);
    assert_eq!(context.apply_operation(&fonts, None, &set), Ok(Some("WinAnsiEncoding")));
    let missing = op("Tf", vec![Operand::Name(b"F2".to_vec())]);
    assert_eq!(context.apply_operation(&fonts, Some("kept"), &missing), Ok(Some("kept")));
    assert_eq!(context.apply_operation(&fonts, None, &missing), Ok(None));
    assert_eq!(context.apply_operation(&fonts, Some("kept"), &show("x")), Ok(Some("kept")));
    assert_eq!(context.apply_operation(&fonts, Some("kept"), &op("ET", Vec::new())), Ok(Some("kept")));
    assert_eq!(context.apply_operation(&fonts, Some("kept"), &op("cm", Vec::new())), Ok(Some("kept")));
    assert_eq!(context.text(), "x\n");
    assert_eq!(
        context.apply_operation(&fonts, Some("kept"), &op("Tf", Vec::new())),
        Err(ExtractError::OperandType)
    );
    assert_eq!(context.text(), "x\n");
}

#[test]
fn operators_are_matched_exactly() {
    let fonts = FontTable::new();
    let mut context = ExtractionContext::in_folder("book".to_string());
    context.add_page(&fonts, &page_of("Introduction")).unwrap();
    let operations = vec![
        op("tj", vec![Operand::String(b"a".to_vec())]),
        op("Tj ", vec![Operand::String(b"b".to_vec())]),
        op("T", vec![Operand::String(b"c".to_vec())]),
        op("et", Vec::new()),
        op("tf", Vec::new()),
        op("'", vec![Operand::String(b"d".to_vec())]),
    ];
    let output = context.add_page(&fonts, &operations).unwrap();
    assert_eq!(output.text, Some(String::new()));
}

#[test]
fn split_into_chapters_reports_the_file_it_opens() {
    let mut context = ExtractionContext::in_folder("book".to_string());
    context.append_text("Chapter 12 The End");
    assert_eq!(context.split_into_chapters(), Ok(Some("12.txt".to_string())));
    assert!(context.can_write());
    assert_eq!(context.file_name(), "12.txt");
    assert_eq!(context.text(), "Chapter 12 The End");

    context.clear_text();
    context.append_text("Index");
    assert_eq!(context.split_into_chapters(), Ok(None));
    assert!(!context.can_write());
    assert_eq!(context.file_name(), "12.txt");

    context.clear_text();
    context.append_text("Chapter 1");
    assert_eq!(context.split_into_chapters(), Err(ExtractError::ChapterNumber));
    assert!(!context.can_write());
    assert_eq!(context.file_name(), "12.txt");
    assert_eq!(context.text(), "Chapter 1");
}

#[test]
fn process_page_keeps_the_text_in_the_context() {
    let mut context = ExtractionContext::in_folder("book".to_string());
    context.append_text("Appendix A");
    let output = context.process_page().unwrap();
    assert_eq!(
        output,
        PageOutput { created: Some("A.txt".to_string()), text: Some("Appendix A".to_string()) }
    );
    assert_eq!(context.text(), "Appendix A");
    context.clear_text();
    context.append_text("Part 1");
    assert_eq!(context.process_page(), Ok(PageOutput { created: None, text: None }));
}

#[test]
fn create_file_opens_the_file_and_lets_pages_through() {
    let mut context = ExtractionContext::in_folder("book".to_string());
    context.append_text("kept");
    context.create_file("A.txt".to_string());
    assert!(context.can_write());
    assert_eq!(context.file_name(), "A.txt");
    assert_eq!(context.text(), "kept");
    assert_eq!(context.folder_name(), "book");
}

#[test]
fn font_without_a_named_encoding_selects_the_standard_encoding() {
    let bare = Dictionary::new();
    let mut numbered = Dictionary::new();
    numbered.set("Encoding", Object::Integer(3));
    let mut nested = Dictionary::new();
    nested.set("Encoding", Object::Dictionary(Dictionary::new()));
    let mut garbled = Dictionary::new();
    garbled.set("Encoding", Object::Name(vec![0xFF, 0xFE]));
    let mut other_key = Dictionary::new();
    other_key.set("encoding", Object::Name(b"WinAnsiEncoding".to_vec()));
    let mut named = Dictionary::new();
    named.set("Encoding", Object::Name("Na\u{EF}ve".as_bytes().to_vec()));
    let mut fonts = FontTable::new();
    fonts.insert(b"bare".to_vec(), &bare);
    fonts.insert(b"numbered".to_vec(), &numbered);
    fonts.insert(b"nested".to_vec(), &nested);
    fonts.insert(b"garbled".to_vec(), &garbled);
    fonts.insert(b"other".to_vec(), &other_key);
    fonts.insert(b"named".to_vec(), &named);
    let mut context = ExtractionContext::in_folder("book".to_string());
    for name in ["bare", "numbered", "nested", "garbled", "other"] {
        let set = op("Tf", vec![Operand::Name(name.as_bytes().to_vec())]);
        assert_eq!(context.apply_operation(&fonts, Some("kept"), &set), Ok(Some("StandardEncoding")));
    }
    let set = op("Tf", vec![Operand::Name(b"named".to_vec())]);
    assert_eq!(context.apply_operation(&fonts, None, &set), Ok(Some("Na\u{EF}ve")));
    assert_eq!(context.text(), "");
}

#[test]
fn stem_names_the_folder_of_the_run() {
    let context = ExtractionContext::from_stem(Some("book".to_string())).unwrap();
    assert_eq!(context.folder_name(), "book");
    assert_eq!(context.file_name(), "00.txt");
    assert_eq!(context.text(), "");
    assert!(!context.can_write());
    let context = ExtractionContext::from_stem(Some(String::new())).unwrap();
    assert_eq!(context.folder_name(), "");
    assert!(ExtractionContext::from_stem(None).is_none());
}
