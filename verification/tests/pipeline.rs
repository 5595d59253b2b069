use renamer_rs::{
    file_name_of, with_file_name, Delimiter, DelimiterType, Format, InputType, ProcessorBuilder,
    Renamed, RenamedFile, RenamedText, TextInput, Trim,
};

#[test]
fn processing_is_repeatable() {
    let format = Format::new("%d2%-%d1%").unwrap();
    let processor = ProcessorBuilder::new(format)
        .delimiter(Delimiter::default())
        .input(InputType::new_text("alpha beta"))
        .input(InputType::new_text("one two"));
    let first: Vec<(String, String)> = processor
        .process()
        .unwrap()
        .iter()
        .map(|r| (r.original().to_string(), r.future().to_string()))
        .collect();
    let second: Vec<(String, String)> = processor
        .process()
        .unwrap()
        .iter()
        .map(|r| (r.original().to_string(), r.future().to_string()))
        .collect();
    assert_eq!(first, second);
    assert_eq!(first[0], ("alpha beta".to_string(), "beta-alpha".to_string()));
}

#[test]
fn equal_inputs_are_deduplicated() {
    let format = Format::new("%d1%").unwrap();
    let processor = ProcessorBuilder::new(format)
        .delimiter(Delimiter::default())
        .input(InputType::new_text("same text"))
        .input(InputType::new_text("same text"))
        .input(InputType::new_text("other text"));
    let renamed = processor.process().unwrap();
    assert_eq!(renamed.len(), 2);
    assert_eq!(renamed[0].original(), "same text");
    assert_eq!(renamed[1].original(), "other text");
}

#[test]
fn plural_builder_methods_extend_in_order() {
    let format = Format::new("%d2%").unwrap();
    let delims = vec![
        Delimiter::new("-", DelimiterType::Literal).unwrap(),
        Delimiter::new("_", DelimiterType::Literal).unwrap(),
    ];
    let processor = ProcessorBuilder::new(format)
        .delimiters(delims)
        .trims(vec![Trim::both("x")])
        .inputs(vec![InputType::new_text("ax-b_c"), InputType::new_text("d-e")]);
    let renamed = processor.process().unwrap();
    assert_eq!(renamed.len(), 2);
    // "ax-b_c" -> ["ax", "b_c"] -> ["ax", "b", "c"]; trim drops the x
    assert_eq!(renamed[0].future(), "b");
    assert_eq!(renamed[1].future(), "e");
}

#[test]
fn successive_delimiters_refine_segments() {
    let format = Format::new("%d1%.%d2%.%d3%.%d4%").unwrap();
    let processor = ProcessorBuilder::new(format)
        .delimiter(Delimiter::new(" ", DelimiterType::Literal).unwrap())
        .delimiter(Delimiter::new("-", DelimiterType::Literal).unwrap())
        .input(InputType::new_text("a-b c-d"));
    let renamed = processor.process().unwrap();
    assert_eq!(renamed[0].future(), "a.b.c.d");
}

#[test]
fn zero_delimiters_leave_one_segment() {
    let format = Format::new("[%d1%][%d2%]").unwrap();
    let processor = ProcessorBuilder::new(format).input(InputType::new_text("whole input"));
    let renamed = processor.process().unwrap();
    assert_eq!(renamed[0].future(), "[whole input][]");
}

#[test]
fn file_inputs_rename_the_filename_component() {
    let format = Format::new("%d2%").unwrap();
    let processor = ProcessorBuilder::new(format)
        .delimiter(Delimiter::new(" ", DelimiterType::Literal).unwrap())
        .input(InputType::new_file("/tmp/media/show one.mkv"));
    let renamed = processor.process().unwrap();
    assert_eq!(renamed.len(), 1);
    assert_eq!(renamed[0].original(), "show one.mkv");
    assert_eq!(renamed[0].future(), "one.mkv");
    match &renamed[0] {
        Renamed::File(f) => {
            assert_eq!(f.original_path(), "/tmp/media/show one.mkv");
            assert_eq!(f.new_path(), "/tmp/media/one.mkv");
            assert_eq!(f.original_name(), "show one.mkv");
            assert_eq!(f.new_name(), "one.mkv");
        },
        Renamed::Text(_) => panic!("expected a file result"),
    }
}

#[test]
fn renamed_file_builds_sibling_path() {
    let r = RenamedFile::new("/a/b/old.txt", "new.txt");
    assert_eq!(r.original_path(), "/a/b/old.txt");
    assert_eq!(r.original_name(), "old.txt");
    assert_eq!(r.new_path(), "/a/b/new.txt");
    assert_eq!(r.new_name(), "new.txt");
}

#[test]
fn renamed_text_reports_both_values() {
    let r = RenamedText::new("before", "after");
    assert_eq!(r.original(), "before");
    assert_eq!(r.future(), "after");
}

#[test]
fn path_helpers_follow_std_file_name_semantics() {
    assert_eq!(file_name_of("/a/b/c.txt"), "c.txt");
    assert_eq!(file_name_of("plain"), "plain");
    assert_eq!(file_name_of("/a/b/"), "b");
    assert_eq!(file_name_of("a//b///"), "b");
    assert_eq!(file_name_of(".."), "");
    assert_eq!(file_name_of("a/.."), "");
    assert_eq!(file_name_of("."), "");
    assert_eq!(file_name_of("/"), "");
    assert_eq!(file_name_of(""), "");
    assert_eq!(with_file_name("/a/b/c.txt", "d.txt"), "/a/b/d.txt");
    assert_eq!(with_file_name("plain", "other"), "other");
    assert_eq!(with_file_name("/a/b/", "c"), "/a/c");
    assert_eq!(with_file_name("..", "x"), "../x");
    assert_eq!(with_file_name("a/..", "x"), "a/../x");
    assert_eq!(with_file_name("/", "x"), "/x");
    assert_eq!(with_file_name("", "x"), "x");
}

#[test]
fn renamed_file_without_filename_appends_the_new_name() {
    let r = RenamedFile::new("..", "x");
    assert_eq!(r.original_path(), "..");
    assert_eq!(r.original_name(), "");
    assert_eq!(r.new_path(), "../x");
    assert_eq!(r.new_name(), "x");
}

#[test]
fn renamed_file_ignores_trailing_separators() {
    let r = RenamedFile::new("/a/b/", "c");
    assert_eq!(r.original_name(), "b");
    assert_eq!(r.new_path(), "/a/c");
}

#[test]
fn text_input_values_round_trip() {
    let t = TextInput::new("hello");
    assert_eq!(t.value(), "hello");
    let i = InputType::new_text("hello");
    assert_eq!(i, InputType::Text(TextInput::new("hello")));
    assert_ne!(i, InputType::new_file("hello"));
}
