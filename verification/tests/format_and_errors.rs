use renamer_rs::{
    get_format_type, process_format, Delimiter, DelimiterType, Error, Extractor, Format,
    FormatPattern, FormatType, InputType, ProcessorBuilder, Replacer, Selector, TextInput,
};

#[test]
fn format_records_tokens_in_scan_order() {
    let f = Format::new("%e2% then %d1%").unwrap();
    assert_eq!(f.value(), "%e2% then %d1%");
    let patterns = f.patterns();
    assert_eq!(patterns.len(), 2);
    assert_eq!(patterns[0].pattern(), "%e2%");
    assert_eq!(patterns[0].id(), 1);
    assert_eq!(patterns[1].pattern(), "%d1%");
    assert_eq!(patterns[1].id(), 0);
}

#[test]
fn format_accepts_multi_digit_ids() {
    let f = Format::new("%d12%").unwrap();
    assert_eq!(f.patterns()[0].id(), 11);
}

#[test]
fn format_ignores_malformed_markers() {
    let f = Format::new("%d% %x1% %d1x% %d1%").unwrap();
    assert_eq!(f.patterns().len(), 1);
    assert_eq!(f.patterns()[0].pattern(), "%d1%");
}

#[test]
fn format_without_tokens_is_rejected() {
    assert_eq!(Format::new("no placeholders here").unwrap_err(), Error::NoFormattingPatterns);
    assert_eq!(Format::new("").unwrap_err(), Error::NoFormattingPatterns);
}

#[test]
fn format_zero_id_is_rejected() {
    assert_eq!(
        Format::new("%d0%").unwrap_err(),
        Error::InvalidNumericId("%d0%".to_string())
    );
}

#[test]
fn format_oversized_id_is_rejected() {
    let err = Format::new("%d99999999999999999999999%").unwrap_err();
    assert_eq!(err, Error::InvalidNumericId("%d99999999999999999999999%".to_string()));
}

#[test]
fn format_type_is_classified_by_prefix() {
    assert_eq!(get_format_type("%d1%").unwrap(), FormatType::Delimiter);
    assert_eq!(get_format_type("%s1%").unwrap(), FormatType::Selector);
    assert_eq!(get_format_type("%e1%").unwrap(), FormatType::Extractor);
    assert_eq!(
        get_format_type("%x1%").unwrap_err(),
        Error::UnknownFormatType("%x1%".to_string())
    );
}

#[test]
fn format_pattern_accessors() {
    let p = FormatPattern::new("%s3%", FormatType::Selector, 2);
    assert_eq!(p.pattern(), "%s3%");
    assert_eq!(p.id(), 2);
    assert_eq!(p.format_type(), FormatType::Selector);
}

#[test]
fn invalid_patterns_are_rejected_eagerly() {
    assert_eq!(
        Delimiter::new("[", DelimiterType::Pattern).unwrap_err(),
        Error::InvalidPattern("[".to_string())
    );
    assert_eq!(Selector::new(None, "(").unwrap_err(), Error::InvalidPattern("(".to_string()));
    assert_eq!(
        Extractor::new(None, "(?P<").unwrap_err(),
        Error::InvalidPattern("(?P<".to_string())
    );
    assert_eq!(Replacer::new("[z", "!").unwrap_err(), Error::InvalidPattern("[z".to_string()));
}

#[test]
fn literal_delimiter_accepts_any_value() {
    assert!(Delimiter::new("[", DelimiterType::Literal).is_ok());
}

#[test]
fn out_of_range_id_substitutes_empty_string() {
    let format = Format::new("<%d5%><%s1%><%e1%>").unwrap();
    let segments = vec!["only".to_string()];
    let selected: Vec<Option<String>> = Vec::new();
    let extracted: Vec<Option<String>> = vec![None];
    assert_eq!(process_format(&segments, &selected, &extracted, &format), "<><><>");
}

#[test]
fn duplicate_tokens_are_all_replaced() {
    let format = Format::new("%d1%+%d1%").unwrap();
    let segments = vec!["x".to_string()];
    let selected: Vec<Option<String>> = Vec::new();
    let extracted: Vec<Option<String>> = Vec::new();
    assert_eq!(process_format(&segments, &selected, &extracted, &format), "x+x");
}

#[test]
fn zero_processing_limit_is_rejected() {
    let format = Format::new("%d1%").unwrap();
    let processor = ProcessorBuilder::new(format)
        .input(InputType::Text(TextInput::new("abc")));
    let err = processor.process_subset(0).unwrap_err();
    assert!(matches!(err, Error::InvalidConfiguration(_)));
}

#[test]
fn processing_limit_caps_the_run() {
    let format = Format::new("%d1%").unwrap();
    let processor = ProcessorBuilder::new(format)
        .delimiter(Delimiter::default())
        .input(InputType::Text(TextInput::new("a 1")))
        .input(InputType::Text(TextInput::new("b 2")))
        .input(InputType::Text(TextInput::new("c 3")));
    let renamed = processor.process_subset(2).unwrap();
    assert_eq!(renamed.len(), 2);
    assert_eq!(renamed[0].future(), "a");
    assert_eq!(renamed[1].future(), "b");
    let all = processor.process_subset(9).unwrap();
    assert_eq!(all.len(), 3);
}
