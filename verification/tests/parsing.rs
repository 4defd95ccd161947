use collate::ast::{Block, Element, Error, GrammarError};

#[test]
fn no_commands_yields_no_blocks() {
    let blocks = Block::parse("hello world\nno commands here").unwrap();
    assert!(blocks.is_empty());
}

#[test]
fn single_block_parses_and_renders() {
    let blocks = Block::parse("^|n b|\nhello\n^|e|").unwrap();
    assert_eq!(blocks.len(), 1);
    assert_eq!(blocks[0].name, "b");
    assert_eq!(blocks[0].render(&blocks).unwrap(), "hello");
}

#[test]
fn content_block_renders_identically() {
    let text = "line one\nline two\nline three";
    let b = Block {
        name: String::from("t"),
        param_names: Vec::new(),
        export: None,
        elements: vec![Element::Content(String::from(text))],
    };
    assert_eq!(b.render(&Vec::new()).unwrap(), text);
}

#[test]
fn escaped_flag_is_literal() {
    let blocks = Block::parse("^|n b|\na^^|b\n^|e|").unwrap();
    assert_eq!(blocks[0].render(&blocks).unwrap(), "a^|b");
}

#[test]
fn lone_flag_before_plain_character_stays_content() {
    let blocks = Block::parse("^|n b|\na^b\n^|e|").unwrap();
    assert_eq!(blocks[0].render(&blocks).unwrap(), "a^b");
}

#[test]
fn tripled_flag_keeps_two() {
    let blocks = Block::parse("^|n b|\na^^^|b\n^|e|").unwrap();
    assert_eq!(blocks[0].render(&blocks).unwrap(), "a^^|b");
}

#[test]
fn unterminated_command_falls_back_to_content() {
    let blocks = Block::parse("^|n b|\nabc^|e").unwrap();
    assert_eq!(blocks.len(), 1);
    assert_eq!(blocks[0].render(&blocks).unwrap(), "abce");
}

#[test]
fn newline_after_command_is_swallowed() {
    let blocks = Block::parse("^|n b|\nX\n^|e|").unwrap();
    assert_eq!(blocks[0].render(&blocks).unwrap(), "X");
}

#[test]
fn newline_after_use_is_kept() {
    let blocks = Block::parse("^|n b|\n^|u c|\nY\n^|e|\n^|n c|\nZ\n^|e|").unwrap();
    let b = blocks.iter().find(|x| x.name == "b").unwrap();
    assert_eq!(b.render(&blocks).unwrap(), "Z\nY");
}

#[test]
fn stray_content_before_first_block_is_skipped() {
    let blocks = Block::parse("junk before\n^|n b|\nx\n^|e|\ntrailing junk").unwrap();
    assert_eq!(blocks.len(), 1);
    assert_eq!(blocks[0].render(&blocks).unwrap(), "x");
}

#[test]
fn multiple_blocks_in_one_source() {
    let blocks = Block::parse("^|n a|\nA\n^|e|\n^|n b|\nB\n^|e|").unwrap();
    assert_eq!(blocks.len(), 2);
    assert_eq!(blocks[0].name, "a");
    assert_eq!(blocks[1].name, "b");
    assert_eq!(blocks[0].render(&blocks).unwrap(), "A");
    assert_eq!(blocks[1].render(&blocks).unwrap(), "B");
}

#[test]
fn trailing_newline_before_close_is_trimmed() {
    let blocks = Block::parse("^|n b|\nline\n\n^|e|").unwrap();
    assert_eq!(blocks[0].render(&blocks).unwrap(), "line\n");
}

#[test]
fn unicode_content_round_trips() {
    let blocks = Block::parse("^|n b|\nh\u{e9}llo w\u{f6}rld \u{2713}\n^|e|").unwrap();
    assert_eq!(blocks[0].render(&blocks).unwrap(), "h\u{e9}llo w\u{f6}rld \u{2713}");
}

#[test]
fn empty_param_reference_is_unresolved() {
    let blocks = Block::parse("^|n a|\n^|u #|\n^|e|").unwrap();
    let err = blocks[0].render(&blocks).unwrap_err();
    assert_eq!(err, Error::UnresolvedParam(String::new()));
}

#[test]
fn unknown_verb_reports_line_and_column() {
    let err = Block::parse("^|z|x").unwrap_err();
    assert_eq!(
        err,
        Error::Lex { line: 1, col: 5, reason: GrammarError::UnknownVerb(String::from("z")) }
    );
}

#[test]
fn invalid_command_at_end_of_input_fails() {
    let err = Block::parse("^|z|").unwrap_err();
    assert_eq!(
        err,
        Error::Lex { line: 1, col: 4, reason: GrammarError::UnknownVerb(String::from("z")) }
    );
}

#[test]
fn duplicate_parameter_is_rejected() {
    let err = Block::parse("^|n b|\n^|p x x|\nc\n^|e|").unwrap_err();
    assert_eq!(err, Error::DuplicateParam(String::from("x")));
}

#[test]
fn multiple_exports_are_rejected() {
    let err = Block::parse("^|n b|\n^|x|\n^|x f.txt|\nc\n^|e|").unwrap_err();
    assert_eq!(err, Error::MultipleExports);
}

#[test]
fn nested_block_is_rejected() {
    let err = Block::parse("^|n a|\n^|n b|\n^|e|").unwrap_err();
    assert_eq!(err, Error::IllegalNesting(String::from("b")));
}

#[test]
fn params_without_names_are_rejected() {
    let err = Block::parse("^|n a|\n^|p|x\n^|e|").unwrap_err();
    assert_eq!(err, Error::Lex { line: 2, col: 6, reason: GrammarError::ParamsMissing });
}

#[test]
fn export_with_literal_argument_is_rejected() {
    let err = Block::parse("^|n b|\n^|x (p)|q\n^|e|").unwrap_err();
    assert_eq!(err, Error::Lex { line: 2, col: 10, reason: GrammarError::ExportExpectsName });
}
