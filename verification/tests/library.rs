use collate::ast::Error;
use collate::library::Library;

// Adds one `^` in front of every run of flag characters, so the text
// survives one pass through the lexer unchanged.
fn escape(s: &str) -> String {
    let mut out = String::new();
    let mut prev_flag = false;
    for c in s.chars() {
        if c == '^' && !prev_flag {
            out.push('^');
        }
        prev_flag = c == '^';
        out.push(c);
    }
    out
}

#[test]
fn import_and_render_by_name() {
    let mut lib = Library::new();
    lib.import_from_string("^|n b|\nhello\n^|e|").unwrap();
    assert_eq!(lib.render("b").unwrap(), "hello");
}

#[test]
fn render_unknown_name_fails() {
    let lib = Library::new();
    let err = lib.render("missing").unwrap_err();
    assert_eq!(err, Error::UnresolvedBlock(String::from("missing")));
}

#[test]
fn cross_source_references_resolve() {
    let mut lib = Library::new();
    lib.import_from_string("^|n a|\n^|u b|!\n^|e|").unwrap();
    lib.import_from_string("^|n b|\nhi\n^|e|").unwrap();
    assert_eq!(lib.render("a").unwrap(), "hi!");
}

#[test]
fn name_collision_fails_regardless_of_import_order() {
    let first = "^|n X|\na\n^|e|";
    let second = "^|n X|\nb\n^|e|";

    let mut lib = Library::new();
    lib.import_from_string(first).unwrap();
    let err = lib.import_from_string(second).unwrap_err();
    assert_eq!(err, Error::NameTaken(String::from("X")));

    let mut lib = Library::new();
    lib.import_from_string(second).unwrap();
    let err = lib.import_from_string(first).unwrap_err();
    assert_eq!(err, Error::NameTaken(String::from("X")));
}

#[test]
fn collision_within_one_source_fails() {
    let mut lib = Library::new();
    let err = lib
        .import_from_string("^|n X|\na\n^|e|\n^|n X|\nb\n^|e|")
        .unwrap_err();
    assert_eq!(err, Error::NameTaken(String::from("X")));
}

#[test]
fn file_export_is_collected_with_path_and_bytes() {
    let mut lib = Library::new();
    lib.import_from_string("^|n f|\n^|x out.txt|\ndata\n^|e|").unwrap();
    lib.expand_exports().unwrap();
    let outputs = lib.collect_file_exports().unwrap();
    assert_eq!(outputs.len(), 1);
    assert_eq!(outputs[0].name, "f");
    assert_eq!(outputs[0].path, "out.txt");
    assert_eq!(outputs[0].contents, "data");
}

#[test]
fn file_exports_keep_registration_order() {
    let mut lib = Library::new();
    lib.import_from_string("^|n f1|\n^|x one.txt|\n1\n^|e|").unwrap();
    lib.import_from_string("^|n f2|\n^|x two.txt|\n2\n^|e|").unwrap();
    let outputs = lib.collect_file_exports().unwrap();
    assert_eq!(outputs.len(), 2);
    assert_eq!(outputs[0].path, "one.txt");
    assert_eq!(outputs[1].path, "two.txt");
}

#[test]
fn block_export_expands_in_one_pass() {
    let made_src = "^|n made|\ncontent\n^|e|";
    let gen_src = format!("^|n gen|\n^|x|\n{}\n^|e|", escape(made_src));
    let mut lib = Library::new();
    lib.import_from_string(&gen_src).unwrap();
    lib.expand_exports().unwrap();
    assert_eq!(lib.render("made").unwrap(), "content");
}

#[test]
fn block_export_expansion_reaches_second_round() {
    let final_src = "^|n last|\nok\n^|e|";
    let gen2_src = format!("^|n gen2|\n^|x|\n{}\n^|e|", escape(final_src));
    let gen1_src = format!("^|n gen1|\n^|x|\n{}\n^|e|", escape(&gen2_src));
    let mut lib = Library::new();
    lib.import_from_string(&gen1_src).unwrap();
    lib.expand_exports().unwrap();
    assert_eq!(lib.render("gen2").unwrap(), final_src);
    assert_eq!(lib.render("last").unwrap(), "ok");
}

#[test]
fn expansion_round_bound_fails_distinctly() {
    let mut src = String::from("^|n g66|\nEND\n^|e|");
    let mut k: i32 = 65;
    while k >= 1 {
        src = format!("^|n g{}|\n^|x|\n{}\n^|e|", k, escape(&src));
        k -= 1;
    }
    let mut lib = Library::new();
    lib.import_from_string(&src).unwrap();
    let err = lib.expand_exports().unwrap_err();
    assert_eq!(err, Error::ExpansionLimit);
}

#[test]
fn failed_expansion_render_propagates() {
    let mut lib = Library::new();
    lib.import_from_string("^|n gen|\n^|x|\n^|u nowhere|\n^|e|").unwrap();
    let err = lib.expand_exports().unwrap_err();
    assert_eq!(
        err,
        Error::InBlock {
            name: String::from("gen"),
            cause: Box::new(Error::UnresolvedBlock(String::from("nowhere"))),
        }
    );
}

#[test]
fn render_failure_carries_block_context() {
    let mut lib = Library::new();
    lib.import_from_string("^|n a|\n^|u nope|\n^|e|").unwrap();
    let err = lib.render("a").unwrap_err();
    assert_eq!(
        err,
        Error::InBlock {
            name: String::from("a"),
            cause: Box::new(Error::UnresolvedBlock(String::from("nope"))),
        }
    );
}
