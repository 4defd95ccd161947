use collate::ast::{Block, Error, Parameter};
use collate::render::RENDER_DEPTH_LIMIT;

#[test]
fn arity_mismatch_names_expected_and_received() {
    let blocks = Block::parse(
        "^|n a|\n^|p x y|\n^|u #x|-^|u #y|\n^|e|\n^|n c|\n^|u a (1)|\n^|e|",
    )
    .unwrap();
    let c = blocks.iter().find(|b| b.name == "c").unwrap();
    let err = c.render(&blocks).unwrap_err();
    assert_eq!(err, Error::ArityMismatch { expected: 2, received: 1 });
}

#[test]
fn matching_arity_substitutes_in_order() {
    let blocks = Block::parse(
        "^|n a|\n^|p x y|\n^|u #x|-^|u #y|\n^|e|\n^|n c|\n^|u a (1)(2)|\n^|e|",
    )
    .unwrap();
    let c = blocks.iter().find(|b| b.name == "c").unwrap();
    assert_eq!(c.render(&blocks).unwrap(), "1-2");
}

#[test]
fn arity_mismatch_via_render_with_params() {
    let blocks = Block::parse("^|n a|\n^|p x|\nV\n^|e|").unwrap();
    let err = blocks[0]
        .render_with_params(&blocks, Some(Vec::new()), 0, RENDER_DEPTH_LIMIT)
        .unwrap_err();
    assert_eq!(err, Error::ArityMismatch { expected: 1, received: 0 });
}

#[test]
fn render_without_params_skips_arity_check() {
    let blocks = Block::parse("^|n a|\n^|p x|\nV\n^|e|").unwrap();
    assert_eq!(blocks[0].render(&blocks).unwrap(), "V");
}

#[test]
fn render_with_literal_param_substitutes() {
    let blocks = Block::parse("^|n greet|\n^|p name|\nHello, ^|u #name|!\n^|e|").unwrap();
    let out = blocks[0]
        .render_with_params(
            &blocks,
            Some(vec![Parameter::Literal(String::from("you"))]),
            0,
            RENDER_DEPTH_LIMIT,
        )
        .unwrap();
    assert_eq!(out, "Hello, you!");
}

#[test]
fn literal_target_bypasses_library_lookup() {
    let blocks = Block::parse(
        "^|n World|\nBLOCK\n^|e|\n^|n g|\n^|p v|\n^|u #v|\n^|e|\n^|n c|\n^|u g (World)|\n^|e|",
    )
    .unwrap();
    let c = blocks.iter().find(|b| b.name == "c").unwrap();
    assert_eq!(c.render(&blocks).unwrap(), "World");
}

#[test]
fn name_target_invokes_the_block() {
    let blocks = Block::parse("^|n World|\nBLOCK\n^|e|\n^|n c|\n^|u World|\n^|e|").unwrap();
    let c = blocks.iter().find(|b| b.name == "c").unwrap();
    assert_eq!(c.render(&blocks).unwrap(), "BLOCK");
}

#[test]
fn name_param_invokes_the_named_block() {
    let blocks = Block::parse(
        "^|n inner|\nI\n^|e|\n^|n g|\n^|p v|\n^|u #v|\n^|e|\n^|n c|\n^|u g inner|\n^|e|",
    )
    .unwrap();
    let c = blocks.iter().find(|b| b.name == "c").unwrap();
    assert_eq!(c.render(&blocks).unwrap(), "I");
}

#[test]
fn indented_use_propagates_two_units() {
    let blocks = Block::parse(
        "^|n B|\nb1\nb2\n^|e|\n^|n ind|\nstart\n\t\t^|ui B|\n^|e|\n^|n plain|\nstart\n\t\t^|u B|\n^|e|",
    )
    .unwrap();
    let ind = blocks.iter().find(|b| b.name == "ind").unwrap();
    let plain = blocks.iter().find(|b| b.name == "plain").unwrap();
    assert_eq!(ind.render(&blocks).unwrap(), "start\n\t\tb1\n\t\tb2");
    assert_eq!(plain.render(&blocks).unwrap(), "start\n\t\tb1\nb2");
}

#[test]
fn forward_reference_resolves_at_render_time() {
    let blocks = Block::parse("^|n a|\n^|u b|\n^|e|\n^|n b|\nz\n^|e|").unwrap();
    let a = blocks.iter().find(|b| b.name == "a").unwrap();
    assert_eq!(a.render(&blocks).unwrap(), "z");
}

#[test]
fn unresolved_block_reference_fails() {
    let blocks = Block::parse("^|n a|\n^|u nope|\n^|e|").unwrap();
    let err = blocks[0].render(&blocks).unwrap_err();
    assert_eq!(err, Error::UnresolvedBlock(String::from("nope")));
}

#[test]
fn unresolved_parameter_reference_fails() {
    let blocks = Block::parse("^|n a|\n^|u #v|\n^|e|").unwrap();
    let err = blocks[0].render(&blocks).unwrap_err();
    assert_eq!(err, Error::UnresolvedParam(String::from("v")));
}

#[test]
fn self_reference_hits_recursion_limit() {
    let blocks = Block::parse("^|n a|\nx^|u a|\n^|e|").unwrap();
    let err = blocks[0].render(&blocks).unwrap_err();
    assert_eq!(err, Error::RecursionLimit);
}

#[test]
fn greet_world_end_to_end() {
    let blocks = Block::parse(
        "^|n greet|\n^|p name|\nHello, ^|u #name|!\n^|e|\n^|n main|\n^|u greet (World)|\n^|e|",
    )
    .unwrap();
    let main = blocks.iter().find(|b| b.name == "main").unwrap();
    assert_eq!(main.render(&blocks).unwrap(), "Hello, World!");
}
