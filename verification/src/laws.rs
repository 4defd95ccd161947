//! Proved laws of the engine, stated over the same spec functions the
//! public contracts use: command-free text survives parse and render
//! unchanged, invocation arity is checked exactly, name collisions are
//! rejected whichever source comes second, a literal `use` target is
//! spliced without any library lookup, and a merge never duplicates a
//! block name.

use vstd::prelude::*;
use crate::ast::{ArgumentView, BlockView, ComponentView, ElementView, ErrorView, ParameterView};
use crate::builder::parse_spec;
use crate::lexer::{flush_content, lex_from, lex_spec, sat_inc, LexStateView, COMMAND_FLAG};
use crate::library::{import_spec, merge_seq, register_block, LibraryView};
use crate::render::{
    bind_params, eval_arg, lookup_block, lookup_block_from, render_block, render_elems, sat_usize,
    zip_binds,
};

verus! {

/// A name is present among the blocks.
pub open spec fn has_name(blocks: Seq<BlockView>, name: Seq<char>) -> bool {
    exists|k: int| 0 <= k < blocks.len() && blocks[k].name == name
}

/// No two blocks share a name.
pub open spec fn unique_names(blocks: Seq<BlockView>) -> bool {
    forall|k1: int, k2: int|
        0 <= k1 < k2 < blocks.len() ==> blocks[k1].name != blocks[k2].name
}

/// Lookup succeeds exactly when the name is present at or after `i`.
pub proof fn lemma_lookup_finds_name(blocks: Seq<BlockView>, name: Seq<char>, i: int)
    requires
        0 <= i,
    ensures
        (lookup_block_from(blocks, name, i) is Some) <==> exists|k: int|
            i <= k < blocks.len() && blocks[k].name == name,
    decreases blocks.len() - i,
{
    if 0 <= i && i < blocks.len() {
        lemma_lookup_finds_name(blocks, name, i + 1);
        if blocks[i].name == name {
            assert(i <= i < blocks.len() && blocks[i].name == name);
        }
    }
}

/// Scanning command-free text buffers every character: the machine stays
/// in its content state and ends with the remaining text appended to the
/// buffer.
proof fn lemma_lex_plain(
    s: Seq<char>,
    i: int,
    buf: Seq<char>,
    comps: Seq<ComponentView>,
    line: usize,
    col: usize,
)
    requires
        0 <= i <= s.len(),
        forall|k: int| i <= k < s.len() ==> s[k] != COMMAND_FLAG,
    ensures
        lex_from(s, i, LexStateView::Content, buf, comps, line, col) == Ok::<_, ErrorView>(
            flush_content(buf + s.skip(i), comps),
        ),
    decreases s.len() - i,
{
    if i == s.len() {
        assert(buf + s.skip(i) =~= buf);
    } else {
        let c = s[i];
        let line2 = if c == '\n' {
            sat_inc(line)
        } else {
            line
        };
        let col2 = if c == '\n' {
            1 as usize
        } else {
            sat_inc(col)
        };
        lemma_lex_plain(s, i + 1, buf.push(c), comps, line2, col2);
        assert(buf.push(c) + s.skip(i + 1) =~= buf + s.skip(i));
    }
}

/// Identity on command-free text. A source without the command flag
/// character scans to one single content span holding the text itself,
/// and a block whose body is that one span renders, with no arguments and
/// at top level, to exactly that text, against any library.
pub proof fn lemma_plain_text_round_trip(
    s: Seq<char>,
    name: Seq<char>,
    lib: Seq<BlockView>,
    fuel: nat,
)
    requires
        s.len() > 0,
        forall|k: int| 0 <= k < s.len() ==> s[k] != COMMAND_FLAG,
    ensures
        lex_spec(s) == Ok::<_, ErrorView>(
            seq![ComponentView::Element(ElementView::Content(s))],
        ),
        render_block(
            lib,
            (BlockView {
                name,
                param_names: Seq::empty(),
                export: None,
                elements: seq![ElementView::Content(s)],
            }),
            None,
            0,
            fuel,
        ) == Ok::<_, ErrorView>(s),
{
    lemma_lex_plain(s, 0, Seq::empty(), Seq::empty(), 1, 0);
    assert(Seq::<char>::empty() + s.skip(0) =~= s);
    assert(flush_content(s, Seq::<ComponentView>::empty()) =~= seq![
        ComponentView::Element(ElementView::Content(s)),
    ]);
    let b = BlockView {
        name,
        param_names: Seq::empty(),
        export: None,
        elements: seq![ElementView::Content(s)],
    };
    assert(render_elems(lib, b.elements, 1, Seq::empty(), 0, crate::render::next_nested(s, 0), Seq::empty() + s, fuel)
        == Ok::<_, ErrorView>(Seq::empty() + s));
    assert(Seq::<char>::empty() + s =~= s);
}

/// Arity is checked exactly. Invoking any block with a number of values
/// other than its declared parameter count fails with the arity error
/// naming the expected and received counts. With matching counts the
/// invocation itself introduces no failure: the binding succeeds, pairing
/// each formal name with its value in order, and the result is exactly
/// the body's rendering under those bindings — so the call returns `Ok`
/// whenever every reference its body reaches resolves within the
/// recursion allowance.
pub proof fn lemma_arity_checked(
    lib: Seq<BlockView>,
    b: BlockView,
    vals: Seq<ParameterView>,
    ind: usize,
    fuel: nat,
)
    ensures
        vals.len() != b.param_names.len() ==> render_block(lib, b, Some(vals), ind, fuel) == Err::<
            Seq<char>,
            _,
        >(
            ErrorView::ArityMismatch {
                expected: sat_usize(b.param_names.len()),
                received: sat_usize(vals.len()),
            },
        ),
        vals.len() == b.param_names.len() ==> bind_params(b.param_names, vals) == Ok::<
            _,
            ErrorView,
        >(zip_binds(b.param_names, vals)),
        vals.len() == b.param_names.len() ==> render_block(lib, b, Some(vals), ind, fuel)
            == render_elems(
            lib,
            b.elements,
            0,
            zip_binds(b.param_names, vals),
            ind,
            0,
            Seq::empty(),
            fuel,
        ),
{
}

/// Merging a batch that carries a name the library already holds fails.
pub proof fn lemma_merge_collision(lib: LibraryView, bs: Seq<BlockView>, j: int)
    requires
        0 <= j < bs.len(),
        has_name(lib.blocks, bs[j].name),
    ensures
        merge_seq(lib, bs).1 is Err,
    decreases bs.len(),
{
    lemma_lookup_finds_name(lib.blocks, bs[0].name, 0);
    if lookup_block(lib.blocks, bs[0].name) is Some {
    } else {
        assert(j != 0);
        let lib2 = register_block(lib, bs[0]);
        assert(bs.drop_first()[j - 1] == bs[j]);
        assert(has_name(lib2.blocks, bs[j].name)) by {
            let k = choose|k: int| 0 <= k < lib.blocks.len() && lib.blocks[k].name == bs[j].name;
            assert(lib2.blocks[k].name == bs[j].name);
        }
        lemma_merge_collision(lib2, bs.drop_first(), j - 1);
    }
}

/// A merge that succeeds appends exactly the merged blocks.
pub proof fn lemma_merge_ok_blocks(lib: LibraryView, bs: Seq<BlockView>)
    ensures
        merge_seq(lib, bs).1 is Ok ==> merge_seq(lib, bs).0.blocks == lib.blocks + bs,
    decreases bs.len(),
{
    if bs.len() == 0 {
        assert(lib.blocks + bs =~= lib.blocks);
    } else {
        if lookup_block(lib.blocks, bs[0].name) is Some {
        } else {
            let lib2 = register_block(lib, bs[0]);
            lemma_merge_ok_blocks(lib2, bs.drop_first());
            assert(lib2.blocks + bs.drop_first() =~= lib.blocks + bs);
        }
    }
}

/// Name collisions are caught whichever source comes second. If two
/// sources each define a block named `x`, then after either one of them
/// imports successfully, importing the other fails. Applying the lemma
/// with the sources swapped covers both import orders.
pub proof fn lemma_import_collision_order_independent(
    lib: LibraryView,
    s1: Seq<char>,
    s2: Seq<char>,
    x: Seq<char>,
    i: int,
    j: int,
)
    requires
        parse_spec(s1) is Ok,
        parse_spec(s2) is Ok,
        0 <= i < parse_spec(s1)->Ok_0.len(),
        parse_spec(s1)->Ok_0[i].name == x,
        0 <= j < parse_spec(s2)->Ok_0.len(),
        parse_spec(s2)->Ok_0[j].name == x,
        import_spec(lib, s1).1 is Ok,
    ensures
        import_spec(import_spec(lib, s1).0, s2).1 is Err,
{
    let bs1 = parse_spec(s1)->Ok_0;
    let bs2 = parse_spec(s2)->Ok_0;
    let lib1 = import_spec(lib, s1).0;
    lemma_merge_ok_blocks(lib, bs1);
    assert(lib1.blocks == lib.blocks + bs1);
    assert(lib1.blocks[lib.blocks.len() + i].name == x);
    assert(has_name(lib1.blocks, x));
    lemma_merge_collision(lib1, bs2, j);
}

/// A `use` whose target evaluates to a literal splices that text
/// verbatim at its position: rendering steps past the element having
/// appended exactly the literal, with no library lookup and without
/// consulting the use's argument list — the step is the same against
/// every library, even one holding a block whose name equals the literal
/// text, and for every argument list at the call site.
pub proof fn lemma_literal_use_splices_verbatim(
    lib: Seq<BlockView>,
    elems: Seq<ElementView>,
    i: int,
    binds: Seq<(Seq<char>, ParameterView)>,
    s: Seq<char>,
    ind: usize,
    nested: usize,
    acc: Seq<char>,
    fuel: nat,
)
    requires
        0 <= i < elems.len(),
        elems[i] is UseBlock,
        eval_arg(elems[i]->UseBlock_target, binds) == Ok::<_, ErrorView>(
            ParameterView::Literal(s),
        ),
    ensures
        render_elems(lib, elems, i, binds, ind, nested, acc, fuel) == render_elems(
            lib,
            elems,
            i + 1,
            binds,
            ind,
            nested,
            acc + s,
            fuel,
        ),
{
}

/// A successful merge keeps block names unique: each incoming block is
/// rejected unless its name is absent, so a library built by imports
/// alone never holds two blocks of one name.
pub proof fn lemma_merge_preserves_unique_names(lib: LibraryView, bs: Seq<BlockView>)
    requires
        unique_names(lib.blocks),
        merge_seq(lib, bs).1 is Ok,
    ensures
        unique_names(merge_seq(lib, bs).0.blocks),
    decreases bs.len(),
{
    if bs.len() == 0 {
    } else {
        if lookup_block(lib.blocks, bs[0].name) is Some {
        } else {
            let lib2 = register_block(lib, bs[0]);
            lemma_lookup_finds_name(lib.blocks, bs[0].name, 0);
            assert(unique_names(lib2.blocks)) by {
                assert(forall|k: int|
                    0 <= k < lib.blocks.len() ==> lib.blocks[k] == lib2.blocks[k]);
            }
            lemma_merge_preserves_unique_names(lib2, bs.drop_first());
        }
    }
}

} // verus!
