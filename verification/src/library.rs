//! The library: owns all blocks by name, merges newly parsed blocks
//! (rejecting duplicate names at merge time, within and across source
//! units), renders blocks by name, and resolves exports. Block exports are
//! expanded to a fixed point: each round renders every pending block
//! export and re-imports the rendered text as further source, which may
//! register new block exports; the loop ends when a round registers none.
//! The rounds are bounded, and exhausting the bound fails with a distinct
//! error, so a self-regenerating export cannot spin forever. File exports
//! are rendered once each, in registration order, into path/contents pairs
//! for a caller to write out.

use vstd::prelude::*;
use crate::ast::{
    Block, BlockView, Error, ErrorView, Export, ExportView, pairs_view, seq_view,
    unit_result_view,
};
use crate::builder::parse_spec;
use crate::render::{find_block, render_block, RENDER_DEPTH_LIMIT};
use crate::text::clone_strings;
use vstd::string::StringExecFns;

verus! {

broadcast use
    crate::ast::lemma_seq_view_push,
    crate::ast::lemma_seq_view_add,
    crate::ast::lemma_pairs_view_push,
;

/// How many expansion rounds block exports may take before the run fails.
pub const EXPANSION_ROUND_LIMIT: usize = 64;

/// All blocks known to a run, with the pending block exports and the
/// declared file exports.
pub struct Library {
    blocks: Vec<Block>,
    block_exports: Vec<String>,
    file_exports: Vec<(String, String)>,
}

#[verifier::ext_equal]
pub struct LibraryView {
    pub blocks: Seq<BlockView>,
    pub block_exports: Seq<Seq<char>>,
    pub file_exports: Seq<(Seq<char>, Seq<char>)>,
}

impl View for Library {
    type V = LibraryView;

    closed spec fn view(&self) -> LibraryView {
        LibraryView {
            blocks: seq_view(self.blocks@),
            block_exports: seq_view(self.block_exports@),
            file_exports: pairs_view(self.file_exports@),
        }
    }
}

/// The empty library.
pub open spec fn empty_library() -> LibraryView {
    LibraryView { blocks: Seq::empty(), block_exports: Seq::empty(), file_exports: Seq::empty() }
}

/// One block registered: appended to the name map, and recorded as a
/// pending block export or a file export if it declares one.
pub open spec fn register_block(lib: LibraryView, b: BlockView) -> LibraryView {
    LibraryView {
        blocks: lib.blocks.push(b),
        block_exports: match b.export {
            Some(ExportView::ToBlock) => lib.block_exports.push(b.name),
            _ => lib.block_exports,
        },
        file_exports: match b.export {
            Some(ExportView::ToFile(p)) => lib.file_exports.push((b.name, p)),
            _ => lib.file_exports,
        },
    }
}

/// The blocks merged in order: the library state reached, and the
/// name-collision error that stopped the merge, if one did.
pub open spec fn merge_seq(lib: LibraryView, bs: Seq<BlockView>) -> (LibraryView, Result<
    (),
    ErrorView,
>)
    decreases bs.len(),
{
    if bs.len() == 0 {
        (lib, Ok(()))
    } else {
        let b = bs[0];
        if crate::render::lookup_block(lib.blocks, b.name) is Some {
            (lib, Err(ErrorView::NameTaken(b.name)))
        } else {
            merge_seq(register_block(lib, b), bs.drop_first())
        }
    }
}

/// One source unit imported: parsed, then merged block by block. On a
/// parse error the library is unchanged; on a merge error the blocks
/// before the collision stay registered.
pub open spec fn import_spec(lib: LibraryView, s: Seq<char>) -> (LibraryView, Result<
    (),
    ErrorView,
>) {
    match parse_spec(s) {
        Err(e) => (lib, Err(e)),
        Ok(bs) => merge_seq(lib, bs),
    }
}

/// A block rendered by name with no arguments at top level. A failure
/// inside the block is wrapped with the block's name as its context.
pub open spec fn lib_render_spec(lib: LibraryView, name: Seq<char>) -> Result<
    Seq<char>,
    ErrorView,
> {
    match crate::render::lookup_block(lib.blocks, name) {
        None => Err(ErrorView::UnresolvedBlock(name)),
        Some(b) => match render_block(lib.blocks, b, None, 0, RENDER_DEPTH_LIMIT as nat) {
            Ok(s) => Ok(s),
            Err(e) => Err(ErrorView::InBlock { name, cause: Box::new(e) }),
        },
    }
}

/// The names of one expansion snapshot rendered and re-imported in order,
/// from position `i`.
pub open spec fn expand_pass(lib: LibraryView, names: Seq<Seq<char>>, i: int) -> (LibraryView,
    Result<(), ErrorView>,
)
    decreases names.len() - i,
{
    if i < 0 || i >= names.len() {
        (lib, Ok(()))
    } else {
        match lib_render_spec(lib, names[i]) {
            Err(e) => (lib, Err(e)),
            Ok(text) => {
                let (lib2, r) = import_spec(lib, text);
                match r {
                    Err(e) => (lib2, Err(e)),
                    Ok(_) => expand_pass(lib2, names, i + 1),
                }
            },
        }
    }
}

/// One expansion round: the pending block exports are snapshotted and
/// cleared, then each is rendered and re-imported.
pub open spec fn one_round(lib: LibraryView) -> (LibraryView, Result<(), ErrorView>) {
    let cleared = LibraryView {
        blocks: lib.blocks,
        block_exports: Seq::empty(),
        file_exports: lib.file_exports,
    };
    expand_pass(cleared, lib.block_exports, 0)
}

/// `n` expansion rounds; once no block exports are pending, further
/// rounds change nothing.
pub open spec fn expand_rounds(lib: LibraryView, n: nat) -> (LibraryView, Result<(), ErrorView>)
    decreases n,
{
    if n == 0 {
        (lib, Ok(()))
    } else {
        let prev = expand_rounds(lib, (n - 1) as nat);
        match prev.1 {
            Err(_) => prev,
            Ok(_) => if prev.0.block_exports.len() == 0 {
                prev
            } else {
                one_round(prev.0)
            },
        }
    }
}

/// The expansion loop ended cleanly: some number of rounds within the
/// bound carried the library from `pre` to `post` with nothing pending.
pub open spec fn expand_ok(pre: LibraryView, post: LibraryView) -> bool {
    exists|n: nat|
        #![auto]
        n <= EXPANSION_ROUND_LIMIT && expand_rounds(pre, n) == (post, Ok::<(), ErrorView>(()))
}

/// The expansion loop failed: either every round of the bound went
/// through and exports were still pending (the distinct bound error), or
/// some round's render or re-import failed with `e`.
pub open spec fn expand_err(pre: LibraryView, post: LibraryView, e: ErrorView) -> bool {
    (e == ErrorView::ExpansionLimit && expand_rounds(pre, EXPANSION_ROUND_LIMIT as nat) == (
        post,
        Ok::<(), ErrorView>(()),
    ) && post.block_exports.len() > 0) || (exists|n: nat|
        #![auto]
        n <= EXPANSION_ROUND_LIMIT && expand_rounds(pre, n) == (post, Err::<(), ErrorView>(e)))
}

/// One rendered file export: the block's name, its declared relative
/// path, and the rendered text.
pub struct FileExport {
    pub name: String,
    pub path: String,
    pub contents: String,
}

#[verifier::ext_equal]
pub struct FileExportView {
    pub name: Seq<char>,
    pub path: Seq<char>,
    pub contents: Seq<char>,
}

impl View for FileExport {
    type V = FileExportView;

    open spec fn view(&self) -> FileExportView {
        FileExportView { name: self.name@, path: self.path@, contents: self.contents@ }
    }
}

/// The file exports from position `i` rendered in registration order; the
/// first failing render wins.
pub open spec fn file_outputs_from(lib: LibraryView, i: int, acc: Seq<FileExportView>) -> Result<
    Seq<FileExportView>,
    ErrorView,
>
    decreases lib.file_exports.len() - i,
{
    if i < 0 || i >= lib.file_exports.len() {
        Ok(acc)
    } else {
        let name = lib.file_exports[i].0;
        let path = lib.file_exports[i].1;
        match lib_render_spec(lib, name) {
            Err(e) => Err(e),
            Ok(text) => file_outputs_from(
                lib,
                i + 1,
                acc.push(FileExportView { name, path, contents: text }),
            ),
        }
    }
}

impl Library {
    /// An empty library.
    pub fn new() -> (r: Library)
        ensures
            r@ == empty_library(),
    {
        let r = Library { blocks: Vec::new(), block_exports: Vec::new(), file_exports: Vec::new() };
        proof {
            assert(r@ =~~= empty_library());
        }
        r
    }

    /// Parses one source unit and merges each of its blocks, rejecting a
    /// name the library already holds.
    #[verifier::loop_isolation(false)]
    pub fn import_from_string(&mut self, source: &str) -> (r: Result<(), Error>)
        ensures
            final(self)@ == import_spec(old(self)@, source@).0,
            unit_result_view(r) == import_spec(old(self)@, source@).1,
    {
        let mut blocks = match Block::parse(source) {
            Ok(bs) => bs,
            Err(e) => {
                return Err(e);
            },
        };
        let ghost lib0 = self@;
        let ghost bsv = seq_view(blocks@);
        while blocks.len() > 0
            invariant
                merge_seq(self@, seq_view(blocks@)) == merge_seq(lib0, bsv),
            decreases blocks@.len(),
        {
            let ghost pre = self@;
            let ghost prev = seq_view(blocks@);
            let b = blocks.remove(0);
            let ghost bv = b@;
            proof {
                assert(seq_view(blocks@) =~= prev.drop_first());
                assert(bv == prev[0]);
            }
            if find_block(&self.blocks, b.name.as_str()).is_some() {
                return Err(Error::NameTaken(b.name));
            }
            match &b.export {
                Some(Export::ToBlock) => {
                    let nm = b.name.clone();
                    self.block_exports.push(nm);
                },
                Some(Export::ToFile(p)) => {
                    let pr = (b.name.clone(), p.clone());
                    self.file_exports.push(pr);
                },
                None => {},
            }
            self.blocks.push(b);
            proof {
                assert(self@ =~~= register_block(pre, bv));
            }
        }
        Ok(())
    }

    /// Renders the named block with no arguments at top level. An absent
    /// name fails on its own; a failure inside the block comes back
    /// wrapped with the block's name as its context.
    pub fn render(&self, name: &str) -> (r: Result<String, Error>)
        ensures
            match r {
                Ok(s) => lib_render_spec(self@, name@) == Ok::<_, ErrorView>(s@),
                Err(e) => lib_render_spec(self@, name@) == Err::<Seq<char>, _>(e@),
            },
    {
        match find_block(&self.blocks, name) {
            None => Err(Error::UnresolvedBlock(String::from_str(name))),
            Some(b) => match b.render(&self.blocks) {
                Ok(s) => Ok(s),
                Err(e) => Err(
                    Error::InBlock { name: String::from_str(name), cause: Box::new(e) },
                ),
            },
        }
    }

    /// Expands block exports to a fixed point: renders and re-imports each
    /// pending export, round by round, until a round registers none, the
    /// round bound is exhausted (a distinct error), or a render or import
    /// fails.
    #[verifier::loop_isolation(false)]
    pub fn expand_exports(&mut self) -> (r: Result<(), Error>)
        ensures
            match r {
                Ok(_) => expand_ok(old(self)@, final(self)@) && final(self)@.block_exports.len()
                    == 0,
                Err(e) => expand_err(old(self)@, final(self)@, e@),
            },
    {
        let ghost lib0 = self@;
        let mut rounds: usize = 0;
        while self.block_exports.len() > 0 && rounds < EXPANSION_ROUND_LIMIT
            invariant
                rounds <= EXPANSION_ROUND_LIMIT,
                expand_rounds(lib0, rounds as nat) == (self@, Ok::<(), ErrorView>(())),
            decreases EXPANSION_ROUND_LIMIT - rounds,
        {
            let ghost pre_round = self@;
            let names = clone_strings(&self.block_exports);
            self.block_exports = Vec::new();
            let ghost cleared = self@;
            let ghost namesv = seq_view(names@);
            proof {
                assert(seq_view(self.block_exports@) =~= Seq::<Seq<char>>::empty());
                assert(cleared =~~= (LibraryView {
                    blocks: pre_round.blocks,
                    block_exports: Seq::empty(),
                    file_exports: pre_round.file_exports,
                }));
                assert(namesv == pre_round.block_exports);
            }
            let mut i: usize = 0;
            while i < names.len()
                invariant
                    i <= namesv.len(),
                    expand_pass(self@, namesv, i as int) == expand_pass(cleared, namesv, 0),
                decreases namesv.len() - i,
            {
                let text = match self.render(names[i].as_str()) {
                    Ok(t) => t,
                    Err(e) => {
                        proof {
                            assert(expand_rounds(lib0, rounds as nat + 1) == (
                                self@,
                                Err::<(), ErrorView>(e@),
                            ));
                        }
                        return Err(e);
                    },
                };
                match self.import_from_string(text.as_str()) {
                    Ok(_) => {},
                    Err(e) => {
                        proof {
                            assert(expand_rounds(lib0, rounds as nat + 1) == (
                                self@,
                                Err::<(), ErrorView>(e@),
                            ));
                        }
                        return Err(e);
                    },
                }
                i = i + 1;
            }
            rounds = rounds + 1;
            proof {
                assert(expand_rounds(lib0, rounds as nat) == (self@, Ok::<(), ErrorView>(())));
            }
        }
        if self.block_exports.len() > 0 {
            return Err(Error::ExpansionLimit);
        }
        proof {
            assert(expand_rounds(lib0, rounds as nat) == (self@, Ok::<(), ErrorView>(()))
                && self@.block_exports.len() == 0);
        }
        Ok(())
    }

    /// Renders every file export, in registration order, into (name,
    /// relative path, contents) records for a caller to write out.
    #[verifier::loop_isolation(false)]
    pub fn collect_file_exports(&self) -> (r: Result<Vec<FileExport>, Error>)
        ensures
            match r {
                Ok(fs) => file_outputs_from(self@, 0, Seq::empty()) == Ok::<_, ErrorView>(
                    seq_view(fs@),
                ),
                Err(e) => file_outputs_from(self@, 0, Seq::empty()) == Err::<
                    Seq<FileExportView>,
                    _,
                >(e@),
            },
    {
        let mut out: Vec<FileExport> = Vec::new();
        let mut i: usize = 0;
        proof {
            assert(seq_view(out@) =~= Seq::<FileExportView>::empty());
        }
        while i < self.file_exports.len()
            invariant
                i <= self@.file_exports.len(),
                file_outputs_from(self@, i as int, seq_view(out@)) == file_outputs_from(
                    self@,
                    0,
                    Seq::empty(),
                ),
            decreases self@.file_exports.len() - i,
        {
            let name = self.file_exports[i].0.clone();
            let path = self.file_exports[i].1.clone();
            match self.render(name.as_str()) {
                Ok(text) => {
                    out.push(FileExport { name, path, contents: text });
                },
                Err(e) => {
                    return Err(e);
                },
            }
            i = i + 1;
        }
        Ok(out)
    }
}

} // verus!
