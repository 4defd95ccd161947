//! The block builder: consumes the flat component stream positionally,
//! skipping anything before the first `open`, then accumulating attributes
//! and elements until the matching `close`, enforcing that blocks do not
//! nest, that parameter names are unique within a block, and that a block
//! declares at most one export. On close, one trailing newline of the last
//! content element is trimmed, so the closing command's own line adds no
//! blank line to rendered output. Cross-block references are not resolved
//! here: lookups are deferred to render time, so forward references are
//! valid.

use vstd::prelude::*;
use crate::ast::{
    Attribute, AttributeView, Block, BlockView, Component, ComponentView, Element, ElementView,
    Error, ErrorView, Export, ExportView, clone_element, seq_view,
};
use crate::lexer::{lex_spec, scan_components};
use crate::text::{contains_string, str_to_chars};
use vstd::string::StrSliceExecFns;
use vstd::string::StringExecFns;

verus! {

broadcast use crate::ast::lemma_seq_view_push, crate::ast::lemma_seq_view_add;

/// The view of an optional export declaration.
pub open spec fn opt_export_view(e: Option<Export>) -> Option<ExportView> {
    match e {
        Some(x) => Some(x@),
        None => None,
    }
}

/// A copy of an export declaration, equal to the original.
pub fn clone_export(e: &Export) -> (r: Export)
    ensures
        r@ == e@,
{
    match e {
        Export::ToBlock => Export::ToBlock,
        Export::ToFile(s) => Export::ToFile(s.clone()),
    }
}

/// If the last element is content ending in a newline, that one newline
/// removed; otherwise the elements unchanged.
pub open spec fn trim_trailing_newline(elems: Seq<ElementView>) -> Seq<ElementView> {
    if elems.len() == 0 {
        elems
    } else {
        match elems.last() {
            ElementView::Content(t) => if t.len() > 0 && t.last() == '\n' {
                elems.update(elems.len() - 1, ElementView::Content(t.drop_last()))
            } else {
                elems
            },
            _ => elems,
        }
    }
}

/// The blocks assembled from the component stream at and after `i`:
/// components before the next `open` are skipped.
pub open spec fn build_from(comps: Seq<ComponentView>, i: int) -> Result<Seq<BlockView>, ErrorView>
    decreases comps.len() - i, 0int,
{
    if i < 0 || i >= comps.len() {
        Ok(Seq::empty())
    } else {
        match comps[i] {
            ComponentView::Open { name } => build_body(
                comps,
                i + 1,
                name,
                Seq::empty(),
                Seq::empty(),
                None,
            ),
            _ => build_from(comps, i + 1),
        }
    }
}

/// One open block accumulating its attributes and elements until `close`
/// (or the end of the stream, which closes it without newline trimming),
/// followed by the blocks of the rest of the stream.
pub open spec fn build_body(
    comps: Seq<ComponentView>,
    i: int,
    name: Seq<char>,
    params: Seq<Seq<char>>,
    elems: Seq<ElementView>,
    export: Option<ExportView>,
) -> Result<Seq<BlockView>, ErrorView>
    decreases comps.len() - i, 1int,
{
    if i < 0 || i >= comps.len() {
        Ok(seq![BlockView { name, param_names: params, export, elements: elems }])
    } else {
        match comps[i] {
            ComponentView::Open { name: n } => Err(ErrorView::IllegalNesting(n)),
            ComponentView::Attribute(AttributeView::Export(e)) => match export {
                None => build_body(comps, i + 1, name, params, elems, Some(e)),
                Some(_) => Err(ErrorView::MultipleExports),
            },
            ComponentView::Attribute(AttributeView::ParamName(p)) => if params.contains(p) {
                Err(ErrorView::DuplicateParam(p))
            } else {
                build_body(comps, i + 1, name, params.push(p), elems, export)
            },
            ComponentView::Element(e) => build_body(
                comps,
                i + 1,
                name,
                params,
                elems.push(e),
                export,
            ),
            ComponentView::Close => match build_from(comps, i + 1) {
                Ok(bs) => Ok(
                    seq![
                        BlockView {
                            name,
                            param_names: params,
                            export,
                            elements: trim_trailing_newline(elems),
                        }
                    ] + bs,
                ),
                Err(e) => Err(e),
            },
        }
    }
}

/// The blocks of a whole source text: scanned, then assembled.
pub open spec fn parse_spec(s: Seq<char>) -> Result<Seq<BlockView>, ErrorView> {
    match lex_spec(s) {
        Ok(comps) => build_from(comps, 0),
        Err(e) => Err(e),
    }
}

/// Trims one trailing newline off the last content element, if any.
fn trim_last(elems: &mut Vec<Element>)
    ensures
        seq_view(final(elems)@) == trim_trailing_newline(seq_view(old(elems)@)),
{
    let n = elems.len();
    if n == 0 {
        return ;
    }
    let replacement: Option<String> = match &elems[n - 1] {
        Element::Content(s) => {
            let m = s.as_str().unicode_len();
            if m > 0 && s.as_str().get_char(m - 1) == '\n' {
                Some(String::from_str(s.as_str().substring_char(0, m - 1)))
            } else {
                None
            }
        },
        _ => None,
    };
    match replacement {
        Some(t) => {
            let ghost old_elems = seq_view(elems@);
            elems.pop();
            elems.push(Element::Content(t));
            proof {
                assert(seq_view(elems@) =~~= trim_trailing_newline(old_elems));
            }
        },
        None => {
            proof {
                assert(seq_view(elems@) == trim_trailing_newline(seq_view(elems@)));
            }
        },
    }
}

impl Block {
    /// Assembles the validated blocks of a component stream.
    pub fn build(components: Vec<Component>) -> (r: Result<Vec<Block>, Error>)
        ensures
            match r {
                Ok(bs) => build_from(seq_view(components@), 0) == Ok::<_, ErrorView>(seq_view(bs@)),
                Err(e) => build_from(seq_view(components@), 0) == Err::<Seq<BlockView>, _>(e@),
            },
    {
        Self::build_range(&components, 0)
    }

    /// The blocks of the stream at and after `start`.
    fn build_range(comps: &Vec<Component>, start: usize) -> (r: Result<Vec<Block>, Error>)
        requires
            start <= comps@.len(),
        ensures
            match r {
                Ok(bs) => build_from(seq_view(comps@), start as int) == Ok::<_, ErrorView>(
                    seq_view(bs@),
                ),
                Err(e) => build_from(seq_view(comps@), start as int) == Err::<Seq<BlockView>, _>(
                    e@,
                ),
            },
        decreases comps@.len() - start,
    {
        if start >= comps.len() {
            let out: Vec<Block> = Vec::new();
            proof {
                assert(seq_view(out@) =~= Seq::<BlockView>::empty());
            }
            return Ok(out);
        }
        match &comps[start] {
            Component::Open { name } => {
                let r = Self::build_body_range(
                    comps,
                    start + 1,
                    name.clone(),
                    Vec::new(),
                    Vec::new(),
                    None,
                );
                proof {
                    assert(seq_view(Seq::<String>::empty()) =~= Seq::<Seq<char>>::empty());
                    assert(seq_view(Seq::<Element>::empty()) =~= Seq::<ElementView>::empty());
                }
                r
            },
            _ => Self::build_range(comps, start + 1),
        }
    }

    /// One open block accumulating until `close`, then the rest.
    fn build_body_range(
        comps: &Vec<Component>,
        start: usize,
        name: String,
        params: Vec<String>,
        elems: Vec<Element>,
        export: Option<Export>,
    ) -> (r: Result<Vec<Block>, Error>)
        requires
            start <= comps@.len(),
        ensures
            match r {
                Ok(bs) => build_body(
                    seq_view(comps@),
                    start as int,
                    name@,
                    seq_view(params@),
                    seq_view(elems@),
                    opt_export_view(export),
                ) == Ok::<_, ErrorView>(seq_view(bs@)),
                Err(e) => build_body(
                    seq_view(comps@),
                    start as int,
                    name@,
                    seq_view(params@),
                    seq_view(elems@),
                    opt_export_view(export),
                ) == Err::<Seq<BlockView>, _>(e@),
            },
        decreases comps@.len() - start,
    {
        if start >= comps.len() {
            let block = Block { name, param_names: params, export, elements: elems };
            let ghost blockv = block@;
            let mut out: Vec<Block> = Vec::new();
            out.push(block);
            proof {
                assert(seq_view(out@) =~= seq![blockv]);
            }
            return Ok(out);
        }
        match &comps[start] {
            Component::Open { name: n } => Err(Error::IllegalNesting(n.clone())),
            Component::Attribute(Attribute::Export(e)) => match export {
                None => Self::build_body_range(
                    comps,
                    start + 1,
                    name,
                    params,
                    elems,
                    Some(clone_export(e)),
                ),
                Some(_) => Err(Error::MultipleExports),
            },
            Component::Attribute(Attribute::ParamName(p)) => {
                if contains_string(&params, p.as_str()) {
                    Err(Error::DuplicateParam(p.clone()))
                } else {
                    let mut params = params;
                    params.push(p.clone());
                    Self::build_body_range(comps, start + 1, name, params, elems, export)
                }
            },
            Component::Element(e) => {
                let mut elems = elems;
                elems.push(clone_element(e));
                Self::build_body_range(comps, start + 1, name, params, elems, export)
            },
            Component::Close => {
                let mut elems = elems;
                trim_last(&mut elems);
                let block = Block { name, param_names: params, export, elements: elems };
                let ghost blockv = block@;
                match Self::build_range(comps, start + 1) {
                    Ok(rest) => {
                        let ghost restv = seq_view(rest@);
                        let mut out: Vec<Block> = Vec::new();
                        out.push(block);
                        let mut rest = rest;
                        out.append(&mut rest);
                        proof {
                            assert(seq_view(out@) =~= seq![blockv] + restv);
                        }
                        Ok(out)
                    },
                    Err(e) => Err(e),
                }
            },
        }
    }

    /// Parses one source unit into its blocks.
    pub fn parse(source: &str) -> (r: Result<Vec<Block>, Error>)
        ensures
            match r {
                Ok(bs) => parse_spec(source@) == Ok::<_, ErrorView>(seq_view(bs@)),
                Err(e) => parse_spec(source@) == Err::<Seq<BlockView>, _>(e@),
            },
    {
        let chars = str_to_chars(source);
        match scan_components(&chars) {
            Err(e) => Err(e),
            Ok(comps) => Self::build(comps),
        }
    }
}

} // verus!
