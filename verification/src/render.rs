//! The renderer: binds a block's formal parameters to the caller's resolved
//! arguments, then walks the elements in order, splicing literal content
//! (with the caller's indentation inserted after every newline) and
//! recursively rendering `use` references. A `use` whose target resolves to
//! a literal splices that text directly, with no library lookup. An
//! indentation-propagating (`ui`) reference passes the current depth plus
//! the indentation of the output cursor (the leading tabs of the last line
//! of the most recent multi-line content); a plain reference resets the
//! callee to depth zero. Recursion is guarded by explicit fuel, so a cyclic
//! library fails with a distinct recursion-limit error instead of
//! overflowing the stack.

use vstd::prelude::*;
use crate::ast::{
    Argument, ArgumentView, Block, BlockView, Element, ElementView, Error, ErrorView, Parameter,
    ParameterView, clone_parameter, seq_view,
};
use crate::text::{chars_to_string, str_equal, str_to_chars};
use vstd::string::StrSliceExecFns;

verus! {

broadcast use crate::ast::lemma_seq_view_push, crate::ast::lemma_seq_view_add;

/// How deep block references may nest before rendering fails.
pub const RENDER_DEPTH_LIMIT: usize = 64;

/// An addition that stops at the machine bound instead of wrapping.
pub open spec fn sat_add(a: usize, b: usize) -> usize {
    if a + b > usize::MAX {
        usize::MAX
    } else {
        (a + b) as usize
    }
}

/// A count clamped to the machine bound.
pub open spec fn sat_usize(n: nat) -> usize {
    if n > usize::MAX {
        usize::MAX
    } else {
        n as usize
    }
}

/// The view of an optional vector of resolved parameters.
pub open spec fn opt_params_view(p: Option<Vec<Parameter>>) -> Option<Seq<ParameterView>> {
    match p {
        Some(v) => Some(seq_view(v@)),
        None => None,
    }
}

/// The view of a binding scope: formal parameter names paired with their
/// resolved values.
pub open spec fn binds_view(s: Seq<(String, Parameter)>) -> Seq<(Seq<char>, ParameterView)> {
    s.map_values(|p: (String, Parameter)| (p.0@, p.1@))
}

/// Formal names zipped positionally with the received values.
pub open spec fn zip_binds(names: Seq<Seq<char>>, vals: Seq<ParameterView>) -> Seq<
    (Seq<char>, ParameterView),
> {
    Seq::new(names.len(), |k: int| (names[k], vals[k]))
}

/// The binding scope of an invocation, or the arity error naming how many
/// parameters were expected and how many values were received.
pub open spec fn bind_params(names: Seq<Seq<char>>, vals: Seq<ParameterView>) -> Result<
    Seq<(Seq<char>, ParameterView)>,
    ErrorView,
> {
    if names.len() == vals.len() {
        Ok(zip_binds(names, vals))
    } else {
        Err(
            ErrorView::ArityMismatch {
                expected: sat_usize(names.len()),
                received: sat_usize(vals.len()),
            },
        )
    }
}

/// The value bound to `name`, scanning the scope from the latest binding
/// down.
pub open spec fn lookup_bind_from(
    binds: Seq<(Seq<char>, ParameterView)>,
    name: Seq<char>,
    i: int,
) -> Option<ParameterView>
    decreases i + 1,
{
    if i < 0 || i >= binds.len() {
        None
    } else if binds[i].0 == name {
        Some(binds[i].1)
    } else {
        lookup_bind_from(binds, name, i - 1)
    }
}

/// The value bound to `name` in the scope, if any.
pub open spec fn lookup_bind(binds: Seq<(Seq<char>, ParameterView)>, name: Seq<char>) -> Option<
    ParameterView,
> {
    lookup_bind_from(binds, name, binds.len() - 1)
}

/// An argument evaluated against the binding scope: a literal stays
/// literal, a bare name names a block, and a `#name` reference takes the
/// bound value or fails.
pub open spec fn eval_arg(arg: ArgumentView, binds: Seq<(Seq<char>, ParameterView)>) -> Result<
    ParameterView,
    ErrorView,
> {
    match arg {
        ArgumentView::Literal(s) => Ok(ParameterView::Literal(s)),
        ArgumentView::Name(n) => Ok(ParameterView::Name(n)),
        ArgumentView::ParamName(n) => match lookup_bind(binds, n) {
            Some(p) => Ok(p),
            None => Err(ErrorView::UnresolvedParam(n)),
        },
    }
}

/// The arguments of a call site evaluated in order; the first failure wins.
pub open spec fn eval_args_from(
    args: Seq<ArgumentView>,
    binds: Seq<(Seq<char>, ParameterView)>,
    i: int,
    acc: Seq<ParameterView>,
) -> Result<Seq<ParameterView>, ErrorView>
    decreases args.len() - i,
{
    if i < 0 || i >= args.len() {
        Ok(acc)
    } else {
        match eval_arg(args[i], binds) {
            Ok(p) => eval_args_from(args, binds, i + 1, acc.push(p)),
            Err(e) => Err(e),
        }
    }
}

/// An optional argument list evaluated against the scope.
pub open spec fn eval_opt_args(
    arguments: Option<Seq<ArgumentView>>,
    binds: Seq<(Seq<char>, ParameterView)>,
) -> Result<Option<Seq<ParameterView>>, ErrorView> {
    match arguments {
        None => Ok(None),
        Some(a) => match eval_args_from(a, binds, 0, Seq::empty()) {
            Ok(ps) => Ok(Some(ps)),
            Err(e) => Err(e),
        },
    }
}

/// The first block of the library carrying `name`, scanning from `i`.
pub open spec fn lookup_block_from(lib: Seq<BlockView>, name: Seq<char>, i: int) -> Option<
    BlockView,
>
    decreases lib.len() - i,
{
    if i < 0 || i >= lib.len() {
        None
    } else if lib[i].name == name {
        Some(lib[i])
    } else {
        lookup_block_from(lib, name, i + 1)
    }
}

/// The block of the library carrying `name`, if any.
pub open spec fn lookup_block(lib: Seq<BlockView>, name: Seq<char>) -> Option<BlockView> {
    lookup_block_from(lib, name, 0)
}

/// `n` indent units.
pub open spec fn tabs(n: usize) -> Seq<char> {
    Seq::new(n as nat, |k: int| '\t')
}

/// What one character contributes to indented output: a newline drags the
/// indent units after it.
pub open spec fn indent_contribution(c: char, ind: usize) -> Seq<char> {
    if c == '\n' {
        seq!['\n'] + tabs(ind)
    } else {
        seq![c]
    }
}

/// The text with `ind` indent units inserted after every newline,
/// accumulated from position `i`.
pub open spec fn indent_from(t: Seq<char>, i: int, ind: usize, acc: Seq<char>) -> Seq<char>
    decreases t.len() - i,
{
    if i < 0 || i >= t.len() {
        acc
    } else {
        indent_from(t, i + 1, ind, acc + indent_contribution(t[i], ind))
    }
}

/// The text with `ind` indent units inserted after every newline.
pub open spec fn indent_text(t: Seq<char>, ind: usize) -> Seq<char> {
    indent_from(t, 0, ind, Seq::empty())
}

/// Index where the last line of `t` starts: just after the last newline,
/// or zero when there is none.
pub open spec fn line_start(t: Seq<char>) -> int
    decreases t.len(),
{
    if t.len() == 0 {
        0
    } else if t.last() == '\n' {
        t.len() as int
    } else {
        line_start(t.drop_last())
    }
}

/// The run of indent units starting at `i`.
pub open spec fn tab_run(t: Seq<char>, i: int) -> nat
    decreases t.len() - i,
{
    if i < 0 || i >= t.len() || t[i] != '\t' {
        0
    } else {
        (1 + tab_run(t, i + 1)) as nat
    }
}

/// The output-cursor depth after literal content: multi-line content sets
/// it to the leading indent units of its last line; one-line content
/// leaves it unchanged.
pub open spec fn next_nested(t: Seq<char>, nested: usize) -> usize {
    if line_start(t) > 0 {
        sat_usize(tab_run(t, line_start(t)))
    } else {
        nested
    }
}

/// The text a block renders to, given the library, the received values,
/// the caller's indentation depth and the remaining recursion fuel.
pub open spec fn render_block(
    lib: Seq<BlockView>,
    b: BlockView,
    args: Option<Seq<ParameterView>>,
    ind: usize,
    fuel: nat,
) -> Result<Seq<char>, ErrorView>
    decreases fuel, b.elements.len(), 1int,
{
    match args {
        None => render_elems(lib, b.elements, 0, Seq::empty(), ind, 0, Seq::empty(), fuel),
        Some(vals) => match bind_params(b.param_names, vals) {
            Ok(binds) => render_elems(lib, b.elements, 0, binds, ind, 0, Seq::empty(), fuel),
            Err(e) => Err(e),
        },
    }
}

/// The elements from position `i` rendered and appended to `acc`.
pub open spec fn render_elems(
    lib: Seq<BlockView>,
    elems: Seq<ElementView>,
    i: int,
    binds: Seq<(Seq<char>, ParameterView)>,
    ind: usize,
    nested: usize,
    acc: Seq<char>,
    fuel: nat,
) -> Result<Seq<char>, ErrorView>
    decreases fuel, elems.len() - i, 0int,
{
    if i < 0 || i >= elems.len() {
        Ok(acc)
    } else {
        match elems[i] {
            ElementView::Content(t) => {
                let out = if ind == 0 {
                    t
                } else {
                    indent_text(t, ind)
                };
                render_elems(lib, elems, i + 1, binds, ind, next_nested(t, nested), acc + out, fuel)
            },
            ElementView::UseBlock { indented, target, arguments } => match eval_arg(
                target,
                binds,
            ) {
                Err(e) => Err(e),
                Ok(ParameterView::Literal(s)) => render_elems(
                    lib,
                    elems,
                    i + 1,
                    binds,
                    ind,
                    nested,
                    acc + s,
                    fuel,
                ),
                Ok(ParameterView::Name(n)) => match lookup_block(lib, n) {
                    None => Err(ErrorView::UnresolvedBlock(n)),
                    Some(b2) => match eval_opt_args(arguments, binds) {
                        Err(e) => Err(e),
                        Ok(args2) => {
                            let ind2 = if indented {
                                sat_add(ind, nested)
                            } else {
                                0 as usize
                            };
                            if fuel == 0 {
                                Err(ErrorView::RecursionLimit)
                            } else {
                                match render_block(lib, b2, args2, ind2, (fuel - 1) as nat) {
                                    Ok(s2) => render_elems(
                                        lib,
                                        elems,
                                        i + 1,
                                        binds,
                                        ind,
                                        nested,
                                        acc + s2,
                                        fuel,
                                    ),
                                    Err(e) => Err(e),
                                }
                            }
                        },
                    },
                },
            },
        }
    }
}

/// Indented accumulation splits off its accumulator.
pub proof fn lemma_indent_from_acc(t: Seq<char>, i: int, ind: usize, acc: Seq<char>)
    ensures
        indent_from(t, i, ind, acc) == acc + indent_from(t, i, ind, Seq::empty()),
    decreases t.len() - i,
{
    if i < 0 || i >= t.len() {
        assert(acc + indent_from(t, i, ind, Seq::empty()) =~= acc);
    } else {
        let c = indent_contribution(t[i], ind);
        lemma_indent_from_acc(t, i + 1, ind, acc + c);
        lemma_indent_from_acc(t, i + 1, ind, c);
        assert((acc + c) + indent_from(t, i + 1, ind, Seq::empty()) =~= acc + (c + indent_from(
            t,
            i + 1,
            ind,
            Seq::empty(),
        )));
        assert(Seq::<char>::empty() + c =~= c);
    }
}

pub broadcast proof fn lemma_binds_view_push(s: Seq<(String, Parameter)>, x: (String, Parameter))
    ensures
        #[trigger] binds_view(s.push(x)) == binds_view(s).push((x.0@, x.1@)),
{
    assert(binds_view(s.push(x)) =~= binds_view(s).push((x.0@, x.1@)));
}

/// An argument evaluated against the binding scope.
#[verifier::loop_isolation(false)]
pub fn eval_argument(arg: &Argument, binds: &Vec<(String, Parameter)>) -> (r: Result<
    Parameter,
    Error,
>)
    ensures
        match r {
            Ok(p) => eval_arg(arg@, binds_view(binds@)) == Ok::<_, ErrorView>(p@),
            Err(e) => eval_arg(arg@, binds_view(binds@)) == Err::<ParameterView, _>(e@),
        },
{
    match arg {
        Argument::Literal(s) => Ok(Parameter::Literal(s.clone())),
        Argument::Name(n) => Ok(Parameter::Name(n.clone())),
        Argument::ParamName(n) => {
            let ghost bv = binds_view(binds@);
            let mut j: usize = binds.len();
            while j > 0
                invariant
                    j <= binds@.len(),
                    lookup_bind_from(bv, n@, j as int - 1) == lookup_bind(bv, n@),
                decreases j,
            {
                j = j - 1;
                if str_equal(binds[j].0.as_str(), n.as_str()) {
                    proof {
                        assert(bv[j as int].0 == n@);
                        assert(lookup_bind_from(bv, n@, j as int) == Some(bv[j as int].1));
                    }
                    return Ok(clone_parameter(&binds[j].1));
                }
                proof {
                    assert(bv[j as int].0 != n@);
                }
            }
            proof {
                assert(lookup_bind_from(bv, n@, -1) == None::<ParameterView>);
            }
            Err(Error::UnresolvedParam(n.clone()))
        },
    }
}

/// The arguments of a call site evaluated in order.
#[verifier::loop_isolation(false)]
pub fn eval_arguments(args: &Vec<Argument>, binds: &Vec<(String, Parameter)>) -> (r: Result<
    Vec<Parameter>,
    Error,
>)
    ensures
        match r {
            Ok(ps) => eval_args_from(seq_view(args@), binds_view(binds@), 0, Seq::empty())
                == Ok::<_, ErrorView>(seq_view(ps@)),
            Err(e) => eval_args_from(seq_view(args@), binds_view(binds@), 0, Seq::empty())
                == Err::<Seq<ParameterView>, _>(e@),
        },
{
    let mut out: Vec<Parameter> = Vec::new();
    let mut i: usize = 0;
    proof {
        assert(seq_view(out@) =~= Seq::<ParameterView>::empty());
    }
    while i < args.len()
        invariant
            i <= args@.len(),
            eval_args_from(seq_view(args@), binds_view(binds@), i as int, seq_view(out@))
                == eval_args_from(seq_view(args@), binds_view(binds@), 0, Seq::empty()),
        decreases args@.len() - i,
    {
        match eval_argument(&args[i], binds) {
            Ok(p) => {
                out.push(p);
            },
            Err(e) => {
                return Err(e);
            },
        }
        i = i + 1;
    }
    Ok(out)
}

/// The block of the library carrying `name`, if any.
#[verifier::loop_isolation(false)]
pub fn find_block<'a>(blocks: &'a Vec<Block>, name: &str) -> (r: Option<&'a Block>)
    ensures
        match r {
            Some(b) => lookup_block(seq_view(blocks@), name@) == Some(b@),
            None => lookup_block(seq_view(blocks@), name@) == None::<BlockView>,
        },
{
    let ghost lv = seq_view(blocks@);
    let mut i: usize = 0;
    while i < blocks.len()
        invariant
            i <= blocks@.len(),
            lookup_block_from(lv, name@, i as int) == lookup_block(lv, name@),
        decreases blocks@.len() - i,
    {
        if str_equal(blocks[i].name.as_str(), name) {
            proof {
                assert(lv[i as int].name == name@);
            }
            return Some(&blocks[i]);
        }
        i = i + 1;
    }
    None
}

/// The output-cursor depth after the given literal content.
#[verifier::loop_isolation(false)]
pub fn content_nested(content: &str, nested: usize) -> (r: usize)
    ensures
        r == next_nested(content@, nested),
{
    let t = str_to_chars(content);
    let mut ls: usize = 0;
    let mut ci: usize = 0;
    proof {
        assert(t@.take(0) =~= Seq::<char>::empty());
    }
    while ci < t.len()
        invariant
            ci <= t@.len(),
            ls as int == line_start(t@.take(ci as int)),
            ls <= ci,
        decreases t@.len() - ci,
    {
        if t[ci] == '\n' {
            ls = ci + 1;
        }
        ci = ci + 1;
        proof {
            assert(t@.take(ci as int).drop_last() =~= t@.take(ci as int - 1));
            assert(t@.take(ci as int).last() == t@[ci as int - 1]);
        }
    }
    proof {
        assert(t@.take(t@.len() as int) =~= t@);
    }
    if ls == 0 {
        return nested;
    }
    let mut cnt: usize = 0;
    let mut j: usize = ls;
    while j < t.len() && t[j] == '\t'
        invariant
            ls <= j <= t@.len(),
            cnt == j - ls,
            tab_run(t@, ls as int) == cnt + tab_run(t@, j as int),
        decreases t@.len() - j,
    {
        cnt = cnt + 1;
        j = j + 1;
    }
    proof {
        assert(tab_run(t@, j as int) == 0);
        assert(tab_run(t@, ls as int) == cnt as nat);
    }
    cnt
}

/// Appends the content to the output, inserting `ind` indent units after
/// every newline (none when the depth is zero).
#[verifier::loop_isolation(false)]
pub fn append_indented(out: &mut Vec<char>, content: &str, ind: usize)
    ensures
        final(out)@ == old(out)@ + (if ind == 0 {
            content@
        } else {
            indent_text(content@, ind)
        }),
{
    let t = str_to_chars(content);
    let ghost base = out@;
    if ind == 0 {
        let mut ci: usize = 0;
        while ci < t.len()
            invariant
                ci <= t@.len(),
                out@ == base + t@.take(ci as int),
            decreases t@.len() - ci,
        {
            out.push(t[ci]);
            ci = ci + 1;
            proof {
                assert(base + t@.take(ci as int) =~= (base + t@.take(ci as int - 1)).push(
                    t@[ci as int - 1],
                ));
            }
        }
        proof {
            assert(base + t@.take(t@.len() as int) =~= base + t@);
        }
    } else {
        let mut ci: usize = 0;
        proof {
            assert(indent_from(t@, 0, ind, out@) == indent_from(t@, 0, ind, base));
        }
        while ci < t.len()
            invariant
                ci <= t@.len(),
                indent_from(t@, ci as int, ind, out@) == indent_from(t@, 0, ind, base),
            decreases t@.len() - ci,
        {
            let ghost pre = out@;
            let c = t[ci];
            out.push(c);
            if c == '\n' {
                let mut k: usize = 0;
                while k < ind
                    invariant
                        k <= ind,
                        out@ == pre.push('\n') + tabs(k),
                    decreases ind - k,
                {
                    out.push('\t');
                    k = k + 1;
                    proof {
                        assert(pre.push('\n') + tabs(k) =~= (pre.push('\n') + tabs(
                            (k - 1) as usize,
                        )).push('\t'));
                    }
                }
                proof {
                    assert(out@ =~= pre + indent_contribution(c, ind));
                }
            } else {
                proof {
                    assert(out@ =~= pre + indent_contribution(c, ind));
                }
            }
            ci = ci + 1;
        }
        proof {
            assert(indent_from(t@, t@.len() as int, ind, out@) == out@);
            lemma_indent_from_acc(t@, 0, ind, base);
        }
    }
}

impl Block {
    /// Renders the block against the library with no arguments, at top
    /// level, with the full recursion allowance.
    pub fn render(&self, blocks: &Vec<Block>) -> (r: Result<String, Error>)
        ensures
            match r {
                Ok(s) => render_block(seq_view(blocks@), self@, None, 0, RENDER_DEPTH_LIMIT as nat)
                    == Ok::<_, ErrorView>(s@),
                Err(e) => render_block(
                    seq_view(blocks@),
                    self@,
                    None,
                    0,
                    RENDER_DEPTH_LIMIT as nat,
                ) == Err::<Seq<char>, _>(e@),
            },
    {
        self.render_with_params(blocks, None, 0, RENDER_DEPTH_LIMIT)
    }

    /// Renders the block against the library, binding the received values
    /// to its formal parameters and inheriting the caller's indentation
    /// depth; `fuel` bounds how deep further references may nest.
    #[verifier::loop_isolation(false)]
    pub fn render_with_params(
        &self,
        blocks: &Vec<Block>,
        params: Option<Vec<Parameter>>,
        indentation: usize,
        fuel: usize,
    ) -> (r: Result<String, Error>)
        ensures
            match r {
                Ok(s) => render_block(
                    seq_view(blocks@),
                    self@,
                    opt_params_view(params),
                    indentation,
                    fuel as nat,
                ) == Ok::<_, ErrorView>(s@),
                Err(e) => render_block(
                    seq_view(blocks@),
                    self@,
                    opt_params_view(params),
                    indentation,
                    fuel as nat,
                ) == Err::<Seq<char>, _>(e@),
            },
        decreases fuel,
    {
        let ghost libv = seq_view(blocks@);
        let ghost pv = opt_params_view(params);
        let ghost elemsv = seq_view(self.elements@);
        let ghost namesv = seq_view(self.param_names@);
        let mut binds: Vec<(String, Parameter)> = Vec::new();
        match params {
            None => {
                proof {
                    assert(binds_view(binds@) =~= Seq::<(Seq<char>, ParameterView)>::empty());
                }
            },
            Some(vals) => {
                let ghost valsv = seq_view(vals@);
                if self.param_names.len() != vals.len() {
                    return Err(
                        Error::ArityMismatch {
                            expected: self.param_names.len(),
                            received: vals.len(),
                        },
                    );
                }
                let n = vals.len();
                let mut k: usize = 0;
                while k < n
                    invariant
                        k <= n,
                        n == namesv.len(),
                        n == valsv.len(),
                        binds_view(binds@).len() == k,
                        forall|j: int|
                            0 <= j < k ==> binds_view(binds@)[j] == (namesv[j], valsv[j]),
                    decreases n - k,
                {
                    let ghost pre = binds@;
                    binds.push((self.param_names[k].clone(), clone_parameter(&vals[k])));
                    k = k + 1;
                    proof {
                        lemma_binds_view_push(pre, binds@.last());
                        assert(binds@ =~= pre.push(binds@.last()));
                    }
                }
                proof {
                    assert(binds_view(binds@) =~= zip_binds(namesv, valsv));
                }
            },
        }
        let ghost bindsv = binds_view(binds@);
        let ghost total = render_block(libv, self@, pv, indentation, fuel as nat);
        proof {
            assert(total == render_elems(
                libv,
                elemsv,
                0,
                bindsv,
                indentation,
                0,
                Seq::empty(),
                fuel as nat,
            ));
        }
        let mut out: Vec<char> = Vec::new();
        let mut nested: usize = 0;
        let mut idx: usize = 0;
        proof {
            assert(out@ =~= Seq::<char>::empty());
        }
        while idx < self.elements.len()
            invariant
                idx <= elemsv.len(),
                render_elems(libv, elemsv, idx as int, bindsv, indentation, nested, out@, fuel as nat)
                    == total,
            decreases elemsv.len() - idx,
        {
            let ghost idx0 = idx as int;
            let ghost nested0 = nested;
            let ghost out0 = out@;
            match &self.elements[idx] {
                Element::Content(content) => {
                    let new_nested = content_nested(content.as_str(), nested);
                    append_indented(&mut out, content.as_str(), indentation);
                    nested = new_nested;
                },
                Element::UseBlock { indented, target, arguments } => {
                    match eval_argument(target, &binds) {
                        Err(e) => {
                            return Err(e);
                        },
                        Ok(Parameter::Literal(s)) => {
                            append_indented(&mut out, s.as_str(), 0);
                        },
                        Ok(Parameter::Name(n)) => {
                            match find_block(blocks, n.as_str()) {
                                None => {
                                    return Err(Error::UnresolvedBlock(n));
                                },
                                Some(b2) => {
                                    let args2: Option<Vec<Parameter>> = match arguments {
                                        Some(a) => match eval_arguments(a, &binds) {
                                            Ok(ps) => Some(ps),
                                            Err(e) => {
                                                return Err(e);
                                            },
                                        },
                                        None => None,
                                    };
                                    let ind2: usize = if *indented {
                                        if indentation > usize::MAX - nested {
                                            usize::MAX
                                        } else {
                                            indentation + nested
                                        }
                                    } else {
                                        0
                                    };
                                    if fuel == 0 {
                                        return Err(Error::RecursionLimit);
                                    }
                                    proof {
                                        assert(lookup_block(libv, n@) == Some(b2@));
                                        assert(eval_opt_args(elemsv[idx0]->UseBlock_arguments, bindsv)
                                            == Ok::<_, ErrorView>(opt_params_view(args2)));
                                    }
                                    match b2.render_with_params(blocks, args2, ind2, fuel - 1) {
                                        Ok(sub) => {
                                            append_indented(&mut out, sub.as_str(), 0);
                                        },
                                        Err(e) => {
                                            return Err(e);
                                        },
                                    }
                                },
                            }
                        },
                    }
                },
            }
            idx = idx + 1;
            proof {
                assert(render_elems(
                    libv,
                    elemsv,
                    idx as int,
                    bindsv,
                    indentation,
                    nested,
                    out@,
                    fuel as nat,
                ) == render_elems(
                    libv,
                    elemsv,
                    idx0,
                    bindsv,
                    indentation,
                    nested0,
                    out0,
                    fuel as nat,
                ));
            }
        }
        Ok(chars_to_string(&out))
    }
}

} // verus!
