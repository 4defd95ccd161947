//! The data model: blocks, their elements, the two-phase argument
//! representation (unresolved `Argument` at a use site, resolved `Parameter`
//! at render time), the component stream produced by the lexer, and the
//! error taxonomy. Each executable type has a mathematical view over
//! `Seq<char>` used by every contract.

use vstd::prelude::*;

verus! {

/// The view of a sequence of viewable values, element by element.
pub open spec fn seq_view<T: View>(s: Seq<T>) -> Seq<T::V> {
    s.map_values(|t: T| t@)
}

pub broadcast proof fn lemma_seq_view_push<T: View>(s: Seq<T>, x: T)
    ensures
        #[trigger] seq_view(s.push(x)) == seq_view(s).push(x@),
{
    assert(seq_view(s.push(x)) =~= seq_view(s).push(x@));
}

pub broadcast proof fn lemma_seq_view_add<T: View>(s: Seq<T>, t: Seq<T>)
    ensures
        #[trigger] seq_view(s + t) == seq_view(s) + seq_view(t),
{
    assert(seq_view(s + t) =~= seq_view(s) + seq_view(t));
}

/// The view of a sequence of string pairs, pair by pair.
pub open spec fn pairs_view(s: Seq<(String, String)>) -> Seq<(Seq<char>, Seq<char>)> {
    s.map_values(|p: (String, String)| (p.0@, p.1@))
}

pub broadcast proof fn lemma_pairs_view_push(s: Seq<(String, String)>, x: (String, String))
    ensures
        #[trigger] pairs_view(s.push(x)) == pairs_view(s).push((x.0@, x.1@)),
{
    assert(pairs_view(s.push(x)) =~= pairs_view(s).push((x.0@, x.1@)));
}

/// An unresolved reference at a use site: literal text written `(text)`,
/// a bare block name, or a parameter reference written `#name`.
#[derive(Debug)]
pub enum Argument {
    Literal(String),
    Name(String),
    ParamName(String),
}

pub enum ArgumentView {
    Literal(Seq<char>),
    Name(Seq<char>),
    ParamName(Seq<char>),
}

impl View for Argument {
    type V = ArgumentView;

    open spec fn view(&self) -> ArgumentView {
        match self {
            Argument::Literal(s) => ArgumentView::Literal(s@),
            Argument::Name(s) => ArgumentView::Name(s@),
            Argument::ParamName(s) => ArgumentView::ParamName(s@),
        }
    }
}

/// The resolved value of an `Argument`: literal text to splice, or the name
/// of a block to invoke.
#[derive(Debug)]
pub enum Parameter {
    Literal(String),
    Name(String),
}

pub enum ParameterView {
    Literal(Seq<char>),
    Name(Seq<char>),
}

impl View for Parameter {
    type V = ParameterView;

    open spec fn view(&self) -> ParameterView {
        match self {
            Parameter::Literal(s) => ParameterView::Literal(s@),
            Parameter::Name(s) => ParameterView::Name(s@),
        }
    }
}

/// One piece of a block's body: literal content, or a reference to another
/// block (or to a literal or parameter value) evaluated at render time.
#[derive(Debug)]
pub enum Element {
    Content(String),
    UseBlock { indented: bool, target: Argument, arguments: Option<Vec<Argument>> },
}

pub enum ElementView {
    Content(Seq<char>),
    UseBlock { indented: bool, target: ArgumentView, arguments: Option<Seq<ArgumentView>> },
}

impl View for Element {
    type V = ElementView;

    open spec fn view(&self) -> ElementView {
        match self {
            Element::Content(s) => ElementView::Content(s@),
            Element::UseBlock { indented, target, arguments } => (ElementView::UseBlock {
                indented: *indented,
                target: target@,
                arguments: match arguments {
                    Some(v) => Some(seq_view(v@)),
                    None => None,
                },
            }),
        }
    }
}

/// An export declaration: re-ingest the rendered block as further source,
/// or write it to a file at a relative path.
#[derive(Debug)]
pub enum Export {
    ToBlock,
    ToFile(String),
}

pub enum ExportView {
    ToBlock,
    ToFile(Seq<char>),
}

impl View for Export {
    type V = ExportView;

    open spec fn view(&self) -> ExportView {
        match self {
            Export::ToBlock => ExportView::ToBlock,
            Export::ToFile(s) => ExportView::ToFile(s@),
        }
    }
}

/// A block attribute produced by the command grammar: an export declaration
/// or one formal parameter name.
#[derive(Debug)]
pub enum Attribute {
    Export(Export),
    ParamName(String),
}

pub enum AttributeView {
    Export(ExportView),
    ParamName(Seq<char>),
}

impl View for Attribute {
    type V = AttributeView;

    open spec fn view(&self) -> AttributeView {
        match self {
            Attribute::Export(e) => AttributeView::Export(e@),
            Attribute::ParamName(s) => AttributeView::ParamName(s@),
        }
    }
}

/// One item of the flat stream that the lexer and grammar produce and the
/// block builder consumes.
#[derive(Debug)]
pub enum Component {
    Open { name: String },
    Attribute(Attribute),
    Element(Element),
    Close,
}

pub enum ComponentView {
    Open { name: Seq<char> },
    Attribute(AttributeView),
    Element(ElementView),
    Close,
}

impl View for Component {
    type V = ComponentView;

    open spec fn view(&self) -> ComponentView {
        match self {
            Component::Open { name } => (ComponentView::Open { name: name@ }),
            Component::Attribute(a) => ComponentView::Attribute(a@),
            Component::Element(e) => ComponentView::Element(e@),
            Component::Close => ComponentView::Close,
        }
    }
}

/// A word of a command span: the leading verb, or one argument.
#[derive(Debug)]
pub enum Command {
    Flag(String),
    Argument(Argument),
}

pub enum CommandView {
    Flag(Seq<char>),
    Argument(ArgumentView),
}

impl View for Command {
    type V = CommandView;

    open spec fn view(&self) -> CommandView {
        match self {
            Command::Flag(s) => CommandView::Flag(s@),
            Command::Argument(a) => CommandView::Argument(a@),
        }
    }
}

/// A named, parameterized, reusable unit of template source.
#[derive(Debug)]
pub struct Block {
    pub name: String,
    pub param_names: Vec<String>,
    pub export: Option<Export>,
    pub elements: Vec<Element>,
}

pub struct BlockView {
    pub name: Seq<char>,
    pub param_names: Seq<Seq<char>>,
    pub export: Option<ExportView>,
    pub elements: Seq<ElementView>,
}

impl View for Block {
    type V = BlockView;

    open spec fn view(&self) -> BlockView {
        BlockView {
            name: self.name@,
            param_names: seq_view(self.param_names@),
            export: match &self.export {
                Some(e) => Some(e@),
                None => None,
            },
            elements: seq_view(self.elements@),
        }
    }
}

/// A malformed command span: the reason a command could not be parsed.
#[derive(Debug, PartialEq, Eq)]
pub enum GrammarError {
    /// The span was all whitespace, so no verb could be read.
    EmptyCommand,
    /// The first word of a command list was not a verb.
    FirstNotFlag,
    /// A command list with no words at all.
    EmptyCommandList,
    /// `n` without a bare name after it.
    OpenExpectsName,
    /// `p` with an argument that is not a bare name.
    ParamsExpectNames,
    /// `p` with no parameter names at all.
    ParamsMissing,
    /// `x` with an argument that is not a bare path token.
    ExportExpectsName,
    /// `u` or `ui` with no target.
    UseExpectsTarget,
    /// A leading verb that is none of the known commands.
    UnknownVerb(String),
}

pub enum GrammarErrorView {
    EmptyCommand,
    FirstNotFlag,
    EmptyCommandList,
    OpenExpectsName,
    ParamsExpectNames,
    ParamsMissing,
    ExportExpectsName,
    UseExpectsTarget,
    UnknownVerb(Seq<char>),
}

impl View for GrammarError {
    type V = GrammarErrorView;

    open spec fn view(&self) -> GrammarErrorView {
        match self {
            GrammarError::EmptyCommand => GrammarErrorView::EmptyCommand,
            GrammarError::FirstNotFlag => GrammarErrorView::FirstNotFlag,
            GrammarError::EmptyCommandList => GrammarErrorView::EmptyCommandList,
            GrammarError::OpenExpectsName => GrammarErrorView::OpenExpectsName,
            GrammarError::ParamsExpectNames => GrammarErrorView::ParamsExpectNames,
            GrammarError::ParamsMissing => GrammarErrorView::ParamsMissing,
            GrammarError::ExportExpectsName => GrammarErrorView::ExportExpectsName,
            GrammarError::UseExpectsTarget => GrammarErrorView::UseExpectsTarget,
            GrammarError::UnknownVerb(s) => GrammarErrorView::UnknownVerb(s@),
        }
    }
}

/// Every way a run can fail inside the engine. Failures are values carrying
/// what a caller needs to report them; no verified function panics.
#[derive(Debug, PartialEq, Eq)]
pub enum Error {
    /// A malformed command span, reported at the 1-based line and column of
    /// the character scanned after the span.
    Lex { line: usize, col: usize, reason: GrammarError },
    /// An `n` command before the enclosing block was closed.
    IllegalNesting(String),
    /// More than one `x` declaration in one block.
    MultipleExports,
    /// The same parameter name declared twice in one block.
    DuplicateParam(String),
    /// A block registered under a name the library already holds.
    NameTaken(String),
    /// A `use` of a block name the library does not hold.
    UnresolvedBlock(String),
    /// A `#name` reference with no parameter of that name in scope.
    UnresolvedParam(String),
    /// A block invoked with the wrong number of arguments.
    ArityMismatch { expected: usize, received: usize },
    /// Block references nested deeper than the renderer's recursion bound.
    RecursionLimit,
    /// Block exports still pending after the expansion round bound.
    ExpansionLimit,
    /// A failure inside the named block, wrapped with that context as it
    /// propagates up through a render by name.
    InBlock { name: String, cause: Box<Error> },
}

pub enum ErrorView {
    Lex { line: usize, col: usize, reason: GrammarErrorView },
    IllegalNesting(Seq<char>),
    MultipleExports,
    DuplicateParam(Seq<char>),
    NameTaken(Seq<char>),
    UnresolvedBlock(Seq<char>),
    UnresolvedParam(Seq<char>),
    ArityMismatch { expected: usize, received: usize },
    RecursionLimit,
    ExpansionLimit,
    InBlock { name: Seq<char>, cause: Box<ErrorView> },
}

/// The view of an engine error, wrapped contexts included.
pub open spec fn error_view(e: Error) -> ErrorView
    decreases e,
{
    match e {
        Error::Lex { line, col, reason } => (ErrorView::Lex { line, col, reason: reason@ }),
        Error::IllegalNesting(s) => ErrorView::IllegalNesting(s@),
        Error::MultipleExports => ErrorView::MultipleExports,
        Error::DuplicateParam(s) => ErrorView::DuplicateParam(s@),
        Error::NameTaken(s) => ErrorView::NameTaken(s@),
        Error::UnresolvedBlock(s) => ErrorView::UnresolvedBlock(s@),
        Error::UnresolvedParam(s) => ErrorView::UnresolvedParam(s@),
        Error::ArityMismatch { expected, received } => (ErrorView::ArityMismatch {
            expected,
            received,
        }),
        Error::RecursionLimit => ErrorView::RecursionLimit,
        Error::ExpansionLimit => ErrorView::ExpansionLimit,
        Error::InBlock { name, cause } => (ErrorView::InBlock {
            name: name@,
            cause: Box::new(error_view(*cause)),
        }),
    }
}

impl View for Error {
    type V = ErrorView;

    open spec fn view(&self) -> ErrorView {
        error_view(*self)
    }
}

/// A copy of an argument, equal to the original.
pub fn clone_argument(a: &Argument) -> (r: Argument)
    ensures
        r@ == a@,
{
    match a {
        Argument::Literal(s) => Argument::Literal(s.clone()),
        Argument::Name(s) => Argument::Name(s.clone()),
        Argument::ParamName(s) => Argument::ParamName(s.clone()),
    }
}

/// A copy of a resolved parameter, equal to the original.
pub fn clone_parameter(p: &Parameter) -> (r: Parameter)
    ensures
        r@ == p@,
{
    match p {
        Parameter::Literal(s) => Parameter::Literal(s.clone()),
        Parameter::Name(s) => Parameter::Name(s.clone()),
    }
}

/// A copy of a vector of arguments, equal element by element.
pub fn clone_arguments(v: &Vec<Argument>) -> (r: Vec<Argument>)
    ensures
        seq_view(r@) == seq_view(v@),
{
    let mut out: Vec<Argument> = Vec::new();
    let mut i: usize = 0;
    while i < v.len()
        invariant
            i <= v@.len(),
            seq_view(out@) == seq_view(v@).take(i as int),
        decreases v@.len() - i,
    {
        out.push(clone_argument(&v[i]));
        i = i + 1;
        proof {
            lemma_seq_view_push(out@.drop_last(), out@.last());
            assert(out@.drop_last().push(out@.last()) =~= out@);
            assert(seq_view(v@).take(i as int) =~= seq_view(v@).take(i as int - 1).push(
                v@[i as int - 1]@,
            ));
        }
    }
    proof {
        assert(seq_view(v@).take(v@.len() as int) =~= seq_view(v@));
    }
    out
}

/// A copy of an element, equal to the original.
pub fn clone_element(e: &Element) -> (r: Element)
    ensures
        r@ == e@,
{
    match e {
        Element::Content(s) => Element::Content(s.clone()),
        Element::UseBlock { indented, target, arguments } => {
            let args: Option<Vec<Argument>> = match arguments {
                Some(v) => Some(clone_arguments(v)),
                None => None,
            };
            Element::UseBlock { indented: *indented, target: clone_argument(target), arguments: args }
        },
    }
}

/// The view of a `Result` whose error is an engine error, with the payload
/// viewed through `f`'s own view.
pub open spec fn result_view<T: View>(r: Result<T, Error>) -> Result<T::V, ErrorView> {
    match r {
        Ok(v) => Ok(v@),
        Err(e) => Err(e@),
    }
}

/// The view of a unit result.
pub open spec fn unit_result_view(r: Result<(), Error>) -> Result<(), ErrorView> {
    match r {
        Ok(_) => Ok(()),
        Err(e) => Err(e@),
    }
}

} // verus!
