//! The command grammar: a command span (the text between the command
//! delimiters) is split on whitespace and on the argument sigils `#name`
//! (parameter reference) and `(text)` (literal, no nested parentheses); the
//! first word is the verb. The five verbs are `n` (open a block), `p`
//! (declare parameters), `x` (declare an export), `u`/`ui` (use a block,
//! plain or indentation-propagating) and `e` (close the block).

use vstd::prelude::*;
use crate::ast::{
    Argument, ArgumentView, Attribute, AttributeView, Command, CommandView, Component,
    ComponentView, Element, ElementView, Export, ExportView, GrammarError, GrammarErrorView,
    clone_argument, seq_view,
};
use crate::text::{copy_range, is_space, is_space_char, str_equal};

verus! {

broadcast use crate::ast::lemma_seq_view_push;

/// Length of the word starting at `i`: the run of non-whitespace characters.
pub open spec fn word_len(s: Seq<char>, i: int) -> nat
    decreases s.len() - i,
{
    if i < 0 || i >= s.len() || is_space_char(s[i]) {
        0
    } else {
        (1 + word_len(s, i + 1)) as nat
    }
}

/// Index just past the word starting at `i`.
pub open spec fn word_end(s: Seq<char>, i: int) -> int {
    i + word_len(s, i)
}

/// Length of the run of characters other than `)` starting at `i`.
pub open spec fn paren_len(s: Seq<char>, i: int) -> nat
    decreases s.len() - i,
{
    if i < 0 || i >= s.len() || s[i] == ')' {
        0
    } else {
        (1 + paren_len(s, i + 1)) as nat
    }
}

/// Index of the `)` closing a literal opened before `i`, or the end of the
/// span when it never closes.
pub open spec fn paren_end(s: Seq<char>, i: int) -> int {
    i + paren_len(s, i)
}

/// Index of the next unread character once the delimiter at `e` (a
/// whitespace character or a closing parenthesis) has been consumed.
pub open spec fn step_past(s: Seq<char>, e: int) -> int {
    if e + 1 <= s.len() {
        e + 1
    } else {
        s.len() as int
    }
}

/// The words after the verb, each parsed as an argument: `#name` is a
/// parameter reference, `(text)` is a literal, anything else a bare name
/// (which keeps every character up to the next whitespace, including the
/// one that ended the scan of the sigil-free word before it).
pub open spec fn parse_args_from(s: Seq<char>, i: int, acc: Seq<CommandView>) -> Seq<CommandView>
    decreases s.len() - i,
{
    if i < 0 || i >= s.len() {
        acc
    } else if s[i] == '#' {
        let e = word_end(s, i + 1);
        parse_args_from(
            s,
            step_past(s, e),
            acc.push(CommandView::Argument(ArgumentView::ParamName(s.subrange(i + 1, e)))),
        )
    } else if s[i] == '(' {
        let e = paren_end(s, i + 1);
        parse_args_from(
            s,
            step_past(s, e),
            acc.push(CommandView::Argument(ArgumentView::Literal(s.subrange(i + 1, e)))),
        )
    } else {
        let e = word_end(s, i + 1);
        parse_args_from(
            s,
            step_past(s, e),
            acc.push(CommandView::Argument(ArgumentView::Name(s.subrange(i, e)))),
        )
    }
}

/// A command span split into its verb and arguments. A span that starts
/// with whitespace (or is empty) has no verb and is malformed.
pub open spec fn commands_of(s: Seq<char>) -> Result<Seq<CommandView>, GrammarErrorView> {
    let e = word_end(s, 0);
    if e == 0 {
        Err(GrammarErrorView::EmptyCommand)
    } else {
        Ok(parse_args_from(s, step_past(s, e), seq![CommandView::Flag(s.subrange(0, e))]))
    }
}

/// The parameter declarations after a `p` verb: every word must be a bare
/// name.
pub open spec fn params_from(cmds: Seq<CommandView>, i: int, acc: Seq<ComponentView>) -> Result<
    Seq<ComponentView>,
    GrammarErrorView,
>
    decreases cmds.len() - i,
{
    if i < 0 || i >= cmds.len() {
        Ok(acc)
    } else {
        match cmds[i] {
            CommandView::Argument(ArgumentView::Name(n)) => params_from(
                cmds,
                i + 1,
                acc.push(ComponentView::Attribute(AttributeView::ParamName(n))),
            ),
            _ => Err(GrammarErrorView::ParamsExpectNames),
        }
    }
}

/// The arguments after a `u`/`ui` verb and its target, in order.
pub open spec fn use_args_from(cmds: Seq<CommandView>, i: int, acc: Seq<ArgumentView>) -> Seq<
    ArgumentView,
>
    decreases cmds.len() - i,
{
    if i < 0 || i >= cmds.len() {
        acc
    } else {
        match cmds[i] {
            CommandView::Argument(a) => use_args_from(cmds, i + 1, acc.push(a)),
            CommandView::Flag(_) => use_args_from(cmds, i + 1, acc),
        }
    }
}

/// The components a split command span contributes to the stream, by verb.
pub open spec fn components_of_commands(cmds: Seq<CommandView>) -> Result<
    Seq<ComponentView>,
    GrammarErrorView,
> {
    if cmds.len() == 0 {
        Err(GrammarErrorView::EmptyCommandList)
    } else {
        match cmds[0] {
            CommandView::Argument(_) => Err(GrammarErrorView::FirstNotFlag),
            CommandView::Flag(flag) => if flag == seq!['n'] {
                if cmds.len() < 2 {
                    Err(GrammarErrorView::OpenExpectsName)
                } else {
                    match cmds[1] {
                        CommandView::Argument(ArgumentView::Name(n)) => Ok(
                            seq![ComponentView::Open { name: n }],
                        ),
                        _ => Err(GrammarErrorView::OpenExpectsName),
                    }
                }
            } else if flag == seq!['p'] {
                if cmds.len() == 1 {
                    Err(GrammarErrorView::ParamsMissing)
                } else {
                    params_from(cmds, 1, Seq::empty())
                }
            } else if flag == seq!['x'] {
                if cmds.len() == 1 {
                    Ok(seq![ComponentView::Attribute(AttributeView::Export(ExportView::ToBlock))])
                } else {
                    match cmds[1] {
                        CommandView::Argument(ArgumentView::Name(p)) => Ok(
                            seq![
                                ComponentView::Attribute(
                                    AttributeView::Export(ExportView::ToFile(p)),
                                )
                            ],
                        ),
                        _ => Err(GrammarErrorView::ExportExpectsName),
                    }
                }
            } else if flag == seq!['u'] || flag == seq!['u', 'i'] {
                if cmds.len() < 2 {
                    Err(GrammarErrorView::UseExpectsTarget)
                } else {
                    match cmds[1] {
                        CommandView::Argument(a) => {
                            let args = use_args_from(cmds, 2, Seq::empty());
                            Ok(
                                seq![
                                    ComponentView::Element(
                                        ElementView::UseBlock {
                                            indented: flag == seq!['u', 'i'],
                                            target: a,
                                            arguments: if args.len() == 0 {
                                                None
                                            } else {
                                                Some(args)
                                            },
                                        },
                                    )
                                ],
                            )
                        },
                        CommandView::Flag(_) => Err(GrammarErrorView::UseExpectsTarget),
                    }
                }
            } else if flag == seq!['e'] {
                Ok(seq![ComponentView::Close])
            } else {
                Err(GrammarErrorView::UnknownVerb(flag))
            },
        }
    }
}

/// What a whole command span contributes: split into words, then dispatch
/// on the verb.
pub open spec fn dispatch_command(cmd: Seq<char>) -> Result<Seq<ComponentView>, GrammarErrorView> {
    match commands_of(cmd) {
        Ok(cs) => components_of_commands(cs),
        Err(e) => Err(e),
    }
}

/// Index just past the word starting at `start`.
pub fn find_word_end(v: &Vec<char>, start: usize) -> (r: usize)
    requires
        start <= v@.len(),
    ensures
        r == word_end(v@, start as int),
        start <= r <= v@.len(),
{
    let mut i: usize = start;
    while i < v.len() && !is_space(v[i])
        invariant
            start <= i <= v@.len(),
            word_end(v@, i as int) == word_end(v@, start as int),
        decreases v@.len() - i,
    {
        i = i + 1;
    }
    i
}

/// Index of the closing `)` at or after `start`, or the end of the span.
pub fn find_paren_end(v: &Vec<char>, start: usize) -> (r: usize)
    requires
        start <= v@.len(),
    ensures
        r == paren_end(v@, start as int),
        start <= r <= v@.len(),
{
    let mut i: usize = start;
    while i < v.len() && v[i] != ')'
        invariant
            start <= i <= v@.len(),
            paren_end(v@, i as int) == paren_end(v@, start as int),
        decreases v@.len() - i,
    {
        i = i + 1;
    }
    i
}

/// A command span split into its verb and arguments.
pub fn commands_from_chars(cmd: &Vec<char>) -> (r: Result<Vec<Command>, GrammarError>)
    ensures
        match r {
            Ok(cs) => commands_of(cmd@) == Ok::<_, GrammarErrorView>(seq_view(cs@)),
            Err(e) => commands_of(cmd@) == Err::<Seq<CommandView>, _>(e@),
        },
{
    let e0 = find_word_end(cmd, 0);
    if e0 == 0 {
        return Err(GrammarError::EmptyCommand);
    }
    let mut out: Vec<Command> = Vec::new();
    out.push(Command::Flag(copy_range(cmd, 0, e0)));
    let mut i: usize = if e0 < cmd.len() {
        e0 + 1
    } else {
        cmd.len()
    };
    proof {
        assert(i as int == step_past(cmd@, e0 as int));
        assert(seq_view(out@) =~= seq![CommandView::Flag(cmd@.subrange(0, e0 as int))]);
    }
    while i < cmd.len()
        invariant
            i <= cmd@.len(),
            parse_args_from(cmd@, i as int, seq_view(out@)) == parse_args_from(
                cmd@,
                step_past(cmd@, word_end(cmd@, 0)),
                seq![CommandView::Flag(cmd@.subrange(0, word_end(cmd@, 0)))],
            ),
        decreases cmd@.len() - i,
    {
        let c = cmd[i];
        if c == '#' {
            let e = find_word_end(cmd, i + 1);
            out.push(Command::Argument(Argument::ParamName(copy_range(cmd, i + 1, e))));
            i = if e < cmd.len() {
                e + 1
            } else {
                cmd.len()
            };
        } else if c == '(' {
            let e = find_paren_end(cmd, i + 1);
            out.push(Command::Argument(Argument::Literal(copy_range(cmd, i + 1, e))));
            i = if e < cmd.len() {
                e + 1
            } else {
                cmd.len()
            };
        } else {
            let e = find_word_end(cmd, i + 1);
            out.push(Command::Argument(Argument::Name(copy_range(cmd, i, e))));
            i = if e < cmd.len() {
                e + 1
            } else {
                cmd.len()
            };
        }
    }
    Ok(out)
}

/// The components a split command span contributes to the stream, by verb.
#[verifier::loop_isolation(false)]
pub fn components_from_commands(cmds: &Vec<Command>) -> (r: Result<Vec<Component>, GrammarError>)
    ensures
        match r {
            Ok(v) => components_of_commands(seq_view(cmds@)) == Ok::<_, GrammarErrorView>(
                seq_view(v@),
            ),
            Err(e) => components_of_commands(seq_view(cmds@)) == Err::<Seq<ComponentView>, _>(e@),
        },
{
    proof {
        reveal_strlit("n");
        reveal_strlit("p");
        reveal_strlit("x");
        reveal_strlit("u");
        reveal_strlit("ui");
        reveal_strlit("e");
        assert("n"@ =~= seq!['n']);
        assert("p"@ =~= seq!['p']);
        assert("x"@ =~= seq!['x']);
        assert("u"@ =~= seq!['u']);
        assert("ui"@ =~= seq!['u', 'i']);
        assert("e"@ =~= seq!['e']);
    }
    if cmds.len() == 0 {
        return Err(GrammarError::EmptyCommandList);
    }
    match &cmds[0] {
        Command::Argument(_) => Err(GrammarError::FirstNotFlag),
        Command::Flag(flag) => {
            if str_equal(flag.as_str(), "n") {
                if cmds.len() < 2 {
                    return Err(GrammarError::OpenExpectsName);
                }
                match &cmds[1] {
                    Command::Argument(Argument::Name(n)) => {
                        let out: Vec<Component> = vec![Component::Open { name: n.clone() }];
                        proof {
                            assert(seq_view(out@) =~= seq![ComponentView::Open { name: n@ }]);
                        }
                        Ok(out)
                    },
                    _ => Err(GrammarError::OpenExpectsName),
                }
            } else if str_equal(flag.as_str(), "p") {
                if cmds.len() == 1 {
                    return Err(GrammarError::ParamsMissing);
                }
                let mut out: Vec<Component> = Vec::new();
                let mut i: usize = 1;
                proof {
                    assert(seq_view(out@) =~= Seq::<ComponentView>::empty());
                }
                while i < cmds.len()
                    invariant
                        1 <= i <= cmds@.len(),
                        params_from(seq_view(cmds@), i as int, seq_view(out@)) == params_from(
                            seq_view(cmds@),
                            1,
                            Seq::empty(),
                        ),
                    decreases cmds@.len() - i,
                {
                    match &cmds[i] {
                        Command::Argument(Argument::Name(n)) => {
                            out.push(Component::Attribute(Attribute::ParamName(n.clone())));
                        },
                        _ => {
                            return Err(GrammarError::ParamsExpectNames);
                        },
                    }
                    i = i + 1;
                }
                Ok(out)
            } else if str_equal(flag.as_str(), "x") {
                if cmds.len() == 1 {
                    let out: Vec<Component> = vec![
                        Component::Attribute(Attribute::Export(Export::ToBlock)),
                    ];
                    proof {
                        assert(seq_view(out@) =~= seq![
                            ComponentView::Attribute(AttributeView::Export(ExportView::ToBlock)),
                        ]);
                    }
                    return Ok(out);
                }
                match &cmds[1] {
                    Command::Argument(Argument::Name(p)) => {
                        let out: Vec<Component> = vec![
                            Component::Attribute(Attribute::Export(Export::ToFile(p.clone()))),
                        ];
                        proof {
                            assert(seq_view(out@) =~= seq![
                                ComponentView::Attribute(
                                    AttributeView::Export(ExportView::ToFile(p@)),
                                ),
                            ]);
                        }
                        Ok(out)
                    },
                    _ => Err(GrammarError::ExportExpectsName),
                }
            } else if str_equal(flag.as_str(), "u") || str_equal(flag.as_str(), "ui") {
                let indented = str_equal(flag.as_str(), "ui");
                if cmds.len() < 2 {
                    return Err(GrammarError::UseExpectsTarget);
                }
                match &cmds[1] {
                    Command::Argument(a) => {
                        let target = clone_argument(a);
                        let mut args: Vec<Argument> = Vec::new();
                        let mut i: usize = 2;
                        proof {
                            assert(seq_view(args@) =~= Seq::<ArgumentView>::empty());
                        }
                        while i < cmds.len()
                            invariant
                                2 <= i <= cmds@.len(),
                                use_args_from(seq_view(cmds@), i as int, seq_view(args@))
                                    == use_args_from(seq_view(cmds@), 2, Seq::empty()),
                            decreases cmds@.len() - i,
                        {
                            match &cmds[i] {
                                Command::Argument(a2) => {
                                    args.push(clone_argument(a2));
                                },
                                Command::Flag(_) => {},
                            }
                            i = i + 1;
                        }
                        let arguments: Option<Vec<Argument>> = if args.len() == 0 {
                            None
                        } else {
                            Some(args)
                        };
                        let out: Vec<Component> = vec![
                            Component::Element(
                                Element::UseBlock { indented, target, arguments },
                            ),
                        ];
                        proof {
                            let argsv = use_args_from(seq_view(cmds@), 2, Seq::empty());
                            assert(seq_view(out@) =~= seq![
                                ComponentView::Element(
                                    ElementView::UseBlock {
                                        indented: seq_view(cmds@)[0]
                                            == CommandView::Flag(seq!['u', 'i']),
                                        target: a@,
                                        arguments: if argsv.len() == 0 {
                                            None
                                        } else {
                                            Some(argsv)
                                        },
                                    },
                                )
                            ]);
                        }
                        Ok(out)
                    },
                    Command::Flag(_) => Err(GrammarError::UseExpectsTarget),
                }
            } else if str_equal(flag.as_str(), "e") {
                let out: Vec<Component> = vec![Component::Close];
                proof {
                    assert(seq_view(out@) =~= seq![ComponentView::Close]);
                }
                Ok(out)
            } else {
                Err(GrammarError::UnknownVerb(flag.clone()))
            }
        },
    }
}

} // verus!
