//! The lexer: a character-by-character state machine that splits source
//! text into alternating literal-content spans and command spans. The flag
//! character `^` followed by the start delimiter `|` opens a command, which
//! runs to the next `|`; a doubled flag `^^` escapes a literal flag
//! character; one newline immediately after a command is swallowed, except
//! after a `u`/`ui` command, whose following newline is kept. 1-based line
//! and column counters locate a malformed command for error reporting.

use vstd::prelude::*;
use crate::ast::{
    Component, ComponentView, Element, ElementView, Error, ErrorView, GrammarError,
    GrammarErrorView, seq_view,
};
use crate::grammar::dispatch_command;
use crate::text::chars_to_string;

verus! {

broadcast use crate::ast::lemma_seq_view_push, crate::ast::lemma_seq_view_add;

/// The character that announces a command.
pub const COMMAND_FLAG: char = '^';

/// The delimiter that opens a command span after the flag.
pub const COMMAND_START: char = '|';

/// The delimiter that closes a command span.
pub const COMMAND_END: char = '|';

/// The lexer's states.
pub enum LexStateView {
    /// Buffering literal content.
    Content,
    /// A flag character was just read.
    CommandFlag,
    /// Inside a command span.
    Command,
    /// A command just closed; one immediately following newline is dropped.
    SkipNewline,
    /// A doubled flag: the escape that buffers literal flag characters.
    CancelledFlag,
    /// A malformed command was read; scanning the next character fails.
    Invalid(GrammarErrorView),
}

pub enum LexState {
    Content,
    CommandFlag,
    Command,
    SkipNewline,
    CancelledFlag,
    Invalid(GrammarError),
}

impl View for LexState {
    type V = LexStateView;

    open spec fn view(&self) -> LexStateView {
        match self {
            LexState::Content => LexStateView::Content,
            LexState::CommandFlag => LexStateView::CommandFlag,
            LexState::Command => LexStateView::Command,
            LexState::SkipNewline => LexStateView::SkipNewline,
            LexState::CancelledFlag => LexStateView::CancelledFlag,
            LexState::Invalid(e) => LexStateView::Invalid(e@),
        }
    }
}

/// A counter increment that stops at the machine bound instead of wrapping.
pub open spec fn sat_inc(x: usize) -> usize {
    if x == usize::MAX {
        x
    } else {
        (x + 1) as usize
    }
}

/// The buffered content flushed as an element: empty buffers contribute
/// nothing.
pub open spec fn flush_content(buf: Seq<char>, comps: Seq<ComponentView>) -> Seq<ComponentView> {
    if buf.len() == 0 {
        comps
    } else {
        comps.push(ComponentView::Element(ElementView::Content(buf)))
    }
}

/// The state after a command closes: a newline is swallowed, except right
/// after a `use` element.
pub open spec fn after_state(comps: Seq<ComponentView>) -> LexStateView {
    if comps.len() == 0 {
        LexStateView::SkipNewline
    } else {
        match comps.last() {
            ComponentView::Element(ElementView::UseBlock { .. }) => LexStateView::Content,
            _ => LexStateView::SkipNewline,
        }
    }
}

/// Closing a command span: a non-empty span is dispatched to the grammar;
/// a malformed one leaves the machine in its failing state.
pub open spec fn close_command_step(buf: Seq<char>, comps: Seq<ComponentView>) -> (LexStateView,
    Seq<ComponentView>,
) {
    if buf.len() == 0 {
        (after_state(comps), comps)
    } else {
        match dispatch_command(buf) {
            Err(e) => (LexStateView::Invalid(e), comps),
            Ok(cs) => (after_state(comps + cs), comps + cs),
        }
    }
}

/// The machine run over `s` from position `i` in the given state: the
/// component stream it produces, or the error that stops it. At the end of
/// input a failing state reports the position last scanned (a malformed
/// command is fatal wherever it stands), and any remaining buffered text
/// is flushed as content, so an unterminated command span falls back to
/// content.
pub open spec fn lex_from(
    s: Seq<char>,
    i: int,
    st: LexStateView,
    buf: Seq<char>,
    comps: Seq<ComponentView>,
    line: usize,
    col: usize,
) -> Result<Seq<ComponentView>, ErrorView>
    decreases s.len() - i,
{
    if i < 0 || i >= s.len() {
        match st {
            LexStateView::Invalid(reason) => Err(ErrorView::Lex { line, col, reason }),
            _ => Ok(flush_content(buf, comps)),
        }
    } else {
        let c = s[i];
        let line2 = if c == '\n' {
            sat_inc(line)
        } else {
            line
        };
        let col2 = if c == '\n' {
            1 as usize
        } else {
            sat_inc(col)
        };
        match st {
            LexStateView::Invalid(reason) => Err(
                ErrorView::Lex { line: line2, col: col2, reason },
            ),
            LexStateView::Content => if c == COMMAND_FLAG {
                lex_from(s, i + 1, LexStateView::CommandFlag, buf, comps, line2, col2)
            } else {
                lex_from(s, i + 1, LexStateView::Content, buf.push(c), comps, line2, col2)
            },
            LexStateView::CommandFlag => if c == COMMAND_START {
                lex_from(
                    s,
                    i + 1,
                    LexStateView::Command,
                    Seq::empty(),
                    flush_content(buf, comps),
                    line2,
                    col2,
                )
            } else if c == COMMAND_FLAG {
                lex_from(s, i + 1, LexStateView::CancelledFlag, buf.push(c), comps, line2, col2)
            } else {
                lex_from(
                    s,
                    i + 1,
                    LexStateView::Content,
                    buf.push(COMMAND_FLAG).push(c),
                    comps,
                    line2,
                    col2,
                )
            },
            LexStateView::Command => if c == COMMAND_END {
                let (st2, comps2) = close_command_step(buf, comps);
                lex_from(s, i + 1, st2, Seq::empty(), comps2, line2, col2)
            } else {
                lex_from(s, i + 1, LexStateView::Command, buf.push(c), comps, line2, col2)
            },
            LexStateView::SkipNewline => if c == '\n' {
                lex_from(s, i + 1, LexStateView::Content, buf, comps, line2, col2)
            } else {
                lex_from(s, i + 1, LexStateView::Content, buf.push(c), comps, line2, col2)
            },
            LexStateView::CancelledFlag => if c == COMMAND_FLAG {
                lex_from(s, i + 1, LexStateView::CancelledFlag, buf.push(c), comps, line2, col2)
            } else {
                lex_from(s, i + 1, LexStateView::Content, buf.push(c), comps, line2, col2)
            },
        }
    }
}

/// The component stream of a whole source text.
pub open spec fn lex_spec(s: Seq<char>) -> Result<Seq<ComponentView>, ErrorView> {
    lex_from(s, 0, LexStateView::Content, Seq::empty(), Seq::empty(), 1, 0)
}

/// The state after the command that just closed, read off the last
/// component produced so far.
fn state_after_last(comps: &Vec<Component>) -> (r: LexState)
    ensures
        r@ == after_state(seq_view(comps@)),
{
    if comps.len() == 0 {
        LexState::SkipNewline
    } else {
        match &comps[comps.len() - 1] {
            Component::Element(Element::UseBlock { .. }) => LexState::Content,
            _ => LexState::SkipNewline,
        }
    }
}

/// Scans a source text into its component stream.
#[verifier::loop_isolation(false)]
pub fn scan_components(v: &Vec<char>) -> (r: Result<Vec<Component>, Error>)
    ensures
        match r {
            Ok(comps) => lex_spec(v@) == Ok::<_, ErrorView>(seq_view(comps@)),
            Err(e) => lex_spec(v@) == Err::<Seq<ComponentView>, _>(e@),
        },
{
    let mut i: usize = 0;
    let mut st = LexState::Content;
    let mut buf: Vec<char> = Vec::new();
    let mut comps: Vec<Component> = Vec::new();
    let mut line: usize = 1;
    let mut col: usize = 0;
    proof {
        assert(seq_view(comps@) =~= Seq::<ComponentView>::empty());
        assert(buf@ =~= Seq::<char>::empty());
    }
    while i < v.len()
        invariant
            i <= v@.len(),
            lex_from(v@, i as int, st@, buf@, seq_view(comps@), line, col) == lex_spec(v@),
        decreases v@.len() - i,
    {
        let ghost st0 = st@;
        let ghost buf0 = buf@;
        let ghost comps0 = seq_view(comps@);
        let ghost line0 = line;
        let ghost col0 = col;
        let c = v[i];
        if c == '\n' {
            line = if line == usize::MAX {
                line
            } else {
                line + 1
            };
            col = 1;
        } else {
            col = if col == usize::MAX {
                col
            } else {
                col + 1
            };
        }
        st = match st {
            LexState::Invalid(reason) => {
                return Err(Error::Lex { line, col, reason });
            },
            LexState::Content => {
                if c == COMMAND_FLAG {
                    LexState::CommandFlag
                } else {
                    buf.push(c);
                    LexState::Content
                }
            },
            LexState::CommandFlag => {
                if c == COMMAND_START {
                    if buf.len() > 0 {
                        let content = chars_to_string(&buf);
                        comps.push(Component::Element(Element::Content(content)));
                        buf.clear();
                    }
                    proof {
                        assert(buf@ =~= Seq::<char>::empty());
                        assert(seq_view(comps@) == flush_content(buf0, comps0));
                    }
                    LexState::Command
                } else if c == COMMAND_FLAG {
                    buf.push(c);
                    LexState::CancelledFlag
                } else {
                    buf.push(COMMAND_FLAG);
                    buf.push(c);
                    LexState::Content
                }
            },
            LexState::Command => {
                if c == COMMAND_END {
                    if buf.len() > 0 {
                        let parsed = crate::grammar::commands_from_chars(&buf);
                        buf.clear();
                        proof {
                            assert(buf@ =~= Seq::<char>::empty());
                        }
                        match parsed {
                            Err(e) => LexState::Invalid(e),
                            Ok(cs) => {
                                match crate::grammar::components_from_commands(&cs) {
                                    Err(e) => LexState::Invalid(e),
                                    Ok(mut newc) => {
                                        comps.append(&mut newc);
                                        state_after_last(&comps)
                                    },
                                }
                            },
                        }
                    } else {
                        state_after_last(&comps)
                    }
                } else {
                    buf.push(c);
                    LexState::Command
                }
            },
            LexState::SkipNewline => {
                if c == '\n' {
                    LexState::Content
                } else {
                    buf.push(c);
                    LexState::Content
                }
            },
            LexState::CancelledFlag => {
                if c == COMMAND_FLAG {
                    buf.push(c);
                    LexState::CancelledFlag
                } else {
                    buf.push(c);
                    LexState::Content
                }
            },
        };
        i = i + 1;
        proof {
            if st0 is Command && v@[i as int - 1] == COMMAND_END {
                let (st2, comps2) = close_command_step(buf0, comps0);
                assert(buf@ =~= Seq::<char>::empty());
                assert(seq_view(comps@) == comps2);
                assert(st@ == st2);
            }
            assert(lex_from(v@, i as int, st@, buf@, seq_view(comps@), line, col) == lex_from(
                v@,
                i as int - 1,
                st0,
                buf0,
                comps0,
                line0,
                col0,
            ));
        }
    }
    if let LexState::Invalid(reason) = st {
        return Err(Error::Lex { line, col, reason });
    }
    if buf.len() > 0 {
        let content = chars_to_string(&buf);
        comps.push(Component::Element(Element::Content(content)));
    }
    Ok(comps)
}

} // verus!
