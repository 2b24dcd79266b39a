//! Laws of the builder and of the classifier, each proved from the model.

use vstd::prelude::*;
use crate::classify::{is_option_token, option_key};
use crate::cmd::CmdView;
use crate::error::ErrorKind;
use crate::input::InputView;
use crate::opt::{ArgView, OptView};
use crate::text::has_alphanumeric;

verus! {

/// Once a command holds an error, every builder call gives it back unchanged.
pub proof fn lemma_builder_sticky(c: CmdView, a: ArgView, child: CmdView, o: OptView)
    requires
        c.is_err(),
    ensures
        c.add_arg(a) == c,
        c.add_cmd(child) == c,
        c.add_opt(o) == c,
{
}

/// Of two child commands with one name, added one after the other to a
/// command that holds no error, the second leaves the command with
/// `InvalidCommandName` latched; whatever the builder is asked next changes
/// nothing.
pub proof fn lemma_duplicate_command(
    root: CmdView,
    first: CmdView,
    second: CmdView,
    a: ArgView,
    child: CmdView,
    o: OptView,
)
    requires
        !root.is_err(),
        first.name == second.name,
    ensures
        ({
            let built = root.add_cmd(first).add_cmd(second);
            &&& built.err == Some(ErrorKind::InvalidCommandName)
            &&& built.add_arg(a) == built
            &&& built.add_cmd(child) == built
            &&& built.add_opt(o) == built
        }),
{
}

/// An option whose short name is the name of an option that was already
/// accepted is refused with `InvalidOptionShortName`, provided that its own
/// name is free and holds an ASCII letter or digit.
pub proof fn lemma_short_name_collision(root: CmdView, first: OptView, second: OptView)
    requires
        !root.add_opt(first).is_err(),
        second.short_name == first.name,
        !root.add_opt(first).opts.contains_key(second.name),
        has_alphanumeric(second.name),
    ensures
        root.add_opt(first).add_opt(second) == root.add_opt(first).fail(
            ErrorKind::InvalidOptionShortName,
        ),
{
}

/// A dashed token that names an option without a value yields that option
/// with an empty value, and consumes one token.
pub proof fn lemma_flag(c: CmdView)
    requires
        c.wf(),
        c.cursor < c.tokens.len(),
        is_option_token(c.tokens[c.cursor as int]),
        c.opts.contains_key(option_key(c.tokens[c.cursor as int])),
        c.opts[option_key(c.tokens[c.cursor as int])].require_value is None,
    ensures
        c.step().1 == Some(
            InputView::Opt(c.opts[option_key(c.tokens[c.cursor as int])], Seq::empty()),
        ),
        c.step().0 == c.at(c.cursor + 1),
{
}

/// A dashed token that names an option with a value, a token following it,
/// yields the option with that token as its value, and consumes both.
pub proof fn lemma_option_takes_value(c: CmdView)
    requires
        c.wf(),
        c.cursor + 1 < c.tokens.len(),
        is_option_token(c.tokens[c.cursor as int]),
        c.opts.contains_key(option_key(c.tokens[c.cursor as int])),
        c.opts[option_key(c.tokens[c.cursor as int])].require_value is Some,
    ensures
        c.step().1 == Some(
            InputView::Opt(
                c.opts[option_key(c.tokens[c.cursor as int])],
                c.tokens[(c.cursor + 1) as int],
            ),
        ),
        c.step().0 == c.at(c.cursor + 2),
{
}

/// A dashed token that names an option with a mandatory value and stands
/// last in the buffer yields `OptionRequiresValue`; one whose value is
/// optional yields the option with an empty value.
pub proof fn lemma_option_without_value(c: CmdView)
    requires
        c.wf(),
        c.cursor + 1 == c.tokens.len(),
        is_option_token(c.tokens[c.cursor as int]),
        c.opts.contains_key(option_key(c.tokens[c.cursor as int])),
    ensures
        ({
            let opt = c.opts[option_key(c.tokens[c.cursor as int])];
            &&& opt.require_value == Some(true) ==> c.step().1 == Some(
                InputView::Error(ErrorKind::OptionRequiresValue),
            )
            &&& opt.require_value == Some(false) ==> c.step().1 == Some(
                InputView::Opt(opt, Seq::empty()),
            )
            &&& opt.require_value is Some ==> c.step().0 == c.at(c.tokens.len() + 1)
        }),
{
}

/// A token that names a child command yields that child with all the tokens
/// from that one on as its buffer, and leaves the parent nothing to yield.
pub proof fn lemma_delegation(c: CmdView)
    requires
        c.cursor < c.tokens.len(),
        !is_option_token(c.tokens[c.cursor as int]),
        c.cmds.contains_key(c.tokens[c.cursor as int]),
    ensures
        c.step().1 == Some(
            InputView::Cmd(
                c.cmds[c.tokens[c.cursor as int]].with_tokens(c.tokens.skip(c.cursor as int)),
            ),
        ),
        c.step().0.remaining() == 0,
        c.step().0.step() == (c.step().0, None::<InputView>),
{
}

/// Where no positional argument is declared, a token that is neither an
/// option nor a child command yields `TooManyArguments`.
pub proof fn lemma_no_arguments(c: CmdView)
    requires
        c.args.len() == 0,
        c.cursor < c.tokens.len(),
        !is_option_token(c.tokens[c.cursor as int]),
        !c.cmds.contains_key(c.tokens[c.cursor as int]),
    ensures
        c.step().1 == Some(InputView::Error(ErrorKind::TooManyArguments)),
        c.step().0 == c.at(c.cursor + 1),
{
}

/// A token of one or two dashes yields `EmptyOption` and latches it, and
/// no step after it yields anything, whatever the buffer still holds and
/// whatever options are declared.
pub proof fn lemma_empty_option(c: CmdView)
    requires
        c.cursor < c.tokens.len(),
        c.tokens[c.cursor as int] == seq!['-'] || c.tokens[c.cursor as int] == seq!['-', '-'],
    ensures
        c.step().1 == Some(InputView::Error(ErrorKind::EmptyOption)),
        c.step().0.err == Some(ErrorKind::EmptyOption),
        c.step().0.tokens == c.tokens,
        c.step().0.step() == (c.step().0, None::<InputView>),
        c.inputs() == seq![InputView::Error(ErrorKind::EmptyOption)],
{
    let token = c.tokens[c.cursor as int];
    assert(is_option_token(token));
    assert(option_key(token) =~= Seq::<char>::empty());
    let after = c.step().0;
    assert(after.inputs() =~= Seq::<InputView>::empty());
    assert(c.inputs() =~= seq![InputView::Error(ErrorKind::EmptyOption)]);
}

/// With nothing left to classify, a step yields nothing and changes nothing.
pub proof fn lemma_exhausted(c: CmdView)
    requires
        c.remaining() == 0,
    ensures
        c.step() == (c, None::<InputView>),
{
}

/// A step that yields an input consumes at least one token, so the sequence
/// of inputs is no longer than the buffer.
pub proof fn lemma_progress(c: CmdView)
    requires
        c.step().1 is Some,
    ensures
        c.step().0.remaining() < c.remaining(),
{
}

/// The classifier yields no more inputs than tokens are left, and once a
/// step has yielded nothing no later step yields anything.
pub proof fn lemma_inputs_finite(c: CmdView)
    ensures
        c.inputs().len() <= c.remaining(),
        c.finish().remaining() == 0,
        c.finish().step() == (c.finish(), None::<InputView>),
    decreases c.remaining(),
{
    if c.step().1 is Some {
        lemma_inputs_finite(c.step().0);
    }
}

/// A child command is the last input of its parent, which has handed the
/// child all that was left; and `EmptyOption` is the last input of the
/// command that yields it.
pub proof fn lemma_last_input(c: CmdView, i: int)
    requires
        0 <= i < c.inputs().len(),
        c.inputs()[i] is Cmd || c.inputs()[i] == InputView::Error(ErrorKind::EmptyOption),
    ensures
        i == c.inputs().len() - 1,
    decreases c.remaining(),
{
    let after = c.step().0;
    if i == 0 {
        assert(after.remaining() == 0);
        assert(after.inputs().len() == 0);
    } else {
        assert(c.inputs()[i] == after.inputs()[i - 1]);
        lemma_last_input(after, i - 1);
    }
}

/// A step changes nothing but the two cursors and the latched error: what
/// the command declares and the tokens that it holds stay as they are.
pub proof fn lemma_step_frame(c: CmdView)
    ensures
        ({
            let after = c.step().0;
            after == (CmdView {
                err: after.err,
                arg_cursor: after.arg_cursor,
                cursor: after.cursor,
                ..c
            })
        }),
        c.step().0.cursor >= c.cursor,
        c.step().0.arg_cursor >= c.arg_cursor,
        c.arg_cursor <= c.args.len() ==> c.step().0.arg_cursor <= c.args.len(),
{
}

} // verus!
