//! The token classifier: one step of it takes the token under the cursor
//! and says what it is.

use vstd::prelude::*;
use crate::cmd::{Cmd, CmdView, find_cmd, find_opt, lemma_child_wf};
use crate::error::{Error, ErrorKind};
use crate::input::{Input, InputView, input_view, input_views};
use crate::text::chars_of;
use crate::wellformed::lemma_step_wf;

verus! {

/// Whether `token` begins with a dash.
pub open spec fn is_option_token(token: Seq<char>) -> bool {
    token.len() > 0 && token[0] == '-'
}

/// A dashed token without its dashes: without two where it begins with
/// two, else without one.
pub open spec fn option_key(token: Seq<char>) -> Seq<char> {
    if token.len() > 1 && token[1] == '-' {
        token.skip(2)
    } else {
        token.skip(1)
    }
}

impl CmdView {
    /// What the dashed token under the cursor gives, `key` being what follows
    /// its dashes.
    ///
    /// Dashes alone yield `EmptyOption`, latch it and end the sequence: the
    /// cursor goes to the end of the buffer, so that nothing is yielded after
    /// the error. An option that takes a value moves the cursor over the next
    /// token too, whether or not there is one.
    pub open spec fn step_option(self, key: Seq<char>) -> (CmdView, Option<InputView>) {
        let next = self.cursor + 1;
        if key.len() == 0 {
            (
                self.fail(ErrorKind::EmptyOption).at(self.tokens.len()),
                Some(InputView::Error(ErrorKind::EmptyOption)),
            )
        } else if !self.opts.contains_key(key) {
            (self.at(next), Some(InputView::Error(ErrorKind::UnknownOption)))
        } else {
            let opt = self.opts[key];
            match opt.require_value {
                None => (self.at(next), Some(InputView::Opt(opt, Seq::empty()))),
                Some(mandatory) => {
                    let input = if next < self.tokens.len() {
                        InputView::Opt(opt, self.tokens[next as int])
                    } else if mandatory {
                        InputView::Error(ErrorKind::OptionRequiresValue)
                    } else {
                        InputView::Opt(opt, Seq::empty())
                    };
                    (self.at(next + 1), Some(input))
                },
            }
        }
    }

    /// What a token that names the child command `name` gives: the child as
    /// it was declared, with the rest of the buffer as its tokens, that token
    /// first. Nothing is left here.
    pub open spec fn step_command(self, name: Seq<char>) -> (CmdView, Option<InputView>) {
        let child = self.cmds[name].with_tokens(self.tokens.skip(self.cursor as int));
        (self.at(self.tokens.len()), Some(InputView::Cmd(child)))
    }

    /// What a token that is neither an option nor a child command gives: it
    /// fills the next declared argument, or is one too many.
    pub open spec fn step_positional(self, token: Seq<char>) -> (CmdView, Option<InputView>) {
        let next = self.cursor + 1;
        if self.arg_cursor >= self.args.len() {
            (self.at(next), Some(InputView::Error(ErrorKind::TooManyArguments)))
        } else {
            (
                CmdView { arg_cursor: self.arg_cursor + 1, ..self.at(next) },
                Some(InputView::Arg(self.args[self.arg_cursor as int], token)),
            )
        }
    }

    /// One step of the classifier: the command after it, and what it yields.
    /// Nothing is yielded, and nothing changes, once the cursor has reached
    /// the end of the buffer.
    pub open spec fn step(self) -> (CmdView, Option<InputView>) {
        if self.cursor >= self.tokens.len() {
            (self, None)
        } else {
            let token = self.tokens[self.cursor as int];
            if is_option_token(token) {
                self.step_option(option_key(token))
            } else if self.cmds.contains_key(token) {
                self.step_command(token)
            } else {
                self.step_positional(token)
            }
        }
    }
}

impl CmdView {
    /// All that the classifier yields from here on, in order.
    pub open spec fn inputs(self) -> Seq<InputView>
        decreases self.remaining(),
    {
        match self.step().1 {
            Some(input) => seq![input] + self.step().0.inputs(),
            None => Seq::empty(),
        }
    }

    /// The command after the step that yields nothing.
    pub open spec fn finish(self) -> CmdView
        decreases self.remaining(),
    {
        if self.step().1 is Some {
            self.step().0.finish()
        } else {
            self.step().0
        }
    }
}

/// What follows the dashes of `token`, where it begins with a dash.
pub fn dashed_key(token: &str) -> (r: Option<String>)
    ensures
        match r {
            Some(key) => is_option_token(token@) && key@ == option_key(token@),
            None => !is_option_token(token@),
        },
{
    let cs = chars_of(token);
    if cs.len() == 0 || cs[0] != '-' {
        return None;
    }
    let dashes: usize = if cs.len() > 1 && cs[1] == '-' {
        2
    } else {
        1
    };
    Some(token.substring_char(dashes, cs.len()).to_owned())
}

/// A copy of the tokens of `buffer` from `from` on.
fn tail(buffer: &Vec<String>, from: usize) -> (r: Vec<String>)
    requires
        from <= buffer.len(),
    ensures
        r.deep_view() == buffer.deep_view().skip(from as int),
{
    let mut out: Vec<String> = Vec::new();
    let mut i: usize = from;
    while i < buffer.len()
        invariant
            from <= i <= buffer.len(),
            out.len() == i - from,
            forall|j: int| 0 <= j < out.len() ==> out[j]@ == buffer[from + j]@,
        decreases buffer.len() - i,
    {
        out.push(buffer[i].clone());
        i += 1;
    }
    assert(out.deep_view() =~= buffer.deep_view().skip(from as int));
    out
}

impl Cmd {
    /// Classifies the dashed token at `at`, `key` being what follows its
    /// dashes.
    fn take_option(&mut self, at: usize, key: String) -> (r: Option<Input>)
        requires
            at == old(self)@.cursor,
            at < old(self)@.tokens.len(),
        ensures
            final(self)@ == old(self)@.step_option(key@).0,
            input_view(r) == old(self)@.step_option(key@).1,
            final(self).distinct() == old(self).distinct(),
    {
        let held = self.raw_args.len();
        if key.as_str().is_empty() {
            self.err = Some(Error::new(ErrorKind::EmptyOption));
            self.taken_len = held as u128;
            return Some(Input::Error(Error::new(ErrorKind::EmptyOption)));
        }
        self.taken_len = self.taken_len + 1;
        let opt = match find_opt(&self.opts, &key) {
            Some(i) => self.opts[i].clone(),
            None => {
                return Some(Input::Error(Error::new(ErrorKind::UnknownOption)));
            },
        };
        match opt.require_value {
            None => Some(Input::Opt(opt, String::new())),
            Some(mandatory) => {
                self.taken_len = self.taken_len + 1;
                if at + 1 < held {
                    Some(Input::Opt(opt, self.raw_args[at + 1].clone()))
                } else if mandatory {
                    Some(Input::Error(Error::new(ErrorKind::OptionRequiresValue)))
                } else {
                    Some(Input::Opt(opt, String::new()))
                }
            },
        }
    }

    /// Hands the rest of the buffer, from the token at `at` on, to a copy of
    /// the child command at `index`.
    fn take_command(&mut self, at: usize, index: usize) -> (r: Option<Input>)
        requires
            at == old(self)@.cursor,
            at < old(self)@.tokens.len(),
            index < old(self).cmds.len(),
            old(self)@.cmds.contains_key(old(self)@.tokens[at as int]),
            old(self)@.cmds[old(self)@.tokens[at as int]] == old(self).cmds[index as int]@,
        ensures
            final(self)@ == old(self)@.step_command(old(self)@.tokens[at as int]).0,
            input_view(r) == old(self)@.step_command(old(self)@.tokens[at as int]).1,
            final(self).distinct() == old(self).distinct(),
            old(self).wf() ==> (r matches Some(Input::Cmd(child)) ==> child.distinct()),
    {
        proof {
            if self.wf() {
                lemma_child_wf(*self, index as int);
            }
        }
        let mut child = self.cmds[index].clone();
        child.raw_args = tail(&self.raw_args, at);
        self.taken_len = self.raw_args.len() as u128;
        Some(Input::Cmd(child))
    }

    /// Matches the token at `at` with the next declared argument.
    fn take_positional(&mut self, at: usize) -> (r: Option<Input>)
        requires
            at == old(self)@.cursor,
            at < old(self)@.tokens.len(),
        ensures
            final(self)@ == old(self)@.step_positional(old(self)@.tokens[at as int]).0,
            input_view(r) == old(self)@.step_positional(old(self)@.tokens[at as int]).1,
            final(self).distinct() == old(self).distinct(),
    {
        self.taken_len = self.taken_len + 1;
        if self.taken_arg >= self.args.len() {
            return Some(Input::Error(Error::new(ErrorKind::TooManyArguments)));
        }
        let arg = self.args[self.taken_arg].clone();
        self.taken_arg = self.taken_arg + 1;
        Some(Input::Arg(arg, self.raw_args[at].clone()))
    }

    /// Classifies the token under the cursor and moves on.
    ///
    /// Returns `None` where no token is left. A token that begins with a dash
    /// is an option: what follows its one or two dashes is looked up among
    /// the declared options, and an option that takes a value takes the next
    /// token for it. A token of dashes alone yields `EmptyOption`, latches it
    /// and ends the sequence: no later call yields anything. A token that
    /// names a child command yields a copy of that child holding the rest of
    /// the buffer, and leaves nothing here. Any other token fills the next
    /// declared argument, or is one too many.
    pub fn next(&mut self) -> (r: Option<Input>)
        ensures
            final(self)@ == old(self)@.step().0,
            input_view(r) == old(self)@.step().1,
            old(self).wf() ==> final(self).wf(),
            old(self).wf() ==> (r matches Some(Input::Cmd(child)) ==> child.wf()),
    {
        proof {
            if self.wf() {
                lemma_step_wf(self@);
            }
        }
        if self.taken_len >= self.raw_args.len() as u128 {
            return None;
        }
        let at = self.taken_len as usize;
        match dashed_key(self.raw_args[at].as_str()) {
            Some(key) => self.take_option(at, key),
            None => match find_cmd(&self.cmds, &self.raw_args[at]) {
                Some(index) => self.take_command(at, index),
                None => self.take_positional(at),
            },
        }
    }

    /// Classifies token after token until a step yields nothing, and
    /// returns what the steps yielded, in order. A child command, where a
    /// step yielded one, is the last of them, and so is `EmptyOption`.
    pub fn inputs(&mut self) -> (r: Vec<Input>)
        ensures
            input_views(r@) == old(self)@.inputs(),
            final(self)@ == old(self)@.finish(),
            old(self).wf() ==> final(self).wf(),
            old(self).wf() ==> forall|i: int|
                0 <= i < r.len() ==> (#[trigger] r[i] matches Input::Cmd(child) ==> child.wf()),
    {
        let mut out: Vec<Input> = Vec::new();
        assert(input_views(out@) + self@.inputs() =~= self@.inputs());
        loop
            invariant_except_break
                input_views(out@) + self@.inputs() == old(self)@.inputs(),
                self@.finish() == old(self)@.finish(),
            invariant
                old(self).wf() ==> self.wf(),
                old(self).wf() ==> forall|i: int|
                    0 <= i < out.len() ==> (#[trigger] out[i] matches Input::Cmd(child)
                        ==> child.wf()),
            ensures
                input_views(out@) == old(self)@.inputs(),
                self@ == old(self)@.finish(),
            decreases self@.remaining(),
        {
            let ghost seen = input_views(out@);
            match self.next() {
                Some(input) => {
                    out.push(input);
                    assert(input_views(out@) =~= seen.push(input@));
                    assert(seen + (seq![input@] + self@.inputs()) =~= seen.push(input@)
                        + self@.inputs());
                },
                None => {
                    assert(seen + Seq::<InputView>::empty() =~= seen);
                    break;
                },
            }
        }
        out
    }
}

} // verus!
