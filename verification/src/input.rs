//! What classifying one token gives.

use vstd::prelude::*;
use crate::cmd::{Cmd, CmdView};
use crate::error::{Error, ErrorKind};
use crate::opt::{Arg, ArgView, Opt, OptView};

verus! {

/// One classified input.
#[derive(Debug)]
pub enum Input {
    /// A positional token, with the argument that it fills.
    Arg(Arg, String),
    /// A child command, ready to classify the rest of the buffer.
    Cmd(Cmd),
    /// A token that could not be classified.
    Error(Error),
    /// An option, with its value; the value is empty where there is none.
    Opt(Opt, String),
}

/// What an [`Input`] holds.
#[verifier::ext_equal]
pub enum InputView {
    Arg(ArgView, Seq<char>),
    Cmd(CmdView),
    Error(ErrorKind),
    Opt(OptView, Seq<char>),
}

impl View for Input {
    type V = InputView;

    open spec fn view(&self) -> InputView {
        match *self {
            Input::Arg(a, s) => InputView::Arg(a@, s@),
            Input::Cmd(c) => InputView::Cmd(c@),
            Input::Error(e) => InputView::Error(e@),
            Input::Opt(o, s) => InputView::Opt(o@, s@),
        }
    }
}

impl Clone for Input {
    fn clone(&self) -> (r: Self)
        ensures
            r@ == self@,
    {
        match self {
            Input::Arg(a, s) => Input::Arg(a.clone(), s.clone()),
            Input::Cmd(c) => Input::Cmd(c.clone()),
            Input::Error(e) => Input::Error(*e),
            Input::Opt(o, s) => Input::Opt(o.clone(), s.clone()),
        }
    }
}

/// What an optional input holds, as a value of the model.
pub open spec fn input_view(i: Option<Input>) -> Option<InputView> {
    match i {
        Some(i) => Some(i@),
        None => None,
    }
}

/// What a list of inputs holds, entry by entry.
pub open spec fn input_views(s: Seq<Input>) -> Seq<InputView> {
    Seq::new(s.len(), |i: int| s[i]@)
}

} // verus!
