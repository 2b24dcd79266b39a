//! The two ways to give a root command its tokens: from a process's
//! argument vector, and from a line of text.

use vstd::prelude::*;
use crate::cmd::{Cmd, CmdView};
use crate::error::{Error, ErrorKind};
use crate::path::{last_component, path_last_component, path_strip_suffix, strip_suffix};
use crate::text::{remove_all, split_whitespace, without, words};
use crate::wellformed::lemma_with_tokens_wf;

verus! {

/// The conventions by which an executable's path shows the command's name.
#[derive(Clone, Copy, Debug, PartialEq, Eq, Structural)]
pub enum Platform {
    /// Components are parted by `\`, and the last one ends in `.exe`.
    Windows,
    /// Components are parted by `/`.
    Linux,
    /// No known convention.
    Other,
}

/// The command name that the path of an executable shows, if it shows one.
pub open spec fn command_name(platform: Platform, path: Seq<char>) -> Option<Seq<char>> {
    match platform {
        Platform::Windows => strip_suffix(last_component(path, '\\'), ".exe"@),
        Platform::Linux => Some(last_component(path, '/')),
        Platform::Other => None,
    }
}

/// The root command that an argument vector gives: it is called after the
/// executable, and the arguments behind the executable's path are its tokens.
pub open spec fn root_of(platform: Platform, args: Seq<Seq<char>>) -> Option<CmdView> {
    if args.len() == 0 {
        None
    } else {
        match command_name(platform, args[0]) {
            Some(name) => Some(CmdView::empty(name).with_tokens(args.skip(1))),
            None => None,
        }
    }
}

/// Derives the command's name from the path of the executable.
pub fn executable_name(platform: Platform, path: &str) -> (r: Option<String>)
    ensures
        match r {
            Some(name) => command_name(platform, path@) == Some(name@),
            None => command_name(platform, path@) is None,
        },
{
    match platform {
        Platform::Windows => {
            let file = path_last_component(path, '\\');
            path_strip_suffix(file.as_str(), ".exe")
        },
        Platform::Linux => Some(path_last_component(path, '/')),
        Platform::Other => None,
    }
}

impl Cmd {
    /// The root command for a process that was started with `args`, the
    /// executable's path first. Fails with `Unknown` where `args` is empty or
    /// the path does not show the command's name.
    pub fn from_args(platform: Platform, args: Vec<String>) -> (r: Result<Cmd, Error>)
        ensures
            match r {
                Ok(cmd) => root_of(platform, args.deep_view()) == Some(cmd@) && cmd.wf(),
                Err(e) => e@ == ErrorKind::Unknown && root_of(platform, args.deep_view()) is None,
            },
    {
        let mut args = args;
        if args.len() == 0 {
            return Err(Error::new(ErrorKind::Unknown));
        }
        let ghost all = args.deep_view();
        let path = args.remove(0);
        assert(args.deep_view() =~= all.skip(1));
        match executable_name(platform, path.as_str()) {
            Some(name) => {
                let mut cmd = Cmd::new(name.as_str());
                proof {
                    lemma_with_tokens_wf(cmd@, args.deep_view());
                }
                cmd.raw_args = args;
                Ok(cmd)
            },
            None => Err(Error::new(ErrorKind::Unknown)),
        }
    }

    /// Gives the command the words of `s` as its token buffer, but for the
    /// words that are the command's own name. The cursors stay where they are.
    pub fn parse(self, s: &str) -> (r: Self)
        ensures
            r@ == self@.with_tokens(without(words(s@), self@.name)),
            self.wf() ==> r.wf(),
    {
        proof {
            if self.wf() {
                lemma_with_tokens_wf(self@, without(words(s@), self@.name));
            }
        }
        let mut this = self;
        let kept = remove_all(split_whitespace(s), &this.name);
        this.raw_args = kept;
        this
    }
}

} // verus!
