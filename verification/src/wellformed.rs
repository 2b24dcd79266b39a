//! What holds of the model of every command that the builder made, and
//! stays true while its tokens are classified.

use vstd::prelude::*;
use crate::cmd::CmdView;
use crate::error::ErrorKind;
use crate::input::InputView;
use crate::laws::lemma_step_frame;
use crate::opt::{ArgView, OptView};
use crate::text::{has_alphabetic, has_alphanumeric};

verus! {

impl CmdView {
    /// This command's own tables are sound. A child stands under its own
    /// name, which holds an ASCII letter. An option stands under its name
    /// and, where it has one, under its short name, and under nothing else;
    /// each of those keys holds an ASCII letter or digit. No more positional
    /// tokens were matched than arguments are declared.
    pub open spec fn node_wf(self) -> bool {
        &&& self.opts.dom().finite()
        &&& self.cmds.dom().finite()
        &&& self.arg_cursor <= self.args.len()
        &&& forall|k: Seq<char>| #[trigger]
            self.cmds.contains_key(k) ==> has_alphabetic(k) && self.cmds[k].name == k
        &&& forall|k: Seq<char>| #[trigger]
            self.opts.contains_key(k) ==> {
                let o = self.opts[k];
                &&& has_alphanumeric(k)
                &&& o.answers_to(k)
                &&& self.opts.contains_key(o.name)
                &&& self.opts[o.name] == o
                &&& o.short_name.len() > 0 ==> self.opts.contains_key(o.short_name)
                    && self.opts[o.short_name] == o
            }
    }

    /// The tables are sound in this command and in every command below it.
    pub open spec fn wf(self) -> bool
        decreases self,
    {
        &&& self.node_wf()
        &&& forall|k: Seq<char>| #[trigger] self.cmds.contains_key(k) ==> self.cmds[k].wf()
    }
}

/// In a well-formed command no two options share a key: two entries of the
/// option table of which one answers to the other's name or short name are
/// one option.
pub proof fn lemma_option_keys_unique(c: CmdView, a: Seq<char>, b: Seq<char>)
    requires
        c.wf(),
        c.opts.contains_key(a),
        c.opts.contains_key(b),
        c.opts[a].answers_to(c.opts[b].name) || (c.opts[b].short_name.len() > 0
            && c.opts[a].answers_to(c.opts[b].short_name)),
    ensures
        c.opts[a] == c.opts[b],
{
    let x = c.opts[a];
    let y = c.opts[b];
    assert(c.opts.contains_key(x.name));
    assert(c.opts.contains_key(y.name));
}

/// Whether a command is well formed rests on its tables and on what it has
/// matched of its arguments, on nothing else.
pub proof fn lemma_wf_rests_on_tables(c: CmdView, r: CmdView)
    requires
        c.wf(),
        r.opts == c.opts,
        r.cmds == c.cmds,
        r.arg_cursor <= r.args.len(),
    ensures
        r.wf(),
{
    assert forall|k: Seq<char>| #[trigger] r.cmds.contains_key(k) implies r.cmds[k].wf() by {
        assert(c.cmds.contains_key(k));
    }
}

/// A command that declares nothing is well formed.
pub proof fn lemma_empty_wf(name: Seq<char>)
    ensures
        CmdView::empty(name).wf(),
{
}

/// Latching an error keeps a command well formed.
pub proof fn lemma_fail_wf(c: CmdView, kind: ErrorKind)
    requires
        c.wf(),
    ensures
        c.fail(kind).wf(),
{
    lemma_wf_rests_on_tables(c, c.fail(kind));
}

/// Declaring an argument keeps a command well formed.
pub proof fn lemma_add_arg_wf(c: CmdView, a: ArgView)
    requires
        c.wf(),
    ensures
        c.add_arg(a).wf(),
{
    lemma_wf_rests_on_tables(c, c.add_arg(a));
}

/// Declaring a well-formed child keeps a command well formed.
pub proof fn lemma_add_cmd_wf(c: CmdView, child: CmdView)
    requires
        c.wf(),
        child.wf(),
    ensures
        c.add_cmd(child).wf(),
{
    let r = c.add_cmd(child);
    if c.is_err() {
    } else if c.cmds.contains_key(child.name) || !has_alphabetic(child.name) {
        lemma_fail_wf(c, ErrorKind::InvalidCommandName);
    } else {
        assert forall|k: Seq<char>| #[trigger] r.cmds.contains_key(k) implies r.cmds[k].wf()
            && has_alphabetic(k) && r.cmds[k].name == k by {
            if k != child.name {
                assert(c.cmds.contains_key(k));
            }
        }
    }
}

/// Declaring an option keeps a command well formed.
pub proof fn lemma_add_opt_wf(c: CmdView, o: OptView)
    requires
        c.wf(),
    ensures
        c.add_opt(o).wf(),
{
    let r = c.add_opt(o);
    if c.is_err() {
    } else if c.opts.contains_key(o.name) || !has_alphanumeric(o.name) {
        lemma_fail_wf(c, ErrorKind::InvalidOptionName);
    } else if o.short_name.len() > 0 && (c.opts.contains_key(o.short_name) || !has_alphanumeric(
        o.short_name,
    )) {
        lemma_fail_wf(c, ErrorKind::InvalidOptionShortName);
    } else {
        assert forall|k: Seq<char>| #[trigger] r.cmds.contains_key(k) implies r.cmds[k].wf() by {
            assert(c.cmds.contains_key(k));
        }
        assert forall|k: Seq<char>| #[trigger] r.opts.contains_key(k) implies {
            let p = r.opts[k];
            &&& has_alphanumeric(k)
            &&& p.answers_to(k)
            &&& r.opts.contains_key(p.name)
            &&& r.opts[p.name] == p
            &&& p.short_name.len() > 0 ==> r.opts.contains_key(p.short_name) && r.opts[p.short_name]
                == p
        } by {
            if k != o.name && !(o.short_name.len() > 0 && k == o.short_name) {
                assert(c.opts.contains_key(k));
                let p = c.opts[k];
                assert(c.opts.contains_key(p.name));
            }
        }
    }
}

/// A new token buffer keeps a command well formed.
pub proof fn lemma_with_tokens_wf(c: CmdView, tokens: Seq<Seq<char>>)
    requires
        c.wf(),
    ensures
        c.with_tokens(tokens).wf(),
{
    lemma_wf_rests_on_tables(c, c.with_tokens(tokens));
}

/// A step of the classifier keeps a command well formed. The child that it
/// hands out is well formed too, and bears the name that the token gave.
pub proof fn lemma_step_wf(c: CmdView)
    requires
        c.wf(),
    ensures
        c.step().0.wf(),
        c.step().1 matches Some(InputView::Cmd(child)) ==> child.wf() && child.name
            == c.tokens[c.cursor as int],
{
    lemma_step_frame(c);
    lemma_wf_rests_on_tables(c, c.step().0);
    if c.step().1 matches Some(InputView::Cmd(child)) {
        let token = c.tokens[c.cursor as int];
        lemma_with_tokens_wf(c.cmds[token], c.tokens.skip(c.cursor as int));
    }
}

} // verus!
