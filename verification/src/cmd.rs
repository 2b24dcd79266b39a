//! The command tree and its builder.
//!
//! A command keeps its options and its child commands in lists. The model
//! reads them as maps from a name to what it names: an option stands under
//! its name and, where it has one, under its short name; a child command
//! stands under its name. The builder refuses a name that is taken, so no
//! entry ever hides another.

use vstd::prelude::*;
use crate::error::{Error, ErrorKind, error_view};
use crate::opt::{Arg, ArgView, Opt, OptView};
use crate::text::{contains_alphabetic, contains_alphanumeric, has_alphabetic, has_alphanumeric};
use crate::wellformed::{lemma_add_arg_wf, lemma_add_cmd_wf, lemma_add_opt_wf, lemma_empty_wf};

verus! {

/// A node of the command tree: what it declares, the tokens it was given,
/// and how far it has read them.
#[derive(Debug)]
pub struct Cmd {
    /// The declared positional arguments, in the order of their declaration.
    pub(crate) args: Vec<Arg>,
    /// The declared child commands, no two of one name.
    pub(crate) cmds: Vec<Cmd>,
    /// The error that was latched, if any.
    pub(crate) err: Option<Error>,
    pub name: String,
    /// The declared options, no two answering to one key.
    pub(crate) opts: Vec<Opt>,
    /// The token buffer.
    pub(crate) raw_args: Vec<String>,
    /// How many positional tokens were matched.
    pub(crate) taken_arg: usize,
    /// How many tokens were consumed. This is one more than the buffer holds
    /// where an option looked for its value past the end: hence a type wider
    /// than `usize`.
    pub(crate) taken_len: u128,
}

/// What a [`Cmd`] holds.
#[verifier::ext_equal]
pub struct CmdView {
    pub name: Seq<char>,
    /// The declared positional arguments, in the order of their declaration.
    pub args: Seq<ArgView>,
    /// The declared options, each under its name and under its short name.
    pub opts: Map<Seq<char>, OptView>,
    /// The declared child commands, each under its name.
    pub cmds: Map<Seq<char>, CmdView>,
    /// The error that was latched, if any.
    pub err: Option<ErrorKind>,
    /// The token buffer.
    pub tokens: Seq<Seq<char>>,
    /// How many positional tokens were matched.
    pub arg_cursor: nat,
    /// How many tokens were consumed.
    pub cursor: nat,
}

impl CmdView {
    /// A command that declares nothing and holds no tokens.
    pub open spec fn empty(name: Seq<char>) -> CmdView {
        CmdView {
            name,
            args: Seq::empty(),
            opts: Map::empty(),
            cmds: Map::empty(),
            err: None,
            tokens: Seq::empty(),
            arg_cursor: 0,
            cursor: 0,
        }
    }

    /// Whether an error is latched.
    pub open spec fn is_err(self) -> bool {
        self.err is Some
    }

    /// This command with `kind` latched.
    pub open spec fn fail(self, kind: ErrorKind) -> CmdView {
        CmdView { err: Some(kind), ..self }
    }

    /// The options with `o` entered under its name and its short name.
    pub open spec fn opts_with(self, o: OptView) -> Map<Seq<char>, OptView> {
        let m = self.opts.insert(o.name, o);
        if o.short_name.len() > 0 {
            m.insert(o.short_name, o)
        } else {
            m
        }
    }

    /// What `add_arg` makes of this command.
    pub open spec fn add_arg(self, a: ArgView) -> CmdView {
        if self.is_err() {
            self
        } else {
            CmdView { args: self.args.push(a), ..self }
        }
    }

    /// What `add_cmd` makes of this command.
    pub open spec fn add_cmd(self, c: CmdView) -> CmdView {
        if self.is_err() {
            self
        } else if self.cmds.contains_key(c.name) || !has_alphabetic(c.name) {
            self.fail(ErrorKind::InvalidCommandName)
        } else {
            CmdView { cmds: self.cmds.insert(c.name, c), ..self }
        }
    }

    /// What `add_opt` makes of this command.
    pub open spec fn add_opt(self, o: OptView) -> CmdView {
        if self.is_err() {
            self
        } else if self.opts.contains_key(o.name) || !has_alphanumeric(o.name) {
            self.fail(ErrorKind::InvalidOptionName)
        } else if o.short_name.len() > 0 && (self.opts.contains_key(o.short_name)
            || !has_alphanumeric(o.short_name)) {
            self.fail(ErrorKind::InvalidOptionShortName)
        } else {
            CmdView { opts: self.opts_with(o), ..self }
        }
    }

    /// This command with `tokens` as its buffer.
    pub open spec fn with_tokens(self, tokens: Seq<Seq<char>>) -> CmdView {
        CmdView { tokens, ..self }
    }

    /// This command with `n` tokens consumed.
    pub open spec fn at(self, n: nat) -> CmdView {
        CmdView { cursor: n, ..self }
    }

    /// How many tokens are left to classify.
    pub open spec fn remaining(self) -> nat {
        if self.cursor <= self.tokens.len() {
            (self.tokens.len() - self.cursor) as nat
        } else {
            0
        }
    }
}

/// What a list of arguments holds, entry by entry.
pub open spec fn arg_views(s: Seq<Arg>) -> Seq<ArgView> {
    Seq::new(s.len(), |i: int| s[i]@)
}

/// The map that a list of options stands for: each option under its name
/// and, unless that is empty, under its short name; a later entry before an
/// earlier one.
pub open spec fn opt_table(s: Seq<Opt>) -> Map<Seq<char>, OptView>
    decreases s.len(),
{
    if s.len() == 0 {
        Map::empty()
    } else {
        let o = s.last()@;
        let m = opt_table(s.drop_last()).insert(o.name, o);
        if o.short_name.len() > 0 {
            m.insert(o.short_name, o)
        } else {
            m
        }
    }
}

/// What `c` holds.
pub open(crate) spec fn cmd_view(c: Cmd) -> CmdView
    decreases c,
{
    CmdView {
        name: c.name@,
        args: arg_views(c.args@),
        opts: opt_table(c.opts@),
        cmds: cmd_table(c.cmds@),
        err: error_view(c.err),
        tokens: c.raw_args.deep_view(),
        arg_cursor: c.taken_arg as nat,
        cursor: c.taken_len as nat,
    }
}

/// The map that a list of child commands stands for: each child under its
/// name; a later entry before an earlier one.
pub open(crate) spec fn cmd_table(s: Seq<Cmd>) -> Map<Seq<char>, CmdView>
    decreases s,
{
    if s.len() == 0 {
        Map::empty()
    } else {
        cmd_table(s.subrange(0, s.len() - 1)).insert(
            s[s.len() - 1].name@,
            cmd_view(s[s.len() - 1]),
        )
    }
}

impl View for Cmd {
    type V = CmdView;

    open spec fn view(&self) -> CmdView {
        cmd_view(*self)
    }
}

/// No key stands twice in the list: no two options answer to one key.
pub open(crate) spec fn opts_distinct(s: Seq<Opt>) -> bool {
    forall|i: int, j: int, key: Seq<char>|
        #![trigger s[i]@.answers_to(key), s[j]@.answers_to(key)]
        0 <= i < j < s.len() && s[i]@.answers_to(key) ==> !s[j]@.answers_to(key)
}

/// No name stands twice in the list.
pub open(crate) spec fn cmds_distinct(s: Seq<Cmd>) -> bool {
    forall|i: int, j: int|
        0 <= i < j < s.len() ==> (#[trigger] s[i]).name@ != (#[trigger] s[j]).name@
}

impl Cmd {
    /// The lists of this command, and of every command below it, hold each
    /// key once, as a map would.
    pub open(crate) spec fn distinct(self) -> bool
        decreases self,
    {
        &&& opts_distinct(self.opts@)
        &&& cmds_distinct(self.cmds@)
        &&& forall|i: int| 0 <= i < self.cmds.len() ==> (#[trigger] self.cmds[i]).distinct()
    }

    /// What holds of every command that this library made: no key is held
    /// twice, and the names are sound, here and in every command below.
    pub open(crate) spec fn wf(self) -> bool {
        self.distinct() && self@.wf()
    }

    /// The model of a well-formed command is well formed.
    pub proof fn lemma_wf_view(self)
        requires
            self.wf(),
        ensures
            self@.wf(),
    {
    }
}

/// Tables built from lists that agree entry by entry are equal.
proof fn lemma_opt_table_same(a: Seq<Opt>, b: Seq<Opt>)
    requires
        a.len() == b.len(),
        forall|i: int| 0 <= i < a.len() ==> a[i]@ == b[i]@,
    ensures
        opt_table(a) == opt_table(b),
    decreases a.len(),
{
    if a.len() > 0 {
        lemma_opt_table_same(a.drop_last(), b.drop_last());
    }
}

/// Tables built from lists that agree entry by entry are equal.
proof fn lemma_cmd_table_same(a: Seq<Cmd>, b: Seq<Cmd>)
    requires
        a.len() == b.len(),
        forall|i: int| 0 <= i < a.len() ==> a[i]@ == b[i]@,
    ensures
        cmd_table(a) == cmd_table(b),
    decreases a.len(),
{
    if a.len() > 0 {
        lemma_cmd_table_same(a.subrange(0, a.len() - 1), b.subrange(0, b.len() - 1));
    }
}

/// A list that agrees entry by entry with one that holds no key twice holds
/// no key twice.
proof fn lemma_opts_distinct_same(a: Seq<Opt>, b: Seq<Opt>)
    requires
        a.len() == b.len(),
        forall|i: int| 0 <= i < a.len() ==> a[i]@ == b[i]@,
        opts_distinct(a),
    ensures
        opts_distinct(b),
{
    assert forall|i: int, j: int, key: Seq<char>|
        #![trigger b[i]@.answers_to(key), b[j]@.answers_to(key)]
        0 <= i < j < b.len() && b[i]@.answers_to(key) implies !b[j]@.answers_to(key) by {
        assert(a[i]@.answers_to(key));
        assert(!a[j]@.answers_to(key));
    }
}

/// A list that agrees entry by entry with one that holds no name twice
/// holds no name twice.
proof fn lemma_cmds_distinct_same(a: Seq<Cmd>, b: Seq<Cmd>)
    requires
        a.len() == b.len(),
        forall|i: int| 0 <= i < a.len() ==> a[i]@ == b[i]@,
        cmds_distinct(a),
    ensures
        cmds_distinct(b),
{
    assert forall|i: int, j: int| 0 <= i < j < b.len() implies (#[trigger] b[i]).name@ != (
    #[trigger] b[j]).name@ by {
        assert(a[i]@.name == b[i]@.name);
        assert(a[j]@.name == b[j]@.name);
    }
}

/// The table holds under `key` the last entry of the list that answers to it.
proof fn lemma_opt_table_found(s: Seq<Opt>, key: Seq<char>, i: int)
    requires
        0 <= i < s.len(),
        s[i]@.answers_to(key),
        forall|j: int| i < j < s.len() ==> !(#[trigger] s[j])@.answers_to(key),
    ensures
        opt_table(s).contains_key(key),
        opt_table(s)[key] == s[i]@,
    decreases s.len(),
{
    if i < s.len() - 1 {
        lemma_opt_table_found(s.drop_last(), key, i);
    }
}

/// The table holds nothing under a key that no entry of the list answers to.
proof fn lemma_opt_table_absent(s: Seq<Opt>, key: Seq<char>)
    requires
        forall|j: int| 0 <= j < s.len() ==> !(#[trigger] s[j])@.answers_to(key),
    ensures
        !opt_table(s).contains_key(key),
    decreases s.len(),
{
    if s.len() > 0 {
        lemma_opt_table_absent(s.drop_last(), key);
    }
}

/// The table holds under `key` the last entry of the list that bears it.
proof fn lemma_cmd_table_found(s: Seq<Cmd>, key: Seq<char>, i: int)
    requires
        0 <= i < s.len(),
        s[i].name@ == key,
        forall|j: int| i < j < s.len() ==> (#[trigger] s[j]).name@ != key,
    ensures
        cmd_table(s).contains_key(key),
        cmd_table(s)[key] == s[i]@,
    decreases s.len(),
{
    if i < s.len() - 1 {
        lemma_cmd_table_found(s.subrange(0, s.len() - 1), key, i);
    }
}

/// The table holds nothing under a name that no entry of the list bears.
proof fn lemma_cmd_table_absent(s: Seq<Cmd>, key: Seq<char>)
    requires
        forall|j: int| 0 <= j < s.len() ==> (#[trigger] s[j]).name@ != key,
    ensures
        !cmd_table(s).contains_key(key),
    decreases s.len(),
{
    if s.len() > 0 {
        lemma_cmd_table_absent(s.subrange(0, s.len() - 1), key);
    }
}

/// Each child of a well-formed command is well formed.
pub(crate) proof fn lemma_child_wf(c: Cmd, i: int)
    requires
        c.wf(),
        0 <= i < c.cmds.len(),
    ensures
        c.cmds[i].wf(),
        c@.cmds.contains_key(c.cmds[i].name@),
        c@.cmds[c.cmds[i].name@] == c.cmds[i]@,
{
    lemma_cmd_table_found(c.cmds@, c.cmds[i].name@, i);
}

/// Looks `key` up among the options: the place of the option that answers
/// to it, if there is one.
pub(crate) fn find_opt(opts: &Vec<Opt>, key: &String) -> (r: Option<usize>)
    ensures
        match r {
            Some(i) => {
                &&& i < opts.len()
                &&& opt_table(opts@).contains_key(key@)
                &&& opt_table(opts@)[key@] == opts[i as int]@
            },
            None => {
                &&& !opt_table(opts@).contains_key(key@)
                &&& forall|j: int| 0 <= j < opts.len() ==> !(#[trigger] opts[j])@.answers_to(key@)
            },
        },
{
    let mut i: usize = opts.len();
    while i > 0
        invariant
            i <= opts.len(),
            forall|j: int| i <= j < opts.len() ==> !(#[trigger] opts[j])@.answers_to(key@),
        decreases i,
    {
        i -= 1;
        let o = &opts[i];
        if o.name == *key || (!o.short_name.as_str().is_empty() && o.short_name == *key) {
            proof {
                lemma_opt_table_found(opts@, key@, i as int);
            }
            return Some(i);
        }
    }
    proof {
        lemma_opt_table_absent(opts@, key@);
    }
    None
}

/// Looks `key` up among the child commands: the place of the child of that
/// name, if there is one.
pub(crate) fn find_cmd(cmds: &Vec<Cmd>, key: &String) -> (r: Option<usize>)
    ensures
        match r {
            Some(i) => {
                &&& i < cmds.len()
                &&& cmd_table(cmds@).contains_key(key@)
                &&& cmd_table(cmds@)[key@] == cmds[i as int]@
            },
            None => {
                &&& !cmd_table(cmds@).contains_key(key@)
                &&& forall|j: int| 0 <= j < cmds.len() ==> (#[trigger] cmds[j]).name@ != key@
            },
        },
{
    let mut i: usize = cmds.len();
    while i > 0
        invariant
            i <= cmds.len(),
            forall|j: int| i <= j < cmds.len() ==> (#[trigger] cmds[j]).name@ != key@,
        decreases i,
    {
        i -= 1;
        if cmds[i].name == *key {
            proof {
                lemma_cmd_table_found(cmds@, key@, i as int);
            }
            return Some(i);
        }
    }
    proof {
        lemma_cmd_table_absent(cmds@, key@);
    }
    None
}

impl Clone for Cmd {
    /// A copy of the whole subtree.
    fn clone(&self) -> (r: Self)
        ensures
            r@ == self@,
            self.wf() ==> r.wf(),
        decreases self,
    {
        let mut cmds: Vec<Cmd> = Vec::new();
        let mut i: usize = 0;
        while i < self.cmds.len()
            invariant
                i <= self.cmds.len(),
                cmds.len() == i,
                forall|j: int| 0 <= j < i ==> cmds[j]@ == self.cmds[j]@,
                forall|j: int| 0 <= j < i ==> self.cmds[j].wf() ==> (#[trigger] cmds[j]).wf(),
            decreases self.cmds.len() - i,
        {
            let c = self.cmds[i].clone();
            cmds.push(c);
            i += 1;
        }
        let r = Cmd {
            args: self.args.clone(),
            cmds,
            err: self.err,
            name: self.name.clone(),
            opts: self.opts.clone(),
            raw_args: self.raw_args.clone(),
            taken_arg: self.taken_arg,
            taken_len: self.taken_len,
        };
        proof {
            lemma_cmd_table_same(r.cmds@, self.cmds@);
            lemma_opt_table_same(r.opts@, self.opts@);
            assert(arg_views(r.args@) =~= arg_views(self.args@));
            assert(r.raw_args.deep_view() =~= self.raw_args.deep_view());
            if self.wf() {
                lemma_opts_distinct_same(self.opts@, r.opts@);
                lemma_cmds_distinct_same(self.cmds@, r.cmds@);
                assert forall|j: int| 0 <= j < r.cmds.len() implies (#[trigger] r.cmds[j]).wf() by {
                    lemma_child_wf(*self, j);
                }
            }
        }
        r
    }
}

impl Cmd {
    /// A command called `name` that declares nothing and holds no tokens.
    pub fn new(name: &str) -> (r: Cmd)
        ensures
            r@ == CmdView::empty(name@),
            r.wf(),
    {
        let r = Cmd {
            args: Vec::new(),
            cmds: Vec::new(),
            err: None,
            name: name.to_owned(),
            opts: Vec::new(),
            raw_args: Vec::new(),
            taken_arg: 0,
            taken_len: 0,
        };
        proof {
            assert(arg_views(r.args@) =~= Seq::<ArgView>::empty());
            assert(r.raw_args.deep_view() =~= Seq::<Seq<char>>::empty());
            lemma_empty_wf(name@);
        }
        r
    }

    /// Declares one more positional argument. Any name will do. A command
    /// that holds an error comes back as it is.
    pub fn add_arg(self, arg: Arg) -> (r: Self)
        ensures
            r@ == self@.add_arg(arg@),
            self.wf() ==> r.wf(),
    {
        proof {
            if self.wf() {
                lemma_add_arg_wf(self@, arg@);
            }
        }
        let mut this = self;
        if this.is_err() {
            return this;
        }
        this.args.push(arg);
        proof {
            assert(arg_views(this.args@) =~= arg_views(self.args@).push(arg@));
        }
        this
    }

    /// Declares `cmd` as a child command. Its name must hold an ASCII letter
    /// and must not be the name of an earlier child; else the command latches
    /// `InvalidCommandName`. A command that holds an error comes back as it is.
    pub fn add_cmd(self, cmd: Cmd) -> (r: Self)
        ensures
            r@ == self@.add_cmd(cmd@),
            self.wf() && cmd.wf() ==> r.wf(),
    {
        proof {
            if self.wf() && cmd.wf() {
                lemma_add_cmd_wf(self@, cmd@);
            }
        }
        let mut this = self;
        if this.is_err() {
            return this;
        }
        if find_cmd(&this.cmds, &cmd.name).is_some() || !contains_alphabetic(cmd.name.as_str()) {
            this.err = Some(Error::new(ErrorKind::InvalidCommandName));
            return this;
        }
        this.cmds.push(cmd);
        proof {
            assert(this.cmds@.subrange(0, this.cmds@.len() - 1) =~= self.cmds@);
        }
        this
    }

    /// Declares `opt`. Its name must hold an ASCII letter or digit and must
    /// not be taken; else the command latches `InvalidOptionName`. Its short
    /// name, unless it is empty, must hold an ASCII letter or digit and must
    /// not be taken; else the command latches `InvalidOptionShortName`.
    /// A command that holds an error comes back as it is.
    pub fn add_opt(self, opt: Opt) -> (r: Self)
        ensures
            r@ == self@.add_opt(opt@),
            self.wf() ==> r.wf(),
    {
        proof {
            if self.wf() {
                lemma_add_opt_wf(self@, opt@);
            }
        }
        let mut this = self;
        if this.is_err() {
            return this;
        }
        if find_opt(&this.opts, &opt.name).is_some() || !contains_alphanumeric(opt.name.as_str()) {
            this.err = Some(Error::new(ErrorKind::InvalidOptionName));
            return this;
        }
        if !opt.short_name.as_str().is_empty() && (find_opt(&this.opts, &opt.short_name).is_some()
            || !contains_alphanumeric(opt.short_name.as_str())) {
            this.err = Some(Error::new(ErrorKind::InvalidOptionShortName));
            return this;
        }
        this.opts.push(opt);
        proof {
            assert(this.opts@.drop_last() =~= self.opts@);
        }
        this
    }

    /// The command's name: what the public field `name` holds. Contracts
    /// speak of the name through the model, and this is where the field
    /// meets it.
    pub fn name(&self) -> (r: &str)
        ensures
            r@ == self@.name,
    {
        self.name.as_str()
    }

    /// The latched error, if there is one.
    pub fn err(&self) -> (r: Option<Error>)
        ensures
            error_view(r) == self@.err,
    {
        self.err
    }

    /// Whether an error is latched.
    pub fn is_err(&self) -> (r: bool)
        ensures
            r == self@.is_err(),
    {
        self.err.is_some()
    }

    /// How many tokens are left to classify.
    pub fn len(&self) -> (r: usize)
        ensures
            r == self@.remaining(),
    {
        let held = self.raw_args.len();
        if self.taken_len <= held as u128 {
            held - self.taken_len as usize
        } else {
            0
        }
    }

    /// The token buffer.
    pub fn tokens(&self) -> (r: &Vec<String>)
        ensures
            r.deep_view() == self@.tokens,
    {
        &self.raw_args
    }
}

} // verus!
