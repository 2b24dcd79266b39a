//! Positional arguments and options, as a caller declares them.

use vstd::prelude::*;

verus! {

/// One positional argument slot.
#[derive(Debug)]
pub struct Arg {
    pub name: String,
}

/// What an [`Arg`] holds.
#[verifier::ext_equal]
pub struct ArgView {
    pub name: Seq<char>,
}

impl View for Arg {
    type V = ArgView;

    open spec fn view(&self) -> ArgView {
        ArgView { name: self.name@ }
    }
}

impl Clone for Arg {
    fn clone(&self) -> (r: Self)
        ensures
            r@ == self@,
    {
        Arg { name: self.name.clone() }
    }
}

/// One option: its name, a short name that may be empty, and whether it
/// takes a value.
#[derive(Debug)]
pub struct Opt {
    pub(crate) name: String,
    pub(crate) short_name: String,
    pub(crate) require_value: Option<bool>,
}

/// What an [`Opt`] holds.
#[verifier::ext_equal]
pub struct OptView {
    pub name: Seq<char>,
    /// Empty where the option has no short name.
    pub short_name: Seq<char>,
    /// `None`: the option takes no value. `Some(false)`: it takes the next
    /// token as its value if there is one. `Some(true)`: it must have one.
    pub require_value: Option<bool>,
}

impl OptView {
    /// Whether `key` is the name or the short name of this option.
    pub open spec fn answers_to(self, key: Seq<char>) -> bool {
        key == self.name || (self.short_name.len() > 0 && key == self.short_name)
    }
}

impl View for Opt {
    type V = OptView;

    open(crate) spec fn view(&self) -> OptView {
        OptView {
            name: self.name@,
            short_name: self.short_name@,
            require_value: self.require_value,
        }
    }
}

impl Clone for Opt {
    fn clone(&self) -> (r: Self)
        ensures
            r@ == self@,
    {
        Opt {
            name: self.name.clone(),
            short_name: self.short_name.clone(),
            require_value: self.require_value,
        }
    }
}

impl Opt {
    /// An option called `name`, also reachable as `short_name` unless that is
    /// empty.
    pub fn new(name: &str, short_name: &str, require_value: Option<bool>) -> (r: Opt)
        ensures
            r@ == (OptView { name: name@, short_name: short_name@, require_value }),
    {
        Opt { name: name.to_owned(), short_name: short_name.to_owned(), require_value }
    }

    pub fn name(&self) -> (r: &str)
        ensures
            r@ == self@.name,
    {
        self.name.as_str()
    }

    pub fn short_name(&self) -> (r: &str)
        ensures
            r@ == self@.short_name,
    {
        self.short_name.as_str()
    }

    pub fn require_value(&self) -> (r: Option<bool>)
        ensures
            r == self@.require_value,
    {
        self.require_value
    }
}

} // verus!
