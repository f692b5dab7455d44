//! A custom step: shell commands that check (`met?`), apply (`meet`) and
//! revert (`unmeet`) a piece of the environment.
use vstd::prelude::*;

use crate::config_value::ConfigValue;
use crate::text::{from_chars, split_words, to_chars, words};

verus! {

/// A custom step as configured.
#[derive(Debug, Clone)]
pub struct UpConfigCustom {
    pub meet: String,
    pub met: Option<String>,
    pub unmeet: Option<String>,
    pub name: Option<String>,
    pub dir: Option<String>,
}

/// The view of an optional string.
pub open spec fn opt_view(o: Option<String>) -> Option<Seq<char>> {
    match o {
        Some(s) => Some(s@),
        None => None,
    }
}

/// What the key `key` of a configuration value gives when read as a string.
pub open spec fn forced_field(cv: Option<ConfigValue>, key: Seq<char>) -> Option<Seq<char>> {
    match cv {
        Some(v) => match v.get_of(key) {
            Some(x) => x.str_forced_of(),
            None => None,
        },
        None => None,
    }
}

/// The first word of `s`, or `custom` when it has none.
pub open spec fn first_word_or_custom(s: Seq<char>) -> Seq<char> {
    if words(s).len() > 0 {
        words(s)[0]
    } else {
        "custom"@
    }
}

/// What bringing a custom step up does, once `met?` has been asked.
#[derive(Debug, Clone, Copy, PartialEq, Eq, Structural)]
pub enum CustomUpAction {
    /// `met?` succeeded: nothing to do.
    SkipAlreadyMet,
    /// Run the `meet` command (when it is not empty) and read the
    /// environment file it wrote.
    RunMeet,
}

/// What tearing a custom step down does, once `met?` has been asked.
#[derive(Debug, Clone, Copy, PartialEq, Eq, Structural)]
pub enum CustomDownAction {
    /// There is an `unmeet` command but `met?` failed: nothing to revert.
    SkipNotMet,
    /// Run the `unmeet` command.
    Revert,
    /// There is no `unmeet` command.
    Nothing,
}

/// The name under which a step is shown, and what it does.
#[derive(Debug, Clone)]
pub struct CustomPlan<A> {
    pub name: String,
    pub action: A,
}

fn first_word_or_custom_exec(s: &str) -> (r: String)
    ensures
        r@ == first_word_or_custom(s@),
{
    let ws = split_words(&to_chars(s));
    if ws.len() > 0 {
        from_chars(ws[0].as_slice())
    } else {
        String::from_str("custom")
    }
}

fn forced_field_exec(cv: Option<&ConfigValue>, key: &str) -> (r: Option<String>)
    ensures
        opt_view(r) == forced_field(
            match cv {
                Some(v) => Some(*v),
                None => None,
            },
            key@,
        ),
{
    match cv {
        Some(v) => v.get_as_str_forced(key),
        None => None,
    }
}

impl UpConfigCustom {
    /// Reads the keys `meet`, `met?`, `unmeet`, `name` and `dir` of the
    /// configuration, each as a string; `meet` is empty when missing.
    pub fn from_config_value(config_value: Option<&ConfigValue>) -> (r: UpConfigCustom)
        ensures
            ({
                let cv = match config_value {
                    Some(v) => Some(*v),
                    None => None,
                };
                &&& r.meet@ == (match forced_field(cv, "meet"@) {
                    Some(m) => m,
                    None => Seq::empty(),
                })
                &&& opt_view(r.met) == forced_field(cv, "met?"@)
                &&& opt_view(r.unmeet) == forced_field(cv, "unmeet"@)
                &&& opt_view(r.name) == forced_field(cv, "name"@)
                &&& opt_view(r.dir) == forced_field(cv, "dir"@)
            }),
    {
        let meet = forced_field_exec(config_value, "meet");
        let met = forced_field_exec(config_value, "met?");
        let unmeet = forced_field_exec(config_value, "unmeet");
        let name = forced_field_exec(config_value, "name");
        let dir = forced_field_exec(config_value, "dir");
        let meet = match meet {
            Some(m) => m,
            None => String::new(),
        };
        UpConfigCustom { meet, met, unmeet, name, dir }
    }

    /// The directory the step runs in, if one is set.
    pub fn dir(&self) -> (r: Option<String>)
        ensures
            opt_view(r) == opt_view(self.dir),
    {
        match &self.dir {
            Some(d) => Some(d.clone()),
            None => None,
        }
    }

    /// The name shown when the step is brought up: the configured name, or
    /// the first word of `meet`, or `custom`.
    pub open spec fn up_name(self) -> Seq<char> {
        match self.name {
            Some(n) => n@,
            None => first_word_or_custom(self.meet@),
        }
    }

    /// The name shown when the step is torn down: the configured name, or
    /// the first word of `unmeet`, or `custom`.
    pub open spec fn down_name(self) -> Seq<char> {
        match self.name {
            Some(n) => n@,
            None => match self.unmeet {
                Some(u) => first_word_or_custom(u@),
                None => "custom"@,
            },
        }
    }

    /// Brings the step up, given what `met?` answered (`None` when there is
    /// no `met?` command): skipped when it succeeded.
    pub fn up(&self, met: Option<bool>) -> (r: CustomPlan<CustomUpAction>)
        ensures
            r.name@ == self.up_name(),
            r.action == (if met == Some(true) {
                CustomUpAction::SkipAlreadyMet
            } else {
                CustomUpAction::RunMeet
            }),
    {
        let name = match &self.name {
            Some(n) => n.clone(),
            None => first_word_or_custom_exec(self.meet.as_str()),
        };
        let action = if met == Some(true) {
            CustomUpAction::SkipAlreadyMet
        } else {
            CustomUpAction::RunMeet
        };
        CustomPlan { name, action }
    }

    /// Tears the step down, given what `met?` answered (`None` when there
    /// is no `met?` command): with an `unmeet` command, it is run unless
    /// `met?` failed.
    pub fn down(&self, met: Option<bool>) -> (r: CustomPlan<CustomDownAction>)
        ensures
            r.name@ == self.down_name(),
            r.action == (if self.unmeet is None {
                CustomDownAction::Nothing
            } else if met == Some(false) {
                CustomDownAction::SkipNotMet
            } else {
                CustomDownAction::Revert
            }),
    {
        let name = match &self.name {
            Some(n) => n.clone(),
            None => match &self.unmeet {
                Some(u) => first_word_or_custom_exec(u.as_str()),
                None => String::from_str("custom"),
            },
        };
        let action = match &self.unmeet {
            None => CustomDownAction::Nothing,
            Some(_) => if met == Some(false) {
                CustomDownAction::SkipNotMet
            } else {
                CustomDownAction::Revert
            },
        };
        CustomPlan { name, action }
    }
}

} // verus!
