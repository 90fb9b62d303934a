use crate::command::CommandArgs;
use crate::errors::ShellError;
use crate::scope::Scope;
use crate::stream::{StreamM, ValueStream};
use crate::value::ValV;
use vstd::prelude::*;

verus! {

/// The definition command. The registry installs a definition when the
/// enclosing scope is entered, so running the command itself produces
/// nothing; it exists so that an invocation can be listed and colored.
pub struct Def;

impl Def {
    pub fn name(&self) -> (r: &'static str)
        ensures
            r@ == "def"@,
    {
        "def"
    }

    pub fn usage(&self) -> &'static str {
        "Create a command and set it to a definition."
    }

    pub fn run(&self, _args: CommandArgs, _scope: &Scope) -> (r: Result<ValueStream, ShellError>)
        ensures
            r matches Ok(s) && s.wf() && s.model() == StreamM::Fin(Seq::<ValV>::empty()),
    {
        Ok(crate::stream::empty_value_iterator())
    }
}

} // verus!
