use crate::tag::Tag;
use crate::value::{val_view, UntaggedValue, ValV, Value};
use vstd::prelude::*;

verus! {

/// The file-opening command. Reading from disk is input/output and lives
/// with the embedding program; this core validates the invocation and turns
/// the text chunks that were read into pipeline values.
pub struct OpenCommand;

impl OpenCommand {
    pub fn name(&self) -> (r: &'static str)
        ensures
            r@ == "open"@,
    {
        "open"
    }

    /// The path to open: the first argument, which must be a string.
    pub fn file_path(&self, args: &Vec<Value>) -> (r: Option<String>)
        requires
            args@.len() >= 1,
        ensures
            match r {
                Some(p) => val_view(args@[0]) == ValV::Str(p@),
                None => !(val_view(args@[0]) is Str),
            },
    {
        match &args[0].value {
            UntaggedValue::Str(s) => Some(s.clone()),
            _ => None,
        }
    }

    /// One chunk of text read from the file, as a pipeline value.
    pub fn chunk_to_value(&self, text: String) -> (r: Value)
        ensures
            val_view(r) == ValV::Str(text@),
    {
        UntaggedValue::Str(text).into_value(Tag::unknown())
    }
}

} // verus!
