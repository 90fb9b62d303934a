use crate::command::CommandArgs;
use crate::errors::{ErrV, ShellError};
use crate::scope::Scope;
use crate::stream::{fin_seq, StreamM, ValueStream};
use crate::value::{spec_as_string, tbl_view, UntaggedValue, ValV, Value};
use vstd::prelude::*;
use vstd::string::StringExecFns;

verus! {

/// The string-collection command: joins the text forms of all upstream
/// elements into one string, without a separator. An optional separator
/// argument is accepted for the surface syntax and ignored.
pub struct SubCommand;

/// The concatenated text forms of a sequence of values; `None` when some
/// element has no text form.
pub open spec fn joined_strings(items: Seq<ValV>) -> Option<Seq<char>>
    decreases items.len(),
{
    if items.len() == 0 {
        Some(Seq::empty())
    } else {
        match spec_as_string(items[0]) {
            Some(s) => match joined_strings(items.drop_first()) {
                Some(rest) => Some(s + rest),
                None => None,
            },
            None => None,
        }
    }
}

impl SubCommand {
    pub fn name(&self) -> (r: &'static str)
        ensures
            r@ == "str collect"@,
    {
        "str collect"
    }

    pub fn usage(&self) -> &'static str {
        "collects a list of strings into a string"
    }

    pub fn run(&self, args: CommandArgs, scope: &Scope) -> (r: Result<ValueStream, ShellError>)
        requires
            args.input.wf(),
            args.input.model() is Fin,
        ensures
            match joined_strings(fin_seq(args.input.model())) {
                Some(out) => r matches Ok(s) && s.wf() && s.model() == StreamM::Fin(
                    seq![ValV::Str(out)],
                ) && (s matches ValueStream::Source { items, pos } && pos == 0 && items@.len()
                    == 1 && items@[0].tag@ == args.call_info.name_tag@),
                None => r matches Err(e) && (e@ matches ErrV::Labeled { msg, label, .. } && msg
                    == "Expected a string from pipeline"@ && label == "requires string input"@),
            },
    {
        collect(args, scope)
    }
}

/// Materializes the upstream and joins every element's text form; an
/// element without one is a hard, positioned error.
#[verifier::loop_isolation(false)]
pub fn collect(args: CommandArgs, _scope: &Scope) -> (r: Result<ValueStream, ShellError>)
    requires
        args.input.wf(),
        args.input.model() is Fin,
    ensures
        match joined_strings(fin_seq(args.input.model())) {
            Some(out) => r matches Ok(s) && s.wf() && s.model() == StreamM::Fin(
                seq![ValV::Str(out)],
            ) && (s matches ValueStream::Source { items, pos } && pos == 0 && items@.len() == 1
                && items@[0].tag@ == args.call_info.name_tag@),
            None => r matches Err(e) && (e@ matches ErrV::Labeled { msg, label, .. } && msg
                == "Expected a string from pipeline"@ && label == "requires string input"@),
        },
{
    let tag = args.call_info.name_tag.duplicate();
    let ghost s0 = fin_seq(args.input.model());
    let items: Vec<Value> = args.input.into_vec();
    let ghost itemsv = tbl_view(items@);
    let mut out: String = String::new();
    let mut i: usize = 0;
    proof {
        assert(itemsv.skip(0) =~= itemsv);
    }
    while i < items.len()
        invariant
            0 <= i <= items@.len(),
            joined_strings(itemsv) == match joined_strings(itemsv.skip(i as int)) {
                Some(rest) => Some(out@ + rest),
                None => None::<Seq<char>>,
            },
        decreases items@.len() - i,
    {
        proof {
            assert(itemsv.skip(i as int)[0] == itemsv[i as int]);
            assert(itemsv[i as int] == crate::value::val_view(items@[i as int]));
            assert(itemsv.skip(i as int).drop_first() =~= itemsv.skip(i + 1));
        }
        match items[i].as_string() {
            Ok(s) => {
                let ghost before = out@;
                out.append(s.as_str());
                proof {
                    match joined_strings(itemsv.skip(i + 1)) {
                        Some(rest) => {
                            assert((before + s@) + rest =~= before + (s@ + rest));
                        },
                        None => {},
                    }
                }
            },
            Err(e) => {
                return Err(e);
            },
        }
        i = i + 1;
    }
    proof {
        assert(itemsv.skip(items@.len() as int) =~= Seq::<ValV>::empty());
        assert(out@ + Seq::<char>::empty() =~= out@);
    }
    Ok(ValueStream::once(UntaggedValue::Str(out).into_value(tag)))
}

} // verus!
