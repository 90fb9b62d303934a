use crate::bigint::{big_from_str_radix, parse_radix};
use crate::command::CommandArgs;
use crate::errors::{labeled_err, ErrV, ShellError};
use crate::scope::Scope;
use crate::strings::{strip_pairs, strip_pairs_string, trim_spec, trim_string};
use crate::stream::{StreamM, ValueStream};
use crate::tag::{Span, Tag};
use crate::value::{spec_kind_name, UntaggedValue, ValV, Value};
use vstd::prelude::*;
use vstd::string::{StrSliceExecFns, StringExecFns};

verus! {

/// The text-to-integer command: converts each upstream string into an
/// arbitrary-precision integer, honoring `0b` and `0x` prefixes.
pub struct SubCommand;

/// What converting one value gives: the value is trimmed, a (repeated)
/// `0b` or `0x` prefix selects base two or sixteen, anything else parses
/// under the given radix; a non-string input or an unparsable body is a
/// positioned error.
pub open spec fn action_spec(v: ValV, radix: int, sp: Span) -> Result<ValV, ErrV> {
    match v {
        ValV::Str(s) => {
            let t = trim_spec(s);
            if t.len() >= 2 && t[0] == '0' && t[1] == 'b' {
                match parse_radix(strip_pairs(t, '0', 'b'), 2) {
                    Some(n) => Ok(ValV::Big(n)),
                    None => Err(
                        labeled_err("could not parse as integer"@, "invalid digits"@, sp),
                    ),
                }
            } else if t.len() >= 2 && t[0] == '0' && t[1] == 'x' {
                match parse_radix(strip_pairs(t, '0', 'x'), 16) {
                    Some(n) => Ok(ValV::Big(n)),
                    None => Err(labeled_err("could not parse as int"@, "invalid digits"@, sp)),
                }
            } else {
                match parse_radix(t, radix) {
                    Some(n) => Ok(ValV::Big(n)),
                    None => Err(labeled_err("could not parse as int"@, "invalid digits"@, sp)),
                }
            }
        },
        _ => Err(labeled_err("value is not string"@, "got "@ + spec_kind_name(v), sp)),
    }
}

/// What the conversion stage makes of one element: the converted integer,
/// or the conversion error travelling as an `Error`-variant value.
pub open spec fn to_int_elem(v: ValV, radix: int, sp: Span) -> ValV {
    match action_spec(v, radix, sp) {
        Ok(x) => x,
        Err(e) => ValV::Error(e),
    }
}

/// Converts one value to an integer; errors are reported at `sp`.
pub fn action(input: &Value, sp: Span, radix: u32) -> (r: Result<Value, ShellError>)
    requires
        2 <= radix <= 36,
    ensures
        match r {
            Ok(v) => action_spec(crate::value::val_view(*input), radix as int, sp) == Ok::<
                ValV,
                ErrV,
            >(crate::value::val_view(v)) && v.tag@ == (crate::tag::TagV {
                span: sp,
                anchor: None::<Seq<char>>,
            }),
            Err(e) => action_spec(crate::value::val_view(*input), radix as int, sp) == Err::<
                ValV,
                ErrV,
            >(e@),
        },
{
    let tag = Tag::from_span(sp);
    match &input.value {
        UntaggedValue::Str(s) => {
            let t = trim_string(s.as_str());
            let tlen = t.as_str().unicode_len();
            let has_bin: bool = tlen >= 2 && t.as_str().get_char(0) == '0' && t.as_str().get_char(
                1,
            ) == 'b';
            let has_hex: bool = tlen >= 2 && t.as_str().get_char(0) == '0' && t.as_str().get_char(
                1,
            ) == 'x';
            if has_bin {
                let body = strip_pairs_string(t.as_str(), '0', 'b');
                match big_from_str_radix(body.as_str(), 2) {
                    Some(b) => Ok(UntaggedValue::BigInt(b).into_value(tag)),
                    None => Err(
                        ShellError::labeled_error(
                            "could not parse as integer",
                            "invalid digits",
                            sp,
                        ),
                    ),
                }
            } else if has_hex {
                let body = strip_pairs_string(t.as_str(), '0', 'x');
                match big_from_str_radix(body.as_str(), 16) {
                    Some(b) => Ok(UntaggedValue::BigInt(b).into_value(tag)),
                    None => Err(
                        ShellError::labeled_error("could not parse as int", "invalid digits", sp),
                    ),
                }
            } else {
                match big_from_str_radix(t.as_str(), radix) {
                    Some(b) => Ok(UntaggedValue::BigInt(b).into_value(tag)),
                    None => Err(
                        ShellError::labeled_error("could not parse as int", "invalid digits", sp),
                    ),
                }
            }
        },
        other => {
            let got = "got ".to_owned().concat(other.kind_name());
            Err(
                ShellError::LabeledError {
                    msg: "value is not string".to_owned(),
                    label: got,
                    span: sp,
                },
            )
        },
    }
}

/// Builds the conversion stage over the given input; conversion failures
/// are reported at the invocation's own span.
pub fn operate(args: CommandArgs) -> (r: Result<ValueStream, ShellError>)
    requires
        args.input.wf(),
    ensures
        r matches Ok(s) && s.wf() && s.model() == (match args.input.model() {
            StreamM::Fin(vs) => StreamM::Fin(
                vs.map_values(
                    |v: ValV| to_int_elem(v, 10, args.call_info.name_tag.span),
                ),
            ),
            _ => StreamM::Dead,
        }),
{
    let tag = args.call_info.name_tag.duplicate();
    proof {
        assert(tag.span == args.call_info.name_tag.span);
    }
    Ok(ValueStream::ToInt { upstream: Box::new(args.input), radix: 10, tag })
}

impl SubCommand {
    pub fn name(&self) -> (r: &'static str)
        ensures
            r@ == "str to-int"@,
    {
        "str to-int"
    }

    pub fn usage(&self) -> &'static str {
        "converts text into integer"
    }

    pub fn run(&self, args: CommandArgs, _scope: &Scope) -> (r: Result<ValueStream, ShellError>)
        requires
            args.input.wf(),
        ensures
            r matches Ok(s) && s.wf() && s.model() == (match args.input.model() {
                StreamM::Fin(vs) => StreamM::Fin(
                    vs.map_values(
                        |v: ValV| to_int_elem(v, 10, args.call_info.name_tag.span),
                    ),
                ),
                _ => StreamM::Dead,
            }),
    {
        operate(args)
    }
}

} // verus!
