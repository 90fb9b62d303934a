use crate::command::CommandArgs;
use crate::errors::{labeled_err, ShellError};
use crate::scope::Scope;
use crate::stream::{StreamM, ValueStream};
use crate::tag::Tag;
use crate::value::{UntaggedValue, ValV};
use vstd::prelude::*;
use vstd::string::{StrSliceExecFns, StringExecFns};

verus! {

/// The special-character command: maps a character name to its text.
pub struct Char;

impl Char {
    pub fn name(&self) -> (r: &'static str)
        ensures
            r@ == "char"@,
    {
        "char"
    }

    pub fn usage(&self) -> &'static str {
        "Output special characters (eg. 'newline')."
    }

    /// Produces a single newline; the name table is exposed through
    /// `str_to_character`.
    pub fn run(&self, _args: CommandArgs, _scope: &Scope) -> (r: Result<ValueStream, ShellError>)
        ensures
            r matches Ok(s) && s.wf() && s.model() == StreamM::Fin(seq![ValV::Str("\n"@)]),
    {
        Ok(
            ValueStream::once(
                UntaggedValue::Str("\n".to_owned()).into_value(Tag::unknown()),
            ),
        )
    }
}

/// The numeric value of one hexadecimal digit character.
pub open spec fn hex_digit_val(c: char) -> Option<int> {
    let u = c as u32;
    if '0' as u32 <= u && u <= '9' as u32 {
        Some(u - '0' as u32)
    } else if 'a' as u32 <= u && u <= 'f' as u32 {
        Some(u - 'a' as u32 + 10)
    } else if 'A' as u32 <= u && u <= 'F' as u32 {
        Some(u - 'A' as u32 + 10)
    } else {
        None
    }
}

pub open spec fn valid_hex(s: Seq<char>) -> bool {
    s.len() > 0 && forall|i: int| 0 <= i < s.len() ==> hex_digit_val(s[i]) is Some
}

/// The value of a string of hexadecimal digits, most significant first.
pub open spec fn hex_value(s: Seq<char>) -> int
    decreases s.len(),
{
    if s.len() == 0 {
        0
    } else {
        hex_value(s.drop_last()) * 16 + match hex_digit_val(s.last()) {
            Some(d) => d,
            None => 0,
        }
    }
}

proof fn lemma_hex_prefix_le(s: Seq<char>, i: int)
    requires
        0 <= i <= s.len(),
        forall|j: int| 0 <= j < s.len() ==> hex_digit_val(s[j]) is Some,
    ensures
        hex_value(s.take(i)) <= hex_value(s),
        hex_value(s) >= 0,
    decreases s.len(),
{
    if s.len() == 0 {
        assert(s.take(i) =~= s);
    } else {
        lemma_hex_prefix_le(s.drop_last(), if i <= s.len() - 1 {
            i
        } else {
            i - 1
        });
        assert(hex_value(s.drop_last()) * 16 >= hex_value(s.drop_last())) by (nonlinear_arith)
            requires
                hex_value(s.drop_last()) >= 0,
        ;
        if i <= s.len() - 1 {
            assert(s.drop_last().take(i) =~= s.take(i));
        } else {
            assert(s.take(i) =~= s);
        }
    }
}

fn hex_digit(c: char) -> (r: Option<u32>)
    ensures
        match r {
            Some(d) => hex_digit_val(c) == Some(d as int),
            None => hex_digit_val(c) is None,
        },
{
    let u = c as u32;
    if '0' as u32 <= u && u <= '9' as u32 {
        Some(u - '0' as u32)
    } else if 'a' as u32 <= u && u <= 'f' as u32 {
        Some(u - 'a' as u32 + 10)
    } else if 'A' as u32 <= u && u <= 'F' as u32 {
        Some(u - 'A' as u32 + 10)
    } else {
        None
    }
}

/// Parses a string of plain hexadecimal digits into a 32-bit value.
#[verifier::loop_isolation(false)]
pub fn parse_hex_u32(s: &str) -> (r: Option<u32>)
    ensures
        match r {
            Some(n) => valid_hex(s@) && hex_value(s@) == n as int,
            None => !(valid_hex(s@) && hex_value(s@) <= u32::MAX),
        },
{
    let len = s.unicode_len();
    if len == 0 {
        return None;
    }
    let mut acc: u64 = 0;
    let mut i: usize = 0;
    proof {
        assert(s@.take(0) =~= Seq::<char>::empty());
    }
    while i < len
        invariant
            0 <= i <= s@.len(),
            forall|j: int| 0 <= j < i ==> hex_digit_val(s@[j]) is Some,
            acc == hex_value(s@.take(i as int)),
            acc <= u32::MAX,
        decreases s@.len() - i,
    {
        let c = s.get_char(i);
        proof {
            assert(s@.take(i + 1).drop_last() =~= s@.take(i as int));
            assert(s@.take(i + 1).last() == s@[i as int]);
        }
        match hex_digit(c) {
            Some(d) => {
                let next: u64 = acc * 16 + d as u64;
                if next > u32::MAX as u64 {
                    proof {
                        if valid_hex(s@) {
                            lemma_hex_prefix_le(s@, i + 1);
                            assert(hex_value(s@) >= hex_value(s@.take(i + 1)));
                        }
                    }
                    return None;
                }
                acc = next;
            },
            None => {
                return None;
            },
        }
        i = i + 1;
    }
    proof {
        assert(s@.take(s@.len() as int) =~= s@);
    }
    Some(acc as u32)
}

/// Relies on `char::from_u32`: `Some` exactly for a unicode scalar value (a
/// code point that is not a surrogate), and then the character with that
/// code point.
#[verifier::external_body]
fn char_from_u32(n: u32) -> (r: Option<char>)
    ensures
        match r {
            Some(c) => c as u32 == n && n <= 0x10FFFF && !(0xD800 <= n <= 0xDFFF),
            None => 0xD800 <= n <= 0xDFFF || n > 0x10FFFF,
        },
{
    char::from_u32(n)
}

/// A string of hexadecimal digits naming a unicode scalar value: in range
/// and not a surrogate.
pub open spec fn decodable_hex(s: Seq<char>) -> bool {
    &&& valid_hex(s)
    &&& hex_value(s) <= 0x10FFFF
    &&& !(0xD800 <= hex_value(s) <= 0xDFFF)
}

/// Decodes a string of hexadecimal digits into the unicode character with
/// that code point; exactly the strings naming a unicode scalar value
/// decode.
pub fn string_to_unicode_char(s: &str, t: &Tag) -> (r: Result<char, ShellError>)
    ensures
        match r {
            Ok(c) => decodable_hex(s@) && hex_value(s@) == c as u32,
            Err(e) => !decodable_hex(s@) && e@ == labeled_err(
                "error decoding unicode character"@,
                "error decoding unicode character"@,
                t.span,
            ),
        },
{
    let decoded = match parse_hex_u32(s) {
        Some(n) => char_from_u32(n),
        None => None,
    };
    match decoded {
        Some(c) => Ok(c),
        None => Err(
            ShellError::labeled_error(
                "error decoding unicode character",
                "error decoding unicode character",
                t.span,
            ),
        ),
    }
}

/// The name table of special characters: the text a recognized name stands
/// for.
pub open spec fn spec_character_of(s: Seq<char>) -> Option<Seq<char>> {
    if s == "newline"@ || s == "enter"@ || s == "nl"@ {
        Some("\n"@)
    } else if s == "tab"@ {
        Some("\t"@)
    } else if s == "sp"@ || s == "space"@ {
        Some(" "@)
    } else if s == "branch"@ {
        Some("\u{e0a0}"@)
    } else if s == "segment"@ {
        Some("\u{e0b0}"@)
    } else if s == "identical_to"@ || s == "hamburger"@ {
        Some("\u{2261}"@)
    } else if s == "not_identical_to"@ || s == "branch_untracked"@ {
        Some("\u{2262}"@)
    } else if s == "strictly_equivalent_to"@ || s == "branch_identical"@ {
        Some("\u{2263}"@)
    } else if s == "upwards_arrow"@ || s == "branch_ahead"@ {
        Some("\u{2191}"@)
    } else if s == "downwards_arrow"@ || s == "branch_behind"@ {
        Some("\u{2193}"@)
    } else if s == "up_down_arrow"@ || s == "branch_ahead_behind"@ {
        Some("\u{2195}"@)
    } else if s == "black_right_pointing_triangle"@ || s == "prompt"@ {
        Some("\u{25b6}"@)
    } else if s == "vector_or_cross_product"@ || s == "failed"@ {
        Some("\u{2a2f}"@)
    } else if s == "high_voltage_sign"@ || s == "elevated"@ {
        Some("\u{26a1}"@)
    } else if s == "tilde"@ || s == "twiddle"@ || s == "squiggly"@ || s == "home"@ {
        Some("~"@)
    } else if s == "hash"@ || s == "hashtag"@ || s == "pound_sign"@ || s == "sharp"@ || s
        == "root"@ {
        Some("#"@)
    } else if s == "sun"@ || s == "sunny"@ || s == "sunrise"@ {
        Some("\u{2600}\u{fe0f}"@)
    } else if s == "moon"@ {
        Some("\u{1f31b}"@)
    } else if s == "cloudy"@ || s == "cloud"@ || s == "clouds"@ {
        Some("\u{2601}\u{fe0f}"@)
    } else if s == "rainy"@ || s == "rain"@ {
        Some("\u{1f326}\u{fe0f}"@)
    } else if s == "foggy"@ || s == "fog"@ {
        Some("\u{1f32b}\u{fe0f}"@)
    } else if s == "mist"@ || s == "haze"@ {
        Some("\u{2591}"@)
    } else if s == "snowy"@ || s == "snow"@ {
        Some("\u{2744}\u{fe0f}"@)
    } else if s == "thunderstorm"@ || s == "thunder"@ {
        Some("\u{1f329}\u{fe0f}"@)
    } else if s == "bel"@ {
        Some("\u{7}"@)
    } else if s == "backspace"@ {
        Some("\u{8}"@)
    } else {
        None
    }
}

/// Maps a special-character name to its text.
pub fn str_to_character(s: &str) -> (r: Option<String>)
    ensures
        match r {
            Some(out) => spec_character_of(s@) == Some(out@),
            None => spec_character_of(s@) is None,
        },
{
    let owned: String = s.to_owned();
    if owned == "newline".to_owned() || owned == "enter".to_owned() || owned == "nl".to_owned() {
        Some("\n".to_owned())
    } else if owned == "tab".to_owned() {
        Some("\t".to_owned())
    } else if owned == "sp".to_owned() || owned == "space".to_owned() {
        Some(" ".to_owned())
    } else if owned == "branch".to_owned() {
        Some("\u{e0a0}".to_owned())
    } else if owned == "segment".to_owned() {
        Some("\u{e0b0}".to_owned())
    } else if owned == "identical_to".to_owned() || owned == "hamburger".to_owned() {
        Some("\u{2261}".to_owned())
    } else if owned == "not_identical_to".to_owned() || owned == "branch_untracked".to_owned() {
        Some("\u{2262}".to_owned())
    } else if owned == "strictly_equivalent_to".to_owned() || owned
        == "branch_identical".to_owned() {
        Some("\u{2263}".to_owned())
    } else if owned == "upwards_arrow".to_owned() || owned == "branch_ahead".to_owned() {
        Some("\u{2191}".to_owned())
    } else if owned == "downwards_arrow".to_owned() || owned == "branch_behind".to_owned() {
        Some("\u{2193}".to_owned())
    } else if owned == "up_down_arrow".to_owned() || owned == "branch_ahead_behind".to_owned() {
        Some("\u{2195}".to_owned())
    } else if owned == "black_right_pointing_triangle".to_owned() || owned == "prompt".to_owned() {
        Some("\u{25b6}".to_owned())
    } else if owned == "vector_or_cross_product".to_owned() || owned == "failed".to_owned() {
        Some("\u{2a2f}".to_owned())
    } else if owned == "high_voltage_sign".to_owned() || owned == "elevated".to_owned() {
        Some("\u{26a1}".to_owned())
    } else if owned == "tilde".to_owned() || owned == "twiddle".to_owned() || owned
        == "squiggly".to_owned() || owned == "home".to_owned() {
        Some("~".to_owned())
    } else if owned == "hash".to_owned() || owned == "hashtag".to_owned() || owned
        == "pound_sign".to_owned() || owned == "sharp".to_owned() || owned == "root".to_owned() {
        Some("#".to_owned())
    } else if owned == "sun".to_owned() || owned == "sunny".to_owned() || owned
        == "sunrise".to_owned() {
        Some("\u{2600}\u{fe0f}".to_owned())
    } else if owned == "moon".to_owned() {
        Some("\u{1f31b}".to_owned())
    } else if owned == "cloudy".to_owned() || owned == "cloud".to_owned() || owned
        == "clouds".to_owned() {
        Some("\u{2601}\u{fe0f}".to_owned())
    } else if owned == "rainy".to_owned() || owned == "rain".to_owned() {
        Some("\u{1f326}\u{fe0f}".to_owned())
    } else if owned == "foggy".to_owned() || owned == "fog".to_owned() {
        Some("\u{1f32b}\u{fe0f}".to_owned())
    } else if owned == "mist".to_owned() || owned == "haze".to_owned() {
        Some("\u{2591}".to_owned())
    } else if owned == "snowy".to_owned() || owned == "snow".to_owned() {
        Some("\u{2744}\u{fe0f}".to_owned())
    } else if owned == "thunderstorm".to_owned() || owned == "thunder".to_owned() {
        Some("\u{1f329}\u{fe0f}".to_owned())
    } else if owned == "bel".to_owned() {
        Some("\u{7}".to_owned())
    } else if owned == "backspace".to_owned() {
        Some("\u{8}".to_owned())
    } else {
        None
    }
}

} // verus!
