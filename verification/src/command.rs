//! Names on the two sides of the bridge: argument keys and command paths.

use vstd::prelude::*;
use vstd::string::*;
use crate::text::chars_of;

verus! {

/// The upper-case form of an ASCII lower-case letter; any other character
/// unchanged.
pub open spec fn ascii_upper(c: char) -> char {
    if 'a' <= c && c <= 'z' {
        ((c as u32) - 32) as char
    } else {
        c
    }
}

/// `char::to_ascii_uppercase` maps `a` to `z` onto `A` to `Z` and leaves
/// every other character as it is.
pub assume_specification[ char::to_ascii_uppercase ](c: &char) -> (r: char)
    ensures
        r == ascii_upper(*c),
;

/// The camel-case form of the rest of a snake-case name: every underscore is
/// dropped and the character after it is put in upper case. `to_upper` says
/// whether an underscore stands right before `s`.
pub open spec fn camel_from(s: Seq<char>, to_upper: bool) -> Seq<char>
    decreases s.len(),
{
    if s.len() == 0 {
        Seq::empty()
    } else if s[0] == '_' {
        camel_from(s.drop_first(), true)
    } else if to_upper {
        seq![ascii_upper(s[0])] + camel_from(s.drop_first(), false)
    } else {
        seq![s[0]] + camel_from(s.drop_first(), false)
    }
}

/// The camel-case form of a snake-case name.
pub open spec fn camel_case(s: Seq<char>) -> Seq<char> {
    camel_from(s, false)
}

/// Turns the snake-case name of a handler's parameter into the camel-case
/// key under which the frontend sends it.
pub fn snake_case_to_camel_case(s: String) -> (camel: String)
    ensures
        camel@ == camel_case(s@),
{
    let chars = chars_of(s.as_str());
    let mut camel = String::new();
    let mut to_upper = false;
    let mut i: usize = 0;
    assert(chars@.subrange(0, chars@.len() as int) =~= chars@);
    assert(camel@ + camel_from(chars@, false) =~= camel_from(chars@, false));
    while i < chars.len()
        invariant
            i <= chars.len(),
            chars@ == s@,
            camel_case(s@) == camel@ + camel_from(
                chars@.subrange(i as int, chars@.len() as int),
                to_upper,
            ),
        decreases chars.len() - i,
    {
        let c = chars[i];
        let ghost rest = chars@.subrange(i as int, chars@.len() as int);
        let ghost before = camel@;
        assert(rest[0] == c);
        assert(rest.drop_first() =~= chars@.subrange(i + 1, chars@.len() as int));
        if c == '_' {
            to_upper = true;
        } else if to_upper {
            camel.push(c.to_ascii_uppercase());
            to_upper = false;
            assert(camel@ + camel_from(rest.drop_first(), false) =~= before + (seq![
                ascii_upper(c),
            ] + camel_from(rest.drop_first(), false)));
        } else {
            camel.push(c);
            assert(camel@ + camel_from(rest.drop_first(), false) =~= before + (seq![c]
                + camel_from(rest.drop_first(), false)));
        }
        i += 1;
    }
    assert(camel@ + Seq::<char>::empty() =~= camel@);
    camel
}

/// The path of a command that sits beside the running program.
pub open spec fn command_path_text(path: Seq<char>, command: Seq<char>, windows: bool) -> Seq<
    char,
> {
    if windows {
        path + "/./"@ + command + ".exe"@
    } else {
        path + "/./"@ + command
    }
}

/// Joins the directory of the running program and the name of a command;
/// on Windows the name gets the extension `.exe`.
pub fn format_command(path: String, command: String, windows: bool) -> (r: String)
    ensures
        r@ == command_path_text(path@, command@, windows),
{
    let mut r = path;
    r.append("/./");
    r.append(command.as_str());
    if windows {
        r.append(".exe");
    }
    r
}

} // verus!
