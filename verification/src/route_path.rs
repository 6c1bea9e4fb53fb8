//! Route patterns: from the `:name` syntax for path parameters to the
//! `{name}` syntax that the route matcher reads.

use vstd::prelude::*;
use vstd::std_specs::iter::IteratorSpec;

verus! {

broadcast use vstd::string::group_string_axioms;

/// Whether a character is alphanumeric, as `char::is_alphanumeric` of std
/// decides it by the Unicode character database.
pub uninterp spec fn is_alphanumeric(c: char) -> bool;

/// Calls `char::is_alphanumeric`. The contract only gives the answer a
/// name: it is a function of the character alone.
#[verifier::external_body]
fn char_is_alphanumeric(c: char) -> (alphanumeric: bool)
    ensures
        alphanumeric == is_alphanumeric(c),
{
    c.is_alphanumeric()
}

/// Calls `String::push`, which appends the character to the string.
#[verifier::external_body]
fn push_char(text: &mut String, c: char)
    ensures
        final(text)@ == old(text)@.push(c),
{
    text.push(c)
}

/// Whether a character can stand in the name of a path parameter.
pub open spec fn is_name_char(c: char) -> bool {
    is_alphanumeric(c) || c == '_'
}

/// The length of the parameter name with which `text` begins.
pub open spec fn name_len(text: Seq<char>) -> nat
    decreases text.len(),
{
    if text.len() > 0 && is_name_char(text[0]) {
        1 + name_len(text.skip(1))
    } else {
        0
    }
}

/// What is left to write after the opening brace of a parameter: its name,
/// the closing brace, and the conversion of what follows the name.
pub open spec fn converted_after_colon(text: Seq<char>) -> Seq<char>
    decreases text.len(), 1nat,
{
    if text.len() > 0 && is_name_char(text[0]) {
        seq![text[0]] + converted_after_colon(text.skip(1))
    } else {
        seq!['}'] + converted(text)
    }
}

/// The pattern with each `:name` written as `{name}`. A name is the longest
/// run of alphanumeric characters and underscores after the colon; every
/// other character stays.
pub open spec fn converted(path: Seq<char>) -> Seq<char>
    decreases path.len(), 0nat,
{
    if path.len() == 0 {
        Seq::empty()
    } else if path[0] == ':' {
        seq!['{'] + converted_after_colon(path.skip(1))
    } else {
        seq![path[0]] + converted(path.skip(1))
    }
}

/// What is left to write of a conversion, inside a parameter name or
/// outside one.
pub open spec fn left_to_write(rest: Seq<char>, in_name: bool) -> Seq<char> {
    if in_name {
        converted_after_colon(rest)
    } else {
        converted(rest)
    }
}

/// What one character adds to the pattern. Inside a name, a name character
/// is kept and any other character closes the name first. A colon opens a
/// name; every other character is kept.
pub open spec fn step_output(in_name: bool, c: char, alphanumeric: bool) -> Seq<char> {
    let closing: Seq<char> = if in_name {
        seq!['}']
    } else {
        Seq::empty()
    };
    if in_name && (alphanumeric || c == '_') {
        seq![c]
    } else if c == ':' {
        closing + seq!['{']
    } else {
        closing + seq![c]
    }
}

/// Whether the conversion is inside a parameter name after a character.
pub open spec fn step_in_name(in_name: bool, c: char, alphanumeric: bool) -> bool {
    if in_name && (alphanumeric || c == '_') {
        true
    } else {
        c == ':'
    }
}

/// What the end of the path adds to the pattern: the closing brace of a
/// name that is still open.
pub open spec fn end_output(in_name: bool) -> Seq<char> {
    if in_name {
        seq!['}']
    } else {
        Seq::empty()
    }
}

/// One step of the conversion: takes the next character of the path, and
/// whether it is alphanumeric, writes what the character adds to the
/// pattern, and says whether the conversion is inside a parameter name
/// afterwards.
pub fn convert_step(pattern: &mut String, in_name: bool, c: char, alphanumeric: bool) -> (still:
    bool)
    ensures
        final(pattern)@ == old(pattern)@ + step_output(in_name, c, alphanumeric),
        still == step_in_name(in_name, c, alphanumeric),
{
    if in_name && (alphanumeric || c == '_') {
        push_char(pattern, c);
        return true;
    }
    if in_name {
        push_char(pattern, '}');
    }
    if c == ':' {
        push_char(pattern, '{');
        true
    } else {
        push_char(pattern, c);
        false
    }
}

/// The last step of the conversion: closes a name that is still open.
pub fn convert_end(pattern: &mut String, in_name: bool)
    ensures
        final(pattern)@ == old(pattern)@ + end_output(in_name),
{
    if in_name {
        push_char(pattern, '}');
    }
}

/// A step writes the start of what is left to write, if the character is
/// classified as std classifies it.
proof fn lemma_step(rest: Seq<char>, in_name: bool)
    requires
        rest.len() > 0,
    ensures
        left_to_write(rest, in_name) == step_output(in_name, rest[0], is_alphanumeric(rest[0]))
            + left_to_write(
            rest.skip(1),
            step_in_name(in_name, rest[0], is_alphanumeric(rest[0])),
        ),
{
    let c = rest[0];
    if in_name && is_name_char(c) {
        assert(converted_after_colon(rest) == seq![c] + converted_after_colon(rest.skip(1)));
    } else {
        if in_name {
            assert(converted_after_colon(rest) == seq!['}'] + converted(rest));
        }
        if c == ':' {
            assert(converted(rest) == seq!['{'] + converted_after_colon(rest.skip(1)));
        } else {
            assert(converted(rest) == seq![c] + converted(rest.skip(1)));
        }
        assert(left_to_write(rest, in_name) =~= step_output(in_name, c, is_alphanumeric(c))
            + left_to_write(rest.skip(1), step_in_name(in_name, c, is_alphanumeric(c))));
    }
}

/// Converts a route pattern from the `:name` syntax for path parameters to
/// the `{name}` syntax.
pub fn convert_axum_path_to_matchit(path: &str) -> (pattern: String)
    ensures
        pattern@ == converted(path@),
{
    let mut pattern = String::new();
    let mut chars = path.chars();
    let mut in_name = false;
    let ghost mut rest = path@;
    loop
        invariant_except_break
            chars.obeys_prophetic_iter_laws(),
            chars.remaining() == rest,
            converted(path@) == pattern@ + left_to_write(rest, in_name),
        ensures
            pattern@ == converted(path@),
        decreases rest.len(),
    {
        match chars.next() {
            Some(c) => {
                proof {
                    assert(rest[0] == c);
                    assert(rest.drop_first() == rest.skip(1));
                    lemma_step(rest, in_name);
                }
                let alphanumeric = char_is_alphanumeric(c);
                in_name = convert_step(&mut pattern, in_name, c, alphanumeric);
                proof {
                    assert(converted(path@) =~= pattern@ + left_to_write(rest.skip(1), in_name));
                    rest = rest.skip(1);
                }
            },
            None => {
                proof {
                    assert(rest.len() == 0);
                    assert(converted(rest) == Seq::<char>::empty());
                    assert(converted_after_colon(rest) == seq!['}'] + converted(rest));
                }
                convert_end(&mut pattern, in_name);
                proof {
                    assert(converted(path@) =~= pattern@);
                }
                break;
            },
        }
    }
    pattern
}

} // verus!
