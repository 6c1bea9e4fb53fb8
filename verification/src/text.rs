//! Text comparison, copying and assembly.

use vstd::prelude::*;
use vstd::std_specs::iter::IteratorSpec;
use vstd::string::StringExecFns;

verus! {

broadcast use vstd::string::group_string_axioms;

/// Calls `==` on two string slices, which std defines as equality of their
/// contents.
#[verifier::external_body]
pub(crate) fn str_eq(a: &str, b: &str) -> (same: bool)
    ensures
        same == (a@ == b@),
{
    a == b
}

/// The texts of a sequence of strings.
pub open spec fn texts(strings: Seq<String>) -> Seq<Seq<char>> {
    strings.map_values(|s: String| s@)
}

/// The texts of a sequence of string slices.
pub open spec fn name_texts(names: Seq<&str>) -> Seq<Seq<char>> {
    names.map_values(|s: &str| s@)
}

/// The text of an optional string.
pub open spec fn opt_text(string: Option<String>) -> Option<Seq<char>> {
    match string {
        Some(s) => Some(s@),
        None => None,
    }
}

/// The texts of an optional list of strings.
pub open spec fn opt_texts(strings: Option<Vec<String>>) -> Option<Seq<Seq<char>>> {
    match strings {
        Some(list) => Some(texts(list@)),
        None => None,
    }
}

/// The parts, with `separator` between each two neighbours.
pub open spec fn joined(parts: Seq<Seq<char>>, separator: Seq<char>) -> Seq<char>
    decreases parts.len(),
{
    if parts.len() == 0 {
        Seq::empty()
    } else if parts.len() == 1 {
        parts[0]
    } else {
        joined(parts.drop_last(), separator) + separator + parts.last()
    }
}

/// A fresh vector with copies of the strings, in order.
pub(crate) fn copy_strings(source: &[String]) -> (copy: Vec<String>)
    ensures
        texts(copy@) == texts(source@),
{
    let mut copy: Vec<String> = Vec::new();
    let mut k: usize = 0;
    while k < source.len()
        invariant
            k <= source.len(),
            texts(copy@) == texts(source@).take(k as int),
        decreases source.len() - k,
    {
        let ghost before = copy@;
        copy.push(source[k].clone());
        proof {
            assert(texts(copy@) =~= texts(before).push(source@[k as int]@));
            assert(texts(source@).take(k + 1) =~= texts(source@).take(k as int).push(
                source@[k as int]@,
            ));
        }
        k += 1;
    }
    proof {
        assert(texts(source@).take(source@.len() as int) == texts(source@));
    }
    copy
}

/// A vector of owned strings with the texts of the names, in order.
pub(crate) fn owned_names(names: &[&str]) -> (owned: Vec<String>)
    ensures
        texts(owned@) == name_texts(names@),
{
    let mut owned: Vec<String> = Vec::new();
    let mut k: usize = 0;
    while k < names.len()
        invariant
            k <= names.len(),
            texts(owned@) == name_texts(names@).take(k as int),
        decreases names.len() - k,
    {
        let ghost before = owned@;
        owned.push(names[k].to_owned());
        proof {
            assert(texts(owned@) =~= texts(before).push(names@[k as int]@));
            assert(name_texts(names@).take(k + 1) =~= name_texts(names@).take(k as int).push(
                names@[k as int]@,
            ));
        }
        k += 1;
    }
    proof {
        assert(name_texts(names@).take(names@.len() as int) == name_texts(names@));
    }
    owned
}

/// A copy of an optional list of strings.
pub(crate) fn copy_opt_strings(source: &Option<Vec<String>>) -> (copy: Option<Vec<String>>)
    ensures
        opt_texts(copy) == opt_texts(*source),
{
    match source {
        Some(list) => Some(copy_strings(list.as_slice())),
        None => None,
    }
}

/// The strings joined into one, with `separator` between each two
/// neighbours.
pub(crate) fn join(parts: &[String], separator: &str) -> (text: String)
    ensures
        text@ == joined(texts(parts@), separator@),
{
    let mut text = String::new();
    let mut k: usize = 0;
    while k < parts.len()
        invariant
            k <= parts.len(),
            text@ == joined(texts(parts@).take(k as int), separator@),
        decreases parts.len() - k,
    {
        proof {
            let all = texts(parts@);
            assert(all.take(k + 1).drop_last() == all.take(k as int));
            assert(all.take(k + 1).last() == parts@[k as int]@);
            if k == 1 {
                assert(all.take(1)[0] == all.take(1).last());
            }
        }
        if k > 0 {
            text.append(separator);
        }
        text.append(parts[k].as_str());
        proof {
            if k == 0 {
                assert(text@ =~= parts@[0]@);
            }
        }
        k += 1;
    }
    proof {
        assert(texts(parts@).take(parts@.len() as int) == texts(parts@));
    }
    text
}

/// The two texts, one after the other.
pub(crate) fn concat(head: &str, tail: &str) -> (text: String)
    ensures
        text@ == head@ + tail@,
{
    let mut text = head.to_owned();
    text.append(tail);
    text
}

/// The characters of a text, in order.
pub(crate) fn chars_of(text: &str) -> (chars: Vec<char>)
    ensures
        chars@ == text@,
{
    let mut chars: Vec<char> = Vec::new();
    let mut source = text.chars();
    let ghost mut rest = text@;
    loop
        invariant_except_break
            source.obeys_prophetic_iter_laws(),
            source.remaining() == rest,
            chars@ + rest == text@,
        ensures
            chars@ == text@,
        decreases rest.len(),
    {
        match source.next() {
            Some(c) => {
                chars.push(c);
                proof {
                    assert(chars@ + rest.drop_first() =~= text@);
                    rest = rest.drop_first();
                }
            },
            None => {
                proof {
                    assert(chars@ + rest =~= chars@);
                }
                break;
            },
        }
    }
    chars
}

} // verus!
