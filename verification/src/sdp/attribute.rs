//! SDP attribute representation. Attributes in SDP provide additional
//! information about the session or media descriptions.
use crate::sdp::errors::SdpError;
use crate::sdp::model::attribute_from;
use crate::text::{chars_of, push_str, string_from_chars};
use vstd::prelude::*;
use vstd::string::*;

verus! {

/// Represents an attribute (a=) in an SDP message as defined in RFC 4566.
///
/// # Format
/// - `a=<attribute-name>` for flag attributes (no value)
/// - `a=<attribute-name>:<attribute-value>` for value attributes
#[derive(Debug, Clone)]
pub struct Attribute {
    pub name: String,
    pub value: Option<String>,
}

/// The position of the first `:` in `s`, if any.
pub open spec fn first_colon(s: Seq<char>) -> Option<int> {
    if exists|i: int| 0 <= i < s.len() && s[i] == ':' {
        Some(choose|i: int| 0 <= i < s.len() && s[i] == ':' && forall|j: int| 0 <= j < i ==> s[j] != ':')
    } else {
        None
    }
}

/// The text of an attribute line: `a=<name>` or `a=<name>:<value>`, then a
/// line feed.
pub open spec fn attribute_line(name: Seq<char>, value: Option<Seq<char>>) -> Seq<char> {
    match value {
        Some(v) => "a="@ + name + ":"@ + v + "\n"@,
        None => "a="@ + name + "\n"@,
    }
}

impl Attribute {
    /// Parses an attribute string into an `Attribute` struct: the name runs
    /// up to the first `:`, and the value, if there is a `:`, is everything
    /// after it. Every string parses.
    ///
    /// # Arguments
    /// * `value` - The attribute string to parse, without the leading "a="
    pub fn parse(value: &str) -> (r: Result<Self, SdpError>)
        ensures
            r matches Ok(a) && a@ == attribute_from(value@),
    {
        let chars = chars_of(value);
        let mut i: usize = 0;
        while i < chars.len()
            invariant
                i <= chars@.len(),
                chars@ == value@,
                forall|j: int| 0 <= j < i ==> chars@[j] != ':',
            decreases chars@.len() - i,
        {
            if chars[i] == ':' {
                proof {
                    let s = value@;
                    assert(exists|k: int| 0 <= k < s.len() && s[k] == ':');
                    let c = choose|k: int|
                        0 <= k < s.len() && s[k] == ':' && forall|j: int| 0 <= j < k ==> s[j] != ':';
                    assert(0 <= c < s.len() && s[c] == ':' && forall|j: int| 0 <= j < c ==> s[j] != ':');
                    if c < i {
                    } else if c > i {
                        assert(s[i as int] != ':');
                    }
                }
                let name = string_from_chars(&chars.as_slice()[0..i]);
                let rest = string_from_chars(&chars.as_slice()[i + 1..chars.len()]);
                assert(chars@.subrange(0, i as int) =~= value@.take(i as int));
                assert(chars@.subrange(i + 1, chars@.len() as int) =~= value@.skip(i + 1));
                return Ok(Attribute { name, value: Some(rest) });
            }
            i = i + 1;
        }
        Ok(Attribute { name: string_from_chars(chars.as_slice()), value: None })
    }

    /// The attribute as an SDP line (`a=<name>[:<value>]` and a line feed).
    pub fn to_string(&self) -> (s: String)
        ensures
            s@ == attribute_line(
                self.name@,
                match &self.value {
                    Some(v) => Some(v@),
                    None => None,
                },
            ),
    {
        let mut s = String::new();
        push_str(&mut s, "a=");
        push_str(&mut s, self.name.as_str());
        match &self.value {
            Some(v) => {
                push_str(&mut s, ":");
                push_str(&mut s, v.as_str());
            },
            None => {},
        }
        push_str(&mut s, "\n");
        s
    }
}


/// The value part of an attribute line: the name, then `:` and the value
/// if there is one.
pub open spec fn attribute_value(name: Seq<char>, value: Option<Seq<char>>) -> Seq<char> {
    match value {
        Some(v) => name + ":"@ + v,
        None => name,
    }
}

/// An attribute line is `a=`, its value part and a line feed; when the name
/// holds no `:`, parsing the value part gives back the name and the value
/// that were written.
pub proof fn lemma_attribute_line_parses(name: Seq<char>, value: Option<Seq<char>>)
    requires
        forall|i: int| 0 <= i < name.len() ==> #[trigger] name[i] != ':',
    ensures
        attribute_line(name, value) == "a="@ + attribute_value(name, value) + "\n"@,
        attribute_from(attribute_value(name, value)) == (name, value),
{
    reveal_strlit(":");
    let s = attribute_value(name, value);
    match value {
        Some(v) => {
            assert(s[name.len() as int] == ':');
            assert(exists|i: int| 0 <= i < s.len() && s[i] == ':');
            let c = choose|i: int|
                0 <= i < s.len() && s[i] == ':' && forall|j: int| 0 <= j < i ==> s[j] != ':';
            assert(forall|j: int| 0 <= j < name.len() ==> s[j] == name[j]);
            if c < name.len() {
                assert(s[c] == name[c]);
            } else if c > name.len() {
                assert(s[name.len() as int] != ':');
            }
            assert(s.take(c) =~= name);
            assert(s.skip(c + 1) =~= v);
            assert(attribute_line(name, value) =~= "a="@ + s + "\n"@);
        },
        None => {
            assert(!exists|i: int| 0 <= i < s.len() && s[i] == ':');
        },
    }
}

} // verus!
