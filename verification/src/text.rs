//! The few operations on strings that the builder needs.

use vstd::prelude::*;
use vstd::string::*;

verus! {

/// Whether `s` begins with `prefix`.
pub open spec fn has_prefix(s: Seq<char>, prefix: Seq<char>) -> bool {
    &&& prefix.len() <= s.len()
    &&& forall|k: int| 0 <= k < prefix.len() ==> s[k] == prefix[k]
}

/// The upper-case form of an ASCII lower-case letter; any other character as
/// it is.
pub open spec fn upper(c: char) -> char {
    if 'a' <= c && c <= 'z' {
        ((c as u8) - 32) as char
    } else {
        c
    }
}

/// `s` with its first character in upper case.
pub open spec fn capitalized(s: Seq<char>) -> Seq<char> {
    Seq::new(s.len(), |i: int| if i == 0 { upper(s[i]) } else { s[i] })
}

/// The property under which a handler for the event `event` is stored: `on`
/// and the event's name with its first letter in upper case.
pub open spec fn handler_key_of(event: Seq<char>) -> Seq<char> {
    "on"@ + capitalized(event)
}

pub fn str_is(s: &str, other: &str) -> (b: bool)
    ensures
        b == (s@ == other@),
{
    let n = s.unicode_len();
    if n != other.unicode_len() {
        return false;
    }
    let mut i: usize = 0;
    while i < n
        invariant
            i <= n,
            n == s@.len(),
            n == other@.len(),
            forall|k: int| 0 <= k < i ==> s@[k] == other@[k],
        decreases n - i,
    {
        if s.get_char(i) != other.get_char(i) {
            return false;
        }
        i += 1;
    }
    assert(s@ =~= other@);
    true
}

pub fn starts_with(s: &str, prefix: &str) -> (b: bool)
    ensures
        b == has_prefix(s@, prefix@),
{
    let n = prefix.unicode_len();
    if s.unicode_len() < n {
        return false;
    }
    let mut i: usize = 0;
    while i < n
        invariant
            i <= n,
            n == prefix@.len(),
            n <= s@.len(),
            forall|k: int| 0 <= k < i ==> s@[k] == prefix@[k],
        decreases n - i,
    {
        if s.get_char(i) != prefix.get_char(i) {
            return false;
        }
        i += 1;
    }
    true
}

pub fn to_upper(c: char) -> (r: char)
    ensures
        r == upper(c),
{
    if c >= 'a' && c <= 'z' {
        ((c as u8) - 32u8) as char
    } else {
        c
    }
}

/// Calls `String::push` of the standard library. Taken on trust: the string
/// then holds what it held and `c` after it.
#[verifier::external_body]
pub(crate) fn push_char(s: &mut String, c: char)
    ensures
        final(s)@ == old(s)@.push(c),
{
    s.push(c)
}

pub fn handler_key(event: &str) -> (key: String)
    ensures
        key@ == handler_key_of(event@),
{
    let mut key = String::from_str("on");
    let n = event.unicode_len();
    let mut i: usize = 0;
    while i < n
        invariant
            i <= n,
            n == event@.len(),
            key@ == "on"@ + capitalized(event@).take(i as int),
        decreases n - i,
    {
        let c = event.get_char(i);
        let ghost before = key@;
        if i == 0 {
            push_char(&mut key, to_upper(c));
        } else {
            push_char(&mut key, c);
        }
        assert(key@ =~= "on"@ + capitalized(event@).take(i + 1));
        i += 1;
    }
    assert(capitalized(event@).take(n as int) =~= capitalized(event@));
    key
}

} // verus!
