//! Helpers for what the interface shows.

use vstd::prelude::*;

verus! {

/// Calls `char::to_ascii_uppercase`. Claimed, as its documentation says: ASCII
/// letters 'a' to 'z' map to 'A' to 'Z', every other character is unchanged.
#[verifier::external_body]
fn char_to_ascii_uppercase(c: char) -> (r: char)
    ensures
        r == ascii_upper(c),
{
    c.to_ascii_uppercase()
}

/// Calls `String::push`. Claimed: the character is appended.
#[verifier::external_body]
fn push_char(s: &mut String, c: char)
    ensures
        final(s)@ == old(s)@.push(c),
{
    s.push(c)
}

/// The ASCII upper-case form of a character.
pub open spec fn ascii_upper(c: char) -> char {
    if 'a' <= c && c <= 'z' {
        ((c as u32) - 32) as char
    } else {
        c
    }
}

/// The text with its first character in ASCII upper case.
pub open spec fn spec_uppercase_first(s: Seq<char>) -> Seq<char> {
    if s.len() == 0 {
        s
    } else {
        s.update(0, ascii_upper(s[0]))
    }
}

/// Upper-casing the first character keeps the length and the rest of the
/// text, and doing it twice is doing it once.
pub proof fn lemma_uppercase_first_idempotent(s: Seq<char>)
    ensures
        spec_uppercase_first(s).len() == s.len(),
        forall|i: int| 1 <= i < s.len() ==> #[trigger] spec_uppercase_first(s)[i] == s[i],
        spec_uppercase_first(spec_uppercase_first(s)) == spec_uppercase_first(s),
{
    if s.len() > 0 {
        let c = s[0];
        if 'a' <= c && c <= 'z' {
            assert(!('a' <= ascii_upper(c) && ascii_upper(c) <= 'z'));
        }
        assert(spec_uppercase_first(spec_uppercase_first(s)) =~= spec_uppercase_first(s));
    }
}

/// The text with its first character in ASCII upper case, as track names
/// are shown.
pub fn uppercase_first(data: &str) -> (result: String)
    ensures
        result@ == spec_uppercase_first(data@),
{
    let mut result = String::new();
    let mut first = true;
    let n = data.unicode_len();
    let mut i: usize = 0;
    while i < n
        invariant
            n == data@.len(),
            0 <= i <= n,
            first == (i == 0),
            result@ == spec_uppercase_first(data@).take(i as int),
        decreases n - i,
    {
        let value = data.get_char(i);
        if first {
            push_char(&mut result, char_to_ascii_uppercase(value));
            first = false;
        } else {
            push_char(&mut result, value);
        }
        assert(result@ =~= spec_uppercase_first(data@).take(i + 1));
        i = i + 1;
    }
    assert(spec_uppercase_first(data@).take(n as int) =~= spec_uppercase_first(data@));
    result
}

} // verus!
