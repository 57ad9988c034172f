//! Texts as sequences of characters: taking them apart, putting them
//! together and comparing them.

use vstd::prelude::*;

verus! {

/// Calls `String::push`, which appends one character to the end of the
/// string.
#[verifier::external_body]
pub(crate) fn push_char(s: &mut String, c: char)
    ensures
        final(s)@ == old(s)@.push(c),
{
    s.push(c)
}

/// The characters of a string slice, in order.
pub fn chars_of(text: &str) -> (v: Vec<char>)
    ensures
        v@ == text@,
{
    let mut v: Vec<char> = Vec::new();
    for c in it: text.chars()
        invariant
            it.seq() == text@,
            v@ == it.seq().take(it.index()),
    {
        v.push(c);
    }
    v
}

/// The string made of the given characters, in order.
pub fn string_of(chars: &Vec<char>) -> (s: String)
    ensures
        s@ == chars@,
{
    let mut s = String::new();
    let mut i: usize = 0;
    while i < chars.len()
        invariant
            i <= chars.len(),
            s@ == chars@.take(i as int),
        decreases chars.len() - i,
    {
        push_char(&mut s, chars[i]);
        i += 1;
    }
    s
}

/// Appends the characters of `text` to `out`.
pub fn push_text(out: &mut Vec<char>, text: &str)
    ensures
        final(out)@ == old(out)@ + text@,
{
    let tail = chars_of(text);
    let ghost head = out@;
    let mut k: usize = 0;
    assert(head + tail@.take(0) =~= head);
    while k < tail.len()
        invariant
            k <= tail.len(),
            out@ == head + tail@.take(k as int),
        decreases tail.len() - k,
    {
        out.push(tail[k]);
        assert(head + tail@.take(k + 1) =~= (head + tail@.take(k as int)).push(tail@[k as int]));
        k += 1;
    }
    assert(tail@.take(tail@.len() as int) == tail@);
}

/// Whether two texts hold the same characters.
pub fn same_text(a: &str, b: &str) -> (r: bool)
    ensures
        r == (a@ == b@),
{
    let x = chars_of(a);
    let y = chars_of(b);
    if x.len() != y.len() {
        return false;
    }
    let mut i: usize = 0;
    while i < x.len()
        invariant
            i <= x.len(),
            x@ == a@,
            y@ == b@,
            x@.len() == y@.len(),
            x@.take(i as int) == y@.take(i as int),
        decreases x.len() - i,
    {
        if x[i] != y[i] {
            assert(a@[i as int] != b@[i as int]);
            return false;
        }
        assert(x@.take(i + 1) =~= x@.take(i as int).push(x@[i as int]));
        assert(y@.take(i + 1) =~= y@.take(i as int).push(y@[i as int]));
        i += 1;
    }
    assert(x@.take(x@.len() as int) == x@);
    assert(y@.take(y@.len() as int) == y@);
    true
}

/// The string made of a prefix and one character.
pub fn with_char(prefix: &str, c: char) -> (s: String)
    ensures
        s@ == prefix@.push(c),
{
    let mut s = prefix.to_owned();
    push_char(&mut s, c);
    s
}

/// The string made of a prefix and a text.
pub fn with_text(prefix: &str, text: &str) -> (s: String)
    ensures
        s@ == prefix@ + text@,
{
    let mut all = chars_of(prefix);
    push_text(&mut all, text);
    string_of(&all)
}

/// The string made of a prefix and the given characters.
pub fn with_chars(prefix: &str, chars: &Vec<char>) -> (s: String)
    ensures
        s@ == prefix@ + chars@,
{
    let mut all = chars_of(prefix);
    let ghost head = all@;
    let mut i: usize = 0;
    assert(head + chars@.take(0) =~= head);
    while i < chars.len()
        invariant
            i <= chars.len(),
            all@ == head + chars@.take(i as int),
        decreases chars.len() - i,
    {
        all.push(chars[i]);
        assert(head + chars@.take(i + 1) =~= (head + chars@.take(i as int)).push(chars@[i as int]));
        i += 1;
    }
    assert(chars@.take(chars@.len() as int) == chars@);
    string_of(&all)
}

/// The string made of a prefix, one character and a suffix.
pub fn around_char(prefix: &str, c: char, suffix: &str) -> (s: String)
    ensures
        s@ == prefix@.push(c) + suffix@,
{
    let mut all = chars_of(prefix);
    all.push(c);
    let tail = chars_of(suffix);
    let ghost head = all@;
    let mut k: usize = 0;
    while k < tail.len()
        invariant
            k <= tail.len(),
            all@ == head + tail@.take(k as int),
        decreases tail.len() - k,
    {
        all.push(tail[k]);
        k += 1;
    }
    assert(tail@.take(tail@.len() as int) == tail@);
    string_of(&all)
}

/// The string made of a prefix, the given characters and a suffix.
pub fn framed(prefix: &str, middle: &Vec<char>, suffix: &str) -> (s: String)
    ensures
        s@ == prefix@ + middle@ + suffix@,
{
    let mut all = chars_of(prefix);
    let ghost before = all@;
    let mut i: usize = 0;
    while i < middle.len()
        invariant
            i <= middle.len(),
            all@ == before + middle@.take(i as int),
        decreases middle.len() - i,
    {
        all.push(middle[i]);
        i += 1;
    }
    assert(middle@.take(middle@.len() as int) == middle@);
    let tail = chars_of(suffix);
    let ghost head = all@;
    let mut k: usize = 0;
    while k < tail.len()
        invariant
            k <= tail.len(),
            all@ == head + tail@.take(k as int),
        decreases tail.len() - k,
    {
        all.push(tail[k]);
        k += 1;
    }
    assert(tail@.take(tail@.len() as int) == tail@);
    string_of(&all)
}

} // verus!
