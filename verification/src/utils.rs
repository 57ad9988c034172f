//! Conversion between letters and alphabet indices, the clean-up of
//! text, and the drawing of a plugboard at random.

use rand::Rng;
use vstd::prelude::*;
use crate::plugboard::{
    add_result, board_ok, empty_board, joined, lemma_add_keeps_board, lemma_plugged_bound,
    lemma_plugged_empty, lemma_tokens_result_push, plugged, token_result, tokens_result,
};
use crate::text::{chars_of, string_of};

verus! {

/// Whether `c` is one of the 52 ASCII letters.
pub open spec fn is_letter(c: char) -> bool {
    ('A' <= c && c <= 'Z') || ('a' <= c && c <= 'z')
}

/// Whether `c` is one of the 26 upper-case letters.
pub open spec fn is_upper(c: char) -> bool {
    'A' <= c && c <= 'Z'
}

/// Whether every character of `s` is an upper-case letter.
pub open spec fn all_upper(s: Seq<char>) -> bool {
    forall|i: int| 0 <= i < s.len() ==> is_upper(#[trigger] s[i])
}

/// The upper-case form of an ASCII letter; every other character is itself.
pub open spec fn upper(c: char) -> char {
    if 'a' <= c && c <= 'z' {
        ((c as int) - 32) as char
    } else {
        c
    }
}

/// The alphabet index of a letter: 0 for 'A' or 'a', 25 for 'Z' or 'z'.
pub open spec fn letter_index(c: char) -> int {
    (upper(c) as int) - 65
}

/// The upper-case letter at an alphabet index.
pub open spec fn index_letter(i: int) -> char {
    (i + 65) as char
}

/// The alphabet index of a character, if it is a letter.
pub open spec fn index_of(c: char) -> Option<usize> {
    if is_letter(c) {
        Some(letter_index(c) as usize)
    } else {
        None
    }
}

/// The upper-case letter at an index, if the index is below 26.
pub open spec fn letter_at(index: usize) -> Option<char> {
    if index < 26 {
        Some(index_letter(index as int))
    } else {
        None
    }
}

/// Converts a letter to its alphabet index, `None` for anything that is
/// not an ASCII letter.
pub fn letter_to_index(letter: char) -> (r: Option<usize>)
    ensures
        r == index_of(letter),
        r matches Some(index) ==> index < 26,
{
    if 'A' <= letter && letter <= 'Z' {
        Some((letter as u8 - 65u8) as usize)
    } else if 'a' <= letter && letter <= 'z' {
        Some((letter as u8 - 97u8) as usize)
    } else {
        None
    }
}

/// Converts an alphabet index to its upper-case letter, `None` for an
/// index above 25.
pub fn index_to_letter(index: usize) -> (r: Option<char>)
    ensures
        r == letter_at(index),
        r matches Some(letter) ==> 'A' <= letter <= 'Z',
{
    if index < 26 {
        Some((65u8 + index as u8) as char)
    } else {
        None
    }
}

/// Every index below 26 has a letter, and that letter has this index.
pub proof fn lemma_index_round_trip(index: usize)
    requires
        index < 26,
    ensures
        letter_at(index) matches Some(letter) && index_of(letter) == Some(index),
{
}

/// Every letter has an index, and the letter at that index is its
/// upper-case form; a character that is not a letter has no index.
pub proof fn lemma_letter_round_trip(c: char)
    ensures
        is_letter(c) ==> (index_of(c) matches Some(index) && letter_at(index) == Some(upper(c))),
        !is_letter(c) ==> index_of(c) is None,
{
}

/// What `char::is_whitespace` answers for a character: whether Unicode
/// counts it as whitespace.
pub uninterp spec fn unicode_whitespace(c: char) -> bool;

/// Calls `char::is_whitespace`. The answer depends on the character
/// alone; the library refers to it as `unicode_whitespace`.
#[verifier::external_body]
pub(crate) fn is_whitespace_char(c: char) -> (b: bool)
    ensures
        b == unicode_whitespace(c),
{
    c.is_whitespace()
}

/// For each character of `chars`, whether it is Unicode whitespace.
pub open spec fn whitespace_marks(chars: Seq<char>) -> Seq<bool> {
    chars.map_values(|c: char| unicode_whitespace(c))
}

/// Marks the whitespace characters of `chars`.
pub fn mark_whitespace(chars: &Vec<char>) -> (marks: Vec<bool>)
    ensures
        marks@ == whitespace_marks(chars@),
{
    let mut marks: Vec<bool> = Vec::new();
    let mut i: usize = 0;
    while i < chars.len()
        invariant
            i <= chars.len(),
            marks@ == whitespace_marks(chars@.take(i as int)),
        decreases chars.len() - i,
    {
        marks.push(is_whitespace_char(chars[i]));
        i += 1;
    }
    marks
}

/// The letters of `s`, upper-cased, in the order in which they stand.
pub open spec fn clean_seq(s: Seq<char>) -> Seq<char> {
    s.filter(|c: char| is_letter(c)).map_values(|c: char| upper(c))
}

/// Appending one character to a text appends its upper-case form to the
/// cleaned text if it is a letter, and nothing otherwise.
pub proof fn lemma_clean_push(s: Seq<char>, c: char)
    ensures
        clean_seq(s.push(c)) == if is_letter(c) {
            clean_seq(s).push(upper(c))
        } else {
            clean_seq(s)
        },
{
    let keep = |c: char| is_letter(c);
    reveal(Seq::filter);
    assert(s.push(c).drop_last() == s);
    assert(s.push(c).last() == c);
    assert(s.push(c).filter(keep) == if is_letter(c) {
        s.filter(keep).push(c)
    } else {
        s.filter(keep)
    });
    if is_letter(c) {
        assert(clean_seq(s.push(c)) =~= clean_seq(s).push(upper(c)));
    }
}

/// Keeps only the ASCII letters of `text`, each upper-cased, in order.
pub fn clean_text(text: &str) -> (r: String)
    ensures
        r@ == clean_seq(text@),
{
    let chars = chars_of(text);
    let mut out: Vec<char> = Vec::new();
    let mut i: usize = 0;
    while i < chars.len()
        invariant
            i <= chars.len(),
            out@ == clean_seq(chars@.take(i as int)),
        decreases chars.len() - i,
    {
        let c = chars[i];
        proof {
            lemma_clean_push(chars@.take(i as int), c);
            assert(chars@.take(i as int).push(c) == chars@.take(i + 1));
        }
        match letter_to_index(c) {
            Some(index) => {
                match index_to_letter(index) {
                    Some(u) => out.push(u),
                    None => {},
                }
            },
            None => {},
        }
        i += 1;
    }
    proof {
        assert(chars@.take(chars@.len() as int) == chars@);
    }
    string_of(&out)
}

/// Whether every character is an ASCII letter or marked as whitespace.
pub open spec fn valid_text(chars: Seq<char>, marks: Seq<bool>) -> bool {
    forall|i: int| 0 <= i < chars.len() ==> is_letter(#[trigger] chars[i]) || marks[i]
}

/// Whether `chars` holds only ASCII letters and characters that `marks`
/// flags as whitespace.
pub fn is_valid_marked(chars: &Vec<char>, marks: &Vec<bool>) -> (r: bool)
    requires
        marks@.len() == chars@.len(),
    ensures
        r == valid_text(chars@, marks@),
{
    let mut i: usize = 0;
    while i < chars.len()
        invariant
            i <= chars.len(),
            marks@.len() == chars@.len(),
            forall|k: int| 0 <= k < i ==> is_letter(#[trigger] chars@[k]) || marks@[k],
        decreases chars.len() - i,
    {
        if letter_to_index(chars[i]).is_none() && !marks[i] {
            return false;
        }
        i += 1;
    }
    true
}

/// Whether `text` holds only ASCII letters and Unicode whitespace.
pub fn is_valid_text(text: &str) -> (r: bool)
    ensures
        r == valid_text(text@, whitespace_marks(text@)),
{
    let chars = chars_of(text);
    let marks = mark_whitespace(&chars);
    is_valid_marked(&chars, &marks)
}

/// Calls `gen_range` of the `rand` crate on the thread's generator, with
/// the range from 0 up to, not including, `bound`. The range must not be
/// empty. Whatever is drawn lies in the range. The generator needs the
/// random source of the operating system when a thread first uses it
/// and whenever it seeds itself anew.
#[verifier::external_body]
pub(crate) fn random_below(bound: usize) -> (r: usize)
    requires
        bound > 0,
    ensures
        r < bound,
{
    rand::thread_rng().gen_range(0..bound)
}

/// The number of free letters among the first `n`.
pub open spec fn free_before(used: Seq<bool>, n: int) -> int
    decreases n,
{
    if n <= 0 {
        0
    } else {
        free_before(used, n - 1) + if used[n - 1] {
            0int
        } else {
            1int
        }
    }
}

/// The place of the free letter that has `n` free letters between
/// `start` and itself; the length of `used` if there is none.
pub open spec fn nth_free(used: Seq<bool>, start: int, n: int) -> int
    decreases used.len() - start,
{
    if start < 0 || start >= used.len() {
        used.len() as int
    } else if used[start] {
        nth_free(used, start + 1, n)
    } else if n == 0 {
        start
    } else {
        nth_free(used, start + 1, n - 1)
    }
}

/// The partner that a draw picks for `letter`: the free letter that has
/// `choice` free letters before it, unless that is `letter` itself or
/// there is no such letter.
pub open spec fn partner_for(used: Seq<bool>, letter: int, choice: int) -> Option<usize> {
    let place = nth_free(used, 0, choice);
    if place < used.len() && place != letter {
        Some(place as usize)
    } else {
        None
    }
}

/// The number of letters that are free.
pub fn count_free(used: &[bool; 26]) -> (r: usize)
    ensures
        r == free_before(used@, 26),
{
    let mut count: usize = 0;
    let mut i: usize = 0;
    while i < 26
        invariant
            i <= 26,
            count == free_before(used@, i as int),
            count <= i,
        decreases 26 - i,
    {
        if !used[i] {
            count += 1;
        }
        i += 1;
    }
    count
}

/// The place of the free letter that a number names: the free letters
/// are counted in alphabetical order from 0. The result is 26 if there
/// are not that many free letters.
pub fn free_letter_at(used: &[bool; 26], choice: usize) -> (r: usize)
    ensures
        r == nth_free(used@, 0, choice as int),
        r <= 26,
        r < 26 ==> !used@[r as int],
{
    let mut left = choice;
    let mut i: usize = 0;
    while i < 26
        invariant
            i <= 26,
            nth_free(used@, 0, choice as int) == nth_free(used@, i as int, left as int),
        decreases 26 - i,
    {
        if !used[i] {
            if left == 0 {
                return i;
            }
            left -= 1;
        }
        i += 1;
    }
    26
}

/// Picks the partner of `letter` among the free letters, by a number
/// that was drawn: the free letter that the number names is the
/// partner, unless it is `letter` itself.
pub fn pick_partner(used: &[bool; 26], letter: usize, choice: usize) -> (r: Option<usize>)
    ensures
        r == partner_for(used@, letter as int, choice as int),
        r matches Some(partner) ==> partner < 26 && !used@[partner as int] && partner != letter,
{
    let place = free_letter_at(used, choice);
    if place < 26 && place != letter {
        Some(place)
    } else {
        None
    }
}

/// Whether a list of tokens describes a plugboard: each token is two
/// different letters, and no letter stands in two tokens.
pub open spec fn describes_board(list: Seq<Seq<char>>) -> bool {
    tokens_result(empty_board(), list) is Ok
}

/// Whether every token of a list is made of upper-case letters.
pub open spec fn upper_tokens(list: Seq<Seq<char>>) -> bool {
    forall|k: int| 0 <= k < list.len() ==> all_upper(#[trigger] list[k])
}

/// A list of upper-case tokens stays one when an upper-case token is put
/// at its end.
pub proof fn lemma_upper_tokens_push(list: Seq<Seq<char>>, token: Seq<char>)
    requires
        upper_tokens(list),
        all_upper(token),
    ensures
        upper_tokens(list.push(token)),
{
    assert forall|k: int| 0 <= k < list.push(token).len() implies all_upper(
        #[trigger] list.push(token)[k],
    ) by {
        if k < list.len() {
            assert(list.push(token)[k] == list[k]);
        }
    }
}

/// Draws a plugboard at random and gives it as text, such as
/// `"AQ BX CM"`. Each letter in turn that is still free draws among the
/// free letters; if it draws another letter, the two become a pair.
/// Whatever is drawn, the text is a list of at most 13 tokens with one
/// space between neighbours; each token is two upper-case letters, and
/// the list describes a plugboard.
pub fn generate_random_plugboard() -> (r: String)
    ensures
        exists|list: Seq<Seq<char>>|
            r@ == joined(list) && describes_board(list) && upper_tokens(list) && list.len()
                <= 13,
{
    let mut used: [bool; 26] = [false; 26];
    let mut out: Vec<char> = Vec::new();
    let ghost mut list: Seq<Seq<char>> = Seq::empty();
    let ghost mut board: Seq<Option<usize>> = empty_board();
    let mut letter: usize = 0;
    proof {
        lemma_plugged_empty(26);
    }
    while letter < 26
        invariant
            letter <= 26,
            out@ == joined(list),
            (out@.len() == 0) == (list.len() == 0),
            tokens_result(empty_board(), list) == Ok::<_, Seq<char>>(board),
            upper_tokens(list),
            board_ok(board),
            plugged(board, 26) == 2 * list.len(),
            forall|k: int| 0 <= k < 26 ==> used@[k] == (#[trigger] board[k] is Some),
        decreases 26 - letter,
    {
        if !used[letter] {
            let available = count_free(&used);
            if available > 1 {
                let choice = random_below(available);
                match pick_partner(&used, letter, choice) {
                    Some(partner) => {
                        let first = match index_to_letter(letter) {
                            Some(c) => c,
                            None => 'A',
                        };
                        let second = match index_to_letter(partner) {
                            Some(c) => c,
                            None => 'A',
                        };
                        proof {
                            let token = seq![first, second];
                            lemma_tokens_result_push(empty_board(), list, token);
                            lemma_upper_tokens_push(list, token);
                            assert(list.push(token).drop_last() == list);
                            assert(token_result(board, token) == add_result(board, first, second));
                            lemma_add_keeps_board(board, first, second);
                            let next = add_result(board, first, second)->Ok_0;
                            assert forall|k: int| 0 <= k < 26 implies (k == letter || k == partner
                                || used@[k]) == (#[trigger] next[k] is Some) by {
                                assert(used@[k] == (board[k] is Some));
                            }
                            if list.len() > 0 {
                                assert(joined(list.push(token)) == joined(list) + seq![' ']
                                    + token);
                            }
                        }
                        let ghost before = out@;
                        if out.len() > 0 {
                            out.push(' ');
                        }
                        out.push(first);
                        out.push(second);
                        used[letter] = true;
                        used[partner] = true;
                        proof {
                            let token = seq![first, second];
                            if list.len() == 0 {
                                assert(out@ =~= token);
                            } else {
                                assert(out@ =~= before + seq![' '] + token);
                            }
                            board = add_result(board, first, second)->Ok_0;
                            list = list.push(token);
                        }
                    },
                    None => {},
                }
            }
        }
        letter += 1;
    }
    proof {
        lemma_plugged_bound(board, 26);
    }
    string_of(&out)
}

} // verus!
