//! The plugboard: a set of letter pairs that are swapped before and after
//! the rotors.

use vstd::prelude::*;
use crate::text::{around_char, chars_of, framed, string_of, with_char};
use crate::utils::{
    index_letter, index_to_letter, is_letter, letter_to_index, mark_whitespace,
    whitespace_marks,
};
use crate::wiring::letter_slot;

verus! {

/// A plugboard: for each letter its partner, if it has one, and the
/// number of pairs.
#[derive(Debug)]
pub struct Plugboard {
    connections: [Option<usize>; 26],
    connection_count: usize,
}

/// The board without any pair.
pub open spec fn empty_board() -> Seq<Option<usize>> {
    Seq::new(26, |i: int| None::<usize>)
}

/// A board is valid when the partner of each plugged letter is another
/// letter, whose partner is the first.
pub open spec fn board_ok(b: Seq<Option<usize>>) -> bool {
    &&& b.len() == 26
    &&& forall|i: int|
        0 <= i < 26 ==> (#[trigger] b[i] matches Some(j) ==> j < 26 && j != i && b[j as int]
            == Some(i as usize))
}

/// The number of plugged letters among the first `n`.
pub open spec fn plugged(b: Seq<Option<usize>>, n: int) -> int
    decreases n,
{
    if n <= 0 {
        0
    } else {
        plugged(b, n - 1) + if b[n - 1] is Some {
            1int
        } else {
            0int
        }
    }
}

/// The number of pairs on a board.
pub open spec fn pair_count(b: Seq<Option<usize>>) -> int {
    plugged(b, 26) / 2
}

/// The message for a pair of a letter with itself.
pub open spec fn self_message() -> Seq<char> {
    "Ein Buchstabe kann nicht mit sich selbst verbunden werden"@
}

/// The message for the character `c`, which is not a letter.
pub open spec fn letter_message(c: char) -> Seq<char> {
    "Ungültiger Buchstabe: "@.push(c)
}

/// The message for the letter `c`, which has a partner already.
pub open spec fn taken_message(c: char) -> Seq<char> {
    "Buchstabe "@.push(c) + " ist bereits verbunden"@
}

/// The message for the letter `c`, which has no partner.
pub open spec fn free_message(c: char) -> Seq<char> {
    "Keine Verbindung für Buchstabe "@.push(c) + " gefunden"@
}

/// The message for a token that does not have two characters.
pub open spec fn token_length_message(token: Seq<char>) -> Seq<char> {
    "Verbindung '"@ + token + "' muss genau 2 Zeichen lang sein"@
}

/// The message for a token that holds something other than letters.
pub open spec fn token_letters_message(token: Seq<char>) -> Seq<char> {
    "Verbindung '"@ + token + "' darf nur Buchstaben enthalten"@
}

/// What adding the pair of `first` and `second` to the board `b` gives:
/// the board with the pair, or the message of the first check that
/// fails. Upper and lower case name the same letter.
pub open spec fn add_result(b: Seq<Option<usize>>, first: char, second: char) -> Result<
    Seq<Option<usize>>,
    Seq<char>,
> {
    let i = letter_slot(first);
    let j = letter_slot(second);
    if first == second {
        Err(self_message())
    } else if !is_letter(first) {
        Err(letter_message(first))
    } else if !is_letter(second) {
        Err(letter_message(second))
    } else if i == j {
        Err(self_message())
    } else if b[i as int] is Some {
        Err(taken_message(first))
    } else if b[j as int] is Some {
        Err(taken_message(second))
    } else {
        Ok(b.update(i as int, Some(j)).update(j as int, Some(i)))
    }
}

/// What removing the pair of `first` from the board `b` gives: the board
/// without the pair, or the message of the check that fails.
pub open spec fn remove_result(b: Seq<Option<usize>>, first: char) -> Result<
    Seq<Option<usize>>,
    Seq<char>,
> {
    let i = letter_slot(first);
    if !is_letter(first) {
        Err(letter_message(first))
    } else {
        match b[i as int] {
            Some(j) => Ok(b.update(i as int, None).update(j as int, None)),
            None => Err(free_message(first)),
        }
    }
}

/// The letter that the board gives for `input`: its partner if it has
/// one, else `input` itself. A character that is not a letter is looked
/// up as `'A'`.
pub open spec fn process_letter(b: Seq<Option<usize>>, input: char) -> char {
    match b[letter_slot(input) as int] {
        Some(j) => index_letter(j as int),
        None => input,
    }
}

/// The tokens of a text: the longest runs of characters that are not
/// marked as whitespace, from left to right. A character that is not
/// marked continues the last token if the character before it is not
/// marked either, and begins a new token otherwise.
pub open spec fn tokens(chars: Seq<char>, marks: Seq<bool>) -> Seq<Seq<char>>
    decreases chars.len(),
{
    if chars.len() == 0 {
        Seq::empty()
    } else {
        let n = chars.len() - 1;
        let before = tokens(chars.take(n), marks.take(n));
        if marks[n] {
            before
        } else if n > 0 && !marks[n - 1] && before.len() > 0 {
            before.drop_last().push(before.last().push(chars[n]))
        } else {
            before.push(seq![chars[n]])
        }
    }
}

/// What one token does to the board `b`: a token of two letters adds
/// their pair, any other token is refused.
pub open spec fn token_result(b: Seq<Option<usize>>, token: Seq<char>) -> Result<
    Seq<Option<usize>>,
    Seq<char>,
> {
    if token.len() != 2 {
        Err(token_length_message(token))
    } else if !is_letter(token[0]) || !is_letter(token[1]) {
        Err(token_letters_message(token))
    } else {
        add_result(b, token[0], token[1])
    }
}

/// What a list of tokens does to the board `b`, taken from left to right:
/// the board with all their pairs, or the message for the first token
/// that is refused.
pub open spec fn tokens_result(b: Seq<Option<usize>>, list: Seq<Seq<char>>) -> Result<
    Seq<Option<usize>>,
    Seq<char>,
>
    decreases list.len(),
{
    if list.len() == 0 {
        Ok(b)
    } else {
        match token_result(b, list[0]) {
            Ok(next) => tokens_result(next, list.drop_first()),
            Err(message) => Err(message),
        }
    }
}

/// The board that a text describes, or why it describes none.
pub open spec fn parse_result(chars: Seq<char>, marks: Seq<bool>) -> Result<
    Seq<Option<usize>>,
    Seq<char>,
> {
    tokens_result(empty_board(), tokens(chars, marks))
}

/// The tokens of the pairs whose first letter is among the first `n`
/// letters: each pair once, under its earlier letter, in alphabetical
/// order.
pub open spec fn pair_tokens(b: Seq<Option<usize>>, n: int) -> Seq<Seq<char>>
    decreases n,
{
    if n <= 0 {
        Seq::empty()
    } else {
        let before = pair_tokens(b, n - 1);
        match b[n - 1] {
            Some(j) => if n - 1 < j {
                before.push(seq![index_letter(n - 1), index_letter(j as int)])
            } else {
                before
            },
            None => before,
        }
    }
}

/// The tokens of a list, with one space between neighbours.
pub open spec fn joined(list: Seq<Seq<char>>) -> Seq<char>
    decreases list.len(),
{
    if list.len() == 0 {
        Seq::empty()
    } else if list.len() == 1 {
        list[0]
    } else {
        joined(list.drop_last()) + seq![' '] + list.last()
    }
}

/// A list with one more token at its end does what the list does and
/// then what the token does.
pub proof fn lemma_tokens_result_push(b: Seq<Option<usize>>, list: Seq<Seq<char>>, token: Seq<char>)
    ensures
        tokens_result(b, list.push(token)) == match tokens_result(b, list) {
            Ok(next) => token_result(next, token),
            Err(message) => Err(message),
        },
    decreases list.len(),
{
    if list.len() == 0 {
        assert(list.push(token).drop_first() =~= list);
        assert(tokens_result(b, list.push(token)) == match token_result(b, token) {
            Ok(next) => tokens_result(next, list),
            Err(message) => Err(message),
        });
    } else {
        assert(list.push(token).drop_first() =~= list.drop_first().push(token));
        match token_result(b, list[0]) {
            Ok(next) => {
                lemma_tokens_result_push(next, list.drop_first(), token);
            },
            Err(_) => {},
        }
    }
}

/// Changing one entry changes the number of plugged letters by what the
/// entry gains or loses.
pub proof fn lemma_plugged_update(b: Seq<Option<usize>>, i: int, v: Option<usize>, n: int)
    requires
        0 <= i < b.len(),
        0 <= n <= b.len(),
    ensures
        plugged(b.update(i, v), n) == plugged(b, n) + if i < n {
            (if v is Some {
                1int
            } else {
                0int
            }) - (if b[i] is Some {
                1int
            } else {
                0int
            })
        } else {
            0int
        },
    decreases n,
{
    if n > 0 {
        lemma_plugged_update(b, i, v, n - 1);
    }
}

/// Among the first `n` letters at most `n` are plugged.
pub proof fn lemma_plugged_bound(b: Seq<Option<usize>>, n: int)
    requires
        0 <= n,
    ensures
        0 <= plugged(b, n) <= n,
    decreases n,
{
    if n > 0 {
        lemma_plugged_bound(b, n - 1);
    }
}

/// No letter is plugged on the empty board.
pub proof fn lemma_plugged_empty(n: int)
    requires
        0 <= n <= 26,
    ensures
        plugged(empty_board(), n) == 0,
    decreases n,
{
    if n > 0 {
        lemma_plugged_empty(n - 1);
    }
}

/// Adding a pair to a valid board gives a valid board with one pair more.
pub proof fn lemma_add_keeps_board(b: Seq<Option<usize>>, first: char, second: char)
    requires
        board_ok(b),
        add_result(b, first, second) is Ok,
    ensures
        board_ok(add_result(b, first, second)->Ok_0),
        plugged(add_result(b, first, second)->Ok_0, 26) == plugged(b, 26) + 2,
{
    let i = letter_slot(first) as int;
    let j = letter_slot(second) as int;
    let mid = b.update(i, Some(j as usize));
    lemma_plugged_update(b, i, Some(j as usize), 26);
    lemma_plugged_update(mid, j, Some(i as usize), 26);
    let after = mid.update(j, Some(i as usize));
    assert forall|k: int| 0 <= k < 26 implies (#[trigger] after[k] matches Some(m) ==> m < 26 && m
        != k && after[m as int] == Some(k as usize)) by {
        if k != i && k != j {
            assert(after[k] == b[k]);
        }
    }
}

/// Removing a pair from a valid board gives a valid board with one pair
/// less.
pub proof fn lemma_remove_keeps_board(b: Seq<Option<usize>>, first: char)
    requires
        board_ok(b),
        remove_result(b, first) is Ok,
    ensures
        board_ok(remove_result(b, first)->Ok_0),
        plugged(remove_result(b, first)->Ok_0, 26) == plugged(b, 26) - 2,
{
    let i = letter_slot(first) as int;
    let j = b[i]->Some_0 as int;
    let mid = b.update(i, None);
    lemma_plugged_update(b, i, None, 26);
    lemma_plugged_update(mid, j, None, 26);
    let after = mid.update(j, None);
    assert forall|k: int| 0 <= k < 26 implies (#[trigger] after[k] matches Some(m) ==> m < 26 && m
        != k && after[m as int] == Some(k as usize)) by {
        if k != i && k != j {
            assert(after[k] == b[k]);
        }
    }
}

/// On a valid board, sending a letter through twice gives the letter
/// back. This holds for every upper-case letter, and for every character
/// that the board leaves as it is.
pub proof fn lemma_process_twice(b: Seq<Option<usize>>, c: char)
    requires
        board_ok(b),
        ('A' <= c && c <= 'Z') || b[letter_slot(c) as int] is None,
    ensures
        process_letter(b, process_letter(b, c)) == c,
{
}

/// The tokens held by a list of vectors.
pub open spec fn token_views(list: Seq<Vec<char>>) -> Seq<Seq<char>> {
    list.map_values(|t: Vec<char>| t@)
}

/// Cuts a text into its tokens, given which of its characters are
/// whitespace.
pub fn split_tokens(chars: &Vec<char>, marks: &Vec<bool>) -> (list: Vec<Vec<char>>)
    requires
        marks@.len() == chars@.len(),
    ensures
        token_views(list@) == tokens(chars@, marks@),
{
    let mut done: Vec<Vec<char>> = Vec::new();
    let mut current: Vec<char> = Vec::new();
    let mut i: usize = 0;
    assert(token_views(done@) =~= Seq::<Seq<char>>::empty());
    while i < chars.len()
        invariant
            i <= chars.len(),
            marks@.len() == chars@.len(),
            i > 0 && !marks@[i - 1] ==> current@.len() > 0 && tokens(
                chars@.take(i as int),
                marks@.take(i as int),
            ) == token_views(done@).push(current@),
            !(i > 0 && !marks@[i - 1]) ==> current@.len() == 0 && tokens(
                chars@.take(i as int),
                marks@.take(i as int),
            ) == token_views(done@),
        decreases chars.len() - i,
    {
        let c = chars[i];
        proof {
            let n = i as int;
            assert(chars@.take(n + 1).take(n) == chars@.take(n));
            assert(marks@.take(n + 1).take(n) == marks@.take(n));
            assert(chars@.take(n + 1)[n] == c);
            assert(marks@.take(n + 1)[n] == marks@[n]);
            if n > 0 {
                assert(marks@.take(n + 1)[n - 1] == marks@[n - 1]);
            }
        }
        if marks[i] {
            if current.len() > 0 {
                let ghost before = token_views(done@);
                let ghost token = current@;
                done.push(current);
                current = Vec::new();
                assert(token_views(done@) =~= before.push(token));
            }
        } else {
            let ghost before = token_views(done@);
            let ghost earlier = current@;
            let ghost n = i as int;
            let ghost so_far = tokens(chars@.take(n), marks@.take(n));
            current.push(c);
            proof {
                let next = tokens(chars@.take(n + 1), marks@.take(n + 1));
                if i > 0 && !marks@[i - 1] {
                    assert(so_far == before.push(earlier));
                    assert(so_far.drop_last() == before);
                    assert(so_far.last() == earlier);
                    assert(next == so_far.drop_last().push(so_far.last().push(c)));
                } else {
                    assert(so_far == before);
                    assert(earlier.push(c) =~= seq![c]);
                    assert(next == so_far.push(seq![c]));
                }
                assert(next == before.push(current@));
            }
        }
        i += 1;
    }
    assert(chars@.take(chars@.len() as int) == chars@);
    assert(marks@.take(marks@.len() as int) == marks@);
    if current.len() > 0 {
        let ghost before = token_views(done@);
        let ghost token = current@;
        done.push(current);
        assert(token_views(done@) =~= before.push(token));
    }
    done
}

impl View for Plugboard {
    type V = Seq<Option<usize>>;

    closed spec fn view(&self) -> Seq<Option<usize>> {
        self.connections@
    }
}

impl Clone for Plugboard {
    fn clone(&self) -> (r: Self)
        ensures
            r == *self,
    {
        proof {
            use_type_invariant(self);
        }
        Plugboard { connections: self.connections, connection_count: self.connection_count }
    }
}

impl Plugboard {
    /// Whether the stored number of pairs is half the number of plugged
    /// letters.
    pub closed spec fn count_stored(&self) -> bool {
        2 * self.connection_count == plugged(self.connections@, 26)
    }

    /// Every plugboard is valid and knows how many pairs it holds.
    #[verifier::type_invariant]
    pub open spec fn wf(&self) -> bool {
        board_ok(self@) && self.count_stored()
    }

    /// A plugboard without any pair.
    pub fn new() -> (r: Self)
        ensures
            r@ == empty_board(),
            r.wf(),
    {
        let connections: [Option<usize>; 26] = [None; 26];
        proof {
            assert(connections@ =~= empty_board());
            lemma_plugged_empty(26);
        }
        Plugboard { connections, connection_count: 0 }
    }

    /// Adds the pair of two different letters that have no partner yet.
    /// On an error the board stays as it is.
    pub fn add_connection(&mut self, first: char, second: char) -> (r: Result<(), String>)
        ensures
            match r {
                Ok(_) => add_result(old(self)@, first, second) == Ok::<_, Seq<char>>(final(self)@),
                Err(message) => add_result(old(self)@, first, second) == Err::<
                    Seq<Option<usize>>,
                    _,
                >(message@) && final(self)@ == old(self)@,
            },
            final(self).wf(),
    {
        proof {
            use_type_invariant(&*self);
        }
        if first == second {
            return Err("Ein Buchstabe kann nicht mit sich selbst verbunden werden".to_owned());
        }
        let first_index = match letter_to_index(first) {
            Some(index) => index,
            None => {
                return Err(with_char("Ungültiger Buchstabe: ", first));
            },
        };
        let second_index = match letter_to_index(second) {
            Some(index) => index,
            None => {
                return Err(with_char("Ungültiger Buchstabe: ", second));
            },
        };
        if first_index == second_index {
            return Err("Ein Buchstabe kann nicht mit sich selbst verbunden werden".to_owned());
        }
        if self.connections[first_index].is_some() {
            return Err(around_char("Buchstabe ", first, " ist bereits verbunden"));
        }
        if self.connections[second_index].is_some() {
            return Err(around_char("Buchstabe ", second, " ist bereits verbunden"));
        }
        proof {
            lemma_add_keeps_board(self@, first, second);
            lemma_plugged_bound(self@, 26);
        }
        let mut connections = self.connections;
        connections[first_index] = Some(second_index);
        connections[second_index] = Some(first_index);
        *self = Plugboard { connections, connection_count: self.connection_count + 1 };
        Ok(())
    }

    /// Removes the pair that `first` belongs to. On an error the board
    /// stays as it is.
    pub fn remove_connection(&mut self, first: char) -> (r: Result<(), String>)
        ensures
            match r {
                Ok(_) => remove_result(old(self)@, first) == Ok::<_, Seq<char>>(final(self)@),
                Err(message) => remove_result(old(self)@, first) == Err::<Seq<Option<usize>>, _>(
                    message@,
                ) && final(self)@ == old(self)@,
            },
            final(self).wf(),
    {
        proof {
            use_type_invariant(&*self);
        }
        let first_index = match letter_to_index(first) {
            Some(index) => index,
            None => {
                return Err(with_char("Ungültiger Buchstabe: ", first));
            },
        };
        match self.connections[first_index] {
            Some(second_index) => {
                proof {
                    lemma_remove_keeps_board(self@, first);
                    lemma_plugged_bound(remove_result(self@, first)->Ok_0, 26);
                }
                let mut connections = self.connections;
                connections[first_index] = None;
                connections[second_index] = None;
                *self = Plugboard { connections, connection_count: self.connection_count - 1 };
                Ok(())
            },
            None => {
                Err(around_char("Keine Verbindung für Buchstabe ", first, " gefunden"))
            },
        }
    }

    /// Builds a plugboard from a text of pairs, given which of its
    /// characters are whitespace. Each token must be two different
    /// letters that no earlier token has used.
    pub fn from_marked(chars: &Vec<char>, marks: &Vec<bool>) -> (r: Result<Self, String>)
        requires
            marks@.len() == chars@.len(),
        ensures
            match r {
                Ok(plugboard) => parse_result(chars@, marks@) == Ok::<_, Seq<char>>(plugboard@)
                    && plugboard.wf(),
                Err(message) => parse_result(chars@, marks@) == Err::<Seq<Option<usize>>, _>(
                    message@,
                ),
            },
    {
        let list = split_tokens(chars, marks);
        let mut plugboard = Plugboard::new();
        let ghost all = token_views(list@);
        let mut k: usize = 0;
        assert(all.skip(0) == all);
        while k < list.len()
            invariant
                k <= list.len(),
                all == token_views(list@),
                all == tokens(chars@, marks@),
                tokens_result(empty_board(), all) == tokens_result(plugboard@, all.skip(k as int)),
            decreases list.len() - k,
        {
            let token = &list[k];
            proof {
                assert(all.skip(k as int)[0] == token@);
                assert(all.skip(k as int).drop_first() == all.skip(k + 1));
            }
            if token.len() != 2 {
                return Err(framed("Verbindung '", token, "' muss genau 2 Zeichen lang sein"));
            }
            let first = token[0];
            let second = token[1];
            if letter_to_index(first).is_none() || letter_to_index(second).is_none() {
                return Err(framed("Verbindung '", token, "' darf nur Buchstaben enthalten"));
            }
            match plugboard.add_connection(first, second) {
                Ok(_) => {},
                Err(message) => {
                    return Err(message);
                },
            }
            k += 1;
        }
        proof {
            use_type_invariant(&plugboard);
        }
        Ok(plugboard)
    }

    /// Builds a plugboard from a text of pairs such as `"AB CD EF"`:
    /// tokens of two letters, with whitespace between them. A text
    /// without any token gives the empty plugboard.
    pub fn from_string(connections: &str) -> (r: Result<Self, String>)
        ensures
            match r {
                Ok(plugboard) => parse_result(connections@, whitespace_marks(connections@)) == Ok::<
                    _,
                    Seq<char>,
                >(plugboard@) && plugboard.wf(),
                Err(message) => parse_result(connections@, whitespace_marks(connections@)) == Err::<
                    Seq<Option<usize>>,
                    _,
                >(message@),
            },
    {
        let chars = chars_of(connections);
        let marks = mark_whitespace(&chars);
        Self::from_marked(&chars, &marks)
    }

    /// The pairs as text, such as `"AB CD EF"`: each pair once, under its
    /// earlier letter, in alphabetical order, with one space between
    /// neighbours.
    pub fn get_connections_string(&self) -> (r: String)
        ensures
            r@ == joined(pair_tokens(self@, 26)),
    {
        proof {
            use_type_invariant(self);
        }
        let mut out: Vec<char> = Vec::new();
        let mut i: usize = 0;
        while i < 26
            invariant
                i <= 26,
                board_ok(self@),
                out@ == joined(pair_tokens(self@, i as int)),
                (out@.len() == 0) == (pair_tokens(self@, i as int).len() == 0),
            decreases 26 - i,
        {
            match self.connections[i] {
                Some(target) => {
                    if i < target {
                        let first = match index_to_letter(i) {
                            Some(letter) => letter,
                            None => 'A',
                        };
                        let second = match index_to_letter(target) {
                            Some(letter) => letter,
                            None => 'A',
                        };
                        proof {
                            let before = pair_tokens(self@, i as int);
                            let token = seq![first, second];
                            assert(before.push(token).drop_last() == before);
                            assert(pair_tokens(self@, i + 1) == before.push(token));
                            if before.len() == 0 {
                                assert(joined(before.push(token)) == token);
                            } else {
                                assert(joined(before.push(token)) == joined(before) + seq![' ']
                                    + token);
                            }
                        }
                        if out.len() > 0 {
                            out.push(' ');
                        }
                        out.push(first);
                        out.push(second);
                        proof {
                            let before = pair_tokens(self@, i as int);
                            let token = seq![first, second];
                            if before.len() == 0 {
                                assert(out@ =~= token);
                            } else {
                                assert(out@ =~= joined(before) + seq![' '] + token);
                            }
                        }
                    }
                },
                None => {},
            }
            i += 1;
        }
        string_of(&out)
    }

    /// Swaps a letter for its partner; a letter without a partner passes
    /// unchanged.
    pub fn process(&self, input: char) -> (r: char)
        ensures
            r == process_letter(self@, input),
    {
        proof {
            use_type_invariant(self);
        }
        let input_index = match letter_to_index(input) {
            Some(index) => index,
            None => 0,
        };
        match self.connections[input_index] {
            Some(output_index) => match index_to_letter(output_index) {
                Some(letter) => letter,
                None => input,
            },
            None => input,
        }
    }

    /// The number of pairs.
    pub fn get_connection_count(&self) -> (r: usize)
        ensures
            r == pair_count(self@),
    {
        proof {
            use_type_invariant(self);
        }
        self.connection_count
    }

    /// Whether the letter has a partner; `false` for a character that is
    /// not a letter.
    pub fn is_connected(&self, letter: char) -> (r: bool)
        ensures
            r == (is_letter(letter) && self@[letter_slot(letter) as int] is Some),
    {
        match letter_to_index(letter) {
            Some(index) => self.connections[index].is_some(),
            None => false,
        }
    }

    /// Removes every pair.
    pub fn clear(&mut self)
        ensures
            final(self)@ == empty_board(),
            final(self).wf(),
    {
        *self = Plugboard::new();
    }
}

} // verus!
