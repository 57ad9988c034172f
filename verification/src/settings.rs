//! Ready-made settings for a machine, and small helpers for a front end
//! that lets its user edit them.

use vstd::prelude::*;
use crate::plugboard::{
    add_result, empty_board, joined, lemma_tokens_result_push, token_result, tokens_result,
};
use crate::text::{chars_of, same_text, string_of};
use crate::utils::{
    count_free, describes_board, free_before, free_letter_at, index_to_letter, is_upper,
    lemma_upper_tokens_push, nth_free, random_below, upper_tokens,
};

verus! {

/// The settings from which a machine is built.
#[derive(Debug, Clone, Copy)]
pub struct Preset {
    /// The names of the rotors, from left to right.
    pub rotor_types: [&'static str; 3],
    /// The positions of the rotors.
    pub rotor_positions: [char; 3],
    /// The ring settings of the rotors.
    pub ring_settings: [char; 3],
    /// The name of the reflector.
    pub reflector_type: &'static str,
    /// The pairs of the plugboard.
    pub plugboard_connections: &'static str,
}

/// What a preset holds, as plain values.
pub struct PresetView {
    /// The names of the rotors, from left to right.
    pub rotor_types: Seq<Seq<char>>,
    /// The positions of the rotors.
    pub rotor_positions: Seq<char>,
    /// The ring settings of the rotors.
    pub ring_settings: Seq<char>,
    /// The name of the reflector.
    pub reflector_type: Seq<char>,
    /// The pairs of the plugboard.
    pub plugboard_connections: Seq<char>,
}

impl View for Preset {
    type V = PresetView;

    open spec fn view(&self) -> PresetView {
        PresetView {
            rotor_types: self.rotor_types@.map_values(|name: &'static str| name@),
            rotor_positions: self.rotor_positions@,
            ring_settings: self.ring_settings@,
            reflector_type: self.reflector_type@,
            plugboard_connections: self.plugboard_connections@,
        }
    }
}

/// The settings that all presets share: every rotor at `A` with ring
/// setting `A`, and reflector B.
pub open spec fn preset_with(third: Seq<char>, pairs: Seq<char>) -> PresetView {
    PresetView {
        rotor_types: seq!["I"@, "II"@, third],
        rotor_positions: seq!['A', 'A', 'A'],
        ring_settings: seq!['A', 'A', 'A'],
        reflector_type: "B"@,
        plugboard_connections: pairs,
    }
}

/// The preset with the given name, if there is one.
pub open spec fn preset_named(name: Seq<char>) -> Option<PresetView> {
    if name == "Standard"@ {
        Some(preset_with("III"@, ""@))
    } else if name == "Kriegsmarine"@ {
        Some(preset_with("III"@, "AB CD EF GH IJ KL"@))
    } else if name == "Luftwaffe"@ {
        Some(preset_with("IV"@, "AB CD EF"@))
    } else {
        None
    }
}

/// Builds the preset whose third rotor and plugboard are given.
fn make_preset(third: &'static str, pairs: &'static str) -> (r: Preset)
    ensures
        r@ == preset_with(third@, pairs@),
{
    let r = Preset {
        rotor_types: ["I", "II", third],
        rotor_positions: ['A', 'A', 'A'],
        ring_settings: ['A', 'A', 'A'],
        reflector_type: "B",
        plugboard_connections: pairs,
    };
    assert(r@.rotor_types =~= seq!["I"@, "II"@, third@]);
    assert(r@.rotor_positions =~= seq!['A', 'A', 'A']);
    assert(r@.ring_settings =~= seq!['A', 'A', 'A']);
    r
}

/// The settings of the preset `Standard`, `Kriegsmarine` or `Luftwaffe`;
/// `None` for any other name.
pub fn preset(name: &str) -> (r: Option<Preset>)
    ensures
        match r {
            Some(found) => preset_named(name@) == Some(found@),
            None => preset_named(name@) is None,
        },
{
    if same_text(name, "Standard") {
        Some(make_preset("III", ""))
    } else if same_text(name, "Kriegsmarine") {
        Some(make_preset("III", "AB CD EF GH IJ KL"))
    } else if same_text(name, "Luftwaffe") {
        Some(make_preset("IV", "AB CD EF"))
    } else {
        None
    }
}

/// The first character of a text; `'A'` for an empty text.
pub fn first_char_or_a(text: &str) -> (r: char)
    ensures
        r == if text@.len() > 0 {
            text@[0]
        } else {
            'A'
        },
{
    let chars = chars_of(text);
    if chars.len() > 0 {
        chars[0]
    } else {
        'A'
    }
}

/// The upper-case letter that a number below 26 names.
pub fn letter_for_draw(draw: usize) -> (r: char)
    requires
        draw < 26,
    ensures
        r as int == 65 + draw,
        is_upper(r),
{
    match index_to_letter(draw) {
        Some(letter) => letter,
        None => 'A',
    }
}

/// Draws an upper-case letter at random. Whatever is drawn, it is one of
/// the 26 upper-case letters.
pub fn random_letter() -> (r: char)
    ensures
        is_upper(r),
{
    letter_for_draw(random_below(26))
}

/// A number below the number of free letters names a free letter.
pub proof fn lemma_nth_free_found(used: Seq<bool>, start: int, n: int)
    requires
        0 <= start <= used.len(),
        0 <= n < free_before(used, used.len() as int) - free_before(used, start),
    ensures
        nth_free(used, start, n) < used.len(),
    decreases used.len() - start,
{
    if start < used.len() {
        if used[start] {
            lemma_nth_free_found(used, start + 1, n);
        } else if n > 0 {
            lemma_nth_free_found(used, start + 1, n - 1);
        }
    }
}

/// Taking a free letter leaves one free letter less.
pub proof fn lemma_free_taken(used: Seq<bool>, i: int, n: int)
    requires
        0 <= i < used.len(),
        0 <= n <= used.len(),
        !used[i],
    ensures
        free_before(used.update(i, true), n) == free_before(used, n) - if i < n {
            1int
        } else {
            0int
        },
    decreases n,
{
    if n > 0 {
        lemma_free_taken(used, i, n - 1);
    }
}

/// Draws a free letter at random and takes it. Whatever is drawn, the
/// letter was free, and it is the only one that is taken.
fn take_free_letter(used: &mut [bool; 26]) -> (r: usize)
    requires
        free_before(old(used)@, 26) > 0,
    ensures
        r < 26,
        !old(used)@[r as int],
        final(used)@ == old(used)@.update(r as int, true),
        free_before(final(used)@, 26) == free_before(old(used)@, 26) - 1,
{
    let free = count_free(used);
    let choice = random_below(free);
    let place = free_letter_at(used, choice);
    proof {
        lemma_nth_free_found(used@, 0, choice as int);
        lemma_free_taken(used@, place as int, 26);
    }
    used[place] = true;
    place
}

/// Draws between five and ten pairs at random and gives them as text,
/// such as `"QX AM ..."`. Each letter of a pair is drawn among the
/// letters that are still free. Whatever is drawn, the text is a list
/// of five to ten tokens with one space between neighbours; each token
/// is two upper-case letters, and the list describes a plugboard.
pub fn random_pairs() -> (r: String)
    ensures
        exists|list: Seq<Seq<char>>|
            r@ == joined(list) && describes_board(list) && upper_tokens(list) && 5
                <= list.len() <= 10,
{
    let count = 5 + random_below(6);
    let mut used: [bool; 26] = [false; 26];
    let mut out: Vec<char> = Vec::new();
    let ghost mut list: Seq<Seq<char>> = Seq::empty();
    let ghost mut board: Seq<Option<usize>> = empty_board();
    let mut k: usize = 0;
    proof {
        lemma_all_free(26);
        assert(used@ =~= Seq::new(26, |i: int| false));
    }
    while k < count
        invariant
            k <= count,
            5 <= count <= 10,
            list.len() == k,
            upper_tokens(list),
            free_before(used@, 26) == 26 - 2 * k,
            out@ == joined(list),
            (out@.len() == 0) == (list.len() == 0),
            tokens_result(empty_board(), list) == Ok::<_, Seq<char>>(board),
            board.len() == 26,
            forall|i: int| 0 <= i < 26 ==> used@[i] == (#[trigger] board[i] is Some),
        decreases count - k,
    {
        let ghost free_at_start = used@;
        let first_place = take_free_letter(&mut used);
        let second_place = take_free_letter(&mut used);
        let first = letter_for_draw(first_place);
        let second = letter_for_draw(second_place);
        proof {
            let token = seq![first, second];
            assert(first_place != second_place);
            lemma_tokens_result_push(empty_board(), list, token);
            lemma_upper_tokens_push(list, token);
            assert(list.push(token).drop_last() == list);
            assert(token_result(board, token) == add_result(board, first, second));
            let next = add_result(board, first, second)->Ok_0;
            assert forall|i: int| 0 <= i < 26 implies used@[i] == (#[trigger] next[i] is Some) by {
                assert(free_at_start[i] == (board[i] is Some));
            }
            if list.len() > 0 {
                assert(joined(list.push(token)) == joined(list) + seq![' '] + token);
            }
        }
        let ghost before = out@;
        if out.len() > 0 {
            out.push(' ');
        }
        out.push(first);
        out.push(second);
        proof {
            let token = seq![first, second];
            if list.len() == 0 {
                assert(out@ =~= token);
            } else {
                assert(out@ =~= before + seq![' '] + token);
            }
            board = add_result(board, first, second)->Ok_0;
            list = list.push(token);
        }
        k += 1;
    }
    string_of(&out)
}

/// Before any letter is taken, all are free.
pub proof fn lemma_all_free(n: int)
    requires
        0 <= n <= 26,
    ensures
        free_before(Seq::new(26, |i: int| false), n) == n,
    decreases n,
{
    if n > 0 {
        lemma_all_free(n - 1);
    }
}

} // verus!
