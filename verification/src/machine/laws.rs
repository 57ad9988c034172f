//! What holds of every valid machine: each part sends upper-case letters
//! to upper-case letters, the signal path is its own inverse when the
//! reflector is, and so a machine set back to where it started turns a
//! cipher text back into the text.

use vstd::prelude::*;
use crate::machine::{
    advanced, cipher, grouped, machine_ok, placed, rotor_path, signal_path, stepped, MachineView,
};
use crate::plugboard::{board_ok, lemma_process_twice, process_letter};
use crate::reflector::reflect_letter;
use crate::rotor::{
    backward_letter, forward_letter, lemma_backward_undoes_forward, lemma_route_back, rotor_ok,
    RotorView,
};
use crate::utils::{
    all_upper, clean_seq, index_letter, is_letter, is_upper, lemma_clean_push, upper,
};
use crate::wiring::{is_involution, letter_slot};

verus! {

/// A valid rotor gives an upper-case letter for every character, in
/// both directions.
pub proof fn lemma_rotor_gives_upper(v: RotorView, c: char)
    requires
        rotor_ok(v),
    ensures
        is_upper(forward_letter(v, c)),
        is_upper(backward_letter(v, c)),
{
    lemma_route_back(v.table, v.pos, v.ring, letter_slot(c) as int);
}

/// A valid plugboard gives an upper-case letter for every upper-case
/// letter.
pub proof fn lemma_plugboard_gives_upper(b: Seq<Option<usize>>, c: char)
    requires
        board_ok(b),
        is_upper(c),
    ensures
        is_upper(process_letter(b, c)),
{
}

/// A reflector that is its own inverse gives an upper-case letter for
/// every character, and sends that letter back to where it came from.
pub proof fn lemma_reflect_twice(table: Seq<usize>, c: char)
    requires
        is_involution(table),
    ensures
        is_upper(reflect_letter(table, c)),
        is_letter(c) ==> reflect_letter(table, reflect_letter(table, c)) == upper(c),
{
    let i = letter_slot(c) as int;
    assert(table[i] < 26 && table[table[i] as int] == i);
}

/// The signal path of a valid machine gives an upper-case letter for
/// every upper-case letter.
pub proof fn lemma_path_gives_upper(v: MachineView, c: char)
    requires
        machine_ok(v),
        is_upper(c),
    ensures
        is_upper(signal_path(v, c)),
{
    reveal(signal_path);
    reveal(rotor_path);
    let plugged = process_letter(v.plugboard, c);
    let f1 = forward_letter(v.left, plugged);
    let f2 = forward_letter(v.middle, f1);
    let f3 = forward_letter(v.right, f2);
    let reflected = reflect_letter(v.reflector, f3);
    let b3 = backward_letter(v.right, reflected);
    let b2 = backward_letter(v.middle, b3);
    let b1 = backward_letter(v.left, b2);
    lemma_rotor_gives_upper(v.left, b2);
    lemma_plugboard_gives_upper(v.plugboard, b1);
}

/// With rotors that stand still, a valid machine whose reflector is its
/// own inverse sends each upper-case letter to a letter that it sends
/// back: the signal path is its own inverse.
pub proof fn lemma_path_twice(v: MachineView, c: char)
    requires
        machine_ok(v),
        is_involution(v.reflector),
        is_upper(c),
    ensures
        signal_path(v, signal_path(v, c)) == c,
{
    reveal(signal_path);
    reveal(rotor_path);
    let plugged = process_letter(v.plugboard, c);
    let f1 = forward_letter(v.left, plugged);
    let f2 = forward_letter(v.middle, f1);
    let f3 = forward_letter(v.right, f2);
    let reflected = reflect_letter(v.reflector, f3);
    let b3 = backward_letter(v.right, reflected);
    let b2 = backward_letter(v.middle, b3);
    let b1 = backward_letter(v.left, b2);
    let out = process_letter(v.plugboard, b1);
    lemma_plugboard_gives_upper(v.plugboard, c);
    lemma_rotor_gives_upper(v.left, plugged);
    lemma_rotor_gives_upper(v.middle, f1);
    lemma_rotor_gives_upper(v.right, f2);
    lemma_reflect_twice(v.reflector, f3);
    lemma_rotor_gives_upper(v.right, reflected);
    lemma_rotor_gives_upper(v.middle, b3);
    lemma_rotor_gives_upper(v.left, b2);
    // The way back in: the plugboard and the rotors undo the way out.
    lemma_process_twice(v.plugboard, b1);
    assert(process_letter(v.plugboard, out) == b1);
    lemma_backward_undoes_forward(v.left, b2);
    assert(forward_letter(v.left, b1) == b2);
    lemma_backward_undoes_forward(v.middle, b3);
    assert(forward_letter(v.middle, b2) == b3);
    lemma_backward_undoes_forward(v.right, reflected);
    assert(forward_letter(v.right, b3) == reflected);
    // The reflector sends the signal back to where it came from.
    assert(reflect_letter(v.reflector, reflected) == f3);
    // The way back out: the rotors and the plugboard undo the way in.
    lemma_backward_undoes_forward(v.right, f2);
    assert(backward_letter(v.right, f3) == f2);
    lemma_backward_undoes_forward(v.middle, f1);
    assert(backward_letter(v.middle, f2) == f1);
    lemma_backward_undoes_forward(v.left, plugged);
    assert(backward_letter(v.left, f1) == plugged);
    lemma_process_twice(v.plugboard, c);
}

/// Stepping changes nothing but the positions of the rotors, and keeps
/// a valid machine valid.
pub proof fn lemma_stepped_keeps(v: MachineView)
    requires
        machine_ok(v),
    ensures
        machine_ok(stepped(v)),
        stepped(v) == (MachineView {
            left: RotorView { pos: stepped(v).left.pos, ..v.left },
            middle: RotorView { pos: stepped(v).middle.pos, ..v.middle },
            right: RotorView { pos: stepped(v).right.pos, ..v.right },
            ..v
        }),
{
    reveal(stepped);
}

/// Any number of steps changes nothing but the positions of the rotors,
/// and keeps a valid machine valid.
pub proof fn lemma_advanced_keeps(v: MachineView, n: int)
    requires
        machine_ok(v),
    ensures
        machine_ok(advanced(v, n)),
        advanced(v, n) == (MachineView {
            left: RotorView { pos: advanced(v, n).left.pos, ..v.left },
            middle: RotorView { pos: advanced(v, n).middle.pos, ..v.middle },
            right: RotorView { pos: advanced(v, n).right.pos, ..v.right },
            ..v
        }),
    decreases n,
{
    if n > 0 {
        lemma_advanced_keeps(v, n - 1);
        lemma_stepped_keeps(advanced(v, n - 1));
    }
}

/// Setting the rotors of a machine that has stepped back to the letters
/// at which they started gives the machine as it was.
pub proof fn lemma_reset(v: MachineView, n: int)
    requires
        machine_ok(v),
    ensures
        v == (MachineView {
            left: placed(advanced(v, n).left, index_letter(v.left.pos)),
            middle: placed(advanced(v, n).middle, index_letter(v.middle.pos)),
            right: placed(advanced(v, n).right, index_letter(v.right.pos)),
            ..advanced(v, n)
        }),
{
    lemma_advanced_keeps(v, n);
}

/// The cipher of upper-case letters is as many upper-case letters.
pub proof fn lemma_cipher_gives_upper(v: MachineView, text: Seq<char>)
    requires
        machine_ok(v),
        all_upper(text),
    ensures
        cipher(v, text).len() == text.len(),
        all_upper(cipher(v, text)),
{
    assert forall|i: int| 0 <= i < text.len() implies is_upper(#[trigger] cipher(v, text)[i]) by {
        lemma_advanced_keeps(v, i + 1);
        lemma_path_gives_upper(advanced(v, i + 1), text[i]);
    }
}

/// A valid machine whose reflector is its own inverse, started twice
/// from the same setting, turns the cipher of a text of upper-case
/// letters back into the text.
pub proof fn lemma_cipher_twice(v: MachineView, text: Seq<char>)
    requires
        machine_ok(v),
        is_involution(v.reflector),
        all_upper(text),
    ensures
        cipher(v, cipher(v, text)) == text,
{
    assert forall|i: int| 0 <= i < text.len() implies #[trigger] cipher(v, cipher(v, text))[i]
        == text[i] by {
        lemma_advanced_keeps(v, i + 1);
        lemma_path_twice(advanced(v, i + 1), text[i]);
    }
    assert(cipher(v, cipher(v, text)) =~= text);
}

/// The letters of a cleaned text are upper-case letters.
pub proof fn lemma_clean_gives_upper(s: Seq<char>)
    ensures
        all_upper(clean_seq(s)),
    decreases s.len(),
{
    if s.len() > 0 {
        lemma_clean_gives_upper(s.drop_last());
        lemma_clean_push(s.drop_last(), s.last());
        assert(s.drop_last().push(s.last()) == s);
    } else {
        assert(clean_seq(s).len() == 0) by {
            reveal(Seq::filter);
        }
    }
}

/// Cleaning takes the spaces out of a text in blocks: what is left is
/// the text, if it is made of upper-case letters.
pub proof fn lemma_clean_grouped(s: Seq<char>)
    requires
        all_upper(s),
    ensures
        clean_seq(grouped(s)) == s,
    decreases s.len(),
{
    if s.len() > 0 {
        let front = s.drop_last();
        lemma_clean_grouped(front);
        lemma_clean_push(grouped(front), s.last());
        lemma_clean_push(grouped(front).push(s.last()), ' ');
        assert(front.push(s.last()) == s);
    } else {
        assert(clean_seq(s).len() == 0) by {
            reveal(Seq::filter);
        }
        assert(clean_seq(s) =~= s);
    }
}

/// Deciphering undoes enciphering. Take a valid machine whose reflector
/// is its own inverse, encipher a text, set the machine back to where it
/// started and decipher what came out: the letters of the result are
/// the letters of the text, in upper case.
pub proof fn lemma_decrypt_undoes_encrypt(v: MachineView, text: Seq<char>)
    requires
        machine_ok(v),
        is_involution(v.reflector),
    ensures
        clean_seq(grouped(cipher(v, clean_seq(grouped(cipher(v, clean_seq(text))))))) == clean_seq(
            text,
        ),
{
    let letters = clean_seq(text);
    lemma_clean_gives_upper(text);
    lemma_cipher_gives_upper(v, letters);
    lemma_clean_grouped(cipher(v, letters));
    lemma_cipher_twice(v, letters);
    lemma_clean_grouped(letters);
}

} // verus!
