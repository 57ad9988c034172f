//! The machine: three rotors, a reflector and a plugboard, the stepping
//! of the rotors and the way of a letter through all of them.

use vstd::prelude::*;
use crate::plugboard::{board_ok, joined, pair_tokens, process_letter, Plugboard};
use crate::reflector::{reflect_letter, Reflector};
use crate::rotor::{backward_letter, forward_letter, rotor_ok, Rotor, RotorView};
use crate::text::{chars_of, push_text, string_of};
use crate::utils::{clean_seq, clean_text, index_letter, is_letter, letter_index, letter_to_index};
use crate::wiring::is_permutation;

pub mod factory;
pub mod laws;

verus! {

/// A machine. The rotors stand in the order left, middle, right.
#[derive(Debug)]
pub struct EnigmaMachine {
    rotors: [Rotor; 3],
    reflector: Reflector,
    plugboard: Plugboard,
}

/// What a machine is, as plain values.
pub struct MachineView {
    /// The left rotor, the first on the way in.
    pub left: RotorView,
    /// The middle rotor.
    pub middle: RotorView,
    /// The right rotor, which turns with every letter.
    pub right: RotorView,
    /// The table of the reflector.
    pub reflector: Seq<usize>,
    /// The name of the reflector.
    pub reflector_label: Seq<char>,
    /// The plugboard.
    pub plugboard: Seq<Option<usize>>,
}

/// A machine is valid when its rotors, its reflector and its plugboard
/// are.
pub open spec fn machine_ok(v: MachineView) -> bool {
    &&& rotor_ok(v.left)
    &&& rotor_ok(v.middle)
    &&& rotor_ok(v.right)
    &&& is_permutation(v.reflector)
    &&& board_ok(v.plugboard)
}

/// A rotor turned one place on.
pub open spec fn turned(r: RotorView) -> RotorView {
    RotorView { pos: (r.pos + 1) % 26, ..r }
}

/// Whether a rotor stands at its notch.
pub open spec fn at_notch(r: RotorView) -> bool {
    r.pos == r.notch
}

/// The machine after the rotors have stepped once. The right rotor
/// always turns. The middle rotor turns if the right rotor stood at its
/// notch, and also if the middle rotor itself stood at its notch. The
/// left rotor turns if the middle rotor turned away from its notch.
#[verifier::opaque]
pub open spec fn stepped(v: MachineView) -> MachineView {
    let middle_turns = at_notch(v.right) || at_notch(v.middle);
    let left_turns = middle_turns && at_notch(v.middle);
    MachineView {
        left: if left_turns {
            turned(v.left)
        } else {
            v.left
        },
        middle: if middle_turns {
            turned(v.middle)
        } else {
            v.middle
        },
        right: turned(v.right),
        ..v
    }
}

/// The way of a letter through the rotors and the reflector: the rotors
/// from left to right, the reflector, the rotors from right to left.
#[verifier::opaque]
pub open spec fn rotor_path(v: MachineView, c: char) -> char {
    let inward = forward_letter(v.right, forward_letter(v.middle, forward_letter(v.left, c)));
    let reflected = reflect_letter(v.reflector, inward);
    backward_letter(v.left, backward_letter(v.middle, backward_letter(v.right, reflected)))
}

/// The way of a letter through a machine whose rotors stand still:
/// plugboard, rotors and reflector, plugboard.
#[verifier::opaque]
pub open spec fn signal_path(v: MachineView, c: char) -> char {
    process_letter(v.plugboard, rotor_path(v, process_letter(v.plugboard, c)))
}

/// The machine after the rotors have stepped `n` times.
pub open spec fn advanced(v: MachineView, n: int) -> MachineView
    decreases n,
{
    if n <= 0 {
        v
    } else {
        stepped(advanced(v, n - 1))
    }
}

/// The letters that a machine gives for the letters of `text`: the rotors
/// step once before each letter, so the letter at place `i` goes through
/// the machine as it is after `i + 1` steps.
pub open spec fn cipher(v: MachineView, text: Seq<char>) -> Seq<char> {
    Seq::new(text.len(), |i: int| signal_path(advanced(v, i + 1), text[i]))
}

/// A text in blocks: a space follows every fifth character.
pub open spec fn grouped(s: Seq<char>) -> Seq<char>
    decreases s.len(),
{
    if s.len() == 0 {
        s
    } else {
        let before = grouped(s.drop_last()).push(s.last());
        if s.len() % 5 == 0 {
            before.push(' ')
        } else {
            before
        }
    }
}

/// A rotor with its position set to a letter; any other character leaves
/// it as it is.
pub open spec fn placed(r: RotorView, c: char) -> RotorView {
    if is_letter(c) {
        RotorView { pos: letter_index(c), ..r }
    } else {
        r
    }
}

/// A rotor with its ring setting set to a letter; any other character
/// leaves it as it is.
pub open spec fn ringed(r: RotorView, c: char) -> RotorView {
    if is_letter(c) {
        RotorView { ring: letter_index(c), ..r }
    } else {
        r
    }
}

/// The description of a machine: the names of the rotors, their ring
/// settings, their positions, the name of the reflector and the pairs of
/// the plugboard, one line each.
pub open spec fn configuration_text(v: MachineView) -> Seq<char> {
    "Rotoren: "@ + v.left.label + " "@ + v.middle.label + " "@ + v.right.label
        + "\nRingstellungen: "@.push(index_letter(v.left.ring)) + " "@.push(
        index_letter(v.middle.ring),
    ) + " "@.push(index_letter(v.right.ring)) + "\nPositionen: "@.push(index_letter(v.left.pos))
        + " "@.push(index_letter(v.middle.pos)) + " "@.push(index_letter(v.right.pos))
        + "\nReflektor: "@ + v.reflector_label + "\nSteckerbrett: "@ + joined(
        pair_tokens(v.plugboard, 26),
    )
}

/// The blocks made of the first `n` letters of the cipher of `text`.
pub open spec fn blocks_upto(v: MachineView, text: Seq<char>, n: int) -> Seq<char>
    decreases n,
{
    if n <= 0 {
        Seq::empty()
    } else {
        let before = blocks_upto(v, text, n - 1).push(signal_path(advanced(v, n), text[n - 1]));
        if n % 5 == 0 {
            before.push(' ')
        } else {
            before
        }
    }
}

/// The blocks made letter by letter are the blocks of the cipher.
pub proof fn lemma_blocks_upto(v: MachineView, text: Seq<char>, n: int)
    requires
        0 <= n <= text.len(),
    ensures
        blocks_upto(v, text, n) == grouped(cipher(v, text.take(n))),
    decreases n,
{
    if n > 0 {
        lemma_blocks_upto(v, text, n - 1);
        let now = cipher(v, text.take(n));
        assert(now.drop_last() =~= cipher(v, text.take(n - 1)));
        assert(now.last() == signal_path(advanced(v, n), text[n - 1]));
    } else {
        assert(cipher(v, text.take(0)) =~= Seq::<char>::empty());
    }
}

impl View for EnigmaMachine {
    type V = MachineView;

    closed spec fn view(&self) -> MachineView {
        MachineView {
            left: self.rotors@[0]@,
            middle: self.rotors@[1]@,
            right: self.rotors@[2]@,
            reflector: self.reflector.table(),
            reflector_label: self.reflector.label(),
            plugboard: self.plugboard@,
        }
    }
}

impl EnigmaMachine {
    /// Every machine is valid.
    #[verifier::type_invariant]
    pub open spec fn wf(&self) -> bool {
        machine_ok(self@)
    }

    /// Puts a machine together from its parts.
    pub fn new(rotors: [Rotor; 3], reflector: Reflector, plugboard: Plugboard) -> (r: Self)
        ensures
            r@ == (MachineView {
                left: rotors@[0]@,
                middle: rotors@[1]@,
                right: rotors@[2]@,
                reflector: reflector.table(),
                reflector_label: reflector.label(),
                plugboard: plugboard@,
            }),
            r.wf(),
    {
        let left = &rotors[0];
        let middle = &rotors[1];
        let right = &rotors[2];
        proof {
            use_type_invariant(left);
            use_type_invariant(middle);
            use_type_invariant(right);
            use_type_invariant(&reflector);
            use_type_invariant(&plugboard);
        }
        EnigmaMachine { rotors, reflector, plugboard }
    }

    /// Steps the rotors once.
    pub fn step_rotors(&mut self)
        ensures
            final(self)@ == stepped(old(self)@),
            final(self).wf(),
    {
        proof {
            use_type_invariant(&*self);
            reveal(stepped);
        }
        let right_rotor_notched = self.rotors[2].step();
        let middle_rotor_notched = if right_rotor_notched {
            self.rotors[1].step()
        } else {
            if self.rotors[1].at_notch() {
                self.rotors[1].step()
            } else {
                false
            }
        };
        if middle_rotor_notched {
            self.rotors[0].step();
        }
    }

    /// Sends a letter through the rotors, the reflector and the rotors
    /// again, as the rotors stand.
    pub fn through_rotors(&self, input: char) -> (r: char)
        ensures
            r == rotor_path(self@, input),
    {
        proof {
            reveal(rotor_path);
        }
        let mut signal = input;
        signal = self.rotors[0].forward(signal);
        signal = self.rotors[1].forward(signal);
        signal = self.rotors[2].forward(signal);
        signal = self.reflector.reflect(signal);
        signal = self.rotors[2].backward(signal);
        signal = self.rotors[1].backward(signal);
        self.rotors[0].backward(signal)
    }

    /// Enciphers one character: it passes the plugboard, the rotors
    /// step, and it goes through the rotors, the reflector, the rotors
    /// again and the plugboard.
    pub fn encrypt_char(&mut self, input: char) -> (r: char)
        ensures
            final(self)@ == stepped(old(self)@),
            r == signal_path(stepped(old(self)@), input),
            final(self).wf(),
    {
        let after_plugboard = self.plugboard.process(input);
        self.step_rotors();
        proof {
            reveal(signal_path);
            reveal(stepped);
        }
        let signal = self.through_rotors(after_plugboard);
        self.plugboard.process(signal)
    }

    /// Enciphers the letters of a text, in blocks of five.
    pub fn encrypt(&mut self, text: &str) -> (r: String)
        ensures
            r@ == grouped(cipher(old(self)@, clean_seq(text@))),
            final(self)@ == advanced(old(self)@, clean_seq(text@).len() as int),
            final(self).wf(),
    {
        let clean_input = clean_text(text);
        let chars = chars_of(clean_input.as_str());
        let ghost start = self@;
        let mut out: Vec<char> = Vec::new();
        let mut i: usize = 0;
        while i < chars.len()
            invariant
                i <= chars.len(),
                self@ == advanced(start, i as int),
                out@ == blocks_upto(start, chars@, i as int),
            decreases chars.len() - i,
        {
            let encrypted = self.encrypt_char(chars[i]);
            out.push(encrypted);
            if i % 5 == 4 {
                out.push(' ');
            }
            i += 1;
        }
        proof {
            lemma_blocks_upto(start, chars@, chars@.len() as int);
            assert(chars@.take(chars@.len() as int) == chars@);
            use_type_invariant(&*self);
        }
        string_of(&out)
    }

    /// Deciphers a text. This is the same operation as enciphering: a
    /// machine that is set as it was before a text was enciphered gives
    /// the text back.
    pub fn decrypt(&mut self, text: &str) -> (r: String)
        ensures
            r@ == grouped(cipher(old(self)@, clean_seq(text@))),
            final(self)@ == advanced(old(self)@, clean_seq(text@).len() as int),
            final(self).wf(),
    {
        self.encrypt(text)
    }

    /// Sets the positions of the rotors, left, middle, right. A
    /// character that is not a letter leaves its rotor as it is.
    pub fn set_rotor_positions(&mut self, positions: [char; 3])
        ensures
            final(self)@ == (MachineView {
                left: placed(old(self)@.left, positions@[0]),
                middle: placed(old(self)@.middle, positions@[1]),
                right: placed(old(self)@.right, positions@[2]),
                ..old(self)@
            }),
            final(self).wf(),
    {
        proof {
            use_type_invariant(&*self);
        }
        match letter_to_index(positions[0]) {
            Some(index) => self.rotors[0].set_position(index),
            None => {},
        }
        match letter_to_index(positions[1]) {
            Some(index) => self.rotors[1].set_position(index),
            None => {},
        }
        match letter_to_index(positions[2]) {
            Some(index) => self.rotors[2].set_position(index),
            None => {},
        }
    }

    /// Sets the ring settings of the rotors, left, middle, right. A
    /// character that is not a letter leaves its rotor as it is.
    pub fn set_ring_settings(&mut self, ring_settings: [char; 3])
        ensures
            final(self)@ == (MachineView {
                left: ringed(old(self)@.left, ring_settings@[0]),
                middle: ringed(old(self)@.middle, ring_settings@[1]),
                right: ringed(old(self)@.right, ring_settings@[2]),
                ..old(self)@
            }),
            final(self).wf(),
    {
        proof {
            use_type_invariant(&*self);
        }
        match letter_to_index(ring_settings[0]) {
            Some(index) => self.rotors[0].set_ring_setting(index),
            None => {},
        }
        match letter_to_index(ring_settings[1]) {
            Some(index) => self.rotors[1].set_ring_setting(index),
            None => {},
        }
        match letter_to_index(ring_settings[2]) {
            Some(index) => self.rotors[2].set_ring_setting(index),
            None => {},
        }
    }

    /// The positions of the rotors as letters, left, middle, right.
    pub fn get_rotor_positions(&self) -> (r: [char; 3])
        ensures
            r@ == seq![
                index_letter(self@.left.pos),
                index_letter(self@.middle.pos),
                index_letter(self@.right.pos),
            ],
    {
        let r = [
            self.rotors[0].get_position_char(),
            self.rotors[1].get_position_char(),
            self.rotors[2].get_position_char(),
        ];
        assert(r@ =~= seq![
            index_letter(self@.left.pos),
            index_letter(self@.middle.pos),
            index_letter(self@.right.pos),
        ]);
        r
    }

    /// The ring settings of the rotors as letters, left, middle, right.
    pub fn get_ring_settings(&self) -> (r: [char; 3])
        ensures
            r@ == seq![
                index_letter(self@.left.ring),
                index_letter(self@.middle.ring),
                index_letter(self@.right.ring),
            ],
    {
        let r = [
            self.rotors[0].get_ring_setting_char(),
            self.rotors[1].get_ring_setting_char(),
            self.rotors[2].get_ring_setting_char(),
        ];
        assert(r@ =~= seq![
            index_letter(self@.left.ring),
            index_letter(self@.middle.ring),
            index_letter(self@.right.ring),
        ]);
        r
    }

    /// A description of the machine in five lines.
    pub fn get_configuration_info(&self) -> (r: String)
        ensures
            r@ == configuration_text(self@),
    {
        let rings = self.get_ring_settings();
        let positions = self.get_rotor_positions();
        let pairs = self.plugboard.get_connections_string();
        let mut out: Vec<char> = Vec::new();
        push_text(&mut out, "Rotoren: ");
        push_text(&mut out, self.rotors[0].name());
        push_text(&mut out, " ");
        push_text(&mut out, self.rotors[1].name());
        push_text(&mut out, " ");
        push_text(&mut out, self.rotors[2].name());
        push_text(&mut out, "\nRingstellungen: ");
        out.push(rings[0]);
        push_text(&mut out, " ");
        out.push(rings[1]);
        push_text(&mut out, " ");
        out.push(rings[2]);
        push_text(&mut out, "\nPositionen: ");
        out.push(positions[0]);
        push_text(&mut out, " ");
        out.push(positions[1]);
        push_text(&mut out, " ");
        out.push(positions[2]);
        push_text(&mut out, "\nReflektor: ");
        push_text(&mut out, self.reflector.name());
        push_text(&mut out, "\nSteckerbrett: ");
        push_text(&mut out, pairs.as_str());
        assert(out@ =~= configuration_text(self@));
        string_of(&out)
    }
}

} // verus!
