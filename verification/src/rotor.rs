//! A rotor: a substitution table that is entered and left through an
//! offset made of the rotor's position and its ring setting.

use vstd::prelude::*;
use crate::text::{chars_of, push_char};
use crate::utils::{index_letter, index_to_letter, is_letter, letter_index, letter_to_index, upper};
use crate::wiring::{
    all_letters, are_inverse, first_non_letter, inverse_of, is_permutation, is_valid_permutation,
    lemma_inverse_of, lemma_inverse_unique, letter_slot, occurs, read_table, table_of,
};

pub mod rotors;

verus! {

/// A rotor. The inverse table is worked out once, when the rotor is built.
#[derive(Debug)]
pub struct Rotor {
    wiring: [usize; 26],
    reverse_wiring: [usize; 26],
    ring_setting: usize,
    position: usize,
    notch: usize,
    name: String,
}

/// What a rotor is, as plain values.
pub struct RotorView {
    /// The substitution table.
    pub table: Seq<usize>,
    /// The ring setting, from 0 to 25.
    pub ring: int,
    /// The position, from 0 to 25.
    pub pos: int,
    /// The notch, from 0 to 25.
    pub notch: int,
    /// The display name.
    pub label: Seq<char>,
}

/// The index at which a signal that arrives at `x` meets the table of a
/// rotor at position `p` with ring setting `r`.
pub open spec fn offset_in(x: int, p: int, r: int) -> int {
    (x + p - r + 26) % 26
}

/// The index at which a signal that leaves the table at `t` leaves a
/// rotor at position `p` with ring setting `r`.
pub open spec fn offset_out(t: int, p: int, r: int) -> int {
    (t - p + r + 26) % 26
}

/// The way of index `x` through `table` in a rotor at position `p` with
/// ring setting `r`.
pub open spec fn route(table: Seq<usize>, p: int, r: int, x: int) -> int {
    offset_out(table[offset_in(x, p, r)] as int, p, r)
}

/// The letter that a rotor gives for `input` in forward direction. A
/// character that is not a letter enters as `'A'`.
pub open spec fn forward_letter(v: RotorView, input: char) -> char {
    index_letter(route(v.table, v.pos, v.ring, letter_slot(input) as int))
}

/// The letter that a rotor gives for `input` in backward direction. A
/// character that is not a letter enters as `'A'`.
pub open spec fn backward_letter(v: RotorView, input: char) -> char {
    index_letter(route(inverse_of(v.table), v.pos, v.ring, letter_slot(input) as int))
}

/// A rotor holds a permutation, and its settings are alphabet indices.
pub open spec fn rotor_ok(v: RotorView) -> bool {
    &&& is_permutation(v.table)
    &&& 0 <= v.ring < 26
    &&& 0 <= v.pos < 26
    &&& 0 <= v.notch < 26
}

/// The message for a wiring string that does not have 26 characters.
pub open spec fn length_message() -> Seq<char> {
    "Wiring must be exactly 26 characters long"@
}

/// The message for a ring setting or a position above 25.
pub open spec fn range_message() -> Seq<char> {
    "Ring setting and position must be between 0 and 25"@
}

/// The message for the notch character `c`, which is not a letter.
pub open spec fn notch_message(c: char) -> Seq<char> {
    "Ungültiger Kerbenbuchstabe: "@.push(c)
}

/// The message for a wiring string that holds the character `c`, which is
/// not a letter.
pub open spec fn character_message(c: char) -> Seq<char> {
    "Ungültiges Zeichen in Verdrahtung: "@.push(c)
}

/// The message for a wiring that is not a permutation.
pub open spec fn permutation_message() -> Seq<char> {
    "Wiring must be a valid permutation (each letter must appear exactly once as a target)"@
}

/// Why the parts of a rotor are refused, if they are: the checks are made
/// in the order length of the wiring, range of ring setting and position,
/// notch, characters of the wiring, permutation, and the first that fails
/// gives the message.
pub open spec fn rotor_error(
    wiring: Seq<char>,
    notch: char,
    ring_setting: usize,
    position: usize,
) -> Option<Seq<char>> {
    if wiring.len() != 26 {
        Some(length_message())
    } else if ring_setting >= 26 || position >= 26 {
        Some(range_message())
    } else if !is_letter(notch) {
        Some(notch_message(notch))
    } else if !all_letters(wiring) {
        Some(character_message(first_non_letter(wiring)))
    } else if !is_permutation(table_of(wiring)) {
        Some(permutation_message())
    } else {
        None
    }
}

/// Entering and leaving a rotor through the same offset cancel out.
pub proof fn lemma_offsets_cancel(t: int, p: int, r: int)
    requires
        0 <= t < 26,
        0 <= p < 26,
        0 <= r < 26,
    ensures
        0 <= offset_in(t, p, r) < 26,
        0 <= offset_out(t, p, r) < 26,
        offset_in(offset_out(t, p, r), p, r) == t,
        offset_out(offset_in(t, p, r), p, r) == t,
{
}

/// Going backward undoes going forward: at any position and ring setting,
/// the way through the inverse table leads back to where the way through
/// the table began.
pub proof fn lemma_route_back(w: Seq<usize>, p: int, r: int, x: int)
    requires
        is_permutation(w),
        0 <= p < 26,
        0 <= r < 26,
        0 <= x < 26,
    ensures
        route(inverse_of(w), p, r, route(w, p, r, x)) == x,
        route(w, p, r, route(inverse_of(w), p, r, x)) == x,
        0 <= route(w, p, r, x) < 26,
        0 <= route(inverse_of(w), p, r, x) < 26,
{
    lemma_inverse_of(w);
    let inv = inverse_of(w);
    let a = offset_in(x, p, r);
    lemma_offsets_cancel(x, p, r);
    let t = w[a] as int;
    assert(inv[w[a] as int] == a);
    lemma_offsets_cancel(t, p, r);
    let u = inv[a] as int;
    assert(w[inv[a] as int] == a);
    lemma_offsets_cancel(u, p, r);
}

/// For every valid rotor and every letter, going backward undoes going
/// forward, and going forward undoes going backward. The letter comes
/// back in upper case, so an upper-case letter comes back as itself.
pub proof fn lemma_backward_undoes_forward(v: RotorView, c: char)
    requires
        rotor_ok(v),
        is_letter(c),
    ensures
        backward_letter(v, forward_letter(v, c)) == upper(c),
        forward_letter(v, backward_letter(v, c)) == upper(c),
        'A' <= c <= 'Z' ==> backward_letter(v, forward_letter(v, c)) == c,
        'A' <= c <= 'Z' ==> forward_letter(v, backward_letter(v, c)) == c,
{
    lemma_route_back(v.table, v.pos, v.ring, letter_slot(c) as int);
}

impl View for Rotor {
    type V = RotorView;

    closed spec fn view(&self) -> RotorView {
        RotorView {
            table: self.wiring@,
            ring: self.ring_setting as int,
            pos: self.position as int,
            notch: self.notch as int,
            label: self.name@,
        }
    }
}

impl Clone for Rotor {
    fn clone(&self) -> (r: Self)
        ensures
            r == *self,
    {
        proof {
            use_type_invariant(self);
        }
        Rotor {
            wiring: self.wiring,
            reverse_wiring: self.reverse_wiring,
            ring_setting: self.ring_setting,
            position: self.position,
            notch: self.notch,
            name: self.name.clone(),
        }
    }
}

impl Rotor {
    /// Whether the stored inverse table is the inverse of the table.
    pub closed spec fn inverse_stored(&self) -> bool {
        self.reverse_wiring@ == inverse_of(self.wiring@)
    }

    /// Every rotor is valid and holds the inverse of its table.
    #[verifier::type_invariant]
    pub open spec fn wf(&self) -> bool {
        rotor_ok(self@) && self.inverse_stored()
    }

    /// Builds a rotor from a wiring string of 26 letters that name each
    /// letter exactly once, a notch letter, a name, a ring setting and a
    /// position.
    pub fn new(wiring: &str, notch: char, name: &str, ring_setting: usize, position: usize) -> (r:
        Result<Self, String>)
        ensures
            match r {
                Ok(rotor) => {
                    &&& rotor_error(wiring@, notch, ring_setting, position) is None
                    &&& rotor@ == (RotorView {
                        table: table_of(wiring@),
                        ring: ring_setting as int,
                        pos: position as int,
                        notch: letter_index(notch),
                        label: name@,
                    })
                    &&& rotor.wf()
                },
                Err(message) => rotor_error(wiring@, notch, ring_setting, position) == Some(
                    message@,
                ),
            },
    {
        let chars = chars_of(wiring);
        if chars.len() != 26 {
            return Err("Wiring must be exactly 26 characters long".to_owned());
        }
        if ring_setting >= 26 || position >= 26 {
            return Err("Ring setting and position must be between 0 and 25".to_owned());
        }
        let notch_index = match letter_to_index(notch) {
            Some(index) => index,
            None => {
                let mut message = "Ungültiger Kerbenbuchstabe: ".to_owned();
                push_char(&mut message, notch);
                return Err(message);
            },
        };
        let wiring_array = match read_table(&chars) {
            Ok(table) => table,
            Err(c) => {
                let mut message = "Ungültiges Zeichen in Verdrahtung: ".to_owned();
                push_char(&mut message, c);
                return Err(message);
            },
        };
        if !is_valid_permutation(&wiring_array) {
            return Err(
                "Wiring must be a valid permutation (each letter must appear exactly once as a target)".to_owned(),
            );
        }
        let mut reverse_wiring: [usize; 26] = [0; 26];
        let mut i: usize = 0;
        while i < 26
            invariant
                i <= 26,
                is_permutation(wiring_array@),
                forall|j: int| 0 <= j < i ==> reverse_wiring@[#[trigger] wiring_array@[j] as int] == j,
            decreases 26 - i,
        {
            let target = wiring_array[i];
            proof {
                assert forall|j: int| 0 <= j < i implies #[trigger] wiring_array@[j] != target by {
                    assert(wiring_array@[j] != wiring_array@[i as int]);
                }
            }
            reverse_wiring[target] = i;
            i += 1;
        }
        proof {
            let w = wiring_array@;
            let inv = reverse_wiring@;
            assert forall|k: int| 0 <= k < 26 implies #[trigger] inv[k] < 26 && w[inv[k] as int]
                == k by {
                assert(occurs(w, k));
                let j = choose|j: int| 0 <= j < w.len() && #[trigger] w[j] == k;
                assert(inv[w[j] as int] == j);
            }
            assert(are_inverse(w, inv));
            lemma_inverse_unique(w, inv);
        }
        Ok(
            Rotor {
                wiring: wiring_array,
                reverse_wiring,
                ring_setting,
                position,
                notch: notch_index,
                name: name.to_owned(),
            },
        )
    }

    /// Sends a letter through the rotor towards the reflector.
    pub fn forward(&self, input: char) -> (r: char)
        ensures
            r == forward_letter(self@, input),
            'A' <= r <= 'Z',
    {
        proof {
            use_type_invariant(self);
        }
        let input_index = match letter_to_index(input) {
            Some(index) => index,
            None => 0,
        };
        let adjusted_input = (input_index + self.position + 26 - self.ring_setting) % 26;
        let output_index = (self.wiring[adjusted_input] + self.ring_setting + 26 - self.position)
            % 26;
        match index_to_letter(output_index) {
            Some(letter) => letter,
            None => 'A',
        }
    }

    /// Sends a letter through the rotor on its way back from the
    /// reflector.
    pub fn backward(&self, input: char) -> (r: char)
        ensures
            r == backward_letter(self@, input),
            'A' <= r <= 'Z',
    {
        proof {
            use_type_invariant(self);
            lemma_inverse_of(self@.table);
        }
        let input_index = match letter_to_index(input) {
            Some(index) => index,
            None => 0,
        };
        let adjusted_input = (input_index + self.position + 26 - self.ring_setting) % 26;
        let output_index = (self.reverse_wiring[adjusted_input] + self.ring_setting + 26
            - self.position) % 26;
        match index_to_letter(output_index) {
            Some(letter) => letter,
            None => 'A',
        }
    }

    /// Turns the rotor one place on and says whether it stood at its
    /// notch before it turned.
    pub fn step(&mut self) -> (was_at_notch: bool)
        ensures
            was_at_notch == (old(self)@.pos == old(self)@.notch),
            final(self)@ == (RotorView { pos: (old(self)@.pos + 1) % 26, ..old(self)@ }),
            final(self).wf(),
        no_unwind
    {
        proof {
            use_type_invariant(&*self);
        }
        let was_at_notch = self.position == self.notch;
        self.position = (self.position + 1) % 26;
        was_at_notch
    }

    /// The display name.
    pub fn name(&self) -> (r: &str)
        ensures
            r@ == self@.label,
    {
        self.name.as_str()
    }

    /// Whether the rotor stands at its notch.
    pub fn at_notch(&self) -> (r: bool)
        ensures
            r == (self@.pos == self@.notch),
    {
        self.position == self.notch
    }

    /// Sets the position; a value above 25 is ignored.
    pub fn set_position(&mut self, position: usize)
        ensures
            final(self)@ == if position < 26 {
                RotorView { pos: position as int, ..old(self)@ }
            } else {
                old(self)@
            },
            final(self).wf(),
        no_unwind
    {
        proof {
            use_type_invariant(&*self);
        }
        if position < 26 {
            self.position = position;
        }
    }

    /// Sets the ring setting; a value above 25 is ignored.
    pub fn set_ring_setting(&mut self, ring_setting: usize)
        ensures
            final(self)@ == if ring_setting < 26 {
                RotorView { ring: ring_setting as int, ..old(self)@ }
            } else {
                old(self)@
            },
            final(self).wf(),
        no_unwind
    {
        proof {
            use_type_invariant(&*self);
        }
        if ring_setting < 26 {
            self.ring_setting = ring_setting;
        }
    }

    /// The position as a letter.
    pub fn get_position_char(&self) -> (r: char)
        ensures
            r == index_letter(self@.pos),
            'A' <= r <= 'Z',
    {
        proof {
            use_type_invariant(self);
        }
        match index_to_letter(self.position) {
            Some(letter) => letter,
            None => 'A',
        }
    }

    /// The ring setting as a letter.
    pub fn get_ring_setting_char(&self) -> (r: char)
        ensures
            r == index_letter(self@.ring),
            'A' <= r <= 'Z',
    {
        proof {
            use_type_invariant(self);
        }
        match index_to_letter(self.ring_setting) {
            Some(letter) => letter,
            None => 'A',
        }
    }
}

} // verus!
