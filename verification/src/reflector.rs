//! The reflector: a fixed substitution table that sends the signal back
//! through the rotors.

use vstd::prelude::*;
use crate::text::{chars_of, push_char};
use crate::utils::{index_letter, index_to_letter, letter_to_index};
use crate::wiring::{
    all_letters, first_non_letter, is_permutation, letter_slot, read_table, table_of,
};

pub mod reflectors;

verus! {

/// A reflector: a permutation table and a display name.
#[derive(Debug)]
pub struct Reflector {
    wiring: [usize; 26],
    name: String,
}

/// The message for a wiring string that does not have 26 characters.
pub open spec fn length_message() -> Seq<char> {
    "Verdrahtung muss genau 26 Zeichen lang sein"@
}

/// The message for a wiring string that holds the character `c`, which is
/// not a letter.
pub open spec fn character_message(c: char) -> Seq<char> {
    "Ungültiges Zeichen in Verdrahtung: "@.push(c)
}

/// The message for a wiring that is not a permutation.
pub open spec fn permutation_message() -> Seq<char> {
    "Verdrahtung muss eine gültige Permutation sein (jeder Buchstabe muss genau einmal als Ziel auftreten)"@
}

/// Why a wiring string is refused, if it is: the checks are made in the
/// order length, characters, permutation, and the first that fails gives
/// the message.
pub open spec fn wiring_error(wiring: Seq<char>) -> Option<Seq<char>> {
    if wiring.len() != 26 {
        Some(length_message())
    } else if !all_letters(wiring) {
        Some(character_message(first_non_letter(wiring)))
    } else if !is_permutation(table_of(wiring)) {
        Some(permutation_message())
    } else {
        None
    }
}

/// The letter that `table` gives for `input`. A character that is not a
/// letter enters as `'A'`.
pub open spec fn reflect_letter(table: Seq<usize>, input: char) -> char {
    index_letter(table[letter_slot(input) as int] as int)
}

impl Clone for Reflector {
    fn clone(&self) -> (r: Self)
        ensures
            r == *self,
    {
        proof {
            use_type_invariant(self);
        }
        Reflector { wiring: self.wiring, name: self.name.clone() }
    }
}

impl Reflector {
    /// The substitution table: entry `i` is the index that index `i` is
    /// reflected to.
    pub closed spec fn table(&self) -> Seq<usize> {
        self.wiring@
    }

    /// The display name.
    pub closed spec fn label(&self) -> Seq<char> {
        self.name@
    }

    /// Every reflector holds a permutation.
    #[verifier::type_invariant]
    pub open spec fn wf(&self) -> bool {
        is_permutation(self.table())
    }

    /// Builds a reflector from a wiring string of 26 letters that name
    /// each letter exactly once.
    pub fn new(wiring: &str, name: &str) -> (r: Result<Self, String>)
        ensures
            match r {
                Ok(reflector) => {
                    &&& wiring_error(wiring@) is None
                    &&& reflector.table() == table_of(wiring@)
                    &&& reflector.label() == name@
                    &&& reflector.wf()
                },
                Err(message) => wiring_error(wiring@) == Some(message@),
            },
    {
        let chars = chars_of(wiring);
        if chars.len() != 26 {
            return Err("Verdrahtung muss genau 26 Zeichen lang sein".to_owned());
        }
        let table = match read_table(&chars) {
            Ok(table) => table,
            Err(c) => {
                let mut message = "Ungültiges Zeichen in Verdrahtung: ".to_owned();
                push_char(&mut message, c);
                return Err(message);
            },
        };
        if !Self::is_valid_permutation(&table) {
            return Err(
                "Verdrahtung muss eine gültige Permutation sein (jeder Buchstabe muss genau einmal als Ziel auftreten)".to_owned(),
            );
        }
        Ok(Reflector { wiring: table, name: name.to_owned() })
    }

    /// The display name.
    pub fn name(&self) -> (r: &str)
        ensures
            r@ == self.label(),
    {
        self.name.as_str()
    }

    /// Sends a letter through the table. There is no offset: the reflector
    /// does not turn.
    pub fn reflect(&self, input: char) -> (r: char)
        ensures
            r == reflect_letter(self.table(), input),
            'A' <= r <= 'Z',
    {
        proof {
            use_type_invariant(self);
        }
        let input_index = match letter_to_index(input) {
            Some(index) => index,
            None => 0,
        };
        let output_index = self.wiring[input_index];
        match index_to_letter(output_index) {
            Some(letter) => letter,
            None => 'A',
        }
    }

    /// Checks that each index from 0 to 25 is the target of exactly one
    /// entry of `wiring`.
    pub fn is_valid_permutation(wiring: &[usize; 26]) -> (r: bool)
        ensures
            r == is_permutation(wiring@),
    {
        crate::wiring::is_valid_permutation(wiring)
    }
}

} // verus!
