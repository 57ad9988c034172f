//! The five historical rotors.

use vstd::prelude::*;
use crate::rotor::{range_message, rotor_error, Rotor, RotorView};
use crate::wiring::{
    are_inverse, lemma_each_index, lemma_inverse_gives_permutation, letter_entry_ok, table_of,
};

verus! {

/// The wiring of rotor I.
pub open spec fn wiring_i() -> Seq<char> {
    "EKMFLGDQVZNTOWYHXUSPAIBRCJ"@
}

/// The wiring of rotor I names each letter exactly once.
pub proof fn lemma_wiring_i(ring_setting: usize, position: usize)
    requires
        ring_setting < 26,
        position < 26,
    ensures
        rotor_error(wiring_i(), 'Q', ring_setting, position) is None,
{
    reveal_strlit("EKMFLGDQVZNTOWYHXUSPAIBRCJ");
    let s = wiring_i();
    let inv: Seq<usize> = seq![20, 22, 24, 6, 0, 3, 5, 15, 21, 25, 1, 4, 2, 10, 12, 19, 7, 23, 18, 11, 17, 8, 13, 16, 14, 9];
    lemma_each_index(|i: int| letter_entry_ok(s, inv, i));
    assert(are_inverse(table_of(s), inv));
    lemma_inverse_gives_permutation(table_of(s), inv);
}

/// Rotor I, with its notch at Q. It is refused if the ring setting or
/// the position is above 25.
pub fn rotor_i(ring_setting: usize, position: usize) -> (r: Result<Rotor, String>)
    ensures
        match r {
            Ok(rotor) => {
                &&& ring_setting < 26 && position < 26
                &&& rotor@ == (RotorView {
                    table: table_of(wiring_i()),
                    ring: ring_setting as int,
                    pos: position as int,
                    notch: 16,
                    label: "I"@,
                })
                &&& rotor.wf()
            },
            Err(message) => (ring_setting >= 26 || position >= 26) && message@ == range_message(),
        },
{
    proof {
        reveal_strlit("EKMFLGDQVZNTOWYHXUSPAIBRCJ");
        if ring_setting < 26 && position < 26 {
            lemma_wiring_i(ring_setting, position);
        }
    }
    Rotor::new("EKMFLGDQVZNTOWYHXUSPAIBRCJ", 'Q', "I", ring_setting, position)
}

/// The wiring of rotor II.
pub open spec fn wiring_ii() -> Seq<char> {
    "AJDKSIRUXBLHWTMCQGZNPYFVOE"@
}

/// The wiring of rotor II names each letter exactly once.
pub proof fn lemma_wiring_ii(ring_setting: usize, position: usize)
    requires
        ring_setting < 26,
        position < 26,
    ensures
        rotor_error(wiring_ii(), 'E', ring_setting, position) is None,
{
    reveal_strlit("AJDKSIRUXBLHWTMCQGZNPYFVOE");
    let s = wiring_ii();
    let inv: Seq<usize> = seq![0, 9, 15, 2, 25, 22, 17, 11, 5, 1, 3, 10, 14, 19, 24, 20, 16, 6, 4, 13, 7, 23, 12, 8, 21, 18];
    lemma_each_index(|i: int| letter_entry_ok(s, inv, i));
    assert(are_inverse(table_of(s), inv));
    lemma_inverse_gives_permutation(table_of(s), inv);
}

/// Rotor II, with its notch at E. It is refused if the ring setting or
/// the position is above 25.
pub fn rotor_ii(ring_setting: usize, position: usize) -> (r: Result<Rotor, String>)
    ensures
        match r {
            Ok(rotor) => {
                &&& ring_setting < 26 && position < 26
                &&& rotor@ == (RotorView {
                    table: table_of(wiring_ii()),
                    ring: ring_setting as int,
                    pos: position as int,
                    notch: 4,
                    label: "II"@,
                })
                &&& rotor.wf()
            },
            Err(message) => (ring_setting >= 26 || position >= 26) && message@ == range_message(),
        },
{
    proof {
        reveal_strlit("AJDKSIRUXBLHWTMCQGZNPYFVOE");
        if ring_setting < 26 && position < 26 {
            lemma_wiring_ii(ring_setting, position);
        }
    }
    Rotor::new("AJDKSIRUXBLHWTMCQGZNPYFVOE", 'E', "II", ring_setting, position)
}

/// The wiring of rotor III.
pub open spec fn wiring_iii() -> Seq<char> {
    "BDFHJLCPRTXVZNYEIWGAKMUSQO"@
}

/// The wiring of rotor III names each letter exactly once.
pub proof fn lemma_wiring_iii(ring_setting: usize, position: usize)
    requires
        ring_setting < 26,
        position < 26,
    ensures
        rotor_error(wiring_iii(), 'V', ring_setting, position) is None,
{
    reveal_strlit("BDFHJLCPRTXVZNYEIWGAKMUSQO");
    let s = wiring_iii();
    let inv: Seq<usize> = seq![19, 0, 6, 1, 15, 2, 18, 3, 16, 4, 20, 5, 21, 13, 25, 7, 24, 8, 23, 9, 22, 11, 17, 10, 14, 12];
    lemma_each_index(|i: int| letter_entry_ok(s, inv, i));
    assert(are_inverse(table_of(s), inv));
    lemma_inverse_gives_permutation(table_of(s), inv);
}

/// Rotor III, with its notch at V. It is refused if the ring setting or
/// the position is above 25.
pub fn rotor_iii(ring_setting: usize, position: usize) -> (r: Result<Rotor, String>)
    ensures
        match r {
            Ok(rotor) => {
                &&& ring_setting < 26 && position < 26
                &&& rotor@ == (RotorView {
                    table: table_of(wiring_iii()),
                    ring: ring_setting as int,
                    pos: position as int,
                    notch: 21,
                    label: "III"@,
                })
                &&& rotor.wf()
            },
            Err(message) => (ring_setting >= 26 || position >= 26) && message@ == range_message(),
        },
{
    proof {
        reveal_strlit("BDFHJLCPRTXVZNYEIWGAKMUSQO");
        if ring_setting < 26 && position < 26 {
            lemma_wiring_iii(ring_setting, position);
        }
    }
    Rotor::new("BDFHJLCPRTXVZNYEIWGAKMUSQO", 'V', "III", ring_setting, position)
}

/// The wiring of rotor IV.
pub open spec fn wiring_iv() -> Seq<char> {
    "ESOVPZJAYQUIRHXLNFTGKDCMWB"@
}

/// The wiring of rotor IV names each letter exactly once.
pub proof fn lemma_wiring_iv(ring_setting: usize, position: usize)
    requires
        ring_setting < 26,
        position < 26,
    ensures
        rotor_error(wiring_iv(), 'J', ring_setting, position) is None,
{
    reveal_strlit("ESOVPZJAYQUIRHXLNFTGKDCMWB");
    let s = wiring_iv();
    let inv: Seq<usize> = seq![7, 25, 22, 21, 0, 17, 19, 13, 11, 6, 20, 15, 23, 16, 2, 4, 9, 12, 1, 18, 10, 3, 24, 14, 8, 5];
    lemma_each_index(|i: int| letter_entry_ok(s, inv, i));
    assert(are_inverse(table_of(s), inv));
    lemma_inverse_gives_permutation(table_of(s), inv);
}

/// Rotor IV, with its notch at J. It is refused if the ring setting or
/// the position is above 25.
pub fn rotor_iv(ring_setting: usize, position: usize) -> (r: Result<Rotor, String>)
    ensures
        match r {
            Ok(rotor) => {
                &&& ring_setting < 26 && position < 26
                &&& rotor@ == (RotorView {
                    table: table_of(wiring_iv()),
                    ring: ring_setting as int,
                    pos: position as int,
                    notch: 9,
                    label: "IV"@,
                })
                &&& rotor.wf()
            },
            Err(message) => (ring_setting >= 26 || position >= 26) && message@ == range_message(),
        },
{
    proof {
        reveal_strlit("ESOVPZJAYQUIRHXLNFTGKDCMWB");
        if ring_setting < 26 && position < 26 {
            lemma_wiring_iv(ring_setting, position);
        }
    }
    Rotor::new("ESOVPZJAYQUIRHXLNFTGKDCMWB", 'J', "IV", ring_setting, position)
}

/// The wiring of rotor V.
pub open spec fn wiring_v() -> Seq<char> {
    "VZBRGITYUPSDNHLXAWMJQOFECK"@
}

/// The wiring of rotor V names each letter exactly once.
pub proof fn lemma_wiring_v(ring_setting: usize, position: usize)
    requires
        ring_setting < 26,
        position < 26,
    ensures
        rotor_error(wiring_v(), 'Z', ring_setting, position) is None,
{
    reveal_strlit("VZBRGITYUPSDNHLXAWMJQOFECK");
    let s = wiring_v();
    let inv: Seq<usize> = seq![16, 2, 24, 11, 23, 22, 4, 13, 5, 19, 25, 14, 18, 12, 21, 9, 20, 3, 10, 6, 8, 0, 17, 15, 7, 1];
    lemma_each_index(|i: int| letter_entry_ok(s, inv, i));
    assert(are_inverse(table_of(s), inv));
    lemma_inverse_gives_permutation(table_of(s), inv);
}

/// Rotor V, with its notch at Z. It is refused if the ring setting or
/// the position is above 25.
pub fn rotor_v(ring_setting: usize, position: usize) -> (r: Result<Rotor, String>)
    ensures
        match r {
            Ok(rotor) => {
                &&& ring_setting < 26 && position < 26
                &&& rotor@ == (RotorView {
                    table: table_of(wiring_v()),
                    ring: ring_setting as int,
                    pos: position as int,
                    notch: 25,
                    label: "V"@,
                })
                &&& rotor.wf()
            },
            Err(message) => (ring_setting >= 26 || position >= 26) && message@ == range_message(),
        },
{
    proof {
        reveal_strlit("VZBRGITYUPSDNHLXAWMJQOFECK");
        if ring_setting < 26 && position < 26 {
            lemma_wiring_v(ring_setting, position);
        }
    }
    Rotor::new("VZBRGITYUPSDNHLXAWMJQOFECK", 'Z', "V", ring_setting, position)
}

/// The names of the available rotors, in the order I, II, III, IV, V.
/// Each is built by the function of this module that carries its name.
pub fn available_rotors() -> (v: Vec<&'static str>)
    ensures
        v@.len() == 5,
        v@[0]@ == "I"@,
        v@[1]@ == "II"@,
        v@[2]@ == "III"@,
        v@[3]@ == "IV"@,
        v@[4]@ == "V"@,
{
    let mut v: Vec<&'static str> = Vec::new();
    v.push("I");
    v.push("II");
    v.push("III");
    v.push("IV");
    v.push("V");
    v
}

} // verus!
