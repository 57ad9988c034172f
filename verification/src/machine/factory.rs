//! Machines built from rotor names, letters and a plugboard text.

use vstd::prelude::*;
use crate::machine::{EnigmaMachine, MachineView};
use crate::plugboard::{parse_result, Plugboard};
use crate::reflector::reflectors;
use crate::reflector::reflectors::{reflector_a, reflector_b, reflector_c};
use crate::reflector::Reflector;
use crate::rotor::rotors;
use crate::rotor::rotors::{rotor_i, rotor_ii, rotor_iii, rotor_iv, rotor_v};
use crate::rotor::{range_message, Rotor, RotorView};
use crate::text::{same_text, with_text};
use crate::utils::{is_upper, whitespace_marks};
use crate::wiring::{is_involution, table_of};

verus! {

/// The message for a rotor name that is not known.
pub open spec fn rotor_name_message(name: Seq<char>) -> Seq<char> {
    "Unbekannter Rotortyp: "@ + name
}

/// The message for a reflector name that is not known.
pub open spec fn reflector_name_message(name: Seq<char>) -> Seq<char> {
    "Unbekannter Reflektortyp: "@ + name
}

/// The wiring of the rotor with the given name, and its notch.
pub open spec fn rotor_kind(name: Seq<char>) -> Option<(Seq<char>, int)> {
    if name == "I"@ {
        Some((rotors::wiring_i(), 16int))
    } else if name == "II"@ {
        Some((rotors::wiring_ii(), 4int))
    } else if name == "III"@ {
        Some((rotors::wiring_iii(), 21int))
    } else if name == "IV"@ {
        Some((rotors::wiring_iv(), 9int))
    } else if name == "V"@ {
        Some((rotors::wiring_v(), 25int))
    } else {
        None
    }
}

/// The rotor with the given name, ring setting and position, or why
/// there is none: the name is not known, or one of the two characters is
/// not an upper-case letter.
pub open spec fn rotor_choice(name: Seq<char>, ring: char, position: char) -> Result<
    RotorView,
    Seq<char>,
> {
    match rotor_kind(name) {
        None => Err(rotor_name_message(name)),
        Some((wiring, notch)) => if !is_upper(ring) || !is_upper(position) {
            Err(range_message())
        } else {
            Ok(
                RotorView {
                    table: table_of(wiring),
                    ring: ring as int - 65,
                    pos: position as int - 65,
                    notch,
                    label: name,
                },
            )
        },
    }
}

/// The wiring of the reflector with the given name.
pub open spec fn reflector_kind(name: Seq<char>) -> Option<Seq<char>> {
    if name == "A"@ {
        Some(reflectors::wiring_a())
    } else if name == "B"@ {
        Some(reflectors::wiring_b())
    } else if name == "C"@ {
        Some(reflectors::wiring_c())
    } else {
        None
    }
}

/// The machine with the three rotors, the reflector with the given
/// name and the plugboard that the text describes, or the message of
/// the first of these that is refused: the rotors are looked at from
/// left to right, then the reflector, then the plugboard.
pub open spec fn assembled(
    left: Result<RotorView, Seq<char>>,
    middle: Result<RotorView, Seq<char>>,
    right: Result<RotorView, Seq<char>>,
    reflector: Seq<char>,
    text: Seq<char>,
    marks: Seq<bool>,
) -> Result<MachineView, Seq<char>> {
    match (left, middle, right) {
        (Err(message), _, _) => Err(message),
        (Ok(_), Err(message), _) => Err(message),
        (Ok(_), Ok(_), Err(message)) => Err(message),
        (Ok(l), Ok(m), Ok(r)) => match reflector_kind(reflector) {
            None => Err(reflector_name_message(reflector)),
            Some(wiring) => match parse_result(text, marks) {
                Err(message) => Err(message),
                Ok(board) => Ok(
                    MachineView {
                        left: l,
                        middle: m,
                        right: r,
                        reflector: table_of(wiring),
                        reflector_label: reflector,
                        plugboard: board,
                    },
                ),
            },
        },
    }
}

/// What `create_standard_machine` gives: rotors I, II and III from left
/// to right, each with the ring setting and the position at its own
/// place, reflector B and the plugboard that the text describes.
pub open spec fn standard_result(
    positions: Seq<char>,
    rings: Seq<char>,
    text: Seq<char>,
    marks: Seq<bool>,
) -> Result<MachineView, Seq<char>> {
    assembled(
        rotor_choice("I"@, rings[0], positions[0]),
        rotor_choice("II"@, rings[1], positions[1]),
        rotor_choice("III"@, rings[2], positions[2]),
        "B"@,
        text,
        marks,
    )
}

/// What `create_custom_machine` gives: the rotors with the given names
/// from left to right, each with the ring setting and the position at
/// its own place, the reflector with the given name and the plugboard
/// that the text describes.
pub open spec fn custom_result(
    types: Seq<Seq<char>>,
    positions: Seq<char>,
    rings: Seq<char>,
    reflector: Seq<char>,
    text: Seq<char>,
    marks: Seq<bool>,
) -> Result<MachineView, Seq<char>> {
    assembled(
        rotor_choice(types[0], rings[0], positions[0]),
        rotor_choice(types[1], rings[1], positions[1]),
        rotor_choice(types[2], rings[2], positions[2]),
        reflector,
        text,
        marks,
    )
}

/// How far a character lies behind `'A'`, as the unsigned difference of
/// their code points; it wraps around for a character before `'A'`.
fn letter_offset(c: char) -> (r: usize)
    ensures
        is_upper(c) ==> r == c as int - 65,
        !is_upper(c) ==> r >= 26,
{
    (c as usize).wrapping_sub(65)
}

/// Builds the rotor with the given name. Ring setting and position are
/// upper-case letters.
pub fn rotor_by_name(name: &str, ring: char, position: char) -> (r: Result<Rotor, String>)
    ensures
        match r {
            Ok(rotor) => rotor_choice(name@, ring, position) == Ok::<_, Seq<char>>(rotor@)
                && rotor.wf(),
            Err(message) => rotor_choice(name@, ring, position) == Err::<RotorView, _>(message@),
        },
{
    let ring_setting = letter_offset(ring);
    let start = letter_offset(position);
    if same_text(name, "I") {
        rotor_i(ring_setting, start)
    } else if same_text(name, "II") {
        rotor_ii(ring_setting, start)
    } else if same_text(name, "III") {
        rotor_iii(ring_setting, start)
    } else if same_text(name, "IV") {
        rotor_iv(ring_setting, start)
    } else if same_text(name, "V") {
        rotor_v(ring_setting, start)
    } else {
        Err(with_text("Unbekannter Rotortyp: ", name))
    }
}

/// Builds the reflector with the given name.
pub fn reflector_by_name(name: &str) -> (r: Result<Reflector, String>)
    ensures
        match r {
            Ok(reflector) => {
                &&& reflector_kind(name@) matches Some(wiring) && reflector.table() == table_of(
                    wiring,
                )
                &&& reflector.label() == name@
                &&& is_involution(reflector.table())
                &&& reflector.wf()
            },
            Err(message) => reflector_kind(name@) is None && message@ == reflector_name_message(
                name@,
            ),
        },
{
    if same_text(name, "A") {
        reflector_a()
    } else if same_text(name, "B") {
        reflector_b()
    } else if same_text(name, "C") {
        reflector_c()
    } else {
        Err(with_text("Unbekannter Reflektortyp: ", name))
    }
}

/// The names held by a list of texts.
pub open spec fn names_of(types: Seq<&str>) -> Seq<Seq<char>> {
    types.map_values(|name: &str| name@)
}

/// Builds the standard machine: rotors I, II and III from left to
/// right, reflector B. Positions and ring settings are upper-case
/// letters, given from left to right.
pub fn create_standard_machine(
    rotor_positions: [char; 3],
    ring_settings: [char; 3],
    plugboard_connections: &str,
) -> (r: Result<EnigmaMachine, String>)
    ensures
        match r {
            Ok(machine) => standard_result(
                rotor_positions@,
                ring_settings@,
                plugboard_connections@,
                whitespace_marks(plugboard_connections@),
            ) == Ok::<_, Seq<char>>(machine@) && machine.wf() && is_involution(
                machine@.reflector,
            ),
            Err(message) => standard_result(
                rotor_positions@,
                ring_settings@,
                plugboard_connections@,
                whitespace_marks(plugboard_connections@),
            ) == Err::<MachineView, _>(message@),
        },
{
    proof {
        reveal_strlit("I");
        reveal_strlit("II");
        reveal_strlit("III");
        reveal_strlit("A");
        reveal_strlit("B");
        assert("A"@[0] != "B"@[0]);
        assert("I"@.len() == 1 && "II"@.len() == 2 && "III"@.len() == 3);
    }
    let left = match rotor_i(letter_offset(ring_settings[0]), letter_offset(rotor_positions[0])) {
        Ok(rotor) => rotor,
        Err(message) => {
            return Err(message);
        },
    };
    let middle = match rotor_ii(
        letter_offset(ring_settings[1]),
        letter_offset(rotor_positions[1]),
    ) {
        Ok(rotor) => rotor,
        Err(message) => {
            return Err(message);
        },
    };
    let right = match rotor_iii(
        letter_offset(ring_settings[2]),
        letter_offset(rotor_positions[2]),
    ) {
        Ok(rotor) => rotor,
        Err(message) => {
            return Err(message);
        },
    };
    let reflector = match reflector_b() {
        Ok(reflector) => reflector,
        Err(message) => {
            return Err(message);
        },
    };
    let plugboard = match Plugboard::from_string(plugboard_connections) {
        Ok(plugboard) => plugboard,
        Err(message) => {
            return Err(message);
        },
    };
    Ok(EnigmaMachine::new([left, middle, right], reflector, plugboard))
}

/// Builds a machine from the names of three rotors, from left to right,
/// and of a reflector. Positions and ring settings are upper-case
/// letters, given from left to right: each rotor takes the one at its
/// own place.
pub fn create_custom_machine(
    rotor_types: [&str; 3],
    rotor_positions: [char; 3],
    ring_settings: [char; 3],
    reflector_type: &str,
    plugboard_connections: &str,
) -> (r: Result<EnigmaMachine, String>)
    ensures
        match r {
            Ok(machine) => custom_result(
                names_of(rotor_types@),
                rotor_positions@,
                ring_settings@,
                reflector_type@,
                plugboard_connections@,
                whitespace_marks(plugboard_connections@),
            ) == Ok::<_, Seq<char>>(machine@) && machine.wf() && is_involution(
                machine@.reflector,
            ),
            Err(message) => custom_result(
                names_of(rotor_types@),
                rotor_positions@,
                ring_settings@,
                reflector_type@,
                plugboard_connections@,
                whitespace_marks(plugboard_connections@),
            ) == Err::<MachineView, _>(message@),
        },
{
    let left = match rotor_by_name(rotor_types[0], ring_settings[0], rotor_positions[0]) {
        Ok(rotor) => rotor,
        Err(message) => {
            return Err(message);
        },
    };
    let middle = match rotor_by_name(rotor_types[1], ring_settings[1], rotor_positions[1]) {
        Ok(rotor) => rotor,
        Err(message) => {
            return Err(message);
        },
    };
    let right = match rotor_by_name(rotor_types[2], ring_settings[2], rotor_positions[2]) {
        Ok(rotor) => rotor,
        Err(message) => {
            return Err(message);
        },
    };
    let reflector = match reflector_by_name(reflector_type) {
        Ok(reflector) => reflector,
        Err(message) => {
            return Err(message);
        },
    };
    let plugboard = match Plugboard::from_string(plugboard_connections) {
        Ok(plugboard) => plugboard,
        Err(message) => {
            return Err(message);
        },
    };
    Ok(EnigmaMachine::new([left, middle, right], reflector, plugboard))
}

} // verus!
