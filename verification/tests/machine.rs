use enigma_rs::machine::factory::{
    create_custom_machine, create_standard_machine, reflector_by_name, rotor_by_name,
};
use enigma_rs::machine::EnigmaMachine;
use enigma_rs::plugboard::Plugboard;
use enigma_rs::reflector::reflectors::reflector_b;
use enigma_rs::rotor::rotors::{rotor_i, rotor_ii, rotor_iii};
use enigma_rs::utils::clean_text;

#[test]
fn single_letter_reference() {
    let mut machine = create_standard_machine(['A', 'A', 'A'], ['A', 'A', 'A'], "").unwrap();
    assert_eq!(machine.encrypt_char('A'), 'Q');
    assert_eq!(machine.get_rotor_positions(), ['A', 'A', 'B']);
    assert_eq!(machine.encrypt_char('A'), 'X');
    assert_eq!(machine.get_rotor_positions(), ['A', 'A', 'C']);
}

#[test]
fn normal_stepping_moves_the_right_rotor_only() {
    let mut machine = create_standard_machine(['A', 'A', 'A'], ['A', 'A', 'A'], "").unwrap();
    machine.step_rotors();
    assert_eq!(machine.get_rotor_positions(), ['A', 'A', 'B']);
}

#[test]
fn double_stepping_moves_middle_and_left() {
    let mut machine = create_standard_machine(['A', 'E', 'A'], ['A', 'A', 'A'], "").unwrap();
    machine.step_rotors();
    assert_eq!(machine.get_rotor_positions(), ['B', 'F', 'B']);
}

#[test]
fn right_notch_moves_the_middle_rotor() {
    let mut machine = create_standard_machine(['A', 'A', 'V'], ['A', 'A', 'A'], "").unwrap();
    machine.step_rotors();
    assert_eq!(machine.get_rotor_positions(), ['A', 'B', 'W']);
}

#[test]
fn middle_rotor_steps_twice_in_a_row() {
    let mut machine = create_standard_machine(['A', 'D', 'V'], ['A', 'A', 'A'], "").unwrap();
    machine.step_rotors();
    assert_eq!(machine.get_rotor_positions(), ['A', 'E', 'W']);
    machine.step_rotors();
    assert_eq!(machine.get_rotor_positions(), ['B', 'F', 'X']);
    machine.step_rotors();
    assert_eq!(machine.get_rotor_positions(), ['B', 'F', 'Y']);
}

#[test]
fn encrypt_gives_blocks_of_five() {
    let mut machine =
        create_standard_machine(['A', 'A', 'A'], ['A', 'A', 'A'], "AB CD EF").unwrap();
    assert_eq!(machine.encrypt("HELLO WORLD"), "WJCUQ MNYIV ");
    assert_eq!(machine.get_rotor_positions(), ['A', 'A', 'K']);
    machine.set_rotor_positions(['A', 'A', 'A']);
    assert_eq!(machine.decrypt("WJCUQ MNYIV "), "HELLO WORLD ");
}

#[test]
fn encrypt_with_rings_and_positions() {
    let mut machine =
        create_standard_machine(['B', 'C', 'D'], ['E', 'F', 'G'], "AB CD").unwrap();
    assert_eq!(machine.encrypt("ENIGMA MACHINE"), "BWJFF YTFLY YUL");
    assert_eq!(machine.get_rotor_positions(), ['B', 'C', 'Q']);
    assert_eq!(machine.get_ring_settings(), ['E', 'F', 'G']);
}

#[test]
fn encrypt_of_nothing() {
    let mut machine = create_standard_machine(['A', 'A', 'A'], ['A', 'A', 'A'], "").unwrap();
    assert_eq!(machine.encrypt(""), "");
    assert_eq!(machine.encrypt("12 34 !?"), "");
    assert_eq!(machine.get_rotor_positions(), ['A', 'A', 'A']);
}

#[test]
fn round_trip_hello_world() {
    let mut machine =
        create_standard_machine(['A', 'A', 'A'], ['A', 'A', 'A'], "AB CD EF").unwrap();
    let encrypted = machine.encrypt("HELLO WORLD");
    machine.set_rotor_positions(['A', 'A', 'A']);
    let decrypted = machine.decrypt(&encrypted);
    assert_eq!(clean_text(&decrypted), "HELLOWORLD");
    assert_eq!(clean_text(&decrypted), clean_text("HELLO WORLD"));
}

#[test]
fn round_trip_from_any_start() {
    for (positions, rings, plugs) in [
        (['Q', 'E', 'V'], ['A', 'A', 'A'], ""),
        (['Z', 'Z', 'Z'], ['Z', 'Y', 'X'], "AZ BY"),
        (['A', 'D', 'U'], ['K', 'A', 'T'], "QW ER TY UI OP"),
    ] {
        let mut machine = create_standard_machine(positions, rings, plugs).unwrap();
        let text = "The quick brown fox jumps over the lazy dog, 42 times!";
        let encrypted = machine.encrypt(text);
        machine.set_rotor_positions(positions);
        let decrypted = machine.decrypt(&encrypted);
        assert_eq!(clean_text(&decrypted), clean_text(text));
    }
}

#[test]
fn no_letter_is_enciphered_to_itself() {
    let mut machine = create_standard_machine(['A', 'A', 'A'], ['A', 'A', 'A'], "AB").unwrap();
    for _ in 0..100 {
        for c in 'A'..='Z' {
            let mut copy = EnigmaMachine::new(
                [
                    rotor_i(0, 0).unwrap(),
                    rotor_ii(0, 0).unwrap(),
                    rotor_iii(0, 0).unwrap(),
                ],
                reflector_b().unwrap(),
                Plugboard::from_string("AB").unwrap(),
            );
            copy.set_rotor_positions(machine.get_rotor_positions());
            assert_ne!(copy.encrypt_char(c), c);
        }
        machine.step_rotors();
    }
}

#[test]
fn setters_take_letters_and_ignore_the_rest() {
    let mut machine = create_standard_machine(['A', 'A', 'A'], ['A', 'A', 'A'], "").unwrap();
    machine.set_rotor_positions(['x', '1', 'C']);
    assert_eq!(machine.get_rotor_positions(), ['X', 'A', 'C']);
    machine.set_ring_settings(['?', 'b', 'Z']);
    assert_eq!(machine.get_ring_settings(), ['A', 'B', 'Z']);
}

#[test]
fn configuration_info_text() {
    let machine = create_standard_machine(['B', 'C', 'D'], ['E', 'F', 'G'], "CD AB").unwrap();
    assert_eq!(
        machine.get_configuration_info(),
        "Rotoren: I II III\nRingstellungen: E F G\nPositionen: B C D\nReflektor: B\nSteckerbrett: AB CD"
    );
}

#[test]
fn new_machine_from_parts() {
    let mut machine = EnigmaMachine::new(
        [rotor_i(0, 0).unwrap(), rotor_ii(0, 0).unwrap(), rotor_iii(0, 0).unwrap()],
        reflector_b().unwrap(),
        Plugboard::new(),
    );
    assert_eq!(machine.encrypt_char('A'), 'Q');
}

#[test]
fn custom_machine_gives_each_rotor_its_own_settings() {
    let machine =
        create_custom_machine(["I", "II", "III"], ['B', 'C', 'D'], ['E', 'F', 'G'], "B", "AB CD")
            .unwrap();
    assert_eq!(machine.get_rotor_positions(), ['B', 'C', 'D']);
    assert_eq!(machine.get_ring_settings(), ['E', 'F', 'G']);
    let standard = create_standard_machine(['B', 'C', 'D'], ['E', 'F', 'G'], "AB CD").unwrap();
    assert_eq!(machine.get_configuration_info(), standard.get_configuration_info());
}

#[test]
fn custom_machine_is_the_standard_machine_for_the_standard_parts() {
    let mut custom =
        create_custom_machine(["I", "II", "III"], ['B', 'C', 'D'], ['E', 'F', 'G'], "B", "AB CD")
            .unwrap();
    let mut standard =
        create_standard_machine(['B', 'C', 'D'], ['E', 'F', 'G'], "AB CD").unwrap();
    assert_eq!(custom.encrypt("ENIGMA MACHINE"), "BWJFF YTFLY YUL");
    assert_eq!(standard.encrypt("ENIGMA MACHINE"), "BWJFF YTFLY YUL");
    assert_eq!(custom.get_rotor_positions(), standard.get_rotor_positions());
}

#[test]
fn custom_machine_with_other_parts() {
    let mut machine = create_custom_machine(
        ["II", "IV", "V"],
        ['C', 'B', 'A'],
        ['F', 'E', 'D'],
        "C",
        "QW ER",
    )
    .unwrap();
    assert_eq!(machine.get_rotor_positions(), ['C', 'B', 'A']);
    assert_eq!(machine.get_ring_settings(), ['F', 'E', 'D']);
    assert_eq!(
        machine.get_configuration_info(),
        "Rotoren: II IV V\nRingstellungen: F E D\nPositionen: C B A\nReflektor: C\nSteckerbrett: ER QW"
    );
    assert_eq!(machine.encrypt("THE QUICK BROWN FOX"), "QOARE LGACP NIBMZ U");
    assert_eq!(machine.get_rotor_positions(), ['C', 'B', 'Q']);
}

#[test]
fn unknown_rotor_is_rejected() {
    let result =
        create_custom_machine(["I", "VI", "III"], ['A', 'A', 'A'], ['A', 'A', 'A'], "B", "");
    assert_eq!(result.unwrap_err(), "Unbekannter Rotortyp: VI");
    let first =
        create_custom_machine(["", "VI", "III"], ['A', 'A', 'A'], ['A', 'A', 'A'], "B", "");
    assert_eq!(first.unwrap_err(), "Unbekannter Rotortyp: ");
}

#[test]
fn unknown_reflector_is_rejected() {
    let result =
        create_custom_machine(["I", "II", "III"], ['A', 'A', 'A'], ['A', 'A', 'A'], "D", "");
    assert_eq!(result.unwrap_err(), "Unbekannter Reflektortyp: D");
}

#[test]
fn malformed_plugboard_is_rejected() {
    let long = create_standard_machine(['A', 'A', 'A'], ['A', 'A', 'A'], "ABC");
    assert_eq!(long.unwrap_err(), "Verbindung 'ABC' muss genau 2 Zeichen lang sein");
    let twice = create_standard_machine(['A', 'A', 'A'], ['A', 'A', 'A'], "AA");
    assert_eq!(
        twice.unwrap_err(),
        "Ein Buchstabe kann nicht mit sich selbst verbunden werden"
    );
    let custom =
        create_custom_machine(["I", "II", "III"], ['A', 'A', 'A'], ['A', 'A', 'A'], "B", "ABC");
    assert_eq!(custom.unwrap_err(), "Verbindung 'ABC' muss genau 2 Zeichen lang sein");
}

#[test]
fn settings_must_be_upper_case_letters() {
    let message = "Ring setting and position must be between 0 and 25";
    for bad in ['a', '1', ' ', '[', '@', 'é'] {
        let position = create_standard_machine(['A', bad, 'A'], ['A', 'A', 'A'], "");
        assert_eq!(position.unwrap_err(), message);
        let ring = create_standard_machine(['A', 'A', 'A'], ['A', 'A', bad], "");
        assert_eq!(ring.unwrap_err(), message);
        let custom =
            create_custom_machine(["I", "II", "III"], [bad, 'A', 'A'], ['A', 'A', 'A'], "B", "");
        assert_eq!(custom.unwrap_err(), message);
    }
}

#[test]
fn errors_come_in_order() {
    // The rotors are looked at from left to right, then the reflector, then the plugboard.
    let result =
        create_custom_machine(["I", "X", "III"], ['A', 'A', 'a'], ['A', 'A', 'A'], "Q", "ABC");
    assert_eq!(result.unwrap_err(), "Unbekannter Rotortyp: X");
    let result =
        create_custom_machine(["I", "II", "X"], ['a', 'A', 'A'], ['A', 'A', 'A'], "Q", "ABC");
    assert_eq!(result.unwrap_err(), "Ring setting and position must be between 0 and 25");
    let result =
        create_custom_machine(["I", "II", "III"], ['A', 'A', 'a'], ['A', 'A', 'A'], "Q", "ABC");
    assert_eq!(result.unwrap_err(), "Ring setting and position must be between 0 and 25");
    let result =
        create_custom_machine(["I", "II", "III"], ['A', 'A', 'A'], ['A', 'A', 'A'], "Q", "ABC");
    assert_eq!(result.unwrap_err(), "Unbekannter Reflektortyp: Q");
    let result =
        create_custom_machine(["I", "II", "III"], ['A', 'A', 'A'], ['A', 'A', 'A'], "B", "ABC");
    assert_eq!(result.unwrap_err(), "Verbindung 'ABC' muss genau 2 Zeichen lang sein");
}

#[test]
fn rotors_and_reflectors_by_name() {
    assert_eq!(rotor_by_name("IV", 'B', 'C').unwrap().name(), "IV");
    assert_eq!(rotor_by_name("IV", 'B', 'C').unwrap().get_position_char(), 'C');
    assert_eq!(rotor_by_name("IV", 'B', 'C').unwrap().get_ring_setting_char(), 'B');
    assert_eq!(rotor_by_name("iv", 'B', 'C').unwrap_err(), "Unbekannter Rotortyp: iv");
    assert_eq!(reflector_by_name("C").unwrap().reflect('A'), 'F');
    assert_eq!(reflector_by_name("").unwrap_err(), "Unbekannter Reflektortyp: ");
}

#[test]
fn through_rotors_leaves_the_rotors_where_they_are() {
    let machine = create_standard_machine(['A', 'A', 'B'], ['A', 'A', 'A'], "AB").unwrap();
    assert_eq!(machine.through_rotors('A'), 'Q');
    assert_eq!(machine.through_rotors('Q'), 'A');
    assert_eq!(machine.through_rotors('a'), 'Q');
    assert_eq!(machine.get_rotor_positions(), ['A', 'A', 'B']);
}
