use enigma_rs::cli::{known_rotor, parse_positions, parse_rotors, split_fields};

#[test]
fn positions_are_three_letters() {
    assert_eq!(parse_positions("ABC"), Ok(['A', 'B', 'C']));
    assert_eq!(parse_positions("xyz"), Ok(['x', 'y', 'z']));
}

#[test]
fn positions_of_wrong_length_are_rejected() {
    let message = "Position string must be exactly 3 characters long";
    assert_eq!(parse_positions("").unwrap_err(), message);
    assert_eq!(parse_positions("AB").unwrap_err(), message);
    assert_eq!(parse_positions("ABCD").unwrap_err(), message);
    assert_eq!(parse_positions("1").unwrap_err(), message);
}

#[test]
fn positions_with_other_characters_are_rejected() {
    let message = "Position string may only contain letters";
    assert_eq!(parse_positions("A1C").unwrap_err(), message);
    assert_eq!(parse_positions("AB ").unwrap_err(), message);
    assert_eq!(parse_positions("?BC").unwrap_err(), message);
}

#[test]
fn rotors_are_three_names() {
    assert_eq!(parse_rotors("I,II,III"), Ok(["I", "II", "III"]));
    assert_eq!(parse_rotors("V,IV,V"), Ok(["V", "IV", "V"]));
}

#[test]
fn rotors_of_wrong_count_are_rejected() {
    let message = "Rotor string must contain exactly 3 types (comma-separated)";
    assert_eq!(parse_rotors("").unwrap_err(), message);
    assert_eq!(parse_rotors("I,II").unwrap_err(), message);
    assert_eq!(parse_rotors("I,II,III,IV").unwrap_err(), message);
    assert_eq!(parse_rotors("VI").unwrap_err(), message);
}

#[test]
fn rotors_with_unknown_names_are_rejected() {
    assert_eq!(parse_rotors("I,VI,III").unwrap_err(), "Invalid rotor type: VI");
    assert_eq!(parse_rotors("I,II,").unwrap_err(), "Invalid rotor type: ");
    assert_eq!(parse_rotors(" I,II,III").unwrap_err(), "Invalid rotor type:  I");
    assert_eq!(parse_rotors("i,VI,7").unwrap_err(), "Invalid rotor type: i");
}

#[test]
fn fields_are_cut_at_commas() {
    let chars: Vec<char> = "I,,II,".chars().collect();
    assert_eq!(
        split_fields(&chars),
        vec![vec!['I'], vec![], vec!['I', 'I'], vec![]]
    );
    assert_eq!(split_fields(&Vec::new()), vec![Vec::<char>::new()]);
}

#[test]
fn known_rotor_names() {
    assert_eq!(known_rotor(&vec!['I', 'V']), Some("IV"));
    assert_eq!(known_rotor(&vec!['V']), Some("V"));
    assert_eq!(known_rotor(&vec!['V', 'I']), None);
    assert_eq!(known_rotor(&Vec::new()), None);
}
