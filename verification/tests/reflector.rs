use enigma_rs::reflector::reflectors::{
    available_reflectors, reflector_a, reflector_b, reflector_c,
};
use enigma_rs::reflector::Reflector;

#[test]
fn reflector_b_swaps_a_and_y() {
    let reflector = reflector_b().unwrap();
    assert_eq!(reflector.reflect('A'), 'Y');
    assert_eq!(reflector.reflect('Y'), 'A');
}

#[test]
fn reflectors_follow_their_tables() {
    let cases = [
        (reflector_a().unwrap(), "EJMZALYXVBWFCRQUONTSPIKHGD", "A"),
        (reflector_b().unwrap(), "YRUHQSLDPXNGOKMIEBFZCWVJAT", "B"),
        (reflector_c().unwrap(), "FVPJIAOYEDRZXWGCTKUQSBNMHL", "C"),
    ];
    for (reflector, table, name) in cases {
        assert_eq!(reflector.name(), name);
        for (i, expected) in table.chars().enumerate() {
            let input = (b'A' + i as u8) as char;
            assert_eq!(reflector.reflect(input), expected);
            assert_eq!(reflector.reflect(expected), input);
        }
    }
}

#[test]
fn reflect_of_lower_case_and_other_characters() {
    let reflector = reflector_b().unwrap();
    assert_eq!(reflector.reflect('a'), 'Y');
    assert_eq!(reflector.reflect('7'), 'Y');
}

#[test]
fn new_reflector_checks_in_order() {
    assert_eq!(
        Reflector::new("ABC", "X").unwrap_err(),
        "Verdrahtung muss genau 26 Zeichen lang sein"
    );
    assert_eq!(
        Reflector::new("YRUHQSLDPXNGOKMIEBFZCWVJA1", "X").unwrap_err(),
        "Ungültiges Zeichen in Verdrahtung: 1"
    );
    assert_eq!(
        Reflector::new("YRUHQSLDPXNGOKMIEBFZCWVJAA", "X").unwrap_err(),
        "Verdrahtung muss eine gültige Permutation sein (jeder Buchstabe muss genau einmal als Ziel auftreten)"
    );
}

#[test]
fn new_reflector_takes_a_permutation_that_is_no_involution() {
    let reflector = Reflector::new("BCDEFGHIJKLMNOPQRSTUVWXYZA", "shift").unwrap();
    assert_eq!(reflector.reflect('A'), 'B');
    assert_eq!(reflector.reflect('B'), 'C');
    assert_eq!(reflector.reflect('Z'), 'A');
    assert_eq!(reflector.clone().name(), "shift");
}

#[test]
fn validity_of_a_table() {
    let mut table = [0usize; 26];
    for i in 0..26 {
        table[i] = 25 - i;
    }
    assert!(Reflector::is_valid_permutation(&table));
    table[0] = 24;
    assert!(!Reflector::is_valid_permutation(&table));
}

#[test]
fn three_reflectors_are_available() {
    assert_eq!(available_reflectors(), vec!["A", "B", "C"]);
}
