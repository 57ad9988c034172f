use enigma_rs::plugboard::Plugboard;
use enigma_rs::settings::{first_char_or_a, letter_for_draw, preset, random_letter, random_pairs};

#[test]
fn standard_preset() {
    let found = preset("Standard").unwrap();
    assert_eq!(found.rotor_types, ["I", "II", "III"]);
    assert_eq!(found.rotor_positions, ['A', 'A', 'A']);
    assert_eq!(found.ring_settings, ['A', 'A', 'A']);
    assert_eq!(found.reflector_type, "B");
    assert_eq!(found.plugboard_connections, "");
}

#[test]
fn kriegsmarine_preset() {
    let found = preset("Kriegsmarine").unwrap();
    assert_eq!(found.rotor_types, ["I", "II", "III"]);
    assert_eq!(found.reflector_type, "B");
    assert_eq!(found.plugboard_connections, "AB CD EF GH IJ KL");
}

#[test]
fn luftwaffe_preset() {
    let found = preset("Luftwaffe").unwrap();
    assert_eq!(found.rotor_types, ["I", "II", "IV"]);
    assert_eq!(found.rotor_positions, ['A', 'A', 'A']);
    assert_eq!(found.ring_settings, ['A', 'A', 'A']);
    assert_eq!(found.reflector_type, "B");
    assert_eq!(found.plugboard_connections, "AB CD EF");
}

#[test]
fn unknown_preset() {
    assert!(preset("").is_none());
    assert!(preset("standard").is_none());
    assert!(preset("Heer").is_none());
}

#[test]
fn first_char_of_a_field() {
    assert_eq!(first_char_or_a("Q"), 'Q');
    assert_eq!(first_char_or_a("xyz"), 'x');
    assert_eq!(first_char_or_a("é1"), 'é');
    assert_eq!(first_char_or_a(""), 'A');
}

#[test]
fn draws_name_letters() {
    assert_eq!(letter_for_draw(0), 'A');
    assert_eq!(letter_for_draw(12), 'M');
    assert_eq!(letter_for_draw(25), 'Z');
}

#[test]
fn random_letters_are_upper_case_and_vary() {
    let mut seen = [false; 26];
    for _ in 0..2000 {
        let c = random_letter();
        assert!(c.is_ascii_uppercase());
        seen[(c as u8 - b'A') as usize] = true;
    }
    assert!(seen.iter().filter(|s| **s).count() > 13);
}

#[test]
fn random_pairs_are_five_to_ten_pairs() {
    let mut counts = [false; 11];
    let mut texts = Vec::new();
    for _ in 0..300 {
        let text = random_pairs();
        let tokens: Vec<&str> = text.split(' ').collect();
        assert!(tokens.len() >= 5 && tokens.len() <= 10);
        assert_eq!(text.len(), tokens.len() * 3 - 1);
        for token in &tokens {
            assert!(token.chars().all(|c| c.is_ascii_uppercase()));
        }
        let board = Plugboard::from_string(&text).expect("drawn pairs are valid");
        assert_eq!(board.get_connection_count(), tokens.len());
        counts[tokens.len()] = true;
        texts.push(text);
    }
    assert!(counts[5..=10].iter().filter(|c| **c).count() > 1);
    texts.sort();
    texts.dedup();
    assert!(texts.len() > 1);
}
