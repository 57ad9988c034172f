use enigma_rs::text::{chars_of, same_text, string_of};
use enigma_rs::utils::{
    clean_text, count_free, free_letter_at, generate_random_plugboard, index_to_letter, is_valid_marked,
    is_valid_text, letter_to_index, mark_whitespace, pick_partner,
};
use enigma_rs::plugboard::Plugboard;

#[test]
fn index_and_letter_round_trip() {
    for i in 0..26usize {
        let letter = index_to_letter(i).unwrap();
        assert_eq!(letter as u32, 'A' as u32 + i as u32);
        assert_eq!(letter_to_index(letter), Some(i));
    }
}

#[test]
fn letter_round_trip_gives_upper_case() {
    for c in ['A', 'M', 'Z', 'a', 'q', 'z'] {
        let index = letter_to_index(c).unwrap();
        assert_eq!(index_to_letter(index), Some(c.to_ascii_uppercase()));
    }
    assert_eq!(letter_to_index('a'), Some(0));
    assert_eq!(letter_to_index('Z'), Some(25));
}

#[test]
fn characters_that_are_no_letters_have_no_index() {
    for c in ['0', '9', ' ', '!', '@', '[', '`', '{', '\n', 'é', 'Ä', 'ß', '\u{0}'] {
        assert_eq!(letter_to_index(c), None);
    }
}

#[test]
fn indices_above_25_have_no_letter() {
    assert_eq!(index_to_letter(25), Some('Z'));
    assert_eq!(index_to_letter(26), None);
    assert_eq!(index_to_letter(1000), None);
    assert_eq!(index_to_letter(usize::MAX), None);
}

#[test]
fn clean_text_keeps_letters_only() {
    assert_eq!(clean_text("He11o, World!"), "HEOWORLD");
}

#[test]
fn clean_text_edge_cases() {
    assert_eq!(clean_text(""), "");
    assert_eq!(clean_text("123 ,.;\n\t"), "");
    assert_eq!(clean_text("abc"), "ABC");
    assert_eq!(clean_text("ÄaßbéC"), "ABC");
    assert_eq!(clean_text("ALREADY"), "ALREADY");
}

#[test]
fn valid_text_is_letters_and_whitespace() {
    assert!(is_valid_text(""));
    assert!(is_valid_text("HELLO world"));
    assert!(is_valid_text("A\tB\nC\u{a0}D"));
    assert!(!is_valid_text("A1"));
    assert!(!is_valid_text("HELLO, WORLD"));
    assert!(!is_valid_text("é"));
}

#[test]
fn valid_marked_goes_by_the_marks() {
    let chars = vec!['A', '-', 'b'];
    assert!(is_valid_marked(&chars, &vec![false, true, false]));
    assert!(!is_valid_marked(&chars, &vec![false, false, false]));
    assert!(is_valid_marked(&Vec::new(), &Vec::new()));
}

#[test]
fn whitespace_is_marked() {
    let chars = chars_of("A b\tc\n");
    assert_eq!(mark_whitespace(&chars), vec![false, true, false, true, false, true]);
}

#[test]
fn chars_and_strings_convert() {
    assert_eq!(chars_of("AbC é"), vec!['A', 'b', 'C', ' ', 'é']);
    assert_eq!(string_of(&vec!['X', 'y', ' ', 'Z']), "Xy Z");
    assert_eq!(string_of(&Vec::new()), "");
}

#[test]
fn same_text_compares_characters() {
    assert!(same_text("III", "III"));
    assert!(same_text("", ""));
    assert!(!same_text("II", "III"));
    assert!(!same_text("IV", "VI"));
}

#[test]
fn free_letters_are_counted() {
    let mut used = [false; 26];
    assert_eq!(count_free(&used), 26);
    used[0] = true;
    used[7] = true;
    used[25] = true;
    assert_eq!(count_free(&used), 23);
    assert_eq!(count_free(&[true; 26]), 0);
}

#[test]
fn partner_is_picked_among_free_letters() {
    let mut used = [false; 26];
    used[0] = true;
    used[2] = true;
    // The free letters are B, D, E, ...: number 0 is B, number 1 is D.
    assert_eq!(pick_partner(&used, 3, 0), Some(1));
    assert_eq!(pick_partner(&used, 3, 1), None);
    assert_eq!(pick_partner(&used, 3, 2), Some(4));
    assert_eq!(pick_partner(&used, 1, 23), Some(25));
    assert_eq!(pick_partner(&used, 1, 24), None);
    assert_eq!(pick_partner(&[true; 26], 0, 0), None);
}

#[test]
fn free_letters_are_found_by_number() {
    let mut used = [false; 26];
    used[0] = true;
    used[2] = true;
    assert_eq!(free_letter_at(&used, 0), 1);
    assert_eq!(free_letter_at(&used, 1), 3);
    assert_eq!(free_letter_at(&used, 23), 25);
    assert_eq!(free_letter_at(&used, 24), 26);
    assert_eq!(free_letter_at(&[true; 26], 0), 26);
}

#[test]
fn random_plugboards_are_plugboards() {
    let mut some_pair = false;
    for _ in 0..200 {
        let text = generate_random_plugboard();
        let board = Plugboard::from_string(&text).expect("a drawn plugboard is valid");
        let tokens: Vec<&str> = text.split(' ').filter(|t| !t.is_empty()).collect();
        assert_eq!(board.get_connection_count(), tokens.len());
        assert!(tokens.len() <= 13);
        for token in &tokens {
            assert_eq!(token.len(), 2);
            assert!(token.chars().all(|c| c.is_ascii_uppercase()));
        }
        if !tokens.is_empty() {
            some_pair = true;
        }
    }
    assert!(some_pair);
}
