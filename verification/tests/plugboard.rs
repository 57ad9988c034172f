use enigma_rs::plugboard::{split_tokens, Plugboard};

#[test]
fn new_plugboard_is_empty() {
    let board = Plugboard::new();
    assert_eq!(board.get_connection_count(), 0);
    assert_eq!(board.get_connections_string(), "");
    for c in 'A'..='Z' {
        assert!(!board.is_connected(c));
        assert_eq!(board.process(c), c);
    }
}

#[test]
fn process_swaps_pairs() {
    let board = Plugboard::from_string("AB CD EF").unwrap();
    assert_eq!(board.process('A'), 'B');
    assert_eq!(board.process('B'), 'A');
    assert_eq!(board.process('C'), 'D');
    assert_eq!(board.process('F'), 'E');
    assert_eq!(board.process('G'), 'G');
    assert_eq!(board.process('Z'), 'Z');
}

#[test]
fn process_twice_is_identity() {
    for text in ["", "AB", "AB CD EF", "AZ BY CX DW EV FU GT HS IR JQ KP LO MN"] {
        let board = Plugboard::from_string(text).unwrap();
        for c in 'A'..='Z' {
            assert_eq!(board.process(board.process(c)), c);
        }
    }
}

#[test]
fn process_of_lower_case_and_other_characters() {
    let board = Plugboard::from_string("AB").unwrap();
    assert_eq!(board.process('a'), 'B');
    assert_eq!(board.process('c'), 'c');
    // Anything that is not a letter is looked up as 'A'.
    assert_eq!(board.process('1'), 'B');
    let empty = Plugboard::new();
    assert_eq!(empty.process('1'), '1');
}

#[test]
fn from_string_accepts_empty_and_blank_text() {
    assert_eq!(Plugboard::from_string("").unwrap().get_connection_count(), 0);
    assert_eq!(Plugboard::from_string("   ").unwrap().get_connection_count(), 0);
    assert_eq!(Plugboard::from_string(" \t\n ").unwrap().get_connection_count(), 0);
}

#[test]
fn from_string_splits_at_any_whitespace() {
    let board = Plugboard::from_string("  AB\tcd\n\nEf  ").unwrap();
    assert_eq!(board.get_connection_count(), 3);
    assert_eq!(board.get_connections_string(), "AB CD EF");
}

#[test]
fn from_string_rejects_wrong_length() {
    assert_eq!(
        Plugboard::from_string("ABC").unwrap_err(),
        "Verbindung 'ABC' muss genau 2 Zeichen lang sein"
    );
    assert_eq!(
        Plugboard::from_string("AB C").unwrap_err(),
        "Verbindung 'C' muss genau 2 Zeichen lang sein"
    );
    assert_eq!(
        Plugboard::from_string("AB CDE FG").unwrap_err(),
        "Verbindung 'CDE' muss genau 2 Zeichen lang sein"
    );
}

#[test]
fn from_string_rejects_non_letters() {
    assert_eq!(
        Plugboard::from_string("A1").unwrap_err(),
        "Verbindung 'A1' darf nur Buchstaben enthalten"
    );
    assert_eq!(
        Plugboard::from_string("AB ?D").unwrap_err(),
        "Verbindung '?D' darf nur Buchstaben enthalten"
    );
}

#[test]
fn from_string_rejects_self_pair() {
    assert_eq!(
        Plugboard::from_string("AA").unwrap_err(),
        "Ein Buchstabe kann nicht mit sich selbst verbunden werden"
    );
    assert_eq!(
        Plugboard::from_string("Aa").unwrap_err(),
        "Ein Buchstabe kann nicht mit sich selbst verbunden werden"
    );
}

#[test]
fn from_string_rejects_reused_letter() {
    assert_eq!(
        Plugboard::from_string("AB BC").unwrap_err(),
        "Buchstabe B ist bereits verbunden"
    );
    assert_eq!(
        Plugboard::from_string("AB CA").unwrap_err(),
        "Buchstabe A ist bereits verbunden"
    );
    assert_eq!(
        Plugboard::from_string("AB cd DE").unwrap_err(),
        "Buchstabe D ist bereits verbunden"
    );
}

#[test]
fn from_marked_goes_by_the_marks() {
    let chars = vec!['A', 'B', '-', 'C', 'D'];
    let board = Plugboard::from_marked(&chars, &vec![false, false, true, false, false]).unwrap();
    assert_eq!(board.get_connections_string(), "AB CD");
    assert_eq!(
        Plugboard::from_marked(&chars, &vec![false; 5]).unwrap_err(),
        "Verbindung 'AB-CD' muss genau 2 Zeichen lang sein"
    );
}

#[test]
fn tokens_are_runs_between_marks() {
    let chars: Vec<char> = " AB  C DEF ".chars().collect();
    let marks: Vec<bool> = chars.iter().map(|c| *c == ' ').collect();
    assert_eq!(
        split_tokens(&chars, &marks),
        vec![vec!['A', 'B'], vec!['C'], vec!['D', 'E', 'F']]
    );
    assert_eq!(split_tokens(&Vec::new(), &Vec::new()), Vec::<Vec<char>>::new());
    assert_eq!(split_tokens(&vec![' '], &vec![true]), Vec::<Vec<char>>::new());
    assert_eq!(split_tokens(&vec!['X'], &vec![false]), vec![vec!['X']]);
}

#[test]
fn add_connection_adds_both_directions() {
    let mut board = Plugboard::new();
    assert_eq!(board.add_connection('Q', 'c'), Ok(()));
    assert_eq!(board.get_connection_count(), 1);
    assert!(board.is_connected('Q'));
    assert!(board.is_connected('C'));
    assert!(board.is_connected('q'));
    assert!(!board.is_connected('A'));
    assert!(!board.is_connected('1'));
    assert_eq!(board.process('Q'), 'C');
    assert_eq!(board.process('C'), 'Q');
}

#[test]
fn add_connection_errors_leave_the_board_alone() {
    let mut board = Plugboard::from_string("AB").unwrap();
    assert_eq!(
        board.add_connection('C', 'C').unwrap_err(),
        "Ein Buchstabe kann nicht mit sich selbst verbunden werden"
    );
    assert_eq!(
        board.add_connection('C', 'c').unwrap_err(),
        "Ein Buchstabe kann nicht mit sich selbst verbunden werden"
    );
    assert_eq!(board.add_connection('1', 'C').unwrap_err(), "Ungültiger Buchstabe: 1");
    assert_eq!(board.add_connection('C', '?').unwrap_err(), "Ungültiger Buchstabe: ?");
    assert_eq!(
        board.add_connection('A', 'C').unwrap_err(),
        "Buchstabe A ist bereits verbunden"
    );
    assert_eq!(
        board.add_connection('C', 'b').unwrap_err(),
        "Buchstabe b ist bereits verbunden"
    );
    assert_eq!(board.get_connection_count(), 1);
    assert_eq!(board.get_connections_string(), "AB");
}

#[test]
fn remove_connection_removes_both_directions() {
    let mut board = Plugboard::from_string("AB CD").unwrap();
    assert_eq!(board.remove_connection('B'), Ok(()));
    assert_eq!(board.get_connection_count(), 1);
    assert!(!board.is_connected('A'));
    assert!(!board.is_connected('B'));
    assert_eq!(board.process('A'), 'A');
    assert_eq!(board.get_connections_string(), "CD");
    assert_eq!(board.add_connection('A', 'Z'), Ok(()));
    assert_eq!(board.get_connections_string(), "AZ CD");
}

#[test]
fn remove_connection_errors() {
    let mut board = Plugboard::from_string("AB").unwrap();
    assert_eq!(
        board.remove_connection('C').unwrap_err(),
        "Keine Verbindung für Buchstabe C gefunden"
    );
    assert_eq!(board.remove_connection('!').unwrap_err(), "Ungültiger Buchstabe: !");
    assert_eq!(board.get_connection_count(), 1);
}

#[test]
fn connections_string_is_ordered_by_earlier_letter() {
    let board = Plugboard::from_string("ZA YB MC").unwrap();
    assert_eq!(board.get_connections_string(), "AZ BY CM");
    let again = Plugboard::from_string(&board.get_connections_string()).unwrap();
    assert_eq!(again.get_connections_string(), "AZ BY CM");
}

#[test]
fn clear_removes_every_pair() {
    let mut board = Plugboard::from_string("AB CD EF").unwrap();
    assert_eq!(board.get_connection_count(), 3);
    board.clear();
    assert_eq!(board.get_connection_count(), 0);
    assert_eq!(board.get_connections_string(), "");
    assert_eq!(board.process('A'), 'A');
}

#[test]
fn clone_keeps_the_pairs() {
    let board = Plugboard::from_string("AB CD").unwrap();
    let copy = board.clone();
    assert_eq!(copy.get_connections_string(), "AB CD");
    assert_eq!(copy.get_connection_count(), 2);
}

#[test]
fn thirteen_pairs_fit() {
    let board =
        Plugboard::from_string("AB CD EF GH IJ KL MN OP QR ST UV WX YZ").unwrap();
    assert_eq!(board.get_connection_count(), 13);
    let mut full = board.clone();
    assert_eq!(
        full.add_connection('A', 'C').unwrap_err(),
        "Buchstabe A ist bereits verbunden"
    );
}
