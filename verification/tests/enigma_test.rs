use enigma_rs::machine::factory;
use enigma_rs::utils::clean_text;

#[test]
fn test_encrypt_decrypt_symmetry() {
    let mut machine = factory::create_standard_machine(
        ['A', 'A', 'A'],
        ['A', 'A', 'A'],
        "AB CD EF",
    )
    .expect("Machine should be creatable");

    let plain_text = "HELLO WORLD";
    let clean_plain = clean_text(&plain_text);

    let encrypted = machine.encrypt(&clean_plain);

    machine.set_rotor_positions(['A', 'A', 'A']);

    let decrypted = machine.decrypt(&encrypted);

    assert_eq!(clean_text(&decrypted), clean_plain);
}

#[test]
fn test_different_positions() {
    let mut machine = factory::create_standard_machine(
        ['B', 'C', 'D'],
        ['A', 'A', 'A'],
        "",
    )
    .expect("Machine should be creatable");

    let text = "TEST";
    let encrypted = machine.encrypt(text);

    machine.set_rotor_positions(['B', 'C', 'D']);

    let decrypted = machine.decrypt(&encrypted);
    assert_eq!(clean_text(&decrypted), clean_text(text));
}

#[test]
fn test_different_ring_settings() {
    let mut machine = factory::create_standard_machine(
        ['A', 'A', 'A'],
        ['B', 'C', 'D'],
        "",
    )
    .expect("Machine should be creatable");

    let text = "ENIGMA";
    let encrypted = machine.encrypt(text);

    machine.set_rotor_positions(['A', 'A', 'A']);

    let decrypted = machine.decrypt(&encrypted);
    assert_eq!(clean_text(&decrypted), clean_text(text));
}

#[test]
fn test_different_rotor_types() {
    let mut machine = factory::create_custom_machine(
        ["II", "IV", "V"],
        ['A', 'A', 'A'],
        ['A', 'A', 'A'],
        "B",
        "",
    )
    .expect("Machine should be creatable");

    let text = "ROTORS";
    let encrypted = machine.encrypt(text);

    machine.set_rotor_positions(['A', 'A', 'A']);

    let decrypted = machine.decrypt(&encrypted);
    assert_eq!(clean_text(&decrypted), clean_text(text));
}

#[test]
fn test_different_reflectors() {
    let mut machine_a = factory::create_custom_machine(
        ["I", "II", "III"],
        ['A', 'A', 'A'],
        ['A', 'A', 'A'],
        "A",
        "",
    )
    .expect("Machine should be creatable");

    let text = "REFLECTOR";
    let encrypted_a = machine_a.encrypt(text);

    let mut machine_b = factory::create_custom_machine(
        ["I", "II", "III"],
        ['A', 'A', 'A'],
        ['A', 'A', 'A'],
        "B",
        "",
    )
    .expect("Machine should be creatable");

    let encrypted_b = machine_b.encrypt(text);

    assert_ne!(encrypted_a, encrypted_b);

    machine_a.set_rotor_positions(['A', 'A', 'A']);
    machine_b.set_rotor_positions(['A', 'A', 'A']);

    let decrypted_a = machine_a.decrypt(&encrypted_a);
    let decrypted_b = machine_b.decrypt(&encrypted_b);

    assert_eq!(clean_text(&decrypted_a), clean_text(text));
    assert_eq!(clean_text(&decrypted_b), clean_text(text));
}

#[test]
fn test_plugboard() {
    let mut machine = factory::create_standard_machine(
        ['A', 'A', 'A'],
        ['A', 'A', 'A'],
        "AB CD EF",
    )
    .expect("Machine should be creatable");

    let text = "PLUGBOARD";
    let encrypted = machine.encrypt(text);

    machine.set_rotor_positions(['A', 'A', 'A']);

    let decrypted = machine.decrypt(&encrypted);
    assert_eq!(clean_text(&decrypted), clean_text(text));
}

#[test]
fn test_longer_text() {
    let mut machine =
        factory::create_standard_machine(['A', 'A', 'A'], ['A', 'A', 'A'], "AB CD EF GH IJ")
            .expect("Machine should be creatable");

    let long_text = "THE QUICK BROWN FOX JUMPS OVER THE LAZY DOG";
    let encrypted = machine.encrypt(long_text);

    machine.set_rotor_positions(['A', 'A', 'A']);

    let decrypted = machine.decrypt(&encrypted);
    assert_eq!(clean_text(&decrypted), clean_text(long_text));
}

#[test]
fn test_rotor_stepping() {
    let mut machine = factory::create_standard_machine(['A', 'A', 'A'], ['A', 'A', 'A'], "")
        .expect("Machine should be creatable");

    let char1 = machine.encrypt_char('A');
    let char2 = machine.encrypt_char('A');

    assert_ne!(char1, char2);
}

#[test]
fn test_configuration_info() {
    let machine = factory::create_standard_machine(['B', 'C', 'D'], ['E', 'F', 'G'], "AB CD")
        .expect("Machine should be creatable");

    let config = machine.get_configuration_info();

    assert!(config.contains("I II III"));
    assert!(config.contains("E F G"));
    assert!(config.contains("B C D"));
    assert!(config.contains("B"));
    assert!(config.contains("AB CD"));
}
