use enigma::machine::{ConfigError, EnigmaMachine};
use enigma::plugboard::Plugboard;

fn machine(rotors: [(usize, char, char); 3], plugs: &str) -> EnigmaMachine {
    EnigmaMachine::new(rotors, 'B', plugs).unwrap()
}

const BASIC: [(usize, char, char); 3] = [(0, 'A', 'A'), (1, 'A', 'A'), (2, 'A', 'A')];

#[test]
fn test_symmetry() {
    let mut enigma_enc = EnigmaMachine::new([(0, 'A', 'A'), (1, 'A', 'A'), (2, 'A', 'A')], 'B', "").unwrap();
    let mut enigma_dec = EnigmaMachine::new([(0, 'A', 'A'), (1, 'A', 'A'), (2, 'A', 'A')], 'B', "").unwrap();

    let input = "HELLOWORLD";
    let encrypted = enigma_enc.process_text(input);
    let decrypted = enigma_dec.process_text(&encrypted);

    assert_eq!(input, decrypted);
    assert_ne!(input, encrypted);
}

#[test]
fn hello_world_scenario() {
    let mut enc = machine(BASIC, "");
    let encrypted = enc.process_text("HELLOWORLD");
    assert_eq!(encrypted.chars().count(), 10);
    assert!(encrypted.chars().all(|c| c.is_ascii_uppercase()));
    assert_ne!(encrypted, "HELLOWORLD");
    let mut dec = machine(BASIC, "");
    assert_eq!(dec.process_text(&encrypted), "HELLOWORLD");
}

#[test]
fn historical_vector_plain_rings() {
    let mut m = machine(BASIC, "");
    assert_eq!(m.process_text("AAAAA"), "BDZGO");
}

#[test]
fn historical_vector_ring_b() {
    let mut m = machine([(0, 'B', 'A'), (1, 'B', 'A'), (2, 'B', 'A')], "");
    assert_eq!(m.process_text("AAAAA"), "EWTYX");
}

#[test]
fn reciprocity_with_plugboard_and_symbols() {
    let settings = [(2, 'C', 'X'), (0, 'M', 'Q'), (1, 'Z', 'E')];
    let text = "Attack at dawn, 06:00! Bring the MAPS.";
    let mut enc = machine(settings, "AB CD QZ");
    let out = enc.process_text(text);
    let mut dec = machine(settings, "AB CD QZ");
    assert_eq!(dec.process_text(&out), text);
    assert_eq!(enc.rotor_positions(), dec.rotor_positions());
}

#[test]
fn no_letter_maps_to_itself() {
    let text = "AAAAAAAAAAAAAAAAAAAAAAAAAAAAAAAAAAAAAAAAAAAAAAAAAAAAAAAAAAAAAAAAAAAAAAAAZZZZZZZZZZZZZZZZZZ";
    let mut m = machine([(1, 'F', 'K'), (2, 'A', 'U'), (0, 'Q', 'D')], "AZ");
    let out = m.process_text(text);
    for (a, b) in text.chars().zip(out.chars()) {
        assert_ne!(a, b);
    }
}

#[test]
fn case_is_kept_and_ignored() {
    let mut m1 = machine(BASIC, "");
    let mut m2 = machine(BASIC, "");
    let lower = m1.process_text("Hello");
    let upper = m2.process_text("HELLO");
    assert_eq!(lower.to_ascii_uppercase(), upper);
    let cases: Vec<bool> = lower.chars().map(|c| c.is_ascii_lowercase()).collect();
    assert_eq!(cases, vec![false, true, true, true, true]);
}

#[test]
fn other_characters_pass_through() {
    let mut m1 = machine(BASIC, "");
    let mut m2 = machine(BASIC, "");
    let out = m1.process_text("A!A");
    let plain = m2.process_text("AA");
    assert_eq!(out.chars().nth(1), Some('!'));
    assert_eq!(m1.rotor_positions(), m2.rotor_positions());
    assert_eq!(m1.rotor_positions(), ['A', 'A', 'C']);
    let chars: Vec<char> = out.chars().collect();
    assert_eq!(format!("{}{}", chars[0], chars[2]), plain);
}

#[test]
fn non_letter_char_moves_nothing() {
    let mut m = machine(BASIC, "");
    assert_eq!(m.process_char('7'), '7');
    assert_eq!(m.process_char(' '), ' ');
    assert_eq!(m.process_char('é'), 'é');
    assert_eq!(m.rotor_positions(), ['A', 'A', 'A']);
}

#[test]
fn double_step() {
    let mut m = machine([(0, 'A', 'A'), (1, 'A', 'D'), (2, 'A', 'V')], "");
    m.process_char('A');
    assert_eq!(m.rotor_positions(), ['A', 'E', 'W']);
    m.process_char('A');
    assert_eq!(m.rotor_positions(), ['B', 'F', 'X']);
    m.process_char('A');
    assert_eq!(m.rotor_positions(), ['B', 'F', 'Y']);
}

#[test]
fn middle_rotor_starting_at_notch() {
    let mut m = machine([(0, 'A', 'A'), (1, 'A', 'E'), (2, 'A', 'A')], "");
    m.process_char('A');
    assert_eq!(m.rotor_positions(), ['B', 'F', 'B']);
    m.process_char('A');
    assert_eq!(m.rotor_positions(), ['B', 'F', 'C']);
}

#[test]
fn right_rotor_carries_at_notch() {
    let mut m = machine([(0, 'A', 'A'), (1, 'A', 'A'), (2, 'A', 'V')], "");
    m.process_char('x');
    assert_eq!(m.rotor_positions(), ['A', 'B', 'W']);
    let mut m = machine(BASIC, "");
    m.process_text("AAAAAAAAAAAAAAAAAAAAAAAAAA");
    assert_eq!(m.rotor_positions(), ['A', 'B', 'A']);
}

#[test]
fn plugboard_swaps_a_and_b() {
    let p = Plugboard::parse("AB");
    let swapped: String = "ABBA".chars().map(|c| p.map_char(c)).collect();
    assert_eq!(swapped, "BAAB");
    assert_eq!(p.map_char('C'), 'C');
    assert_eq!(p.map_char('a'), 'b');
    assert_eq!(p.map_char('?'), '?');
}

#[test]
fn plugboard_ignores_malformed_tokens() {
    let p = Plugboard::parse("ABC D  EF GE hi J1 KK");
    assert_eq!(p.map_char('A'), 'A');
    assert_eq!(p.map_char('D'), 'D');
    assert_eq!(p.map_char('E'), 'F');
    assert_eq!(p.map_char('F'), 'E');
    assert_eq!(p.map_char('G'), 'G');
    assert_eq!(p.map_char('H'), 'H');
    assert_eq!(p.map_char('J'), 'J');
    assert_eq!(p.map_char('K'), 'K');
}

#[test]
fn plugboard_splits_on_any_white_space() {
    let p = Plugboard::parse("AB\tCD\nEF\u{3000}GH");
    assert_eq!(p.map_char('C'), 'D');
    assert_eq!(p.map_char('F'), 'E');
    assert_eq!(p.map_char('G'), 'H');
}

#[test]
fn plugboard_changes_the_cipher() {
    let mut plain = machine(BASIC, "");
    let mut plugged = machine(BASIC, "AB");
    assert_eq!(plain.process_text("AAAAA"), "BDZGO");
    assert_ne!(plugged.process_text("AAAAA"), "BDZGO");
}

#[test]
fn unknown_selector_gives_reflector_b() {
    let mut b = machine(BASIC, "");
    let mut other = EnigmaMachine::new(BASIC, 'Q', "").unwrap();
    assert_eq!(b.process_text("SOMETEXT"), other.process_text("SOMETEXT"));
}

#[test]
fn unknown_rotor_is_refused() {
    let r = EnigmaMachine::new([(0, 'A', 'A'), (3, 'A', 'A'), (7, 'A', 'A')], 'B', "");
    assert_eq!(r.err(), Some(ConfigError::UnknownRotor(3)));
}

#[test]
fn bad_letters_are_refused() {
    let r = EnigmaMachine::new([(0, 'a', 'A'), (1, 'A', 'A'), (2, 'A', 'A')], 'B', "");
    assert_eq!(r.err(), Some(ConfigError::BadLetter('a')));
    let r = EnigmaMachine::new([(0, 'A', 'A'), (1, 'A', 'A'), (2, 'A', '1')], 'B', "");
    assert_eq!(r.err(), Some(ConfigError::BadLetter('1')));
}

#[test]
fn start_letters_set_positions() {
    let m = machine([(0, 'C', 'Q'), (1, 'B', 'E'), (2, 'Z', 'V')], "");
    assert_eq!(m.rotor_positions(), ['Q', 'E', 'V']);
}
