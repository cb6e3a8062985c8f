use parser::translation::init_translations;
use parser::validation::{
    validate_eval, validate_player, validate_skill, validate_subzone, validate_team, validate_zone,
};

#[test]
fn team_rules_differ_between_shapes() {
    assert_eq!(validate_team('L', false), None);
    assert_eq!(validate_team('D', false), None);
    assert_eq!(validate_team('O', false), Some("Invalid team value: O".to_string()));
    assert_eq!(validate_team('R', false), Some("Invalid team value: R".to_string()));
    assert_eq!(validate_team('R', true), None);
    assert_eq!(validate_team('O', true), Some("Invalid team value: O".to_string()));
}

#[test]
fn player_must_be_two_digits() {
    assert_eq!(validate_player("07"), None);
    assert_eq!(validate_player("7"), Some("Invalid player's number: 7".to_string()));
    assert_eq!(validate_player("123"), Some("Invalid player's number: 123".to_string()));
    assert_eq!(validate_player("A7"), Some("Invalid player's number: A7".to_string()));
    assert_eq!(validate_player(""), Some("Invalid player's number: ".to_string()));
}

#[test]
fn skill_and_eval_rule_sets() {
    assert_eq!(validate_skill('S', false), None);
    assert_eq!(validate_skill('F', false), Some("Invalid skill type: F".to_string()));
    assert_eq!(validate_skill('F', true), None);
    assert_eq!(validate_skill('S', true), Some("Invalid skill type: S".to_string()));
    assert_eq!(validate_eval('#', false), None);
    assert_eq!(validate_eval('=', false), Some("Invalid eval type: =".to_string()));
    assert_eq!(validate_eval('=', true), None);
    assert_eq!(validate_eval('#', true), Some("Invalid eval type: #".to_string()));
}

#[test]
fn zone_and_subzone_alphabets() {
    assert_eq!(validate_zone('1'), None);
    assert_eq!(validate_zone('9'), None);
    assert_eq!(validate_zone('0'), Some("Invalid zone: 0".to_string()));
    assert_eq!(validate_subzone('A'), None);
    assert_eq!(validate_subzone('I'), None);
    assert_eq!(validate_subzone('J'), Some("Invalid subzone: J".to_string()));
}

#[test]
fn lookup_known_keys() {
    let table = init_translations();
    assert_eq!(table.lookup("pl", "Invalid zone"), "Niepoprawna strefa");
    assert_eq!(table.lookup("pl", "Not enough characters"), "Zbyt mało znaków");
    assert_eq!(table.lookup("en", "Invalid zone"), "Invalid zone");
}

#[test]
fn lookup_falls_back_to_the_key() {
    let table = init_translations();
    assert_eq!(table.lookup("pl", "No such key"), "No such key");
    assert_eq!(table.lookup("de", "Invalid zone"), "Invalid zone");
}
