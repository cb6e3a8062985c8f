//! Field validators for the scouting notation: pure predicates over single
//! characters (or the two-character player number), each returning `None` for
//! a valid value and `Some(message)` describing the violated rule otherwise.

use vstd::prelude::*;

use crate::strutil::push_char;

verus! {

/// A character counts as a digit for the player-number rule.
pub open spec fn is_digit_char(c: char) -> bool {
    '0' <= c && c <= '9'
}

/// Valid team markers; special events additionally allow the referee code.
pub open spec fn valid_team_char(c: char, special: bool) -> bool {
    c == 'L' || c == 'D' || (special && c == 'R')
}

/// A player number is exactly two digit characters.
pub open spec fn valid_player_seq(p: Seq<char>) -> bool {
    p.len() == 2 && is_digit_char(p[0]) && is_digit_char(p[1])
}

/// Valid skill codes, by rule set.
pub open spec fn valid_skill_char(c: char, special: bool) -> bool {
    if special {
        c == 'F' || c == 'T' || c == 'H' || c == 'C'
    } else {
        c == 'S' || c == 'R' || c == 'P' || c == 'A' || c == 'B' || c == 'D'
    }
}

/// Valid evaluation codes, by rule set.
pub open spec fn valid_eval_char(c: char, special: bool) -> bool {
    if special {
        c == '=' || c == '+' || c == '-'
    } else {
        c == '+' || c == '-' || c == '#'
    }
}

/// Valid court zones.
pub open spec fn valid_zone_char(c: char) -> bool {
    '1' <= c && c <= '9'
}

/// Valid court subzones.
pub open spec fn valid_subzone_char(c: char) -> bool {
    'A' <= c && c <= 'I'
}

/// The message reported for an invalid team character.
pub open spec fn msg_team(team: char) -> Seq<char> {
    "Invalid team value: "@ + seq![team]
}

/// The message reported for an invalid player number.
pub open spec fn msg_player(p: Seq<char>) -> Seq<char> {
    "Invalid player's number: "@ + p
}

/// The message reported for an invalid skill code.
pub open spec fn msg_skill(c: char) -> Seq<char> {
    "Invalid skill type: "@ + seq![c]
}

/// The message reported for an invalid evaluation code.
pub open spec fn msg_eval(c: char) -> Seq<char> {
    "Invalid eval type: "@ + seq![c]
}

/// The message reported for an invalid zone.
pub open spec fn msg_zone(c: char) -> Seq<char> {
    "Invalid zone: "@ + seq![c]
}

/// The message reported for an invalid subzone.
pub open spec fn msg_subzone(c: char) -> Seq<char> {
    "Invalid subzone: "@ + seq![c]
}

/// Checks a team marker against the rule set; `None` iff the value is valid.
pub fn validate_team(team: char, special: bool) -> (r: Option<String>)
    ensures
        r is None <==> valid_team_char(team, special),
        r is Some ==> r->Some_0@ == msg_team(team),
{
    if team == 'L' || team == 'D' || (special && team == 'R') {
        None
    } else {
        let mut m: String = String::from_str("Invalid team value: ");
        push_char(&mut m, team);
        Some(m)
    }
}

/// Checks a player number (two digit characters); `None` iff valid.
pub fn validate_player(player: &str) -> (r: Option<String>)
    ensures
        r is None <==> valid_player_seq(player@),
        r is Some ==> r->Some_0@ == msg_player(player@),
{
    let n: usize = player.unicode_len();
    let ok: bool = if n != 2 {
        false
    } else {
        let c0: char = player.get_char(0);
        let c1: char = player.get_char(1);
        ('0' <= c0 && c0 <= '9') && ('0' <= c1 && c1 <= '9')
    };
    if ok {
        None
    } else {
        let m: String = String::from_str("Invalid player's number: ").concat(player);
        Some(m)
    }
}

/// Checks a skill code against the rule set; `None` iff valid.
pub fn validate_skill(skill: char, special: bool) -> (r: Option<String>)
    ensures
        r is None <==> valid_skill_char(skill, special),
        r is Some ==> r->Some_0@ == msg_skill(skill),
{
    let ok: bool = if special {
        skill == 'F' || skill == 'T' || skill == 'H' || skill == 'C'
    } else {
        skill == 'S' || skill == 'R' || skill == 'P' || skill == 'A' || skill == 'B' || skill == 'D'
    };
    if ok {
        None
    } else {
        let mut m: String = String::from_str("Invalid skill type: ");
        push_char(&mut m, skill);
        Some(m)
    }
}

/// Checks an evaluation code against the rule set; `None` iff valid.
pub fn validate_eval(eval: char, special: bool) -> (r: Option<String>)
    ensures
        r is None <==> valid_eval_char(eval, special),
        r is Some ==> r->Some_0@ == msg_eval(eval),
{
    let ok: bool = if special {
        eval == '=' || eval == '+' || eval == '-'
    } else {
        eval == '+' || eval == '-' || eval == '#'
    };
    if ok {
        None
    } else {
        let mut m: String = String::from_str("Invalid eval type: ");
        push_char(&mut m, eval);
        Some(m)
    }
}

/// Checks a zone character; `None` iff valid.
pub fn validate_zone(zone: char) -> (r: Option<String>)
    ensures
        r is None <==> valid_zone_char(zone),
        r is Some ==> r->Some_0@ == msg_zone(zone),
{
    if '1' <= zone && zone <= '9' {
        None
    } else {
        let mut m: String = String::from_str("Invalid zone: ");
        push_char(&mut m, zone);
        Some(m)
    }
}

/// Checks a subzone character; `None` iff valid.
pub fn validate_subzone(subzone: char) -> (r: Option<String>)
    ensures
        r is None <==> valid_subzone_char(subzone),
        r is Some ==> r->Some_0@ == msg_subzone(subzone),
{
    if 'A' <= subzone && subzone <= 'I' {
        None
    } else {
        let mut m: String = String::from_str("Invalid subzone: ");
        push_char(&mut m, subzone);
        Some(m)
    }
}

} // verus!
