use parser::parser::{parse_line, parse_normal_events, parse_special_event, Event};

#[test]
fn test_normal_event_parsing() {
    let result: parser::parser::ParsedAction = parse_line("L07S+1A5BD02R+5B3C%Test parsera");
    assert_eq!(result.events.len(), 2);
    assert_eq!(result.comment, Some("Test parsera".to_string()));
}

#[test]
fn test_special_event_parsing() {
    let result = parse_line("!D00H+");
    assert_eq!(result.events.len(), 1);
    if let Event::Special(event) = &result.events[0] {
        assert_eq!(event.team, 'D');
        assert_eq!(event.player, "00");
        assert_eq!(event.skill, 'H');
        assert_eq!(event.eval, '+');
    }
}

#[test]
fn two_records_with_comment_no_warnings() {
    let result = parse_line("L07S+1A5BD02R+5B3C%Test");
    assert_eq!(result.events.len(), 2);
    assert_eq!(result.comment, Some("Test".to_string()));
    assert_eq!(result.warnings.len(), 0);
    match &result.events[0] {
        Event::Normal(e) => {
            assert_eq!(e.team, 'L');
            assert_eq!(e.player, "07");
            assert_eq!(e.skill, 'S');
            assert_eq!(e.eval, '+');
            assert_eq!(e.start_zone, '1');
            assert_eq!(e.start_subzone, 'A');
            assert_eq!(e.end_zone, '5');
            assert_eq!(e.end_subzone, 'B');
            assert_eq!(e.modifier, None);
        }
        _ => panic!("expected a normal event"),
    }
    match &result.events[1] {
        Event::Normal(e) => {
            assert_eq!(e.team, 'D');
            assert_eq!(e.player, "02");
            assert_eq!(e.skill, 'R');
            assert_eq!(e.eval, '+');
            assert_eq!(e.start_zone, '5');
            assert_eq!(e.start_subzone, 'B');
            assert_eq!(e.end_zone, '3');
            assert_eq!(e.end_subzone, 'C');
            assert_eq!(e.modifier, None);
        }
        _ => panic!("expected a normal event"),
    }
}

#[test]
fn special_event_without_modifier() {
    let result = parse_line("!D00H+");
    assert_eq!(result.events.len(), 1);
    assert_eq!(result.warnings.len(), 0);
    assert_eq!(result.comment, None);
    match &result.events[0] {
        Event::Special(e) => {
            assert_eq!(e.team, 'D');
            assert_eq!(e.player, "00");
            assert_eq!(e.skill, 'H');
            assert_eq!(e.eval, '+');
            assert_eq!(e.modifier, None);
        }
        _ => panic!("expected a special event"),
    }
}

#[test]
fn special_event_too_short() {
    let result = parse_line("!D0");
    assert_eq!(result.events.len(), 0);
    assert_eq!(result.warnings.len(), 1);
    assert_eq!(result.warnings[0].msg, "Not enough characters");
    assert_eq!(result.comment, None);
}

#[test]
fn stray_character_then_valid_record() {
    let result = parse_line("XL07S+1A5B");
    assert_eq!(result.events.len(), 1);
    assert_eq!(result.warnings.len(), 1);
    assert_eq!(result.warnings[0].msg, "Unexpected character: X");
    match &result.events[0] {
        Event::Normal(e) => {
            assert_eq!(e.team, 'L');
            assert_eq!(e.player, "07");
            assert_eq!(e.modifier, None);
        }
        _ => panic!("expected a normal event"),
    }
}

#[test]
fn trailing_modifier_runs_to_end() {
    let result = parse_line("L07S+1A5BXYZ");
    assert_eq!(result.events.len(), 1);
    assert_eq!(result.warnings.len(), 0);
    match &result.events[0] {
        Event::Normal(e) => {
            assert_eq!(e.modifier, Some("XYZ".to_string()));
        }
        _ => panic!("expected a normal event"),
    }
}

#[test]
fn comment_is_trimmed_text_after_first_percent() {
    let result = parse_line("L07S+1A5B%  first % second  ");
    assert_eq!(result.comment, Some("first % second".to_string()));
    assert_eq!(result.events.len(), 1);
    assert_eq!(result.warnings.len(), 0);
}

#[test]
fn pre_percent_segment_parsed_independently_of_comment() {
    let with_comment = parse_line("L07S+1A5B%!D00H+ZZZZ");
    let without_comment = parse_line("L07S+1A5B");
    assert_eq!(with_comment.events.len(), without_comment.events.len());
    assert_eq!(with_comment.warnings.len(), without_comment.warnings.len());
}

#[test]
fn no_percent_means_no_comment() {
    let result = parse_line("garbage without percent");
    assert_eq!(result.comment, None);
    let empty = parse_line("");
    assert_eq!(empty.comment, None);
    assert_eq!(empty.events.len(), 0);
    assert_eq!(empty.warnings.len(), 0);
}

#[test]
fn special_event_with_referee_team_and_modifier() {
    let result = parse_line("!R00F=extra");
    assert_eq!(result.events.len(), 1);
    assert_eq!(result.warnings.len(), 0);
    match &result.events[0] {
        Event::Special(e) => {
            assert_eq!(e.team, 'R');
            assert_eq!(e.skill, 'F');
            assert_eq!(e.eval, '=');
            assert_eq!(e.modifier, Some("extra".to_string()));
        }
        _ => panic!("expected a special event"),
    }
}

#[test]
fn special_event_invalid_fields_still_returned() {
    let result = parse_line("!X9ZQ*");
    assert_eq!(result.events.len(), 1);
    assert_eq!(result.warnings.len(), 4);
    assert_eq!(result.warnings[0].msg, "Invalid team value: X");
    assert_eq!(result.warnings[1].msg, "Invalid player's number: 9Z");
    assert_eq!(result.warnings[2].msg, "Invalid skill type: Q");
    assert_eq!(result.warnings[3].msg, "Invalid eval type: *");
}

#[test]
fn normal_record_invalid_fields_still_returned() {
    // Marker is valid but every later positional field is out of its alphabet.
    let result = parse_line("LA7X*0J0J");
    assert_eq!(result.events.len(), 1);
    assert_eq!(result.warnings.len(), 7);
    assert_eq!(result.warnings[0].msg, "Invalid player's number: A7");
    assert_eq!(result.warnings[1].msg, "Invalid skill type: X");
    assert_eq!(result.warnings[2].msg, "Invalid eval type: *");
    assert_eq!(result.warnings[3].msg, "Invalid zone: 0");
    assert_eq!(result.warnings[4].msg, "Invalid subzone: J");
    assert_eq!(result.warnings[5].msg, "Invalid zone: 0");
    assert_eq!(result.warnings[6].msg, "Invalid subzone: J");
}

#[test]
fn marker_with_too_few_characters_stops_scan() {
    let result = parse_line("L07S+1A5BD02R");
    assert_eq!(result.events.len(), 1);
    assert_eq!(result.warnings.len(), 1);
    assert_eq!(result.warnings[0].msg, "Not enough characters for full event");
}

#[test]
fn resynchronization_warns_once_per_skipped_character() {
    let result = parse_line("xyL07S+1A5B");
    assert_eq!(result.events.len(), 1);
    assert_eq!(result.warnings.len(), 2);
    assert_eq!(result.warnings[0].msg, "Unexpected character: x");
    assert_eq!(result.warnings[1].msg, "Unexpected character: y");
}

#[test]
fn rebuilt_segment_reparses_to_same_fields() {
    let (events, _) = parse_normal_events("zL07S+1A5BmodD23P#3C7I");
    assert!(events.len() >= 2);
    let mut rebuilt = String::new();
    for e in &events {
        rebuilt.push(e.team);
        rebuilt.push_str(&e.player);
        rebuilt.push(e.skill);
        rebuilt.push(e.eval);
        rebuilt.push(e.start_zone);
        rebuilt.push(e.start_subzone);
        rebuilt.push(e.end_zone);
        rebuilt.push(e.end_subzone);
    }
    let (again, warnings) = parse_normal_events(&rebuilt);
    assert_eq!(again.len(), events.len());
    for (a, b) in again.iter().zip(events.iter()) {
        assert_eq!(a.team, b.team);
        assert_eq!(a.player, b.player);
        assert_eq!(a.skill, b.skill);
        assert_eq!(a.eval, b.eval);
        assert_eq!(a.start_zone, b.start_zone);
        assert_eq!(a.start_subzone, b.start_subzone);
        assert_eq!(a.end_zone, b.end_zone);
        assert_eq!(a.end_subzone, b.end_subzone);
        assert_eq!(a.modifier, None);
    }
    assert_eq!(warnings.len(), 0);
}

#[test]
fn special_body_parser_direct() {
    match parse_special_event("D15T-") {
        Ok((e, warnings)) => {
            assert_eq!(e.team, 'D');
            assert_eq!(e.player, "15");
            assert_eq!(e.skill, 'T');
            assert_eq!(e.eval, '-');
            assert_eq!(e.modifier, None);
            assert_eq!(warnings.len(), 0);
        }
        Err(_) => panic!("expected a decoded special event"),
    }
    match parse_special_event("L15") {
        Ok(_) => panic!("expected a hard stop"),
        Err(warnings) => {
            assert_eq!(warnings.len(), 1);
            assert_eq!(warnings[0].msg, "Not enough characters");
        }
    }
}

#[test]
fn single_valid_record_gives_one_event_no_warnings() {
    let result = parse_line("D02R+5B3C");
    assert_eq!(result.events.len(), 1);
    assert_eq!(result.warnings.len(), 0);
    match &result.events[0] {
        Event::Normal(e) => {
            assert_eq!(e.team, 'D');
            assert_eq!(e.player, "02");
            assert_eq!(e.skill, 'R');
            assert_eq!(e.eval, '+');
            assert_eq!(e.start_zone, '5');
            assert_eq!(e.start_subzone, 'B');
            assert_eq!(e.end_zone, '3');
            assert_eq!(e.end_subzone, 'C');
            assert_eq!(e.modifier, None);
        }
        _ => panic!("expected a normal event"),
    }
}

#[test]
fn data_segment_is_trimmed() {
    let result = parse_line("  L07S+1A5B  ");
    assert_eq!(result.events.len(), 1);
    // The surrounding whitespace is trimmed away, not skipped with warnings.
    assert_eq!(result.warnings.len(), 0);
}
