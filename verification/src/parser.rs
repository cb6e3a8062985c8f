//! The line parser: splits a raw line into a data segment and an optional
//! comment, then decodes the data segment into events and warnings. Every
//! function's contract states that its result equals the model in
//! `crate::model`.

use vstd::prelude::*;
use vstd::seq_lib::lemma_concat_associative;
use vstd::string::StrSliceExecFns;

use crate::model::{
    as_normal_events, comment_split, is_marker, lemma_comment_split_at, modifier_run,
    msg_short_record, msg_short_special, msg_unexpected, parse_line_model, parse_special_model,
    record_event, record_warnings, scan_normal, special_event_of, special_warnings, trimmed,
    EventModel, NormalEventModel, ParsedActionModel, SpecialEventModel,
};
use crate::strutil::{is_marker_char, marker_at, push_char, trim_chars, find_percent};
use crate::validation::{
    validate_eval, validate_player, validate_skill, validate_subzone, validate_team, validate_zone,
    valid_eval_char, valid_player_seq, valid_skill_char, valid_subzone_char, valid_team_char,
    valid_zone_char, msg_eval, msg_player, msg_skill, msg_subzone, msg_team, msg_zone,
};

verus! {

/// One advisory message about a violated grammar rule.
#[derive(Debug)]
pub struct ParserWarning {
    pub msg: String,
}

impl View for ParserWarning {
    type V = Seq<char>;

    open spec fn view(&self) -> Seq<char> {
        self.msg@
    }
}

/// A decoded normal event: nine fixed-position characters plus an optional
/// modifier suffix.
#[derive(Debug)]
pub struct NormalEvent {
    pub team: char,
    pub player: String,
    pub skill: char,
    pub eval: char,
    pub start_zone: char,
    pub start_subzone: char,
    pub end_zone: char,
    pub end_subzone: char,
    pub modifier: Option<String>,
}

impl View for NormalEvent {
    type V = NormalEventModel;

    open spec fn view(&self) -> NormalEventModel {
        NormalEventModel {
            team: self.team,
            player: self.player@,
            skill: self.skill,
            eval: self.eval,
            start_zone: self.start_zone,
            start_subzone: self.start_subzone,
            end_zone: self.end_zone,
            end_subzone: self.end_subzone,
            modifier: match self.modifier {
                Option::None => Option::None,
                Option::Some(m) => Option::Some(m@),
            },
        }
    }
}

/// A decoded special event: four leading fields and an optional unbounded
/// modifier.
#[derive(Debug)]
pub struct SpecialEvent {
    pub team: char,
    pub player: String,
    pub skill: char,
    pub eval: char,
    pub modifier: Option<String>,
}

impl View for SpecialEvent {
    type V = SpecialEventModel;

    open spec fn view(&self) -> SpecialEventModel {
        SpecialEventModel {
            team: self.team,
            player: self.player@,
            skill: self.skill,
            eval: self.eval,
            modifier: match self.modifier {
                Option::None => Option::None,
                Option::Some(m) => Option::Some(m@),
            },
        }
    }
}

/// Either event shape.
#[derive(Debug)]
pub enum Event {
    Normal(NormalEvent),
    Special(SpecialEvent),
}

impl View for Event {
    type V = EventModel;

    open spec fn view(&self) -> EventModel {
        match self {
            Event::Normal(e) => EventModel::Normal(e@),
            Event::Special(e) => EventModel::Special(e@),
        }
    }
}

/// The result of parsing one line: events in textual order, the optional
/// comment, and the warnings in discovery order.
#[derive(Debug)]
pub struct ParsedAction {
    pub events: Vec<Event>,
    pub comment: Option<String>,
    pub warnings: Vec<ParserWarning>,
}

impl View for ParsedAction {
    type V = ParsedActionModel;

    open spec fn view(&self) -> ParsedActionModel {
        ParsedActionModel {
            events: events_view(self.events@),
            comment: match self.comment {
                Option::None => Option::None,
                Option::Some(c) => Option::Some(c@),
            },
            warnings: warnings_view(self.warnings@),
        }
    }
}

/// The messages of a sequence of warnings.
pub open spec fn warnings_view(ws: Seq<ParserWarning>) -> Seq<Seq<char>> {
    ws.map_values(|w: ParserWarning| w@)
}

/// The models of a sequence of normal events.
pub open spec fn normal_events_view(es: Seq<NormalEvent>) -> Seq<NormalEventModel> {
    es.map_values(|e: NormalEvent| e@)
}

/// The models of a sequence of events.
pub open spec fn events_view(es: Seq<Event>) -> Seq<EventModel> {
    es.map_values(|e: Event| e@)
}

/// Appends a validator result, if any, to the warning list.
fn push_opt_warning(ws: &mut Vec<ParserWarning>, m: Option<String>, g: Ghost<Seq<Seq<char>>>)
    requires
        match m {
            Some(t) => g@ == seq![t@],
            None => g@ == Seq::<Seq<char>>::empty(),
        },
    ensures
        warnings_view(final(ws)@) == warnings_view(old(ws)@) + g@,
{
    let ghost pre: Seq<ParserWarning> = ws@;
    match m {
        Some(t) => {
            ws.push(ParserWarning { msg: t });
            proof {
                assert(warnings_view(ws@) =~= warnings_view(pre) + g@);
            }
        }
        None => {
            proof {
                assert(warnings_view(ws@) =~= warnings_view(pre) + g@);
            }
        }
    }
}

/// Appends the field warnings of one nine-character record, in validation
/// order.
#[verifier::rlimit(60)]
fn push_record_warnings(
    ws: &mut Vec<ParserWarning>,
    team: char,
    player: &str,
    skill: char,
    eval: char,
    sz: char,
    ssz: char,
    ez: char,
    esz: char,
    rec: Ghost<Seq<char>>,
)
    requires
        rec@.len() == 9,
        team == rec@[0],
        player@ == rec@.subrange(1, 3),
        skill == rec@[3],
        eval == rec@[4],
        sz == rec@[5],
        ssz == rec@[6],
        ez == rec@[7],
        esz == rec@[8],
    ensures
        warnings_view(final(ws)@) == warnings_view(old(ws)@) + record_warnings(rec@),
{
    let ghost base: Seq<Seq<char>> = warnings_view(ws@);
    let ghost r: Seq<char> = rec@;
    let ghost g0: Seq<Seq<char>> = if valid_team_char(r[0], false) { seq![] } else { seq![msg_team(r[0])] };
    let ghost g1: Seq<Seq<char>> = if valid_player_seq(r.subrange(1, 3)) { seq![] } else { seq![msg_player(r.subrange(1, 3))] };
    let ghost g2: Seq<Seq<char>> = if valid_skill_char(r[3], false) { seq![] } else { seq![msg_skill(r[3])] };
    let ghost g3: Seq<Seq<char>> = if valid_eval_char(r[4], false) { seq![] } else { seq![msg_eval(r[4])] };
    let ghost g4: Seq<Seq<char>> = if valid_zone_char(r[5]) { seq![] } else { seq![msg_zone(r[5])] };
    let ghost g5: Seq<Seq<char>> = if valid_subzone_char(r[6]) { seq![] } else { seq![msg_subzone(r[6])] };
    let ghost g6: Seq<Seq<char>> = if valid_zone_char(r[7]) { seq![] } else { seq![msg_zone(r[7])] };
    let ghost g7: Seq<Seq<char>> = if valid_subzone_char(r[8]) { seq![] } else { seq![msg_subzone(r[8])] };
    push_opt_warning(ws, validate_team(team, false), Ghost(g0));
    push_opt_warning(ws, validate_player(player), Ghost(g1));
    push_opt_warning(ws, validate_skill(skill, false), Ghost(g2));
    push_opt_warning(ws, validate_eval(eval, false), Ghost(g3));
    push_opt_warning(ws, validate_zone(sz), Ghost(g4));
    push_opt_warning(ws, validate_subzone(ssz), Ghost(g5));
    push_opt_warning(ws, validate_zone(ez), Ghost(g6));
    push_opt_warning(ws, validate_subzone(esz), Ghost(g7));
    proof {
        lemma_concat_associative(base, g0, g1);
        lemma_concat_associative(base, g0 + g1, g2);
        lemma_concat_associative(base, g0 + g1 + g2, g3);
        lemma_concat_associative(base, g0 + g1 + g2 + g3, g4);
        lemma_concat_associative(base, g0 + g1 + g2 + g3 + g4, g5);
        lemma_concat_associative(base, g0 + g1 + g2 + g3 + g4 + g5, g6);
        lemma_concat_associative(base, g0 + g1 + g2 + g3 + g4 + g5 + g6, g7);
        assert(g0 + g1 + g2 + g3 + g4 + g5 + g6 + g7 == record_warnings(r));
    }
}

/// Parses a special event body: character 0 is the team, 1-2 the player
/// number, 3 the skill, 4 the evaluation, and anything beyond is the
/// modifier. Fewer than five characters is the one hard failure.
pub fn parse_special_event(input: &str) -> (r: Result<
    (SpecialEvent, Vec<ParserWarning>),
    Vec<ParserWarning>,
>)
    ensures
        match r {
            Ok(pair) => parse_special_model(input@) matches Ok(m) && pair.0@ == m.0
                && warnings_view(pair.1@) == m.1,
            Err(ws) => parse_special_model(input@) matches Err(m) && warnings_view(ws@) == m,
        },
{
    let n: usize = input.unicode_len();
    if n < 5 {
        let mut ws: Vec<ParserWarning> = Vec::new();
        ws.push(ParserWarning { msg: String::from_str("Not enough characters") });
        proof {
            assert(warnings_view(ws@) =~= seq![msg_short_special()]);
        }
        return Err(ws);
    }
    let team: char = input.get_char(0);
    let player: &str = input.substring_char(1, 3);
    let skill: char = input.get_char(3);
    let eval: char = input.get_char(4);
    let modifier: Option<String> = if n > 5 {
        Some(input.substring_char(5, n).to_owned())
    } else {
        None
    };
    let ghost s: Seq<char> = input@;
    let ghost g0: Seq<Seq<char>> = if valid_team_char(s[0], true) { seq![] } else { seq![msg_team(s[0])] };
    let ghost g1: Seq<Seq<char>> = if valid_player_seq(s.subrange(1, 3)) { seq![] } else { seq![msg_player(s.subrange(1, 3))] };
    let ghost g2: Seq<Seq<char>> = if valid_skill_char(s[3], true) { seq![] } else { seq![msg_skill(s[3])] };
    let ghost g3: Seq<Seq<char>> = if valid_eval_char(s[4], true) { seq![] } else { seq![msg_eval(s[4])] };
    let mut ws: Vec<ParserWarning> = Vec::new();
    proof {
        assert(warnings_view(ws@) =~= Seq::<Seq<char>>::empty());
    }
    let ghost base: Seq<Seq<char>> = warnings_view(ws@);
    push_opt_warning(&mut ws, validate_team(team, true), Ghost(g0));
    push_opt_warning(&mut ws, validate_player(player), Ghost(g1));
    push_opt_warning(&mut ws, validate_skill(skill, true), Ghost(g2));
    push_opt_warning(&mut ws, validate_eval(eval, true), Ghost(g3));
    proof {
        assert(base + g0 =~= g0);
        assert(g0 + g1 + g2 + g3 == special_warnings(s));
    }
    let ev: SpecialEvent = SpecialEvent { team, player: player.to_owned(), skill, eval, modifier };
    proof {
        assert(ev@.player =~= special_event_of(s).player);
        if n > 5 {
            assert(s.subrange(5, n as int) =~= s.subrange(5, s.len() as int));
        }
        assert(ev@ == special_event_of(s));
    }
    Ok((ev, ws))
}

/// Scans a data segment for normal events, left to right: stray characters
/// are skipped with a warning each, a marker followed by fewer than nine
/// characters stops the scan, and otherwise a nine-character record and its
/// modifier run are decoded. Never fails.
pub fn parse_normal_events(input: &str) -> (r: (Vec<NormalEvent>, Vec<ParserWarning>))
    ensures
        normal_events_view(r.0@) == scan_normal(input@).0,
        warnings_view(r.1@) == scan_normal(input@).1,
{
    let ghost s: Seq<char> = input@;
    let n: usize = input.unicode_len();
    let mut events: Vec<NormalEvent> = Vec::new();
    let mut warnings: Vec<ParserWarning> = Vec::new();
    let mut index: usize = 0;
    proof {
        assert(s.skip(0) =~= s);
        assert(normal_events_view(events@) =~= Seq::<NormalEventModel>::empty());
        assert(warnings_view(warnings@) =~= Seq::<Seq<char>>::empty());
        assert(Seq::<NormalEventModel>::empty() + scan_normal(s).0 =~= scan_normal(s).0);
        assert(Seq::<Seq<char>>::empty() + scan_normal(s).1 =~= scan_normal(s).1);
    }
    while index < n
        invariant
            0 <= index <= n,
            n == s.len(),
            s == input@,
            scan_normal(s).0 == normal_events_view(events@) + scan_normal(s.skip(index as int)).0,
            scan_normal(s).1 == warnings_view(warnings@) + scan_normal(s.skip(index as int)).1,
        decreases n - index,
    {
        let ghost rest: Seq<char> = s.skip(index as int);
        proof {
            assert(rest[0] == s[index as int]);
        }
        let c: char = input.get_char(index);
        if !is_marker_char(c) {
            let mut m: String = String::from_str("Unexpected character: ");
            push_char(&mut m, c);
            let ghost pre_w: Seq<ParserWarning> = warnings@;
            warnings.push(ParserWarning { msg: m });
            proof {
                assert(rest.skip(1) =~= s.skip(index as int + 1));
                assert(warnings_view(warnings@) =~= warnings_view(pre_w).push(msg_unexpected(c)));
                assert(warnings_view(pre_w).push(msg_unexpected(c)) + scan_normal(
                    s.skip(index as int + 1),
                ).1 =~= warnings_view(pre_w) + (seq![msg_unexpected(c)] + scan_normal(
                    s.skip(index as int + 1),
                ).1));
            }
            index = index + 1;
        } else if n - index < 9 {
            let ghost pre_w: Seq<ParserWarning> = warnings@;
            warnings.push(
                ParserWarning { msg: String::from_str("Not enough characters for full event") },
            );
            proof {
                assert(scan_normal(rest).0 =~= Seq::<NormalEventModel>::empty());
                assert(scan_normal(rest).1 =~= seq![msg_short_record()]);
                assert(s.skip(n as int) =~= Seq::<char>::empty());
                assert(warnings_view(warnings@) =~= warnings_view(pre_w).push(msg_short_record()));
                assert(warnings_view(pre_w).push(msg_short_record()) + scan_normal(
                    s.skip(n as int),
                ).1 =~= warnings_view(pre_w) + seq![msg_short_record()]);
                assert(normal_events_view(events@) + scan_normal(s.skip(n as int)).0
                    =~= normal_events_view(events@) + scan_normal(rest).0);
            }
            index = n;
        } else {
            let team: char = c;
            let player: &str = input.substring_char(index + 1, index + 3);
            let skill: char = input.get_char(index + 3);
            let eval: char = input.get_char(index + 4);
            let sz: char = input.get_char(index + 5);
            let ssz: char = input.get_char(index + 6);
            let ez: char = input.get_char(index + 7);
            let esz: char = input.get_char(index + 8);
            let ghost rec: Seq<char> = rest.subrange(0, 9);
            proof {
                assert(player@ =~= rec.subrange(1, 3));
            }
            let ghost pre_w: Seq<ParserWarning> = warnings@;
            push_record_warnings(
                &mut warnings,
                team,
                player,
                skill,
                eval,
                sz,
                ssz,
                ez,
                esz,
                Ghost(rec),
            );
            let mut next_index: usize = index + 9;
            while next_index < n && !marker_at(input, next_index)
                invariant
                    index + 9 <= next_index <= n,
                    n == s.len(),
                    s == input@,
                    modifier_run(s.skip(index as int + 9)) == next_index - index - 9
                        + modifier_run(s.skip(next_index as int)),
                decreases n - next_index,
            {
                proof {
                    assert(s.skip(next_index as int)[0] == s[next_index as int]);
                    assert(s.skip(next_index as int).skip(1) =~= s.skip(next_index as int + 1));
                }
                next_index = next_index + 1;
            }
            proof {
                if next_index < n {
                    assert(s.skip(next_index as int)[0] == s[next_index as int]);
                } else {
                    assert(s.skip(next_index as int) =~= Seq::<char>::empty());
                }
                assert(modifier_run(s.skip(next_index as int)) == 0);
            }
            let ghost run: int = next_index - index - 9;
            let ghost mspec: Option<Seq<char>> = if run > 0 {
                Some(s.subrange(index as int + 9, next_index as int))
            } else {
                None
            };
            let modifier: Option<String> = if next_index > index + 9 {
                Some(input.substring_char(index + 9, next_index).to_owned())
            } else {
                None
            };
            let ev: NormalEvent = NormalEvent {
                team,
                player: player.to_owned(),
                skill,
                eval,
                start_zone: sz,
                start_subzone: ssz,
                end_zone: ez,
                end_subzone: esz,
                modifier,
            };
            proof {
                assert(ev@.player =~= record_event(rec, mspec).player);
                assert(ev@ == record_event(rec, mspec));
            }
            let ghost pre_e: Seq<NormalEvent> = events@;
            events.push(ev);
            proof {
                assert(rest.subrange(0, 9) == rec);
                assert(rest.skip(9) =~= s.skip(index as int + 9));
                assert(modifier_run(rest.skip(9)) == run);
                if run > 0 {
                    assert(rest.subrange(9, 9 + run) =~= s.subrange(
                        index as int + 9,
                        next_index as int,
                    ));
                }
                assert(rest.skip(9 + run) =~= s.skip(next_index as int));
                assert(normal_events_view(events@) =~= normal_events_view(pre_e).push(ev@));
                assert(normal_events_view(pre_e).push(record_event(rec, mspec)) + scan_normal(
                    s.skip(next_index as int),
                ).0 =~= normal_events_view(pre_e) + (seq![record_event(rec, mspec)] + scan_normal(
                    s.skip(next_index as int),
                ).0));
                assert(warnings_view(warnings@) + scan_normal(s.skip(next_index as int)).1
                    =~= warnings_view(pre_w) + (record_warnings(rec) + scan_normal(
                    s.skip(next_index as int),
                ).1));
            }
            index = next_index;
        }
    }
    proof {
        assert(s.skip(index as int) =~= Seq::<char>::empty());
        assert(normal_events_view(events@) + scan_normal(Seq::<char>::empty()).0
            =~= normal_events_view(events@));
        assert(warnings_view(warnings@) + scan_normal(Seq::<char>::empty()).1
            =~= warnings_view(warnings@));
    }
    (events, warnings)
}

/// Parses one raw line: split at the first `%` into data and comment, trim
/// both, then decode the data segment as one special event (if it starts
/// with `!`) or a run of normal events. Never fails: malformed input only
/// adds warnings.
pub fn parse_line(line: &str) -> (r: ParsedAction)
    ensures
        r@ == parse_line_model(line@),
{
    let n: usize = line.unicode_len();
    let i: usize = find_percent(line);
    proof {
        lemma_comment_split_at(line@, i as int);
        assert(line@.subrange(0, i as int) =~= line@.take(i as int));
    }
    let data_raw: &str = line.substring_char(0, i);
    let comment: Option<String> = if i < n {
        proof {
            assert(line@.subrange(i as int + 1, n as int) =~= line@.skip(i as int + 1));
        }
        Some(trim_chars(line.substring_char(i + 1, n)).to_owned())
    } else {
        None
    };
    let data: &str = trim_chars(data_raw);
    let ghost d: Seq<char> = trimmed(comment_split(line@).0);
    let mut events: Vec<Event> = Vec::new();
    let warnings: Vec<ParserWarning>;
    if data.unicode_len() > 0 && data.get_char(0) == '!' {
        let body: &str = data.substring_char(1, data.unicode_len());
        proof {
            assert(body@ =~= d.skip(1));
        }
        match parse_special_event(body) {
            Ok(pair) => {
                events.push(Event::Special(pair.0));
                warnings = pair.1;
                proof {
                    assert(events_view(events@) =~= seq![EventModel::Special(pair.0@)]);
                }
            }
            Err(ws) => {
                warnings = ws;
                proof {
                    assert(events_view(events@) =~= Seq::<EventModel>::empty());
                }
            }
        }
    } else {
        let pair = parse_normal_events(data);
        let mut normals: Vec<NormalEvent> = pair.0;
        warnings = pair.1;
        let ghost scanned: Seq<NormalEventModel> = scan_normal(d).0;
        proof {
            assert(events_view(events@) =~= Seq::<EventModel>::empty());
            assert(events_view(events@) + as_normal_events(normal_events_view(normals@))
                =~= as_normal_events(scanned));
        }
        while normals.len() > 0
            invariant
                events_view(events@) + as_normal_events(normal_events_view(normals@))
                    == as_normal_events(scanned),
            decreases normals.len(),
        {
            let ghost pre_ev: Seq<Event> = events@;
            let ghost pre_n: Seq<NormalEvent> = normals@;
            let e: NormalEvent = normals.remove(0);
            events.push(Event::Normal(e));
            proof {
                assert(pre_n.remove(0) =~= pre_n.skip(1));
                assert(events_view(events@) =~= events_view(pre_ev).push(EventModel::Normal(e@)));
                assert(as_normal_events(normal_events_view(pre_n)) =~= seq![
                    EventModel::Normal(e@),
                ] + as_normal_events(normal_events_view(pre_n.skip(1))));
                assert(events_view(pre_ev).push(EventModel::Normal(e@)) + as_normal_events(
                    normal_events_view(pre_n.skip(1)),
                ) =~= events_view(pre_ev) + as_normal_events(normal_events_view(pre_n)));
            }
        }
        proof {
            assert(as_normal_events(normal_events_view(normals@)) =~= Seq::<EventModel>::empty());
            assert(events_view(events@) + Seq::<EventModel>::empty() =~= events_view(events@));
        }
    }
    let result: ParsedAction = ParsedAction { events, comment, warnings };
    proof {
        assert(result@ == parse_line_model(line@));
    }
    result
}

} // verus!
