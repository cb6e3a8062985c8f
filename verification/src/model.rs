//! The mathematical model of the notation: what a line decodes to, stated
//! over sequences of characters. The executable parser's contracts say that
//! its results equal this model.

use vstd::prelude::*;

use crate::validation::{
    valid_eval_char, valid_player_seq, valid_skill_char, valid_subzone_char, valid_team_char,
    valid_zone_char, msg_eval, msg_player, msg_skill, msg_subzone, msg_team, msg_zone,
};

verus! {

/// Model of a decoded normal event: the eight fixed-position fields plus the
/// optional free-form modifier suffix.
pub struct NormalEventModel {
    pub team: char,
    pub player: Seq<char>,
    pub skill: char,
    pub eval: char,
    pub start_zone: char,
    pub start_subzone: char,
    pub end_zone: char,
    pub end_subzone: char,
    pub modifier: Option<Seq<char>>,
}

/// Model of a decoded special event: four leading fields and an unbounded
/// optional modifier.
pub struct SpecialEventModel {
    pub team: char,
    pub player: Seq<char>,
    pub skill: char,
    pub eval: char,
    pub modifier: Option<Seq<char>>,
}

/// Model of either event shape.
pub enum EventModel {
    Normal(NormalEventModel),
    Special(SpecialEventModel),
}

/// Model of the result of parsing one line.
pub struct ParsedActionModel {
    pub events: Seq<EventModel>,
    pub comment: Option<Seq<char>>,
    pub warnings: Seq<Seq<char>>,
}

/// A character that starts a normal event record.
pub open spec fn is_marker(c: char) -> bool {
    c == 'L' || c == 'D'
}

/// The message reported for a stray character that matches no team marker.
pub open spec fn msg_unexpected(c: char) -> Seq<char> {
    "Unexpected character: "@ + seq![c]
}

/// The message reported when a marker is found but fewer than nine
/// characters remain.
pub open spec fn msg_short_record() -> Seq<char> {
    "Not enough characters for full event"@
}

/// The message reported when a special event body has fewer than five
/// characters.
pub open spec fn msg_short_special() -> Seq<char> {
    "Not enough characters"@
}

/// Length of the run of non-marker characters at the front of `s`: the
/// modifier attached to the preceding event.
pub open spec fn modifier_run(s: Seq<char>) -> nat
    decreases s.len(),
{
    if s.len() == 0 || is_marker(s[0]) {
        0
    } else {
        1 + modifier_run(s.skip(1))
    }
}

pub proof fn lemma_modifier_run_le(s: Seq<char>)
    ensures
        modifier_run(s) <= s.len(),
    decreases s.len(),
{
    if s.len() == 0 || is_marker(s[0]) {
    } else {
        lemma_modifier_run_le(s.skip(1));
    }
}

/// The event decoded from a nine-character record and its modifier.
pub open spec fn record_event(c: Seq<char>, m: Option<Seq<char>>) -> NormalEventModel {
    NormalEventModel {
        team: c[0],
        player: c.subrange(1, 3),
        skill: c[3],
        eval: c[4],
        start_zone: c[5],
        start_subzone: c[6],
        end_zone: c[7],
        end_subzone: c[8],
        modifier: m,
    }
}

/// The field warnings for a nine-character record, in validation order.
pub open spec fn record_warnings(c: Seq<char>) -> Seq<Seq<char>> {
    (if valid_team_char(c[0], false) { seq![] } else { seq![msg_team(c[0])] })
        + (if valid_player_seq(c.subrange(1, 3)) { seq![] } else { seq![msg_player(c.subrange(1, 3))] })
        + (if valid_skill_char(c[3], false) { seq![] } else { seq![msg_skill(c[3])] })
        + (if valid_eval_char(c[4], false) { seq![] } else { seq![msg_eval(c[4])] })
        + (if valid_zone_char(c[5]) { seq![] } else { seq![msg_zone(c[5])] })
        + (if valid_subzone_char(c[6]) { seq![] } else { seq![msg_subzone(c[6])] })
        + (if valid_zone_char(c[7]) { seq![] } else { seq![msg_zone(c[7])] })
        + (if valid_subzone_char(c[8]) { seq![] } else { seq![msg_subzone(c[8])] })
}

/// The left-to-right scan of a data segment for normal events: skip stray
/// characters with a warning each, stop when a marker is followed by fewer
/// than nine characters, and otherwise decode a nine-character record
/// followed by its modifier run.
pub open spec fn scan_normal(s: Seq<char>) -> (Seq<NormalEventModel>, Seq<Seq<char>>)
    decreases s.len(),
    via scan_normal_decreases
{
    if s.len() == 0 {
        (seq![], seq![])
    } else if !is_marker(s[0]) {
        let rest = scan_normal(s.skip(1));
        (rest.0, seq![msg_unexpected(s[0])] + rest.1)
    } else if s.len() < 9 {
        (seq![], seq![msg_short_record()])
    } else {
        let record = s.subrange(0, 9);
        let run = modifier_run(s.skip(9)) as int;
        let m: Option<Seq<char>> = if run > 0 {
            Some(s.subrange(9, 9 + run))
        } else {
            None
        };
        let rest = scan_normal(s.skip(9 + run));
        (seq![record_event(record, m)] + rest.0, record_warnings(record) + rest.1)
    }
}

#[via_fn]
proof fn scan_normal_decreases(s: Seq<char>) {
    if s.len() >= 9 && is_marker(s[0]) {
        lemma_modifier_run_le(s.skip(9));
    }
}

/// The warnings for the four leading fields of a special event body, in
/// validation order.
pub open spec fn special_warnings(s: Seq<char>) -> Seq<Seq<char>> {
    (if valid_team_char(s[0], true) { seq![] } else { seq![msg_team(s[0])] })
        + (if valid_player_seq(s.subrange(1, 3)) { seq![] } else { seq![msg_player(s.subrange(1, 3))] })
        + (if valid_skill_char(s[3], true) { seq![] } else { seq![msg_skill(s[3])] })
        + (if valid_eval_char(s[4], true) { seq![] } else { seq![msg_eval(s[4])] })
}

/// The special event decoded from a body of at least five characters.
pub open spec fn special_event_of(s: Seq<char>) -> SpecialEventModel {
    SpecialEventModel {
        team: s[0],
        player: s.subrange(1, 3),
        skill: s[3],
        eval: s[4],
        modifier: if s.len() > 5 {
            Some(s.subrange(5, s.len() as int))
        } else {
            None
        },
    }
}

/// Parsing a special event body: fewer than five characters is the one hard
/// failure; otherwise the event is decoded with its field warnings.
pub open spec fn parse_special_model(s: Seq<char>) -> Result<
    (SpecialEventModel, Seq<Seq<char>>),
    Seq<Seq<char>>,
> {
    if s.len() < 5 {
        Err(seq![msg_short_special()])
    } else {
        Ok((special_event_of(s), special_warnings(s)))
    }
}

/// Normal event models wrapped as events.
pub open spec fn as_normal_events(s: Seq<NormalEventModel>) -> Seq<EventModel> {
    s.map_values(|e: NormalEventModel| EventModel::Normal(e))
}

/// Split at the first `%`: the text before it, and the text strictly after
/// it if it occurs.
pub open spec fn comment_split(s: Seq<char>) -> (Seq<char>, Option<Seq<char>>)
    decreases s.len(),
{
    if s.len() == 0 {
        (seq![], None)
    } else if s[0] == '%' {
        (seq![], Some(s.skip(1)))
    } else {
        let rest = comment_split(s.skip(1));
        (seq![s[0]] + rest.0, rest.1)
    }
}

/// If the first `%` of `s` stands at `i` (or `s` has none and `i` is its
/// length), the comment split keeps everything before `i` and hands out
/// everything strictly after it.
pub proof fn lemma_comment_split_at(s: Seq<char>, i: int)
    requires
        0 <= i <= s.len(),
        forall|j: int| 0 <= j < i ==> s[j] != '%',
        i < s.len() ==> s[i] == '%',
    ensures
        comment_split(s).0 == s.take(i),
        comment_split(s).1 == if i < s.len() {
            Some(s.skip(i + 1))
        } else {
            None::<Seq<char>>
        },
    decreases i,
{
    if i == 0 {
        assert(comment_split(s).0 =~= s.take(0));
    } else {
        lemma_comment_split_at(s.skip(1), i - 1);
        assert(s.skip(1).take(i - 1) =~= s.take(i).skip(1));
        assert(comment_split(s).0 =~= seq![s[0]] + s.skip(1).take(i - 1));
        assert(seq![s[0]] + s.take(i).skip(1) =~= s.take(i));
        if i < s.len() {
            assert(s.skip(1).skip(i) =~= s.skip(i + 1));
        }
    }
}

/// Whitespace for trimming purposes.
pub open spec fn is_wspace(c: char) -> bool {
    c == ' ' || c == '\t' || c == '\n' || c == '\r'
}

/// `s` without leading whitespace.
pub open spec fn trim_front(s: Seq<char>) -> Seq<char>
    decreases s.len(),
{
    if s.len() > 0 && is_wspace(s[0]) {
        trim_front(s.skip(1))
    } else {
        s
    }
}

/// `s` without trailing whitespace.
pub open spec fn trim_back(s: Seq<char>) -> Seq<char>
    decreases s.len(),
{
    if s.len() > 0 && is_wspace(s[s.len() - 1]) {
        trim_back(s.take(s.len() - 1))
    } else {
        s
    }
}

/// `s` without surrounding whitespace.
pub open spec fn trimmed(s: Seq<char>) -> Seq<char> {
    trim_back(trim_front(s))
}

/// The model of parsing one whole line: split off the comment, trim both
/// segments, and dispatch the data segment on its first character.
pub open spec fn parse_line_model(line: Seq<char>) -> ParsedActionModel {
    let split = comment_split(line);
    let data = trimmed(split.0);
    let comment = match split.1 {
        None => None,
        Some(c) => Some(trimmed(c)),
    };
    if data.len() > 0 && data[0] == '!' {
        match parse_special_model(data.skip(1)) {
            Ok((ev, ws)) => ParsedActionModel {
                events: seq![EventModel::Special(ev)],
                comment,
                warnings: ws,
            },
            Err(ws) => ParsedActionModel { events: seq![], comment, warnings: ws },
        }
    } else {
        let scanned = scan_normal(data);
        ParsedActionModel {
            events: scanned.0.map_values(|e: NormalEventModel| EventModel::Normal(e)),
            comment,
            warnings: scanned.1,
        }
    }
}

} // verus!
