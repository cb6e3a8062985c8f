//! Properties of the parser that hold for every input, each proved against
//! the model that the executable functions' contracts are stated over.

use vstd::prelude::*;

use crate::model::{
    comment_split, is_marker, lemma_comment_split_at, lemma_modifier_run_le, modifier_run,
    msg_short_special, msg_unexpected, parse_line_model, parse_special_model, record_event,
    record_warnings, scan_normal, special_event_of, trimmed, EventModel, NormalEventModel,
};
use crate::validation::{
    valid_eval_char, valid_player_seq, valid_skill_char, valid_subzone_char, valid_zone_char,
};

verus! {

/// In a line whose first `%` stands at `i`, the comment is exactly the
/// trimmed text strictly after it, and the events and warnings are those of
/// the pre-`%` segment parsed on its own: the comment's content plays no
/// part in them.
pub proof fn lemma_comment_is_text_after_first_percent(line: Seq<char>, i: int)
    requires
        0 <= i < line.len(),
        line[i] == '%',
        forall|j: int| 0 <= j < i ==> line[j] != '%',
    ensures
        parse_line_model(line).comment == Some(trimmed(line.skip(i + 1))),
        parse_line_model(line).events == parse_line_model(line.take(i)).events,
        parse_line_model(line).warnings == parse_line_model(line.take(i)).warnings,
{
    lemma_comment_split_at(line, i);
    lemma_comment_split_at(line.take(i), i);
    assert(line.take(i).take(i) =~= line.take(i));
}

/// A line without `%` never gets a comment, whatever else it contains.
pub proof fn lemma_no_percent_no_comment(line: Seq<char>)
    requires
        forall|j: int| 0 <= j < line.len() ==> line[j] != '%',
    ensures
        parse_line_model(line).comment is None,
{
    lemma_comment_split_at(line, line.len() as int);
}

/// A data segment that is exactly one nine-character record with every
/// positional field in its valid alphabet decodes to exactly that one
/// event, with no modifier and no warnings.
pub proof fn lemma_single_valid_record(s: Seq<char>)
    requires
        s.len() == 9,
        is_marker(s[0]),
        valid_player_seq(s.subrange(1, 3)),
        valid_skill_char(s[3], false),
        valid_eval_char(s[4], false),
        valid_zone_char(s[5]),
        valid_subzone_char(s[6]),
        valid_zone_char(s[7]),
        valid_subzone_char(s[8]),
    ensures
        scan_normal(s).0 == seq![record_event(s, None)],
        scan_normal(s).1 == Seq::<Seq<char>>::empty(),
{
    assert(s.subrange(0, 9) =~= s);
    assert(s.skip(9) =~= Seq::<char>::empty());
    assert(modifier_run(Seq::<char>::empty()) == 0);
    assert(scan_normal(Seq::<char>::empty()).0 =~= Seq::<NormalEventModel>::empty());
    assert(scan_normal(Seq::<char>::empty()).1 =~= Seq::<Seq<char>>::empty());
    assert(record_warnings(s) =~= Seq::<Seq<char>>::empty());
    assert(scan_normal(s).0 =~= seq![record_event(s, None)]);
    assert(record_warnings(s) + scan_normal(s.skip(9)).1 =~= Seq::<Seq<char>>::empty());
}

/// A special event body of at least five characters always decodes to an
/// event, never to a hard stop; a shorter one gives no event and exactly
/// the one hard-stop warning.
pub proof fn lemma_special_never_hard_stops(s: Seq<char>)
    ensures
        s.len() >= 5 ==> (parse_special_model(s) matches Ok(p) && p.0 == special_event_of(s)),
        s.len() < 5 ==> (parse_special_model(s) matches Err(ws) && ws == seq![
            msg_short_special(),
        ]),
{
}

/// At the parsed-line level: a trimmed data segment that starts with `!`
/// yields exactly one special event when at least five characters follow
/// the marker, and zero events with exactly one warning otherwise.
pub proof fn lemma_special_segment_events(line: Seq<char>)
    requires
        trimmed(comment_split(line).0).len() > 0,
        trimmed(comment_split(line).0)[0] == '!',
    ensures
        trimmed(comment_split(line).0).len() >= 6 ==> parse_line_model(line).events == seq![
            EventModel::Special(special_event_of(trimmed(comment_split(line).0).skip(1))),
        ],
        trimmed(comment_split(line).0).len() < 6 ==> parse_line_model(line).events
            == Seq::<EventModel>::empty() && parse_line_model(line).warnings == seq![
            msg_short_special(),
        ],
{
}

/// The nine-character record rebuilt from a decoded event's fields.
pub open spec fn rebuild_record(e: NormalEventModel) -> Seq<char> {
    seq![e.team] + e.player + seq![
        e.skill,
        e.eval,
        e.start_zone,
        e.start_subzone,
        e.end_zone,
        e.end_subzone,
    ]
}

/// The data segment rebuilt from a sequence of decoded events, modifiers
/// left out.
pub open spec fn rebuild_records(es: Seq<NormalEventModel>) -> Seq<char>
    decreases es.len(),
{
    if es.len() == 0 {
        seq![]
    } else {
        rebuild_record(es[0]) + rebuild_records(es.skip(1))
    }
}

/// Two events agree on all eight positional fields.
pub open spec fn same_fields(a: NormalEventModel, b: NormalEventModel) -> bool {
    a.team == b.team && a.player == b.player && a.skill == b.skill && a.eval == b.eval
        && a.start_zone == b.start_zone && a.start_subzone == b.start_subzone && a.end_zone
        == b.end_zone && a.end_subzone == b.end_subzone
}

/// Every event the scanner produces starts with a team marker and carries a
/// two-character player number.
pub proof fn lemma_scan_events_wf(s: Seq<char>)
    ensures
        forall|k: int| 0 <= k < scan_normal(s).0.len() ==> is_marker(
            #[trigger] scan_normal(s).0[k].team,
        ) && scan_normal(s).0[k].player.len() == 2,
    decreases s.len(),
{
    if s.len() == 0 {
    } else if !is_marker(s[0]) {
        lemma_scan_events_wf(s.skip(1));
        assert(scan_normal(s).0 == scan_normal(s.skip(1)).0);
    } else if s.len() < 9 {
        assert(scan_normal(s).0.len() == 0);
    } else {
        lemma_modifier_run_le(s.skip(9));
        let run: int = modifier_run(s.skip(9)) as int;
        lemma_scan_events_wf(s.skip(9 + run));
        let m: Option<Seq<char>> = if run > 0 {
            Some(s.subrange(9, 9 + run))
        } else {
            None
        };
        assert(scan_normal(s).0 == seq![record_event(s.subrange(0, 9), m)] + scan_normal(
            s.skip(9 + run),
        ).0);
        assert(scan_normal(s).0[0].team == s.subrange(0, 9)[0]);
        assert(scan_normal(s).0[0].player == s.subrange(0, 9).subrange(1, 3));
        assert(scan_normal(s).0[0].player.len() == 2);
        assert forall|k: int| 0 < k < scan_normal(s).0.len() implies is_marker(
            scan_normal(s).0[k].team,
        ) && scan_normal(s).0[k].player.len() == 2 by {
            assert(is_marker(scan_normal(s.skip(9 + run)).0[k - 1].team));
            assert(scan_normal(s).0[k] == scan_normal(s.skip(9 + run)).0[k - 1]);
        }
    }
}

/// Re-parsing the data segment rebuilt from well-formed decoded events
/// yields events with the same field values and no modifiers.
pub proof fn lemma_rebuild_reparse(es: Seq<NormalEventModel>)
    requires
        forall|k: int| 0 <= k < es.len() ==> is_marker(#[trigger] es[k].team) && es[k].player.len()
            == 2,
    ensures
        scan_normal(rebuild_records(es)).0.len() == es.len(),
        forall|k: int| 0 <= k < es.len() ==> same_fields(
            #[trigger] scan_normal(rebuild_records(es)).0[k],
            es[k],
        ) && scan_normal(rebuild_records(es)).0[k].modifier is None,
    decreases es.len(),
{
    if es.len() == 0 {
    } else {
        let s: Seq<char> = rebuild_records(es);
        let head: Seq<char> = rebuild_record(es[0]);
        let tail: Seq<char> = rebuild_records(es.skip(1));
        assert(head.len() == 9);
        assert(s == head + tail);
        assert(s[0] == es[0].team);
        lemma_rebuild_reparse(es.skip(1));
        assert(s.skip(9) =~= tail);
        if es.len() > 1 {
            assert(tail == rebuild_record(es.skip(1)[0]) + rebuild_records(es.skip(1).skip(1)));
            assert(tail[0] == es.skip(1)[0].team);
            assert(is_marker(es[1].team));
        }
        assert(modifier_run(s.skip(9)) == 0);
        assert(s.subrange(0, 9) =~= head);
        let decoded: NormalEventModel = record_event(head, None);
        assert(head.subrange(1, 3) =~= es[0].player);
        assert(decoded.skill == es[0].skill);
        assert(same_fields(decoded, es[0]));
        assert(scan_normal(s).0 == seq![decoded] + scan_normal(tail).0);
        assert forall|k: int| 0 <= k < es.len() implies same_fields(
            scan_normal(s).0[k],
            es[k],
        ) && scan_normal(s).0[k].modifier is None by {
            if k > 0 {
                assert(scan_normal(s).0[k] == scan_normal(tail).0[k - 1]);
                assert(es[k] == es.skip(1)[k - 1]);
            }
        }
    }
}

/// The full round trip: rebuilding the fixed-width data segment from what a
/// scan decoded and scanning it again yields the same field values.
pub proof fn lemma_reparse_round_trip(s: Seq<char>)
    ensures
        scan_normal(rebuild_records(scan_normal(s).0)).0.len() == scan_normal(s).0.len(),
        forall|k: int| 0 <= k < scan_normal(s).0.len() ==> same_fields(
            #[trigger] scan_normal(rebuild_records(scan_normal(s).0)).0[k],
            scan_normal(s).0[k],
        ),
{
    lemma_scan_events_wf(s);
    let es: Seq<NormalEventModel> = scan_normal(s).0;
    assert forall|k: int| 0 <= k < es.len() implies is_marker(#[trigger] es[k].team)
        && es[k].player.len() == 2 by {
        assert(is_marker(scan_normal(s).0[k].team));
    }
    lemma_rebuild_reparse(scan_normal(s).0);
}

/// Resynchronization: a leading run of non-marker characters adds one
/// unexpected-character warning each and leaves the decoded events exactly
/// those of what follows.
pub proof fn lemma_resynchronization(noise: Seq<char>, rest: Seq<char>)
    requires
        forall|k: int| 0 <= k < noise.len() ==> !is_marker(#[trigger] noise[k]),
    ensures
        scan_normal(noise + rest).0 == scan_normal(rest).0,
        scan_normal(noise + rest).1 == Seq::new(noise.len(), |k: int| msg_unexpected(noise[k]))
            + scan_normal(rest).1,
    decreases noise.len(),
{
    if noise.len() == 0 {
        assert(noise + rest =~= rest);
        assert(Seq::new(0, |k: int| msg_unexpected(noise[k])) + scan_normal(rest).1
            =~= scan_normal(rest).1);
    } else {
        let s: Seq<char> = noise + rest;
        assert(s[0] == noise[0]);
        lemma_resynchronization(noise.skip(1), rest);
        assert(s.skip(1) =~= noise.skip(1) + rest);
        assert(seq![msg_unexpected(noise[0])] + (Seq::new(
            (noise.len() - 1) as nat,
            |k: int| msg_unexpected(noise.skip(1)[k]),
        ) + scan_normal(rest).1) =~= Seq::new(noise.len(), |k: int| msg_unexpected(noise[k]))
            + scan_normal(rest).1);
    }
}

} // verus!
