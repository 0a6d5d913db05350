//! The per-entity decision: which diagnostic lines one decoded entity
//! update earns, given the tick it arrived on and what was read from it,
//! and what a whole run of such updates emits.

use vstd::prelude::*;

verus! {

/// A diagnostic line the driver emits while walking the stream.
#[derive(Clone, Copy, PartialEq, Eq, Structural, Debug)]
pub enum OutLine {
    Tick(i32),
    HeroId(u32),
}

/// The one data assumption made of the stream: a player-pawn entity
/// always carries its hero-identifier field. Its absence is fatal, after
/// the tick line of the update has gone out.
#[derive(Clone, Copy, PartialEq, Eq, Structural, Debug)]
pub enum VisitError {
    HeroIdMissing,
}

/// `tick` has not passed the configured limit (`None` means no limit).
pub open spec fn within_limit(tick_end: Option<i32>, tick: i32) -> bool {
    match tick_end {
        Some(end) => tick <= end,
        None => true,
    }
}

/// The limit test itself, for callers that read nothing from an entity
/// past the limit.
pub fn tick_within_limit(tick_end: Option<i32>, tick: i32) -> (r: bool)
    ensures
        r == within_limit(tick_end, tick),
{
    match tick_end {
        Some(end) => tick <= end,
        None => true,
    }
}

/// The lines one entity update earns, and the fatal condition it ends
/// in, if any: nothing past the tick limit; the tick line otherwise; the
/// hero-identifier line as well for a player pawn. A player pawn whose
/// hero identifier is absent is the fatal case, and its tick line is
/// still owed: the lines come out before the run aborts.
pub open spec fn spec_entity_lines(
    tick_end: Option<i32>,
    tick: i32,
    is_player_pawn: bool,
    hero_id: Option<u32>,
) -> (Seq<OutLine>, Option<VisitError>) {
    if !within_limit(tick_end, tick) {
        (seq![], None)
    } else if !is_player_pawn {
        (seq![OutLine::Tick(tick)], None)
    } else {
        match hero_id {
            Some(h) => (seq![OutLine::Tick(tick), OutLine::HeroId(h)], None),
            None => (seq![OutLine::Tick(tick)], Some(VisitError::HeroIdMissing)),
        }
    }
}

/// Decides the output for one entity update. `is_player_pawn` says
/// whether the entity's serializer matched the player-pawn name, and
/// `hero_id` is its hero-identifier field if that field was present.
/// Returns the lines to print, in order, and the fatal condition the
/// update ends in, which the caller surfaces only after printing them.
pub fn entity_lines(
    tick_end: Option<i32>,
    tick: i32,
    is_player_pawn: bool,
    hero_id: Option<u32>,
) -> (r: (Vec<OutLine>, Option<VisitError>))
    ensures
        r.0@ == spec_entity_lines(tick_end, tick, is_player_pawn, hero_id).0,
        r.1 == spec_entity_lines(tick_end, tick, is_player_pawn, hero_id).1,
{
    let mut v: Vec<OutLine> = Vec::new();
    if let Some(end) = tick_end {
        if tick > end {
            assert(v@ =~= Seq::<OutLine>::empty());
            return (v, None);
        }
    }
    v.push(OutLine::Tick(tick));
    if is_player_pawn {
        match hero_id {
            Some(h) => {
                v.push(OutLine::HeroId(h));
                assert(v@ =~= seq![OutLine::Tick(tick), OutLine::HeroId(h)]);
                (v, None)
            },
            None => {
                assert(v@ =~= seq![OutLine::Tick(tick)]);
                (v, Some(VisitError::HeroIdMissing))
            },
        }
    } else {
        assert(v@ =~= seq![OutLine::Tick(tick)]);
        (v, None)
    }
}

/// Past the configured tick limit nothing is emitted and nothing is
/// fatal, whatever the entity held.
pub proof fn lemma_silent_past_limit(end: i32, tick: i32, is_player_pawn: bool, hero_id: Option<u32>)
    requires
        tick > end,
    ensures
        spec_entity_lines(Some(end), tick, is_player_pawn, hero_id).0 == Seq::<OutLine>::empty(),
        spec_entity_lines(Some(end), tick, is_player_pawn, hero_id).1 is None,
{
    assert(spec_entity_lines(Some(end), tick, is_player_pawn, hero_id).0 =~= Seq::<
        OutLine,
    >::empty());
}

/// Within the limit, every update emits exactly one tick line, and it
/// comes first — the fatal update included.
pub proof fn lemma_one_tick_line_within_limit(
    tick_end: Option<i32>,
    tick: i32,
    is_player_pawn: bool,
    hero_id: Option<u32>,
)
    requires
        within_limit(tick_end, tick),
    ensures
        ({
            let s = spec_entity_lines(tick_end, tick, is_player_pawn, hero_id).0;
            &&& s.len() >= 1
            &&& s[0] == OutLine::Tick(tick)
            &&& forall|i: int| 1 <= i < s.len() ==> !(#[trigger] s[i] is Tick)
        }),
{
}

/// The fatal condition arises exactly for an in-limit player pawn with
/// no hero identifier, and even then the tick line is owed first.
pub proof fn lemma_fatal_owes_tick_line(
    tick_end: Option<i32>,
    tick: i32,
    is_player_pawn: bool,
    hero_id: Option<u32>,
)
    ensures
        spec_entity_lines(tick_end, tick, is_player_pawn, hero_id).1 is Some <==> (within_limit(
            tick_end,
            tick,
        ) && is_player_pawn && hero_id is None),
        spec_entity_lines(tick_end, tick, is_player_pawn, hero_id).1 is Some
            ==> spec_entity_lines(tick_end, tick, is_player_pawn, hero_id).0 == seq![
            OutLine::Tick(tick),
        ],
{
}

/// Everything a run emits: the updates' lines in stream order, cut short
/// at the first fatal update, whose own lines still come out.
pub open spec fn spec_run_lines(
    tick_end: Option<i32>,
    updates: Seq<(i32, bool, Option<u32>)>,
) -> Seq<OutLine>
    decreases updates.len(),
{
    if updates.len() == 0 {
        seq![]
    } else {
        let u = updates[0];
        let first = spec_entity_lines(tick_end, u.0, u.1, u.2);
        if first.1 is Some {
            first.0
        } else {
            first.0 + spec_run_lines(tick_end, updates.drop_first())
        }
    }
}

/// How many tick lines a line sequence holds.
pub open spec fn tick_line_count(s: Seq<OutLine>) -> int
    decreases s.len(),
{
    if s.len() == 0 {
        0
    } else {
        (if s[0] is Tick {
            1int
        } else {
            0int
        }) + tick_line_count(s.drop_first())
    }
}

/// How many updates arrive within the limit.
pub open spec fn in_limit_count(tick_end: Option<i32>, updates: Seq<(i32, bool, Option<u32>)>) -> int
    decreases updates.len(),
{
    if updates.len() == 0 {
        0
    } else {
        (if within_limit(tick_end, updates[0].0) {
            1int
        } else {
            0int
        }) + in_limit_count(tick_end, updates.drop_first())
    }
}

proof fn lemma_tick_line_count_add(a: Seq<OutLine>, b: Seq<OutLine>)
    ensures
        tick_line_count(a + b) == tick_line_count(a) + tick_line_count(b),
    decreases a.len(),
{
    if a.len() == 0 {
        assert(a + b =~= b);
    } else {
        assert((a + b).drop_first() =~= a.drop_first() + b);
        assert((a + b)[0] == a[0]);
        lemma_tick_line_count_add(a.drop_first(), b);
    }
}

/// A run with no fatal update emits exactly one tick line per update
/// within the limit.
pub proof fn lemma_run_one_tick_line_per_update(
    tick_end: Option<i32>,
    updates: Seq<(i32, bool, Option<u32>)>,
)
    requires
        forall|i: int|
            0 <= i < updates.len() ==> (#[trigger] spec_entity_lines(
                tick_end,
                updates[i].0,
                updates[i].1,
                updates[i].2,
            )).1 is None,
    ensures
        tick_line_count(spec_run_lines(tick_end, updates)) == in_limit_count(tick_end, updates),
    decreases updates.len(),
{
    if updates.len() > 0 {
        let u = updates[0];
        let first = spec_entity_lines(tick_end, u.0, u.1, u.2);
        assert(first.1 is None);
        if !within_limit(tick_end, u.0) {
            assert(first.0 =~= Seq::<OutLine>::empty());
            assert(tick_line_count(first.0) == 0);
        } else if !u.1 {
            assert(first.0 == seq![OutLine::Tick(u.0)]);
            assert(first.0[0] is Tick);
            let tail = first.0.drop_first();
            assert(tail =~= Seq::<OutLine>::empty());
            assert(tick_line_count(tail) == 0);
            assert(tick_line_count(first.0) == 1);
        } else {
            match u.2 {
                Some(h) => {
                    assert(first.0 == seq![OutLine::Tick(u.0), OutLine::HeroId(h)]);
                    assert(first.0[0] is Tick);
                    let tail = first.0.drop_first();
                    assert(tail =~= seq![OutLine::HeroId(h)]);
                    assert(!(tail[0] is Tick));
                    let tail2 = tail.drop_first();
                    assert(tail2 =~= Seq::<OutLine>::empty());
                    assert(tick_line_count(tail2) == 0);
                    assert(tick_line_count(tail) == 0);
                    assert(tick_line_count(first.0) == 1);
                },
                None => {
                    assert(false);
                },
            }
        }
        assert forall|i: int| 0 <= i < updates.drop_first().len() implies (
        #[trigger] spec_entity_lines(
            tick_end,
            updates.drop_first()[i].0,
            updates.drop_first()[i].1,
            updates.drop_first()[i].2,
        )).1 is None by {
            assert(updates.drop_first()[i] == updates[i + 1]);
        }
        lemma_run_one_tick_line_per_update(tick_end, updates.drop_first());
        lemma_tick_line_count_add(first.0, spec_run_lines(tick_end, updates.drop_first()));
    }
}

/// With a tick limit, a run never emits a tick line past the limit,
/// wherever in the stream the late updates stand.
pub proof fn lemma_run_silent_past_limit(end: i32, updates: Seq<(i32, bool, Option<u32>)>)
    ensures
        forall|i: int|
            0 <= i < spec_run_lines(Some(end), updates).len() ==> ((#[trigger] spec_run_lines(
                Some(end),
                updates,
            )[i]) matches OutLine::Tick(t) ==> t <= end),
    decreases updates.len(),
{
    if updates.len() > 0 {
        let run = spec_run_lines(Some(end), updates);
        let u = updates[0];
        let first = spec_entity_lines(Some(end), u.0, u.1, u.2);
        let rest = spec_run_lines(Some(end), updates.drop_first());
        lemma_run_silent_past_limit(end, updates.drop_first());
        assert forall|i: int| 0 <= i < run.len() implies ((#[trigger] run[i]) matches OutLine::Tick(
            t,
        ) ==> t <= end) by {
            if first.1 is Some {
                assert(run == first.0);
            } else if i < first.0.len() {
                assert(run == first.0 + rest);
                assert(run[i] == first.0[i]);
            } else {
                assert(run == first.0 + rest);
                assert(run[i] == rest[i - first.0.len()]);
            }
        }
    }
}

} // verus!
