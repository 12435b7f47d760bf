use vstd::prelude::*;

use crate::ability::{EffectView, PlayerFilter, ResolvedAbility, ResolvedAbilityView};
use crate::game::effects::quantity::{resolve_quantity_with_targets, spec_quantity};
use crate::game::zones::World;
use crate::seqs::lemma_first_match;
use crate::state::{find_player, has_player_id, lemma_set_player, player_idx, GameState, StateModel};
use crate::types::{evs, lemma_evs_push, EffectError, EffectKind, GameEvent, GameEventView, ObjectId, Player, PlayerId};

verus! {

/// Is player `p` selected by `filter` for an effect controlled by `controller`?
pub open spec fn matches_scope_filter(filter: PlayerFilter, p: PlayerId, controller: PlayerId) -> bool {
    match filter {
        PlayerFilter::Controller => p == controller,
        PlayerFilter::Opponent => p != controller,
        PlayerFilter::All => true,
    }
}

/// The ids of the selected players, in seat order.
pub open spec fn spec_players_for_filter(players: Seq<Player>, filter: PlayerFilter, controller: PlayerId) -> Seq<
    PlayerId,
>
    decreases players.len(),
{
    if players.len() == 0 {
        Seq::empty()
    } else {
        let rest = spec_players_for_filter(players.drop_last(), filter, controller);
        if matches_scope_filter(filter, players.last().id, controller) {
            rest.push(players.last().id)
        } else {
            rest
        }
    }
}

fn players_for_filter(state: &GameState, filter: &PlayerFilter, controller: PlayerId, source_id: ObjectId) -> (r:
    Vec<PlayerId>)
    ensures
        r@ == spec_players_for_filter(state@.players, *filter, controller),
{
    let mut out: Vec<PlayerId> = Vec::new();
    let mut i: usize = 0;
    while i < state.players.len()
        invariant
            i <= state@.players.len(),
            out@ == spec_players_for_filter(state@.players.take(i as int), *filter, controller),
        decreases state@.players.len() - i,
    {
        proof {
            assert(state@.players.take(i + 1).drop_last() =~= state@.players.take(i as int));
        }
        let id = state.players[i].id;
        let selected = match filter {
            PlayerFilter::Controller => id == controller,
            PlayerFilter::Opponent => id != controller,
            PlayerFilter::All => true,
        };
        if selected {
            out.push(id);
        }
        i += 1;
    }
    assert(state@.players.take(state@.players.len() as int) =~= state@.players);
    out
}

/// CR 702.179: a player's speed is at most 4.
pub open spec fn max_speed() -> u8 {
    4
}

/// The world after the player's speed is set to `speed` (announced when it changes);
/// nothing happens when there is no such player.
pub open spec fn spec_set_speed(w: World, player: PlayerId, speed: u8) -> World {
    if w.0.has_player(player) {
        let p = w.0.player(player);
        if p.speed == Some(speed) {
            w
        } else {
            (
                w.0.set_player(player, Player { speed: Some(speed), ..p }),
                w.1.push(GameEventView::SpeedChanged { player, old_speed: p.speed, new_speed: speed }),
            )
        }
    } else {
        w
    }
}

pub fn set_speed(state: &mut GameState, player: PlayerId, speed: u8, events: &mut Vec<GameEvent>)
    ensures
        (final(state)@, evs(final(events)@)) == spec_set_speed((old(state)@, evs(old(events)@)), player, speed),
{
    match find_player(&state.players, player) {
        Some(i) => {
            let mut p = state.players[i];
            if p.speed != Some(speed) {
                let old_speed = p.speed;
                p.speed = Some(speed);
                state.players.set(i, p);
                proof {
                    lemma_evs_push(
                        events@,
                        GameEvent::SpeedChanged { player, old_speed, new_speed: speed },
                    );
                }
                events.push(GameEvent::SpeedChanged { player, old_speed, new_speed: speed });
            }
        },
        None => {},
    }
}

/// CR 702.179c-d: speed after increasing by `amount`, from none counting as 0, and
/// never past 4.
pub open spec fn increased_speed(old: Option<u8>, amount: u8) -> u8 {
    let cur: int = match old {
        Some(v) => v as int,
        None => 0,
    };
    if cur + amount > max_speed() {
        max_speed()
    } else {
        (cur + amount) as u8
    }
}

pub open spec fn spec_increase_speed(w: World, player: PlayerId, amount: u8) -> World {
    if w.0.has_player(player) {
        spec_set_speed(w, player, increased_speed(w.0.player(player).speed, amount))
    } else {
        w
    }
}

pub fn increase_speed(state: &mut GameState, player: PlayerId, amount: u8, events: &mut Vec<GameEvent>)
    ensures
        (final(state)@, evs(final(events)@)) == spec_increase_speed(
            (old(state)@, evs(old(events)@)),
            player,
            amount,
        ),
{
    match state.player(player) {
        Some(p) => {
            let cur: u16 = match p.speed {
                Some(v) => v as u16,
                None => 0,
            };
            let new_speed: u8 = if cur + amount as u16 > 4 {
                4
            } else {
                (cur + amount as u16) as u8
            };
            set_speed(state, player, new_speed, events);
        },
        None => {},
    }
}

/// The world after the first `k` selected players with no speed get speed 1.
pub open spec fn spec_start_each(w: World, ids: Seq<PlayerId>, k: int) -> World
    decreases k,
{
    if k <= 0 {
        w
    } else {
        let w1 = spec_start_each(w, ids, k - 1);
        if w1.0.has_player(ids[k - 1]) && w1.0.player(ids[k - 1]).speed is None {
            spec_set_speed(w1, ids[k - 1], 1)
        } else {
            w1
        }
    }
}

/// CR 702.179a: each selected player who has no speed gets speed 1; other effects are
/// refused.
pub open spec fn spec_resolve_start(w: World, a: ResolvedAbilityView) -> (World, Result<(), EffectError>) {
    match a.effect {
        EffectView::StartYourEngines { player_scope } => {
            let ids = spec_players_for_filter(w.0.players, player_scope, a.controller);
            (spec_start_each(w, ids, ids.len() as int), Ok(()))
        },
        _ => (w, Err(EffectError::InvalidParam { expected: EffectKind::StartYourEngines })),
    }
}

pub fn resolve_start(state: &mut GameState, ability: &ResolvedAbility, events: &mut Vec<GameEvent>) -> (r:
    Result<(), EffectError>)
    ensures
        ((final(state)@, evs(final(events)@)), r) == spec_resolve_start(
            (old(state)@, evs(old(events)@)),
            ability@,
        ),
{
    let player_scope = match &ability.effect {
        crate::ability::Effect::StartYourEngines { player_scope } => *player_scope,
        _ => {
            return Err(EffectError::InvalidParam { expected: EffectKind::StartYourEngines });
        },
    };
    let ids = players_for_filter(state, &player_scope, ability.controller, ability.source_id);
    let ghost w0 = (state@, evs(events@));
    let mut i: usize = 0;
    while i < ids.len()
        invariant
            i <= ids@.len(),
            (state@, evs(events@)) == spec_start_each(w0, ids@, i as int),
        decreases ids@.len() - i,
    {
        let player_id = ids[i];
        let has_no_speed = match state.player(player_id) {
            Some(p) => p.speed.is_none(),
            None => false,
        };
        if has_no_speed {
            set_speed(state, player_id, 1, events);
        }
        i += 1;
    }
    Ok(())
}

/// The world after each of the first `k` selected players' speed increases.
pub open spec fn spec_increase_each(w: World, ids: Seq<PlayerId>, amount: u8, k: int) -> World
    decreases k,
{
    if k <= 0 {
        w
    } else {
        spec_increase_speed(spec_increase_each(w, ids, amount, k - 1), ids[k - 1], amount)
    }
}

/// The resolved amount as a speed increase: negative counts as 0, and more than 255
/// as 255.
pub open spec fn speed_amount(v: int) -> u8 {
    if v < 0 {
        0
    } else if v > u8::MAX {
        u8::MAX
    } else {
        v as u8
    }
}

/// CR 702.179c-d: each selected player's speed increases by the resolved amount; a
/// zero amount does nothing; other effects are refused.
pub open spec fn spec_resolve_increase(w: World, a: ResolvedAbilityView) -> (World, Result<(), EffectError>) {
    match a.effect {
        EffectView::IncreaseSpeed { player_scope, amount } => {
            let n = speed_amount(spec_quantity(w.0, amount, a.controller));
            if n == 0 {
                (w, Ok(()))
            } else {
                let ids = spec_players_for_filter(w.0.players, player_scope, a.controller);
                (spec_increase_each(w, ids, n, ids.len() as int), Ok(()))
            }
        },
        _ => (w, Err(EffectError::InvalidParam { expected: EffectKind::IncreaseSpeed })),
    }
}

pub fn resolve_increase(state: &mut GameState, ability: &ResolvedAbility, events: &mut Vec<GameEvent>) -> (r:
    Result<(), EffectError>)
    ensures
        ((final(state)@, evs(final(events)@)), r) == spec_resolve_increase(
            (old(state)@, evs(old(events)@)),
            ability@,
        ),
{
    let (player_scope, amount) = match &ability.effect {
        crate::ability::Effect::IncreaseSpeed { player_scope, amount } => (*player_scope, *amount),
        _ => {
            return Err(EffectError::InvalidParam { expected: EffectKind::IncreaseSpeed });
        },
    };
    let v = resolve_quantity_with_targets(state, &amount, ability);
    let amount: u8 = if v < 0 {
        0
    } else if v > 255 {
        255
    } else {
        v as u8
    };
    if amount == 0 {
        return Ok(());
    }
    let ids = players_for_filter(state, &player_scope, ability.controller, ability.source_id);
    let ghost w0 = (state@, evs(events@));
    let mut i: usize = 0;
    while i < ids.len()
        invariant
            i <= ids@.len(),
            (state@, evs(events@)) == spec_increase_each(w0, ids@, amount, i as int),
        decreases ids@.len() - i,
    {
        increase_speed(state, ids[i], amount, events);
        i += 1;
    }
    Ok(())
}

/// A player's speed, with no speed counting as 0.
pub open spec fn speed_of(p: Player) -> int {
    match p.speed {
        Some(v) => v as int,
        None => 0,
    }
}

/// CR 702.179: every player's speed is at most 4.
pub open spec fn speeds_within_max(players: Seq<Player>) -> bool {
    forall|i: int| 0 <= i < players.len() ==> speed_of(#[trigger] players[i]) <= max_speed()
}

/// The same players, in the same seats, none with a lower speed than before.
pub open spec fn speeds_not_lower(before: Seq<Player>, after: Seq<Player>) -> bool {
    &&& after.len() == before.len()
    &&& forall|i: int|
        0 <= i < before.len() ==> (#[trigger] after[i]).id == before[i].id && speed_of(before[i]) <= speed_of(
            after[i],
        )
}

proof fn lemma_not_lower_trans(a: Seq<Player>, b: Seq<Player>, c: Seq<Player>)
    requires
        speeds_not_lower(a, b),
        speeds_not_lower(b, c),
    ensures
        speeds_not_lower(a, c),
{
    assert forall|i: int| 0 <= i < a.len() implies (#[trigger] c[i]).id == a[i].id && speed_of(a[i])
        <= speed_of(c[i]) by {
        assert(b[i].id == a[i].id);
    }
}

proof fn lemma_set_speed_raises(w: World, player: PlayerId, speed: u8)
    requires
        speeds_within_max(w.0.players),
        speed <= max_speed(),
        w.0.has_player(player) ==> speed_of(w.0.player(player)) <= speed,
    ensures
        speeds_within_max(spec_set_speed(w, player, speed).0.players),
        speeds_not_lower(w.0.players, spec_set_speed(w, player, speed).0.players),
{
    let r = spec_set_speed(w, player, speed).0.players;
    if w.0.has_player(player) {
        lemma_first_match(w.0.players, has_player_id(player));
        assert forall|i: int| 0 <= i < r.len() implies speed_of(#[trigger] r[i]) <= max_speed() by {
            if i != player_idx(w.0.players, player) {
                assert(r[i] == w.0.players[i]);
            }
        }
        assert forall|i: int| 0 <= i < w.0.players.len() implies (#[trigger] r[i]).id == w.0.players[i].id
            && speed_of(w.0.players[i]) <= speed_of(r[i]) by {
            if i == player_idx(w.0.players, player) {
                assert(has_player_id(player)(w.0.players[i]));
            }
        }
    }
}

proof fn lemma_increase_each_raises(w: World, ids: Seq<PlayerId>, amount: u8, k: int)
    requires
        speeds_within_max(w.0.players),
        0 <= k <= ids.len(),
    ensures
        speeds_within_max(spec_increase_each(w, ids, amount, k).0.players),
        speeds_not_lower(w.0.players, spec_increase_each(w, ids, amount, k).0.players),
    decreases k,
{
    if k > 0 {
        lemma_increase_each_raises(w, ids, amount, k - 1);
        let w1 = spec_increase_each(w, ids, amount, k - 1);
        let p = ids[k - 1];
        if w1.0.has_player(p) {
            lemma_first_match(w1.0.players, has_player_id(p));
            assert(speed_of(w1.0.player(p)) <= max_speed());
            lemma_set_speed_raises(w1, p, increased_speed(w1.0.player(p).speed, amount));
            lemma_not_lower_trans(w.0.players, w1.0.players, spec_increase_each(w, ids, amount, k).0.players);
        }
    }
}

proof fn lemma_start_each_raises(w: World, ids: Seq<PlayerId>, k: int)
    requires
        speeds_within_max(w.0.players),
        0 <= k <= ids.len(),
    ensures
        speeds_within_max(spec_start_each(w, ids, k).0.players),
        speeds_not_lower(w.0.players, spec_start_each(w, ids, k).0.players),
    decreases k,
{
    if k > 0 {
        lemma_start_each_raises(w, ids, k - 1);
        let w1 = spec_start_each(w, ids, k - 1);
        let p = ids[k - 1];
        if w1.0.has_player(p) && w1.0.player(p).speed is None {
            lemma_set_speed_raises(w1, p, 1);
            lemma_not_lower_trans(w.0.players, w1.0.players, spec_start_each(w, ids, k).0.players);
        }
    }
}

/// CR 702.179: resolving "start your engines!" or a speed increase never lowers a
/// player's speed, keeps every player in their seat, and never takes a speed past 4.
pub proof fn law_speed_only_rises_to_four(w: World, a: ResolvedAbilityView)
    requires
        speeds_within_max(w.0.players),
    ensures
        speeds_within_max(spec_resolve_start(w, a).0.0.players),
        speeds_not_lower(w.0.players, spec_resolve_start(w, a).0.0.players),
        speeds_within_max(spec_resolve_increase(w, a).0.0.players),
        speeds_not_lower(w.0.players, spec_resolve_increase(w, a).0.0.players),
{
    match a.effect {
        EffectView::StartYourEngines { player_scope } => {
            let ids = spec_players_for_filter(w.0.players, player_scope, a.controller);
            lemma_start_each_raises(w, ids, ids.len() as int);
        },
        EffectView::IncreaseSpeed { player_scope, amount } => {
            let ids = spec_players_for_filter(w.0.players, player_scope, a.controller);
            let n = speed_amount(spec_quantity(w.0, amount, a.controller));
            lemma_increase_each_raises(w, ids, n, ids.len() as int);
        },
        _ => {},
    }
}

proof fn lemma_set_speed_of_player(w: World, player: PlayerId, speed: u8)
    requires
        w.0.has_player(player),
    ensures
        spec_set_speed(w, player, speed).0.has_player(player),
        spec_set_speed(w, player, speed).0.player(player) == (Player { speed: Some(speed), ..w.0.player(player) }),
{
    let ps = w.0.players;
    let i = player_idx(ps, player);
    lemma_first_match(ps, has_player_id(player));
    assert(has_player_id(player)(ps[i]));
    if w.0.player(player).speed != Some(speed) {
        let q = Player { speed: Some(speed), ..w.0.player(player) };
        let ps2 = ps.update(i, q);
        lemma_first_match(ps2, has_player_id(player));
        assert(has_player_id(player)(ps2[i]));
        assert forall|j: int| 0 <= j < i implies !has_player_id(player)(#[trigger] ps2[j]) by {
            assert(ps2[j] == ps[j]);
        }
        crate::seqs::lemma_first_match_at(ps2, has_player_id(player), i);
    }
}

/// CR 702.179c-d: increasing a player's speed by `amount` leaves it at its old speed
/// (none counting as 0) plus `amount`, but never above 4; the player keeps
/// everything else.
pub proof fn law_speed_increase_adds_up_to_four(w: World, player: PlayerId, amount: u8)
    requires
        w.0.has_player(player),
    ensures
        ({
            let old_speed: int = match w.0.player(player).speed {
                Some(v) => v as int,
                None => 0,
            };
            let expected: int = if old_speed + amount > 4 {
                4
            } else {
                old_speed + amount
            };
            let p2 = spec_increase_speed(w, player, amount).0.player(player);
            &&& spec_increase_speed(w, player, amount).0.has_player(player)
            &&& p2.speed matches Some(v) && v as int == expected
            &&& p2 == (Player { speed: p2.speed, ..w.0.player(player) })
        }),
{
    lemma_set_speed_of_player(w, player, increased_speed(w.0.player(player).speed, amount));
}

/// No two players share an id.
pub open spec fn player_ids_unique(players: Seq<Player>) -> bool {
    forall|i: int, j: int| 0 <= i < j < players.len() ==> (#[trigger] players[i]).id != (#[trigger] players[j]).id
}

proof fn lemma_players_for_filter(players: Seq<Player>, filter: PlayerFilter, controller: PlayerId)
    ensures
        forall|p: PlayerId|
            #[trigger] spec_players_for_filter(players, filter, controller).contains(p) <==> (matches_scope_filter(
                filter,
                p,
                controller,
            ) && exists|i: int| 0 <= i < players.len() && players[i].id == p),
        player_ids_unique(players) ==> spec_players_for_filter(players, filter, controller).no_duplicates(),
    decreases players.len(),
{
    if players.len() > 0 {
        let init = players.drop_last();
        lemma_players_for_filter(init, filter, controller);
        let r = spec_players_for_filter(init, filter, controller);
        let last = players.last();
        assert forall|p: PlayerId|
            #[trigger] spec_players_for_filter(players, filter, controller).contains(p) <==> (matches_scope_filter(
                filter,
                p,
                controller,
            ) && exists|i: int| 0 <= i < players.len() && players[i].id == p) by {
            if exists|i: int| 0 <= i < players.len() && players[i].id == p {
                let i = choose|i: int| 0 <= i < players.len() && players[i].id == p;
                if i < players.len() - 1 {
                    assert(init[i] == players[i]);
                }
            }
            if exists|i: int| 0 <= i < init.len() && init[i].id == p {
                let i = choose|i: int| 0 <= i < init.len() && init[i].id == p;
                assert(players[i] == init[i]);
            }
            if matches_scope_filter(filter, last.id, controller) {
                let t = r.push(last.id);
                if t.contains(p) && p != last.id {
                    let j = choose|j: int| 0 <= j < t.len() && t[j] == p;
                    assert(r[j] == p);
                }
                if r.contains(p) {
                    let j = choose|j: int| 0 <= j < r.len() && r[j] == p;
                    assert(t[j] == p);
                }
                if p == last.id {
                    assert(t[r.len() as int] == p);
                }
            }
        }
        if player_ids_unique(players) && matches_scope_filter(filter, last.id, controller) {
            assert(player_ids_unique(init)) by {
                assert forall|i: int, j: int| 0 <= i < j < init.len() implies (#[trigger] init[i]).id != (
                #[trigger] init[j]).id by {
                    assert(init[i] == players[i] && init[j] == players[j]);
                }
            }
            assert(!r.contains(last.id)) by {
                if r.contains(last.id) {
                    let i = choose|i: int| 0 <= i < init.len() && init[i].id == last.id;
                    assert(players[i] == init[i]);
                    assert(players[i].id != players[players.len() - 1].id);
                }
            }
            let t = r.push(last.id);
            assert forall|a: int, b: int| 0 <= a < t.len() && 0 <= b < t.len() && a != b implies t[a] != t[b] by {
                if a < r.len() && b < r.len() {
                } else if a < r.len() {
                    assert(r.contains(t[a]));
                } else {
                    assert(r.contains(t[b]));
                }
            }
        } else if player_ids_unique(players) {
            assert(player_ids_unique(init)) by {
                assert forall|i: int, j: int| 0 <= i < j < init.len() implies (#[trigger] init[i]).id != (
                #[trigger] init[j]).id by {
                    assert(init[i] == players[i] && init[j] == players[j]);
                }
            }
        }
    }
}

proof fn lemma_set_speed_effect(w: World, q: PlayerId, speed: u8, p: PlayerId)
    requires
        w.0.has_player(p),
    ensures
        spec_set_speed(w, q, speed).0.has_player(p),
        spec_set_speed(w, q, speed).0.players.len() == w.0.players.len(),
        p != q ==> spec_set_speed(w, q, speed).0.player(p) == w.0.player(p),
        p == q ==> spec_set_speed(w, q, speed).0.player(p) == (Player { speed: Some(speed), ..w.0.player(p) }),
{
    if w.0.has_player(q) && w.0.player(q).speed != Some(speed) {
        lemma_first_match(w.0.players, has_player_id(q));
        assert(has_player_id(q)(w.0.players[player_idx(w.0.players, q)]));
        lemma_set_player(w.0, q, Player { speed: Some(speed), ..w.0.player(q) }, p);
    }
}

proof fn lemma_increase_each_player(w: World, ids: Seq<PlayerId>, amount: u8, k: int, p: PlayerId)
    requires
        0 <= k <= ids.len(),
        w.0.has_player(p),
        forall|a: int, b: int| 0 <= a < b < k ==> !(ids[a] == p && ids[b] == p),
    ensures
        spec_increase_each(w, ids, amount, k).0.has_player(p),
        spec_increase_each(w, ids, amount, k).0.player(p) == if exists|j: int| 0 <= j < k && ids[j] == p {
            Player { speed: Some(increased_speed(w.0.player(p).speed, amount)), ..w.0.player(p) }
        } else {
            w.0.player(p)
        },
    decreases k,
{
    if k > 0 {
        lemma_increase_each_player(w, ids, amount, k - 1, p);
        let w1 = spec_increase_each(w, ids, amount, k - 1);
        let q = ids[k - 1];
        if w1.0.has_player(q) {
            lemma_set_speed_effect(w1, q, increased_speed(w1.0.player(q).speed, amount), p);
        }
        if q == p {
            assert(!exists|j: int| 0 <= j < k - 1 && ids[j] == p);
        } else {
            if exists|j: int| 0 <= j < k && ids[j] == p {
                let j = choose|j: int| 0 <= j < k && ids[j] == p;
                assert(j < k - 1);
            }
        }
    }
}

proof fn lemma_start_each_player(w: World, ids: Seq<PlayerId>, k: int, p: PlayerId)
    requires
        0 <= k <= ids.len(),
        w.0.has_player(p),
    ensures
        spec_start_each(w, ids, k).0.has_player(p),
        spec_start_each(w, ids, k).0.player(p) == if (exists|j: int| 0 <= j < k && ids[j] == p)
            && w.0.player(p).speed is None {
            Player { speed: Some(1u8), ..w.0.player(p) }
        } else {
            w.0.player(p)
        },
    decreases k,
{
    if k > 0 {
        lemma_start_each_player(w, ids, k - 1, p);
        let w1 = spec_start_each(w, ids, k - 1);
        let q = ids[k - 1];
        if w1.0.has_player(q) && w1.0.player(q).speed is None {
            lemma_set_speed_effect(w1, q, 1, p);
        }
        if q != p {
            if exists|j: int| 0 <= j < k && ids[j] == p {
                let j = choose|j: int| 0 <= j < k && ids[j] == p;
                assert(j < k - 1);
            }
        }
    }
}

/// CR 702.179a: resolving "start your engines!" gives speed 1 to each player the
/// effect's scope selects who has no speed; a selected player who has a speed, and
/// every player the scope leaves out, is left as they were.
pub proof fn law_start_your_engines_gives_speed_one(w: World, a: ResolvedAbilityView, p: PlayerId)
    requires
        a.effect is StartYourEngines,
        w.0.has_player(p),
    ensures
        ({
            let scope = a.effect->StartYourEngines_player_scope;
            let after = spec_resolve_start(w, a).0.0;
            &&& after.has_player(p)
            &&& after.player(p) == if matches_scope_filter(scope, p, a.controller) && w.0.player(p).speed is None {
                Player { speed: Some(1u8), ..w.0.player(p) }
            } else {
                w.0.player(p)
            }
        }),
{
    let scope = a.effect->StartYourEngines_player_scope;
    let ids = spec_players_for_filter(w.0.players, scope, a.controller);
    lemma_players_for_filter(w.0.players, scope, a.controller);
    lemma_start_each_player(w, ids, ids.len() as int, p);
    lemma_first_match(w.0.players, has_player_id(p));
    let i = player_idx(w.0.players, p);
    assert(has_player_id(p)(w.0.players[i]));
    assert(ids.contains(p) == (exists|j: int| 0 <= j < ids.len() && ids[j] == p));
}

/// CR 702.179c-d: resolving a speed increase raises the speed of each player the
/// effect's scope selects by the resolved amount (none counting as 0, never above
/// 4); a zero amount, and every player the scope leaves out, changes nothing. Player
/// ids are taken to be unique.
pub proof fn law_speed_increase_raises_selected_players(w: World, a: ResolvedAbilityView, p: PlayerId)
    requires
        a.effect is IncreaseSpeed,
        w.0.has_player(p),
        player_ids_unique(w.0.players),
    ensures
        ({
            let scope = a.effect->IncreaseSpeed_player_scope;
            let n = speed_amount(spec_quantity(w.0, a.effect->IncreaseSpeed_amount, a.controller));
            let old_speed: int = match w.0.player(p).speed {
                Some(v) => v as int,
                None => 0,
            };
            let after = spec_resolve_increase(w, a).0.0;
            &&& after.has_player(p)
            &&& if n > 0 && matches_scope_filter(scope, p, a.controller) {
                after.player(p) == (Player {
                    speed: Some((if old_speed + n > 4 { 4 } else { old_speed + n }) as u8),
                    ..w.0.player(p)
                })
            } else {
                after.player(p) == w.0.player(p)
            }
        }),
{
    let scope = a.effect->IncreaseSpeed_player_scope;
    let n = speed_amount(spec_quantity(w.0, a.effect->IncreaseSpeed_amount, a.controller));
    let ids = spec_players_for_filter(w.0.players, scope, a.controller);
    lemma_players_for_filter(w.0.players, scope, a.controller);
    lemma_first_match(w.0.players, has_player_id(p));
    let i = player_idx(w.0.players, p);
    assert(has_player_id(p)(w.0.players[i]));
    if n > 0 {
        assert forall|x: int, y: int| 0 <= x < y < ids.len() implies !(ids[x] == p && ids[y] == p) by {}
        lemma_increase_each_player(w, ids, n, ids.len() as int, p);
        assert(ids.contains(p) == (exists|j: int| 0 <= j < ids.len() && ids[j] == p));
    }
}


/// CR 702.179a: a player the scope of "start your engines!" selects who has no speed
/// has speed 1 once it resolves.
pub proof fn law_start_gives_speed_one(w: World, a: ResolvedAbilityView, p: PlayerId)
    requires
        a.effect is StartYourEngines,
        w.0.has_player(p),
        w.0.player(p).speed is None,
        matches_scope_filter(a.effect->StartYourEngines_player_scope, p, a.controller),
    ensures
        spec_resolve_start(w, a).0.0.has_player(p),
        spec_resolve_start(w, a).0.0.player(p).speed == Some(1u8),
{
    law_start_your_engines_gives_speed_one(w, a, p);
}

} // verus!
