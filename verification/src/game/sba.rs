use vstd::prelude::*;

use crate::game::zones::{move_at, moved, spec_move_at, World};
use crate::seqs::{count_matching, first_match, lemma_count_positive, lemma_first_match};
use crate::state::{GameState, StateModel};
use crate::types::{evs, GameEvent, GameObject, Player, PlayerId, WaitingFor, WaitingForView, Zone};

verus! {

/// CR 704.5f-g, 704.5i, 704.5v: a creature with lethal damage or no toughness, a
/// planeswalker with no loyalty, or a battle with no defense counters is put into
/// its owner's graveyard.
pub open spec fn dies(o: GameObject) -> bool {
    o.zone == Zone::Battlefield && ((o.card_types.creature && match o.toughness {
        Some(t) => t <= 0 || o.damage_marked as int >= t as int,
        None => false,
    }) || (o.card_types.planeswalker && o.loyalty == Some(0u32)) || (o.card_types.battle
        && o.counters.defense == 0))
}

/// The world after the state-based actions for the first `k` objects.
pub open spec fn spec_sba_upto(w: World, k: int) -> World
    decreases k,
{
    if k <= 0 {
        w
    } else {
        let w1 = spec_sba_upto(w, k - 1);
        if dies(w1.0.objects[k - 1]) {
            spec_move_at(w1, k - 1, Zone::Graveyard)
        } else {
            w1
        }
    }
}

/// The world after state-based actions: every object that dies goes to the
/// graveyard, in order.
pub open spec fn spec_check_state_based_actions(w: World) -> World {
    spec_sba_upto(w, w.0.objects.len() as int)
}

proof fn lemma_sba_len(w: World, k: int)
    requires
        k <= w.0.objects.len(),
    ensures
        spec_sba_upto(w, k).0.objects.len() == w.0.objects.len(),
    decreases k,
{
    if k > 0 {
        lemma_sba_len(w, k - 1);
    }
}

fn object_dies(o: &GameObject) -> (r: bool)
    ensures
        r == dies(*o),
{
    o.zone == Zone::Battlefield && ((o.card_types.creature && match o.toughness {
        Some(t) => t <= 0 || o.damage_marked as i64 >= t as i64,
        None => false,
    }) || (o.card_types.planeswalker && o.loyalty == Some(0u32)) || (o.card_types.battle
        && o.counters.defense == 0))
}

/// Apply the state-based actions on objects.
pub fn check_state_based_actions(state: &mut GameState, events: &mut Vec<GameEvent>)
    ensures
        (final(state)@, evs(final(events)@)) == spec_check_state_based_actions(
            (old(state)@, evs(old(events)@)),
        ),
        old(state)@.ids_well_formed() ==> final(state)@.ids_well_formed(),
{
    let ghost w0 = (state@, evs(events@));
    let n = state.objects.len();
    let mut i: usize = 0;
    while i < n
        invariant
            n == w0.0.objects.len(),
            i <= n,
            (state@, evs(events@)) == spec_sba_upto(w0, i as int),
            w0.0.ids_well_formed() ==> state@.ids_well_formed(),
        decreases n - i,
    {
        proof {
            lemma_sba_len(w0, i as int);
        }
        if object_dies(&state.objects[i]) {
            move_at(state, i, Zone::Graveyard, events);
        }
        i += 1;
    }
}

pub open spec fn has_lost() -> spec_fn(Player) -> bool {
    |p: Player| p.life <= 0
}

pub open spec fn still_in() -> spec_fn(Player) -> bool {
    |p: Player| p.life > 0
}

/// CR 704.5a: once a player is at 0 or less life the game is over; the winner is
/// the one player left with positive life, if there is exactly one.
pub open spec fn spec_game_over(players: Seq<Player>) -> Option<WaitingForView> {
    if count_matching(players, has_lost()) > 0 {
        Some(
            WaitingForView::GameOver {
                winner: if count_matching(players, still_in()) == 1 {
                    Some(players[first_match(players, still_in())].id)
                } else {
                    None
                },
            },
        )
    } else {
        None
    }
}

pub fn game_over(players: &Vec<Player>) -> (r: Option<WaitingFor>)
    ensures
        match spec_game_over(players@) {
            Some(v) => r matches Some(x) && x@ == v,
            None => r is None,
        },
{
    let n = players.len();
    let mut lost: usize = 0;
    let mut alive: usize = 0;
    let mut first_alive: Option<usize> = None;
    let mut i: usize = 0;
    while i < n
        invariant
            n == players@.len(),
            i <= n,
            lost as nat == count_matching(players@.take(i as int), has_lost()),
            alive as nat == count_matching(players@.take(i as int), still_in()),
            lost <= i,
            alive <= i,
            match first_alive {
                Some(k) => first_match(players@.take(i as int), still_in()) == k && k < i,
                None => first_match(players@.take(i as int), still_in()) == -1,
            },
        decreases n - i,
    {
        proof {
            assert(players@.take(i + 1).drop_last() =~= players@.take(i as int));
        }
        if players[i].life <= 0 {
            lost += 1;
        } else {
            alive += 1;
            if first_alive.is_none() {
                first_alive = Some(i);
            }
        }
        i += 1;
    }
    assert(players@.take(n as int) =~= players@);
    proof {
        lemma_first_match(players@, still_in());
    }
    if lost == 0 {
        return None;
    }
    if alive == 1 {
        proof {
            lemma_count_positive(players@, still_in());
        }
        match first_alive {
            Some(k) => Some(WaitingFor::GameOver { winner: Some(players[k].id) }),
            None => Some(WaitingFor::GameOver { winner: None }),
        }
    } else {
        Some(WaitingFor::GameOver { winner: None })
    }
}

proof fn lemma_sba_upto(w: World, k: int)
    requires
        0 <= k <= w.0.objects.len(),
    ensures
        spec_sba_upto(w, k).0.objects.len() == w.0.objects.len(),
        spec_sba_upto(w, k).0.turn_number == w.0.turn_number,
        forall|j: int|
            k <= j < w.0.objects.len() ==> #[trigger] spec_sba_upto(w, k).0.objects[j] == w.0.objects[j],
        forall|j: int|
            0 <= j < k ==> (#[trigger] spec_sba_upto(w, k).0.objects[j]) == if dies(w.0.objects[j]) {
                moved(w.0.objects[j], Zone::Graveyard, w.0.turn_number)
            } else {
                w.0.objects[j]
            },
    decreases k,
{
    if k > 0 {
        lemma_sba_upto(w, k - 1);
    }
}

/// CR 704.3: after state-based actions, exactly the objects that were to die are in
/// the graveyard (each moved as a zone change), every other object is untouched,
/// and nothing left on the battlefield is due to die.
pub proof fn law_sba_moves_exactly_the_dying(w: World)
    ensures
        ({
            let r = spec_check_state_based_actions(w).0;
            &&& r.objects.len() == w.0.objects.len()
            &&& forall|j: int|
                0 <= j < w.0.objects.len() ==> (#[trigger] r.objects[j]) == if dies(w.0.objects[j]) {
                    moved(w.0.objects[j], Zone::Graveyard, w.0.turn_number)
                } else {
                    w.0.objects[j]
                }
            &&& forall|j: int| 0 <= j < r.objects.len() ==> !dies(#[trigger] r.objects[j])
        }),
{
    let n = w.0.objects.len() as int;
    lemma_sba_upto(w, n);
    let r = spec_check_state_based_actions(w).0;
    assert forall|j: int| 0 <= j < r.objects.len() implies !dies(#[trigger] r.objects[j]) by {
        assert(r.objects[j] == spec_sba_upto(w, n).0.objects[j]);
    }
}

} // verus!
