use vstd::prelude::*;
use crate::input::InputState;
use crate::actor::{Actor, Player, is_volley, SHOT_COOLDOWN_MICROS};

verus! {

/// Where the volley of a player goes on this participant: nowhere, into
/// the shared shots, or into the shared shots and the record of the shots
/// made here.
#[derive(Clone, Copy, Debug, PartialEq, Eq, Structural)]
pub enum ShotRoute {
    Nowhere,
    Shared,
    SharedAndLocal,
}

/// The server fires only its own player's volleys; a spectator fires
/// everyone's; a client fires everyone's and also records its own.
pub open spec fn shot_route(local: Option<usize>, index: u32) -> ShotRoute {
    match local {
        Some(x) => if x == 0 {
            if index == 0 { ShotRoute::Shared } else { ShotRoute::Nowhere }
        } else if x == index as usize {
            ShotRoute::SharedAndLocal
        } else {
            ShotRoute::Shared
        },
        None => ShotRoute::Shared,
    }
}

pub fn route_of(local: Option<usize>, index: u32) -> (r: ShotRoute)
    ensures
        r == shot_route(local, index),
        local is None ==> r == ShotRoute::Shared,
        local == Some(0usize) && index == 0 ==> r == ShotRoute::Shared,
        local == Some(0usize) && index != 0 ==> r == ShotRoute::Nowhere,
        local is Some && local.unwrap() != 0 && local.unwrap() == index as usize ==> r == ShotRoute::SharedAndLocal,
        local is Some && local.unwrap() != 0 && local.unwrap() != index as usize ==> r == ShotRoute::Shared,
{
    match local {
        Some(x) => {
            if x == 0 {
                if index == 0 { ShotRoute::Shared } else { ShotRoute::Nowhere }
            } else if x == index as usize {
                ShotRoute::SharedAndLocal
            } else {
                ShotRoute::Shared
            }
        },
        None => ShotRoute::Shared,
    }
}

/// Where a volley goes, role by role: the server (`Some(0)`) keeps only
/// player 0's volley and drops the others; a client steering player `x`
/// keeps every volley, player 0's included, and also records player `x`'s
/// own; a spectator (`None`) keeps every volley.
pub proof fn lemma_route_by_role(local: Option<usize>, index: u32)
    ensures
        local is None ==> shot_route(local, index) == ShotRoute::Shared,
        local == Some(0usize) && index == 0 ==> shot_route(local, index) == ShotRoute::Shared,
        local == Some(0usize) && index != 0 ==> shot_route(local, index) == ShotRoute::Nowhere,
        local is Some && local.unwrap() != 0 && local.unwrap() == index as usize ==> shot_route(local, index) == ShotRoute::SharedAndLocal,
        local is Some && local.unwrap() != 0 && local.unwrap() != index as usize ==> shot_route(local, index) == ShotRoute::Shared,
{
}

/// Handing the local input over: the local player, if the index names one,
/// gets exactly `input`; every other player keeps its input; no other field
/// of any player changes and no player is added or removed.
pub proof fn lemma_local_input_handover<B>(players: Seq<Player<B>>, local: Option<usize>, input: InputState)
    ensures
        with_local_input(players, local, input).len() == players.len(),
        forall|i: int| 0 <= i < players.len() ==> (#[trigger] with_local_input(players, local, input)[i]).input
            == (if local is Some && local.unwrap() == i { input } else { players[i].input }),
        forall|i: int| 0 <= i < players.len() ==> {
            let p = #[trigger] with_local_input(players, local, input)[i];
            &&& p.actor == players[i].actor
            &&& p.index == players[i].index
            &&& p.last_shot_at == players[i].last_shot_at
        },
{
}

/// The player holds fire and its last volley is at least the cooldown old.
pub open spec fn ready_to_fire<B>(p: Player<B>, now: u64) -> bool {
    p.input.fire && p.last_shot_at + SHOT_COOLDOWN_MICROS <= now
}

/// `players` with the input of the local player, if it exists, replaced by `input`.
pub open spec fn with_local_input<B>(players: Seq<Player<B>>, local: Option<usize>, input: InputState) -> Seq<Player<B>> {
    match local {
        Some(i) => if i < players.len() {
            players.update(i as int, Player { input, ..players[i as int] })
        } else {
            players
        },
        None => players,
    }
}

/// `after` is `before` with each ship moved by `steer` from its body and
/// input within a `width` by `height` field.
pub open spec fn steered<B, S: Fn(B, InputState, u32, u32) -> B>(
    steer: S,
    width: u32,
    height: u32,
    before: Seq<Player<B>>,
    after: Seq<Player<B>>,
) -> bool {
    &&& after.len() == before.len()
    &&& forall|i: int| 0 <= i < before.len() ==> (#[trigger] after[i]) == (Player {
        actor: Actor { body: after[i].actor.body, kill: before[i].actor.kill },
        ..before[i]
    })
    &&& forall|i: int| 0 <= i < before.len() ==> steer.ensures(
        (before[i].actor.body, before[i].input, width, height),
        (#[trigger] after[i]).actor.body,
    )
}

/// `after` is `before` where every ship may have moved and every player
/// ready to fire at `now` has `now` as its last volley.
pub open spec fn fired_players<B>(before: Seq<Player<B>>, after: Seq<Player<B>>, now: u64) -> bool {
    &&& after.len() == before.len()
    &&& forall|i: int| 0 <= i < before.len() ==> (#[trigger] after[i]) == (Player {
        actor: Actor { body: after[i].actor.body, kill: before[i].actor.kill },
        last_shot_at: if ready_to_fire(before[i], now) { now } else { before[i].last_shot_at },
        ..before[i]
    })
}

/// `launches[i]` is the volley of player `i`: a volley from its ship in
/// `after` when the player is ready to fire at `now` and routed somewhere,
/// nothing otherwise.
pub open spec fn volley_plan<B, F: Fn(B, i8) -> B>(
    launches: Seq<Seq<Actor<B>>>,
    make_shot: F,
    before: Seq<Player<B>>,
    after: Seq<Player<B>>,
    local: Option<usize>,
    now: u64,
) -> bool {
    &&& launches.len() == before.len()
    &&& forall|i: int| 0 <= i < before.len() ==> (ready_to_fire(before[i], now) && !(shot_route(local, before[i].index) is Nowhere)
        ==> is_volley(make_shot, after[i].actor.body, #[trigger] launches[i]))
    &&& forall|i: int| 0 <= i < before.len() ==> (!(ready_to_fire(before[i], now) && !(shot_route(local, before[i].index) is Nowhere))
        ==> (#[trigger] launches[i]).len() == 0)
}

/// The volleys among `launches` that this participant records as its own.
pub open spec fn local_share<B>(launches: Seq<Seq<Actor<B>>>, players: Seq<Player<B>>, local: Option<usize>) -> Seq<Seq<Actor<B>>> {
    Seq::new(launches.len(), |i: int|
        if shot_route(local, players[i].index) is SharedAndLocal { launches[i] } else { Seq::empty() })
}

/// All the sequences of `s`, one after the other.
pub open spec fn concat<A>(s: Seq<Seq<A>>) -> Seq<A>
    decreases s.len(),
{
    if s.len() == 0 {
        Seq::empty()
    } else {
        concat(s.drop_last()) + s.last()
    }
}

pub proof fn lemma_concat_push<A>(s: Seq<Seq<A>>, x: Seq<A>)
    ensures
        concat(s.push(x)) == concat(s) + x,
{
    assert(s.push(x).drop_last() =~= s);
}

/// Sequences that are all empty concatenate to nothing.
pub proof fn lemma_concat_empty<A>(s: Seq<Seq<A>>)
    requires
        forall|i: int| 0 <= i < s.len() ==> (#[trigger] s[i]).len() == 0,
    ensures
        concat(s).len() == 0,
    decreases s.len(),
{
    if s.len() > 0 {
        let d = s.drop_last();
        assert forall|i: int| 0 <= i < d.len() implies (#[trigger] d[i]).len() == 0 by {
            assert(d[i] == s[i]);
        }
        lemma_concat_empty(d);
    }
}

/// Moving the ships before firing changes nothing about who fires: what
/// holds of the moved players holds of the players before the move.
pub proof fn lemma_steer_then_fire<B, S: Fn(B, InputState, u32, u32) -> B, F: Fn(B, i8) -> B>(
    steer: S,
    width: u32,
    height: u32,
    make_shot: F,
    before: Seq<Player<B>>,
    mid: Seq<Player<B>>,
    after: Seq<Player<B>>,
    local: Option<usize>,
    now: u64,
    launches: Seq<Seq<Actor<B>>>,
)
    requires
        steered(steer, width, height, before, mid),
        fired_players(mid, after, now),
        forall|i: int| 0 <= i < mid.len() ==> (#[trigger] after[i]).actor.body == mid[i].actor.body,
        volley_plan(launches, make_shot, mid, after, local, now),
    ensures
        fired_players(before, after, now),
        forall|i: int| 0 <= i < before.len() ==> steer.ensures(
            (before[i].actor.body, before[i].input, width, height),
            (#[trigger] after[i]).actor.body,
        ),
        volley_plan(launches, make_shot, before, after, local, now),
        local_share(launches, mid, local) == local_share(launches, before, local),
        (exists|i: int| 0 <= i < mid.len() && ready_to_fire(#[trigger] mid[i], now))
            == (exists|i: int| 0 <= i < before.len() && ready_to_fire(#[trigger] before[i], now)),
{
    assert forall|i: int| 0 <= i < before.len() implies #[trigger] ready_to_fire(before[i], now) == ready_to_fire(mid[i], now)
        && before[i].index == mid[i].index by {
        assert(mid[i] == (Player { actor: Actor { body: mid[i].actor.body, kill: before[i].actor.kill }, ..before[i] }));
    }
    assert forall|i: int| 0 <= i < before.len() implies steer.ensures(
        (before[i].actor.body, before[i].input, width, height),
        (#[trigger] after[i]).actor.body,
    ) by {
        assert(after[i].actor.body == mid[i].actor.body);
        assert(steer.ensures((before[i].actor.body, before[i].input, width, height), mid[i].actor.body));
    }
    assert forall|i: int| 0 <= i < before.len() implies (#[trigger] after[i]) == (Player {
        actor: Actor { body: after[i].actor.body, kill: before[i].actor.kill },
        last_shot_at: if ready_to_fire(before[i], now) { now } else { before[i].last_shot_at },
        ..before[i]
    }) by {
        assert(ready_to_fire(before[i], now) == ready_to_fire(mid[i], now));
        assert(mid[i] == (Player { actor: Actor { body: mid[i].actor.body, kill: before[i].actor.kill }, ..before[i] }));
    }
    assert forall|i: int| 0 <= i < before.len() && ready_to_fire(before[i], now) && !(shot_route(local, before[i].index) is Nowhere)
        implies is_volley(make_shot, after[i].actor.body, #[trigger] launches[i]) by {
        assert(ready_to_fire(before[i], now) == ready_to_fire(mid[i], now));
    }
    assert forall|i: int| 0 <= i < before.len() && !(ready_to_fire(before[i], now) && !(shot_route(local, before[i].index) is Nowhere))
        implies (#[trigger] launches[i]).len() == 0 by {
        assert(ready_to_fire(before[i], now) == ready_to_fire(mid[i], now));
    }
    assert(local_share(launches, mid, local) =~= local_share(launches, before, local)) by {
        assert forall|i: int| 0 <= i < launches.len() implies #[trigger] mid[i].index == before[i].index by {
            assert(ready_to_fire(before[i], now) == ready_to_fire(mid[i], now));
        }
    }
    if exists|i: int| 0 <= i < mid.len() && ready_to_fire(#[trigger] mid[i], now) {
        let j = choose|j: int| 0 <= j < mid.len() && ready_to_fire(#[trigger] mid[j], now);
        assert(ready_to_fire(before[j], now) == ready_to_fire(mid[j], now));
    }
    if exists|i: int| 0 <= i < before.len() && ready_to_fire(#[trigger] before[i], now) {
        let j = choose|j: int| 0 <= j < before.len() && ready_to_fire(#[trigger] before[j], now);
        assert(ready_to_fire(before[j], now) == ready_to_fire(mid[j], now));
    }
}

/// A player fires at most one volley per cooldown: once every ready player
/// has fired at `now`, handing the local input over again leaves nobody
/// ready at `now`, so a second step at the same time fires no volley.
pub proof fn lemma_one_volley_per_cooldown<B, F: Fn(B, i8) -> B>(
    players: Seq<Player<B>>,
    after: Seq<Player<B>>,
    local: Option<usize>,
    input: InputState,
    now: u64,
    make_shot: F,
    again: Seq<Player<B>>,
    launches: Seq<Seq<Actor<B>>>,
)
    requires
        fired_players(with_local_input(players, local, input), after, now),
        volley_plan(launches, make_shot, with_local_input(after, local, input), again, local, now),
    ensures
        forall|i: int| 0 <= i < after.len() ==> !ready_to_fire(#[trigger] with_local_input(after, local, input)[i], now),
        concat(launches).len() == 0,
{
    let before = with_local_input(players, local, input);
    let second = with_local_input(after, local, input);
    assert forall|i: int| 0 <= i < after.len() implies !ready_to_fire(#[trigger] second[i], now) by {
        assert(after[i] == (Player {
            actor: Actor { body: after[i].actor.body, kill: before[i].actor.kill },
            last_shot_at: if ready_to_fire(before[i], now) { now } else { before[i].last_shot_at },
            ..before[i]
        }));
        assert(second[i].input == before[i].input);
        assert(second[i].last_shot_at == after[i].last_shot_at);
    }
    assert forall|i: int| 0 <= i < launches.len() implies (#[trigger] launches[i]).len() == 0 by {
        assert(!ready_to_fire(second[i], now));
    }
    lemma_concat_empty(launches);
}

} // verus!
