use vstd::prelude::*;
use std::time::Instant;
use crate::input::{InputState, Key, with_key, set_key};
use crate::sound::{PlaySounds, SoundCues};
use crate::actor::{
    Actor, Player, survivors, lemma_survivors, lemma_survivors_of_killed, all_killed, keep_alive, kill_all, spread, is_volley, moved, moved_and_culled,
    advance_all, advance_and_cull, SHOT_COOLDOWN_MICROS,
};
use crate::firing::{
    ShotRoute, route_of, shot_route, ready_to_fire, with_local_input, steered, fired_players, volley_plan,
    local_share, concat, lemma_concat_push, lemma_steer_then_fire,
};
use crate::collision::{
    Collisions, count_hits, any_true, any_hit, column_hit, lemma_count_true, lemma_count_hits,
    lemma_column_hit_step, lemma_count_hits_bound, player_contacts, shot_contacts, row_has_hit, mark_hit_shots,
};
use crate::clock::{instant_now, duration_since, duration_as_micros, game_time, spec_duration_since, spec_as_micros};

verus! {

/// The score and game time at the moment a round ended.
#[derive(Clone, Copy, Debug, PartialEq, Eq, Structural)]
pub struct GameOver {
    pub time: u64,
    pub score: u64,
}

/// What the status line shows: a server with its players and spectators,
/// a client with its player id, or a spectator.
#[derive(Clone, Copy, Debug, PartialEq, Eq, Structural)]
pub enum UiStatus {
    Server { players: usize, spectators: u32 },
    Client { player_id: usize },
    Spectator,
}

/// The whole game state of one participant.
///
/// `local_player_index` is `Some(0)` on the server, `Some(i)` on a client
/// that steers player `i`, and `None` for a spectator. Times are in
/// microseconds since `start_time`.
pub struct MainState<B> {
    pub local_player_index: Option<usize>,
    pub local_input: InputState,
    pub players: Vec<Player<B>>,
    pub shots: Vec<Actor<B>>,
    pub rocks: Vec<Actor<B>>,
    pub score: u64,
    pub screen_width: u32,
    pub screen_height: u32,
    pub start_time: Instant,
    pub curr_time: u64,
    pub play_sounds: PlaySounds,
    pub connections: u32,
    pub local_shots_made: Vec<Actor<B>>,
}

/// Every player sits at the position given by its index.
pub open spec fn players_indexed<B>(players: Seq<Player<B>>) -> bool {
    forall|i: int| 0 <= i < players.len() ==> (#[trigger] players[i]).index == i
}

/// `players` after a restart: nobody has fired yet and no key is held.
pub open spec fn reset_players<B>(players: Seq<Player<B>>) -> Seq<Player<B>> {
    players.map_values(|p: Player<B>| Player { input: InputState::idle(), last_shot_at: 0, ..p })
}

/// A restart keeps every player at its index, and once the marked actors
/// are dropped after it, no shot and no rock is left.
pub proof fn lemma_restart_clears_field<B: Copy>(after: MainState<B>, before: MainState<B>)
    requires
        after.restarted_from(before),
    ensures
        players_indexed(before.players@) ==> players_indexed(after.players@),
        survivors(after.shots@).len() == 0,
        survivors(after.rocks@).len() == 0,
        after.score == 0,
{
    lemma_survivors_of_killed(after.shots@);
    lemma_survivors_of_killed(after.rocks@);
    if players_indexed(before.players@) {
        assert forall|i: int| 0 <= i < after.players@.len() implies (#[trigger] after.players@[i]).index == i by {
            assert(after.players@[i].index == before.players@[i].index);
        }
    }
}

/// One step of collisions scores at most one point per pair of a rock and
/// a shot, whatever the contact test answers.
pub proof fn lemma_hits_within_pairs<B: Copy, T: Fn(B, B) -> bool>(s: MainState<B>, touching: T, c: Collisions)
    requires
        s.observed(touching, c),
    ensures
        count_hits(c.shots()) <= s.rocks@.len() * s.shots@.len(),
{
    assert forall|r: int| 0 <= r < c.shots().len() implies (#[trigger] c.shots()[r]).len() == s.shots@.len() by {}
    lemma_count_hits_bound(c.shots(), s.shots@.len());
}

impl<B: Copy> MainState<B> {
    /// `self` is `before` after a restart of the round, leaving aside the
    /// start time and the pending sounds: every shot and rock is marked for
    /// removal, the score is zero, no key is held and no player has fired.
    pub open spec fn restarted_from(&self, before: Self) -> bool {
        &&& self.local_player_index == before.local_player_index
        &&& self.local_input == InputState::idle()
        &&& self.players@ == reset_players(before.players@)
        &&& self.shots@ == all_killed(before.shots@)
        &&& self.rocks@ == all_killed(before.rocks@)
        &&& self.score == 0
        &&& self.screen_width == before.screen_width
        &&& self.screen_height == before.screen_height
        &&& self.curr_time == before.curr_time
        &&& self.connections == before.connections
        &&& self.local_shots_made@ == before.local_shots_made@
    }

    /// A server-side game with one player, whose ship has `player_body`,
    /// right after its first restart.
    pub fn new(screen_width: u32, screen_height: u32, player_body: B) -> (s: Self)
        ensures
            s.local_player_index == Some(0usize),
            s.local_input == InputState::idle(),
            s.players@ == seq![Player::fresh(player_body, 0)],
            s.shots@.len() == 0,
            s.rocks@.len() == 0,
            s.local_shots_made@.len() == 0,
            s.score == 0,
            s.screen_width == screen_width,
            s.screen_height == screen_height,
            s.curr_time == 0,
            s.play_sounds == PlaySounds::none(),
            s.connections == 0,
    {
        let mut s = MainState {
            local_player_index: Some(0),
            local_input: InputState::default(),
            players: Vec::new(),
            shots: Vec::new(),
            rocks: Vec::new(),
            score: 0,
            screen_width,
            screen_height,
            start_time: instant_now(),
            curr_time: 0,
            play_sounds: PlaySounds::default(),
            connections: 0,
            local_shots_made: Vec::new(),
        };
        s.add_player(player_body);
        s.restart_game();
        assert(s.players@ =~= seq![Player::fresh(player_body, 0)]);
        s
    }

    /// The player steered here, if the index names one.
    pub fn get_local_player(&self) -> (r: Option<&Player<B>>)
        ensures
            r.is_some() <==> (self.local_player_index.is_some() && self.local_player_index.unwrap() < self.players@.len()),
            r.is_some() ==> *r.unwrap() == self.players@[self.local_player_index.unwrap() as int],
    {
        if let Some(index) = self.local_player_index {
            if self.players.len() > index {
                Some(&self.players[index])
            } else {
                None
            }
        } else {
            None
        }
    }

    /// This participant runs the authoritative game.
    pub fn is_server(&self) -> (r: bool)
        ensures
            r == (self.local_player_index == Some(0usize)),
    {
        match self.local_player_index {
            Some(i) => i == 0,
            None => false,
        }
    }

    /// Adds a fresh player whose ship has `body` and returns its position,
    /// which is also its index (taken modulo 2^32).
    pub fn add_player(&mut self, body: B) -> (index: usize)
        ensures
            index == old(self).players@.len(),
            final(self).players@ == old(self).players@.push(Player::fresh(body, index as u32)),
            players_indexed(old(self).players@) && old(self).players@.len() < u32::MAX ==> players_indexed(final(self).players@),
            *final(self) == (MainState { players: final(self).players, ..*old(self) }),
    {
        let index = self.players.len();
        let new_player = Player::create(body, index as u32);
        self.players.push(new_player);
        index
    }

    /// Drops every shot and rock marked for removal, keeping the order of
    /// the others.
    pub fn clear_dead_stuff(&mut self)
        ensures
            final(self).shots@ == survivors(old(self).shots@),
            final(self).rocks@ == survivors(old(self).rocks@),
            forall|i: int| 0 <= i < final(self).shots@.len() ==> !(#[trigger] final(self).shots@[i]).kill,
            forall|i: int| 0 <= i < final(self).rocks@.len() ==> !(#[trigger] final(self).rocks@[i]).kill,
            *final(self) == (MainState { shots: final(self).shots, rocks: final(self).rocks, ..*old(self) }),
    {
        self.shots = keep_alive(&self.shots);
        self.rocks = keep_alive(&self.rocks);
        proof {
            lemma_survivors(old(self).shots@);
            lemma_survivors(old(self).rocks@);
        }
    }

    /// Sets the game time to `micros` microseconds, held at `u64::MAX`.
    pub fn set_elapsed(&mut self, micros: u128)
        ensures
            *final(self) == (MainState { curr_time: game_time(micros), ..*old(self) }),
    {
        if micros > u64::MAX as u128 {
            self.curr_time = u64::MAX;
        } else {
            self.curr_time = micros as u64;
        }
    }

    /// Sets the game time from the clock: the whole microseconds from
    /// `start_time` to a fresh reading of the clock, held at `u64::MAX`.
    /// Only the game time changes; which instant the clock reads is left open.
    pub fn update_time(&mut self)
        ensures
            exists|now: Instant| final(self).curr_time == game_time(spec_as_micros(#[trigger] spec_duration_since(now, old(self).start_time))),
            *final(self) == (MainState { curr_time: final(self).curr_time, ..*old(self) }),
    {
        let now = instant_now();
        let elapsed = duration_since(&now, &self.start_time);
        let micros = duration_as_micros(&elapsed);
        self.set_elapsed(micros);
    }

    /// Advances the game time by `micros` microseconds without the clock,
    /// held at `u64::MAX`.
    pub fn advance_time(&mut self, micros: u64)
        ensures
            final(self).curr_time == (if old(self).curr_time + micros > u64::MAX { u64::MAX as int } else { old(self).curr_time + micros }),
            *final(self) == (MainState { curr_time: final(self).curr_time, ..*old(self) }),
    {
        self.curr_time = self.curr_time.saturating_add(micros);
    }

    /// Starts the clock of the game anew; only the start time changes. The
    /// new start is the clock's reading at the call, which no clause states:
    /// instants are opaque and the reading depends on when the call runs.
    pub fn reset_time(&mut self)
        ensures
            *final(self) == (MainState { start_time: final(self).start_time, ..*old(self) }),
    {
        self.start_time = instant_now();
    }

    /// Ends the round: reports the time and score reached, then marks every
    /// shot and rock for removal, zeroes the score, releases all keys,
    /// forgets every player's last volley and restarts the clock.
    pub fn restart_game(&mut self) -> (report: GameOver)
        ensures
            report == (GameOver { time: old(self).curr_time, score: old(self).score }),
            final(self).restarted_from(*old(self)),
            final(self).play_sounds == old(self).play_sounds,
    {
        let report = GameOver { time: self.curr_time, score: self.score };
        self.local_input = InputState::default();
        let mut i: usize = 0;
        let ghost before = *self;
        while i < self.players.len()
            invariant
                i <= self.players@.len(),
                self.players@.len() == before.players@.len(),
                forall|j: int| 0 <= j < i ==> self.players@[j] == reset_players(before.players@)[j],
                forall|j: int| i <= j < self.players@.len() ==> self.players@[j] == before.players@[j],
                *self == (MainState { players: self.players, ..before }),
            decreases self.players.len() - i,
        {
            let mut p = self.players[i];
            p.last_shot_at = 0;
            p.input = InputState::default();
            self.players.set(i, p);
            i = i + 1;
        }
        assert(self.players@ =~= reset_players(before.players@));
        self.reset_time();
        self.score = 0;
        kill_all(&mut self.shots);
        kill_all(&mut self.rocks);
        report
    }

    /// Forgets the pending sounds.
    pub fn clear_sounds(&mut self)
        ensures
            *final(self) == (MainState { play_sounds: PlaySounds::none(), ..*old(self) }),
    {
        self.play_sounds = PlaySounds::default();
    }

    /// Decides which pending sounds start now, given whether each is still
    /// playing, and forgets the pending sounds.
    pub fn play_sounds(&mut self, hit_playing: bool, shot_playing: bool) -> (cues: SoundCues)
        ensures
            cues == (SoundCues {
                start_hit: old(self).play_sounds.play_hit && !hit_playing,
                start_shot: old(self).play_sounds.play_shot && !shot_playing,
            }),
            *final(self) == (MainState { play_sounds: PlaySounds::none(), ..*old(self) }),
    {
        let cues = SoundCues {
            start_hit: self.play_sounds.play_hit && !hit_playing,
            start_shot: self.play_sounds.play_shot && !shot_playing,
        };
        self.clear_sounds();
        cues
    }

    /// A key went down: its flag is set; the result asks to quit on Escape.
    pub fn s_key_down_event(&mut self, keycode: Key) -> (quit: bool)
        ensures
            quit == (keycode == Key::Escape),
            *final(self) == (MainState { local_input: with_key(old(self).local_input, keycode, true), ..*old(self) }),
            keycode == Key::Up ==> final(self).local_input == (InputState { up: true, down: old(self).local_input.down, left: old(self).local_input.left, right: old(self).local_input.right, fire: old(self).local_input.fire }),
            keycode == Key::Down ==> final(self).local_input == (InputState { up: old(self).local_input.up, down: true, left: old(self).local_input.left, right: old(self).local_input.right, fire: old(self).local_input.fire }),
            keycode == Key::Left ==> final(self).local_input == (InputState { up: old(self).local_input.up, down: old(self).local_input.down, left: true, right: old(self).local_input.right, fire: old(self).local_input.fire }),
            keycode == Key::Right ==> final(self).local_input == (InputState { up: old(self).local_input.up, down: old(self).local_input.down, left: old(self).local_input.left, right: true, fire: old(self).local_input.fire }),
            keycode == Key::Space ==> final(self).local_input == (InputState { up: old(self).local_input.up, down: old(self).local_input.down, left: old(self).local_input.left, right: old(self).local_input.right, fire: true }),
            keycode == Key::Escape || keycode == Key::Other ==> final(self).local_input == old(self).local_input,
    {
        set_key(&mut self.local_input, keycode, true);
        match keycode {
            Key::Escape => true,
            _ => false,
        }
    }

    /// A key went up: its flag is cleared.
    pub fn s_key_up_event(&mut self, keycode: Key)
        ensures
            *final(self) == (MainState { local_input: with_key(old(self).local_input, keycode, false), ..*old(self) }),
            keycode == Key::Up ==> final(self).local_input == (InputState { up: false, down: old(self).local_input.down, left: old(self).local_input.left, right: old(self).local_input.right, fire: old(self).local_input.fire }),
            keycode == Key::Down ==> final(self).local_input == (InputState { up: old(self).local_input.up, down: false, left: old(self).local_input.left, right: old(self).local_input.right, fire: old(self).local_input.fire }),
            keycode == Key::Left ==> final(self).local_input == (InputState { up: old(self).local_input.up, down: old(self).local_input.down, left: false, right: old(self).local_input.right, fire: old(self).local_input.fire }),
            keycode == Key::Right ==> final(self).local_input == (InputState { up: old(self).local_input.up, down: old(self).local_input.down, left: old(self).local_input.left, right: false, fire: old(self).local_input.fire }),
            keycode == Key::Space ==> final(self).local_input == (InputState { up: old(self).local_input.up, down: old(self).local_input.down, left: old(self).local_input.left, right: old(self).local_input.right, fire: false }),
            keycode == Key::Escape || keycode == Key::Other ==> final(self).local_input == old(self).local_input,
    {
        set_key(&mut self.local_input, keycode, false);
    }

    /// The status line. On the server the spectators are the connections
    /// plus the server itself, less the players.
    pub fn ui_status(&self) -> (status: UiStatus)
        requires
            self.local_player_index == Some(0usize) ==> self.connections < u32::MAX,
            self.local_player_index == Some(0usize) ==> (self.players@.len() as u32) <= self.connections + 1,
        ensures
            status == (match self.local_player_index {
                Some(x) => if x == 0 {
                    UiStatus::Server {
                        players: self.players@.len() as usize,
                        spectators: (self.connections + 1 - (self.players@.len() as u32)) as u32,
                    }
                } else {
                    UiStatus::Client { player_id: x }
                },
                None => UiStatus::Spectator,
            }),
    {
        match self.local_player_index {
            Some(x) => {
                if x == 0 {
                    let n = self.players.len();
                    UiStatus::Server { players: n, spectators: self.connections + 1 - (n as u32) }
                } else {
                    UiStatus::Client { player_id: x }
                }
            },
            None => UiStatus::Spectator,
        }
    }

    /// Appends to `shots_ref` a volley of three shots fired from `pos`,
    /// built by `make_shot` with the spreads -1, 0 and 1.
    pub fn spawn_shots<F: Fn(B, i8) -> B>(shots_ref: &mut Vec<Actor<B>>, pos: &B, make_shot: &F)
        requires
            forall|b: B, s: i8| make_shot.requires((b, s)),
        ensures
            final(shots_ref)@.len() == old(shots_ref)@.len() + 3,
            final(shots_ref)@.subrange(0, old(shots_ref)@.len() as int) == old(shots_ref)@,
            is_volley(*make_shot, *pos, final(shots_ref)@.subrange(old(shots_ref)@.len() as int, final(shots_ref)@.len() as int)),
    {
        let ghost n = old(shots_ref)@.len();
        let mut i: i8 = -1;
        while i < 2
            invariant
                -1 <= i <= 2,
                forall|b: B, s: i8| make_shot.requires((b, s)),
                shots_ref@.len() == n + i + 1,
                shots_ref@.subrange(0, n as int) == old(shots_ref)@,
                forall|k: int| 0 <= k < i + 1 ==> !(#[trigger] shots_ref@[n + k]).kill,
                forall|k: int| 0 <= k < i + 1 ==> make_shot.ensures((*pos, spread(k)), #[trigger] shots_ref@[n + k].body),
            decreases 2 - i,
        {
            let b = make_shot(*pos, i);
            shots_ref.push(Actor::new(b));
            assert(shots_ref@.subrange(0, n as int) =~= old(shots_ref)@);
            i = i + 1;
        }
        let ghost launch = shots_ref@.subrange(n as int, shots_ref@.len() as int);
        assert forall|k: int| 0 <= k < 3 implies make_shot.ensures((*pos, spread(k)), #[trigger] launch[k].body) by {
            assert(launch[k] == shots_ref@[n + k]);
        }
        assert forall|k: int| 0 <= k < 3 implies !(#[trigger] launch[k]).kill by {
            assert(launch[k] == shots_ref@[n + k]);
        }
    }

    /// Appends to `shots_ref` a volley fired from the ship of `player`.
    pub fn fire_player_shot<F: Fn(B, i8) -> B>(shots_ref: &mut Vec<Actor<B>>, player: &Player<B>, make_shot: &F)
        requires
            forall|b: B, s: i8| make_shot.requires((b, s)),
        ensures
            final(shots_ref)@.len() == old(shots_ref)@.len() + 3,
            final(shots_ref)@.subrange(0, old(shots_ref)@.len() as int) == old(shots_ref)@,
            is_volley(*make_shot, player.actor.body, final(shots_ref)@.subrange(old(shots_ref)@.len() as int, final(shots_ref)@.len() as int)),
    {
        Self::spawn_shots(shots_ref, &player.actor.body, make_shot);
    }

    /// Moves every shot, every shot made here and every rock one step with
    /// `advance`, and marks the shots and rocks that `out_of_bounds` finds
    /// outside the screen.
    pub fn tick_physics<A: Fn(B) -> B, O: Fn(B, u32, u32) -> bool>(&mut self, advance: &A, out_of_bounds: &O)
        requires
            forall|b: B| advance.requires((b,)),
            forall|b: B, w: u32, h: u32| out_of_bounds.requires((b, w, h)),
        ensures
            moved_and_culled(*advance, *out_of_bounds, old(self).screen_width, old(self).screen_height, old(self).shots@, final(self).shots@),
            moved(*advance, old(self).local_shots_made@, final(self).local_shots_made@),
            moved_and_culled(*advance, *out_of_bounds, old(self).screen_width, old(self).screen_height, old(self).rocks@, final(self).rocks@),
            *final(self) == (MainState {
                shots: final(self).shots,
                local_shots_made: final(self).local_shots_made,
                rocks: final(self).rocks,
                ..*old(self)
            }),
    {
        let w = self.screen_width;
        let h = self.screen_height;
        advance_and_cull(&mut self.shots, advance, out_of_bounds, w, h);
        advance_all(&mut self.local_shots_made, advance);
        advance_and_cull(&mut self.rocks, advance, out_of_bounds, w, h);
    }

    /// Moves every ship with `steer`, given its input and the screen size.
    fn steer_players<S: Fn(B, InputState, u32, u32) -> B>(players: &mut Vec<Player<B>>, steer: &S, width: u32, height: u32)
        requires
            forall|b: B, i: InputState, w: u32, h: u32| steer.requires((b, i, w, h)),
        ensures
            steered(*steer, width, height, old(players)@, final(players)@),
    {
        let mut i: usize = 0;
        while i < players.len()
            invariant
                i <= players@.len(),
                forall|b: B, inp: InputState, w: u32, h: u32| steer.requires((b, inp, w, h)),
                players@.len() == old(players)@.len(),
                forall|j: int| 0 <= j < i ==> (#[trigger] players@[j]) == (Player {
                    actor: Actor { body: players@[j].actor.body, kill: old(players)@[j].actor.kill },
                    ..old(players)@[j]
                }),
                forall|j: int| 0 <= j < i ==> steer.ensures(
                    (old(players)@[j].actor.body, old(players)@[j].input, width, height),
                    (#[trigger] players@[j]).actor.body,
                ),
                forall|j: int| i <= j < players@.len() ==> players@[j] == old(players)@[j],
            decreases players.len() - i,
        {
            let mut p = players[i];
            p.actor.body = steer(p.actor.body, p.input, width, height);
            players.set(i, p);
            i = i + 1;
        }
    }

    /// Appends copies of the actors of `src` to `dst`.
    fn extend_from(dst: &mut Vec<Actor<B>>, src: &Vec<Actor<B>>)
        ensures
            final(dst)@ == old(dst)@ + src@,
    {
        let mut i: usize = 0;
        while i < src.len()
            invariant
                i <= src@.len(),
                dst@ == old(dst)@ + src@.take(i as int),
            decreases src.len() - i,
        {
            dst.push(src[i]);
            assert(src@.take(i as int + 1) =~= src@.take(i as int).push(src@[i as int]));
            i = i + 1;
        }
        assert(src@.take(src@.len() as int) =~= src@);
    }

    /// Fires the volley of every ready player, in player order, into the
    /// places `shot_route` names; returns whether some player was ready.
    fn fire_volleys<F: Fn(B, i8) -> B>(
        players: &mut Vec<Player<B>>,
        shots: &mut Vec<Actor<B>>,
        local_shots: &mut Vec<Actor<B>>,
        local: Option<usize>,
        now: u64,
        make_shot: &F,
    ) -> (fired: bool)
        requires
            forall|b: B, s: i8| make_shot.requires((b, s)),
        ensures
            fired_players(old(players)@, final(players)@, now),
            forall|i: int| 0 <= i < old(players)@.len() ==> (#[trigger] final(players)@[i]).actor.body == old(players)@[i].actor.body,
            fired == exists|i: int| 0 <= i < old(players)@.len() && ready_to_fire(#[trigger] old(players)@[i], now),
            exists|launches: Seq<Seq<Actor<B>>>| {
                &&& #[trigger] volley_plan(launches, *make_shot, old(players)@, final(players)@, local, now)
                &&& final(shots)@ == old(shots)@ + concat(launches)
                &&& final(local_shots)@ == old(local_shots)@ + concat(local_share(launches, old(players)@, local))
            },
    {
        let ghost before = players@;
        let ghost mut launches: Seq<Seq<Actor<B>>> = Seq::empty();
        let mut fired = false;
        let mut i: usize = 0;
        while i < players.len()
            invariant
                i <= players@.len(),
                forall|b: B, s: i8| make_shot.requires((b, s)),
                before == old(players)@,
                players@.len() == before.len(),
                forall|j: int| 0 <= j < i ==> (#[trigger] players@[j]) == (Player {
                    last_shot_at: if ready_to_fire(before[j], now) { now } else { before[j].last_shot_at },
                    ..before[j]
                }),
                forall|j: int| i <= j < players@.len() ==> players@[j] == before[j],
                fired == exists|j: int| 0 <= j < i && ready_to_fire(#[trigger] before[j], now),
                launches.len() == i,
                forall|j: int| 0 <= j < i ==> (ready_to_fire(before[j], now) && !(shot_route(local, before[j].index) is Nowhere)
                    ==> is_volley(*make_shot, before[j].actor.body, #[trigger] launches[j])),
                forall|j: int| 0 <= j < i ==> (!(ready_to_fire(before[j], now) && !(shot_route(local, before[j].index) is Nowhere))
                    ==> (#[trigger] launches[j]).len() == 0),
                shots@ == old(shots)@ + concat(launches),
                local_shots@ == old(local_shots)@ + concat(local_share(launches, before, local)),
            decreases players.len() - i,
        {
            let mut p = players[i];
            let ready = p.input.fire && now >= SHOT_COOLDOWN_MICROS && p.last_shot_at <= now - SHOT_COOLDOWN_MICROS;
            assert(ready == ready_to_fire(before[i as int], now));
            let ghost launch: Seq<Actor<B>> = Seq::empty();
            if ready {
                p.last_shot_at = now;
                players.set(i, p);
                match route_of(local, p.index) {
                    ShotRoute::Shared => {
                        let ghost s0 = shots@;
                        Self::fire_player_shot(shots, &p, make_shot);
                        proof {
                            launch = shots@.subrange(s0.len() as int, shots@.len() as int);
                            assert(shots@ =~= s0 + launch);
                        }
                    },
                    ShotRoute::SharedAndLocal => {
                        let mut new_shots: Vec<Actor<B>> = Vec::new();
                        Self::fire_player_shot(&mut new_shots, &p, make_shot);
                        proof {
                            launch = new_shots@;
                            assert(new_shots@.subrange(0, 3) =~= new_shots@);
                        }
                        Self::extend_from(local_shots, &new_shots);
                        Self::extend_from(shots, &new_shots);
                    },
                    ShotRoute::Nowhere => {},
                }
                fired = true;
            }
            proof {
                let old_launches = launches;
                lemma_concat_push(old_launches, launch);
                let share = if shot_route(local, before[i as int].index) is SharedAndLocal { launch } else { Seq::<Actor<B>>::empty() };
                assert(local_share(old_launches.push(launch), before, local) =~= local_share(old_launches, before, local).push(share));
                lemma_concat_push(local_share(old_launches, before, local), share);
                launches = old_launches.push(launch);
                assert(launches[i as int] == launch);
                assert forall|j: int| 0 <= j < i implies #[trigger] launches[j] == old_launches[j] by {}
                if ready {
                    assert(exists|j: int| 0 <= j < i + 1 && ready_to_fire(#[trigger] before[j], now)) by {
                        assert(ready_to_fire(before[i as int], now));
                    }
                }
            }
            i = i + 1;
        }
        proof {
            assert(volley_plan(launches, *make_shot, old(players)@, players@, local, now));
        }
        fired
    }

    /// One step of the ships: the local input goes to the local player,
    /// every ship moves with `steer`, and every player holding fire whose
    /// last volley is at least the cooldown old fires a volley built by
    /// `make_shot`: on the server only player 0's volley is kept, a
    /// spectator keeps every volley, and a client keeps every volley and
    /// records its own player's also among the shots made here. Any player
    /// firing requests the shot sound.
    pub fn update_player_inputs<S: Fn(B, InputState, u32, u32) -> B, F: Fn(B, i8) -> B>(&mut self, steer: &S, make_shot: &F)
        requires
            forall|b: B, i: InputState, w: u32, h: u32| steer.requires((b, i, w, h)),
            forall|b: B, s: i8| make_shot.requires((b, s)),
        ensures
            ({
                let before = with_local_input(old(self).players@, old(self).local_player_index, old(self).local_input);
                &&& fired_players(before, final(self).players@, old(self).curr_time)
                &&& forall|i: int| 0 <= i < before.len() ==> steer.ensures(
                    (before[i].actor.body, before[i].input, old(self).screen_width, old(self).screen_height),
                    (#[trigger] final(self).players@[i]).actor.body,
                )
                &&& exists|launches: Seq<Seq<Actor<B>>>| {
                    &&& #[trigger] volley_plan(launches, *make_shot, before, final(self).players@, old(self).local_player_index, old(self).curr_time)
                    &&& final(self).shots@ == old(self).shots@ + concat(launches)
                    &&& final(self).local_shots_made@ == old(self).local_shots_made@ + concat(local_share(launches, before, old(self).local_player_index))
                }
                &&& final(self).play_sounds == (PlaySounds {
                    play_shot: old(self).play_sounds.play_shot || exists|i: int| 0 <= i < before.len() && ready_to_fire(#[trigger] before[i], old(self).curr_time),
                    ..old(self).play_sounds
                })
            }),
            final(self).players@.len() == old(self).players@.len(),
            forall|i: int| 0 <= i < old(self).players@.len() ==> (#[trigger] final(self).players@[i]).input
                == (if old(self).local_player_index is Some && old(self).local_player_index.unwrap() == i { old(self).local_input } else { old(self).players@[i].input }),
            *final(self) == (MainState {
                players: final(self).players,
                shots: final(self).shots,
                local_shots_made: final(self).local_shots_made,
                play_sounds: final(self).play_sounds,
                ..*old(self)
            }),
    {
        if let Some(index) = self.local_player_index {
            if self.players.len() > index {
                let mut p = self.players[index];
                p.input = self.local_input;
                self.players.set(index, p);
            }
        }
        let ghost before = self.players@;
        assert(before =~= with_local_input(old(self).players@, old(self).local_player_index, old(self).local_input));
        let w = self.screen_width;
        let h = self.screen_height;
        Self::steer_players(&mut self.players, steer, w, h);
        let ghost steered_players = self.players@;
        let local = self.local_player_index;
        let now = self.curr_time;
        let fired = Self::fire_volleys(&mut self.players, &mut self.shots, &mut self.local_shots_made, local, now, make_shot);
        if fired {
            self.play_sounds.play_shot = true;
        }
        proof {
            let launches = choose|launches: Seq<Seq<Actor<B>>>| {
                &&& #[trigger] volley_plan(launches, *make_shot, steered_players, self.players@, local, now)
                &&& self.shots@ == old(self).shots@ + concat(launches)
                &&& self.local_shots_made@ == old(self).local_shots_made@ + concat(local_share(launches, steered_players, local))
            };
            lemma_steer_then_fire(*steer, w, h, *make_shot, before, steered_players, self.players@, local, now, launches);
        }
    }

    /// `c` holds what `touching` answered for every rock against every
    /// ship and every shot against every rock of `self`.
    pub open spec fn observed<T: Fn(B, B) -> bool>(&self, touching: T, c: Collisions) -> bool {
        &&& c.fits(self.rocks@.len(), self.players@.len(), self.shots@.len())
        &&& forall|r: int, p: int| 0 <= r < self.rocks@.len() && 0 <= p < self.players@.len()
            ==> touching.ensures((self.rocks@[r].body, self.players@[p].actor.body), #[trigger] c.players()[r][p])
        &&& forall|r: int, s: int| 0 <= r < self.rocks@.len() && 0 <= s < self.shots@.len()
            ==> touching.ensures((self.shots@[s].body, self.rocks@[r].body), #[trigger] c.shots()[r][s])
    }

    /// `self` and `report` are what the contacts `c` make of `before`.
    /// Every contact of a shot and a rock marks both and scores one point
    /// and requests the hit sound. A contact of a rock and a ship ends the
    /// round, reporting the score with those points, and requests the hit sound.
    pub open spec fn collided_from(&self, before: Self, c: Collisions, report: Option<GameOver>) -> bool {
        let hits = count_hits(c.shots());
        if any_hit(c.players()) {
            &&& report == Some(GameOver { time: before.curr_time, score: (before.score + hits) as u64 })
            &&& self.restarted_from(before)
            &&& self.play_sounds == (PlaySounds { play_hit: true, ..before.play_sounds })
        } else {
            &&& report is None
            &&& self.score == before.score + hits
            &&& self.shots@.len() == before.shots@.len()
            &&& forall|j: int| 0 <= j < before.shots@.len() ==> (#[trigger] self.shots@[j]) == (Actor {
                body: before.shots@[j].body,
                kill: before.shots@[j].kill || column_hit(c.shots(), j),
            })
            &&& self.rocks@.len() == before.rocks@.len()
            &&& forall|r: int| 0 <= r < before.rocks@.len() ==> (#[trigger] self.rocks@[r]) == (Actor {
                body: before.rocks@[r].body,
                kill: before.rocks@[r].kill || any_true(c.shots()[r]),
            })
            &&& self.play_sounds == (PlaySounds { play_hit: before.play_sounds.play_hit || hits > 0, ..before.play_sounds })
            &&& *self == (MainState {
                shots: self.shots,
                rocks: self.rocks,
                score: self.score,
                play_sounds: self.play_sounds,
                ..before
            })
        }
    }

    /// Asks `touching` about every rock against every ship and every shot
    /// against every rock.
    pub fn observe_collisions<T: Fn(B, B) -> bool>(&self, touching: &T) -> (c: Collisions)
        requires
            forall|a: B, b: B| touching.requires((a, b)),
        ensures
            self.observed(*touching, c),
    {
        let mut player_contact: Vec<Vec<bool>> = Vec::new();
        let mut shot_contact: Vec<Vec<bool>> = Vec::new();
        let mut r: usize = 0;
        while r < self.rocks.len()
            invariant
                r <= self.rocks@.len(),
                forall|a: B, b: B| touching.requires((a, b)),
                player_contact@.len() == r,
                shot_contact@.len() == r,
                forall|q: int| 0 <= q < r ==> (#[trigger] player_contact@[q])@.len() == self.players@.len(),
                forall|q: int| 0 <= q < r ==> (#[trigger] shot_contact@[q])@.len() == self.shots@.len(),
                forall|q: int, p: int| 0 <= q < r && 0 <= p < self.players@.len()
                    ==> touching.ensures((self.rocks@[q].body, self.players@[p].actor.body), #[trigger] player_contact@[q]@[p]),
                forall|q: int, s: int| 0 <= q < r && 0 <= s < self.shots@.len()
                    ==> touching.ensures((self.shots@[s].body, self.rocks@[q].body), #[trigger] shot_contact@[q]@[s]),
            decreases self.rocks.len() - r,
        {
            let rock = self.rocks[r].body;
            let prow = player_contacts(rock, &self.players, touching);
            let srow = shot_contacts(rock, &self.shots, touching);
            player_contact.push(prow);
            shot_contact.push(srow);
            r = r + 1;
        }
        let c = Collisions { player_contact, shot_contact };
        assert forall|q: int| 0 <= q < self.rocks@.len() implies (#[trigger] c.players()[q]).len() == self.players@.len() by {
            assert(c.players()[q] == c.player_contact@[q]@);
        }
        assert forall|q: int| 0 <= q < self.rocks@.len() implies (#[trigger] c.shots()[q]).len() == self.shots@.len() by {
            assert(c.shots()[q] == c.shot_contact@[q]@);
        }
        assert forall|q: int, p: int| 0 <= q < self.rocks@.len() && 0 <= p < self.players@.len()
            implies touching.ensures((self.rocks@[q].body, self.players@[p].actor.body), #[trigger] c.players()[q][p]) by {
            assert(c.players()[q] == c.player_contact@[q]@);
        }
        assert forall|q: int, s: int| 0 <= q < self.rocks@.len() && 0 <= s < self.shots@.len()
            implies touching.ensures((self.shots@[s].body, self.rocks@[q].body), #[trigger] c.shots()[q][s]) by {
            assert(c.shots()[q] == c.shot_contact@[q]@);
        }
        c
    }

    /// Applies the contacts `c`: marks every shot and rock in contact,
    /// scores one point per contact of a shot and a rock, requests the hit
    /// sound on any contact, and ends the round when a rock touched a ship,
    /// returning the score reached.
    pub fn apply_collisions(&mut self, c: &Collisions) -> (report: Option<GameOver>)
        requires
            c.fits(old(self).rocks@.len(), old(self).players@.len(), old(self).shots@.len()),
            old(self).score + count_hits(c.shots()) <= u64::MAX,
        ensures
            final(self).collided_from(*old(self), *c, report),
    {
        let ghost m = c.shots();
        let ghost pm = c.players();
        let ghost before = *self;
        let mut restart = false;
        let mut r: usize = 0;
        assert(m.take(0) =~= Seq::<Seq<bool>>::empty());
        while r < self.rocks.len()
            invariant
                r <= self.rocks@.len(),
                m == c.shots(),
                pm == c.players(),
                before == *old(self),
                c.fits(before.rocks@.len(), before.players@.len(), before.shots@.len()),
                before.score + count_hits(m) <= u64::MAX,
                restart == exists|q: int| 0 <= q < r && any_true(#[trigger] pm[q]),
                self.score == before.score + count_hits(m.take(r as int)),
                self.shots@.len() == before.shots@.len(),
                forall|j: int| 0 <= j < before.shots@.len() ==> (#[trigger] self.shots@[j]) == (Actor {
                    body: before.shots@[j].body,
                    kill: before.shots@[j].kill || column_hit(m.take(r as int), j),
                }),
                self.rocks@.len() == before.rocks@.len(),
                forall|q: int| 0 <= q < r ==> (#[trigger] self.rocks@[q]) == (Actor {
                    body: before.rocks@[q].body,
                    kill: before.rocks@[q].kill || any_true(m[q]),
                }),
                forall|q: int| r <= q < self.rocks@.len() ==> self.rocks@[q] == before.rocks@[q],
                self.play_sounds == (PlaySounds { play_hit: before.play_sounds.play_hit || count_hits(m.take(r as int)) > 0, ..before.play_sounds }),
                *self == (MainState {
                    shots: self.shots,
                    rocks: self.rocks,
                    score: self.score,
                    play_sounds: self.play_sounds,
                    ..before
                }),
            decreases self.rocks.len() - r,
        {
            assert(c.player_contact@[r as int]@ == pm[r as int]);
            assert(c.shot_contact@[r as int]@ == m[r as int]);
            if row_has_hit(&c.player_contact[r]) {
                restart = true;
            }
            let ghost shots_before = self.shots@;
            let k = mark_hit_shots(&mut self.shots, &c.shot_contact[r]);
            proof {
                lemma_count_true(m[r as int]);
                lemma_count_hits(m, r as int + 1);
                assert forall|j: int| 0 <= j < before.shots@.len() implies (#[trigger] self.shots@[j]) == (Actor {
                    body: before.shots@[j].body,
                    kill: before.shots@[j].kill || column_hit(m.take(r as int + 1), j),
                }) by {
                    lemma_column_hit_step(m, r as int, j);
                    assert(shots_before[j] == (Actor {
                        body: before.shots@[j].body,
                        kill: before.shots@[j].kill || column_hit(m.take(r as int), j),
                    }));
                }
                lemma_column_hit_step(m, r as int, 0);
                if restart {
                    if !any_true(pm[r as int]) {
                        let q = choose|q: int| 0 <= q < r && any_true(#[trigger] pm[q]);
                        assert(0 <= q < r + 1 && any_true(pm[q]));
                    }
                }
            }
            if k > 0 {
                let rock = self.rocks[r];
                self.rocks.set(r, Actor { body: rock.body, kill: true });
                self.play_sounds.play_hit = true;
            }
            self.score = self.score + k as u64;
            r = r + 1;
        }
        assert(m.take(r as int) =~= m);
        proof {
            if any_hit(pm) {
                let q = choose|q: int| 0 <= q < pm.len() && any_true(#[trigger] pm[q]);
                assert(restart);
            }
            if restart {
                let q = choose|q: int| 0 <= q < r && any_true(#[trigger] pm[q]);
                assert(any_hit(pm));
            }
        }
        if restart {
            let ghost mid = *self;
            let report = self.restart_game();
            self.play_sounds.play_hit = true;
            assert(all_killed(mid.shots@) =~= all_killed(before.shots@));
            assert(all_killed(mid.rocks@) =~= all_killed(before.rocks@));
            Some(report)
        } else {
            None
        }
    }

    /// Finds every contact with `touching` and applies it: the two steps of
    /// `observe_collisions` and `apply_collisions`. The score must have room
    /// for one point per contact that `touching` may report; one point per
    /// pair of a rock and a shot is always enough (`lemma_hits_within_pairs`).
    pub fn handle_collisions<T: Fn(B, B) -> bool>(&mut self, touching: &T) -> (report: Option<GameOver>)
        requires
            forall|a: B, b: B| touching.requires((a, b)),
            forall|c: Collisions| #[trigger] old(self).observed(*touching, c) ==> old(self).score + count_hits(c.shots()) <= u64::MAX,
        ensures
            exists|c: Collisions| #[trigger] old(self).observed(*touching, c) && final(self).collided_from(*old(self), c, report),
    {
        let ghost before = *self;
        let c = self.observe_collisions(touching);
        assert(before.observed(*touching, c));
        let report = self.apply_collisions(&c);
        assert(before.observed(*touching, c));
        report
    }

    /// Some shot and some rock of `self` were reported in contact by `touching`.
    pub open spec fn some_shot_contact<T: Fn(B, B) -> bool>(&self, touching: T) -> bool {
        exists|r: int, s: int| 0 <= r < self.rocks@.len() && 0 <= s < self.shots@.len()
            && touching.ensures((#[trigger] self.shots@[s].body, #[trigger] self.rocks@[r].body), true)
    }

    /// Every shot and every rock of `self` were reported apart by `touching`.
    pub open spec fn no_shot_contact<T: Fn(B, B) -> bool>(&self, touching: T) -> bool {
        forall|r: int, s: int| 0 <= r < self.rocks@.len() && 0 <= s < self.shots@.len()
            ==> touching.ensures((#[trigger] self.shots@[s].body, #[trigger] self.rocks@[r].body), false)
    }

    /// On a client, which does not decide contacts: requests the hit sound
    /// as soon as `touching` reports some shot in contact with some rock,
    /// and changes nothing else.
    pub fn client_handle_sounds<T: Fn(B, B) -> bool>(&mut self, touching: &T)
        requires
            forall|a: B, b: B| touching.requires((a, b)),
        ensures
            (final(self).play_sounds == (PlaySounds { play_hit: true, ..old(self).play_sounds }) && old(self).some_shot_contact(*touching))
                || (final(self).play_sounds == old(self).play_sounds && old(self).no_shot_contact(*touching)),
            *final(self) == (MainState { play_sounds: final(self).play_sounds, ..*old(self) }),
    {
        let mut r: usize = 0;
        while r < self.rocks.len()
            invariant
                r <= self.rocks@.len(),
                forall|a: B, b: B| touching.requires((a, b)),
                *self == *old(self),
                forall|q: int, s: int| 0 <= q < r && 0 <= s < self.shots@.len()
                    ==> touching.ensures((#[trigger] self.shots@[s].body, #[trigger] self.rocks@[q].body), false),
            decreases self.rocks.len() - r,
        {
            let mut s: usize = 0;
            while s < self.shots.len()
                invariant
                    r < self.rocks@.len(),
                    s <= self.shots@.len(),
                    forall|a: B, b: B| touching.requires((a, b)),
                    *self == *old(self),
                    forall|q: int, t: int| 0 <= q < r && 0 <= t < self.shots@.len()
                        ==> touching.ensures((#[trigger] self.shots@[t].body, #[trigger] self.rocks@[q].body), false),
                    forall|t: int| 0 <= t < s
                        ==> touching.ensures((#[trigger] self.shots@[t].body, self.rocks@[r as int].body), false),
                decreases self.shots.len() - s,
            {
                if touching(self.shots[s].body, self.rocks[r].body) {
                    assert(old(self).some_shot_contact(*touching)) by {
                        assert(touching.ensures((self.shots@[s as int].body, self.rocks@[r as int].body), true));
                    }
                    self.play_sounds.play_hit = true;
                    return;
                }
                s = s + 1;
            }
            r = r + 1;
        }
    }
}

} // verus!
