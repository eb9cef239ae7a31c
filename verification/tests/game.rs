use rust_blaster::actor::{Actor, Player, SHOT_COOLDOWN_MICROS};
use rust_blaster::collision::Collisions;
use rust_blaster::input::{InputState, Key};
use rust_blaster::sound::{PlaySounds, SoundCues};
use rust_blaster::state::{GameOver, MainState, UiStatus};

// Bodies in these tests are plain positions on a line.
type Body = i64;

fn no_steer(b: Body, _i: InputState, _w: u32, _h: u32) -> Body {
    b
}

fn steer_right(b: Body, i: InputState, _w: u32, _h: u32) -> Body {
    if i.right { b + 1 } else { b }
}

fn shot_from(b: Body, spread: i8) -> Body {
    b * 10 + spread as i64
}

fn step(b: Body) -> Body {
    b + 5
}

fn outside(b: Body, w: u32, _h: u32) -> bool {
    b > w as i64
}

fn same_place(a: Body, b: Body) -> bool {
    a == b
}

fn bodies(v: &Vec<Actor<Body>>) -> Vec<Body> {
    let mut r = Vec::new();
    for a in v {
        r.push(a.body);
    }
    r
}

fn kills(v: &Vec<Actor<Body>>) -> Vec<bool> {
    let mut r = Vec::new();
    for a in v {
        r.push(a.kill);
    }
    r
}

#[test]
fn new_state_is_a_server_with_one_fresh_player() {
    let s = MainState::new(800, 600, 3);
    assert_eq!(s.local_player_index, Some(0));
    assert!(s.is_server());
    assert_eq!(s.players.len(), 1);
    assert_eq!(s.players[0].index, 0);
    assert_eq!(s.players[0].actor.body, 3);
    assert!(!s.players[0].actor.kill);
    assert_eq!(s.players[0].input, InputState::default());
    assert_eq!(s.players[0].last_shot_at, 0);
    assert_eq!(s.score, 0);
    assert_eq!(s.curr_time, 0);
    assert_eq!(s.connections, 0);
    assert_eq!(s.screen_width, 800);
    assert_eq!(s.screen_height, 600);
    assert!(s.shots.is_empty() && s.rocks.is_empty() && s.local_shots_made.is_empty());
    assert_eq!(s.play_sounds, PlaySounds::default());
}

#[test]
fn local_player_is_found_by_index() {
    let mut s = MainState::new(800, 600, 3);
    s.add_player(4);
    assert_eq!(s.get_local_player().map(|p| p.actor.body), Some(3));
    s.local_player_index = Some(1);
    assert_eq!(s.get_local_player().map(|p| p.actor.body), Some(4));
    assert!(!s.is_server());
    s.local_player_index = Some(2);
    assert!(s.get_local_player().is_none());
    s.local_player_index = None;
    assert!(s.get_local_player().is_none());
    assert!(!s.is_server());
}

#[test]
fn added_players_are_numbered_by_position() {
    let mut s = MainState::new(800, 600, 0);
    assert_eq!(s.add_player(10), 1);
    assert_eq!(s.add_player(20), 2);
    for (i, p) in s.players.iter().enumerate() {
        assert_eq!(p.index as usize, i);
    }
    assert_eq!(s.players[2].actor.body, 20);
    assert_eq!(s.players[2].last_shot_at, 0);
}

#[test]
fn a_volley_is_three_live_shots_left_straight_right() {
    let mut shots: Vec<Actor<Body>> = vec![Actor::new(99)];
    MainState::<Body>::spawn_shots(&mut shots, &7, &shot_from);
    assert_eq!(bodies(&shots), vec![99, 69, 70, 71]);
    assert_eq!(kills(&shots), vec![false, false, false, false]);
}

#[test]
fn a_player_fires_from_its_ship() {
    let mut shots: Vec<Actor<Body>> = Vec::new();
    let p = Player::create(4, 0);
    MainState::<Body>::fire_player_shot(&mut shots, &p, &shot_from);
    assert_eq!(bodies(&shots), vec![39, 40, 41]);
}

#[test]
fn clearing_drops_marked_actors_and_keeps_order() {
    let mut s = MainState::new(800, 600, 0);
    s.shots = vec![Actor { body: 1, kill: false }, Actor { body: 2, kill: true }, Actor { body: 3, kill: false }];
    s.rocks = vec![Actor { body: 4, kill: true }, Actor { body: 5, kill: false }];
    s.clear_dead_stuff();
    assert_eq!(bodies(&s.shots), vec![1, 3]);
    assert_eq!(bodies(&s.rocks), vec![5]);
    s.clear_dead_stuff();
    assert_eq!(bodies(&s.shots), vec![1, 3]);
    assert_eq!(bodies(&s.rocks), vec![5]);
}

#[test]
fn restart_reports_and_resets_the_round() {
    let mut s = MainState::new(800, 600, 0);
    s.add_player(1);
    s.score = 12;
    s.curr_time = 5_000_000;
    s.local_input.fire = true;
    s.players[1].last_shot_at = 4_000_000;
    s.players[1].input.left = true;
    s.shots = vec![Actor::new(1), Actor::new(2)];
    s.rocks = vec![Actor::new(3)];
    s.local_shots_made = vec![Actor::new(4)];
    let report = s.restart_game();
    assert_eq!(report, GameOver { time: 5_000_000, score: 12 });
    assert_eq!(s.score, 0);
    assert_eq!(s.curr_time, 5_000_000);
    assert_eq!(s.local_input, InputState::default());
    assert_eq!(s.players[1].last_shot_at, 0);
    assert_eq!(s.players[1].input, InputState::default());
    assert_eq!(s.players[1].index, 1);
    assert_eq!(kills(&s.shots), vec![true, true]);
    assert_eq!(kills(&s.rocks), vec![true]);
    assert_eq!(kills(&s.local_shots_made), vec![false]);
    s.clear_dead_stuff();
    assert!(s.shots.is_empty());
    assert!(s.rocks.is_empty());
}

#[test]
fn keys_set_and_clear_their_flags() {
    let mut s = MainState::new(800, 600, 0);
    assert!(!s.s_key_down_event(Key::Space));
    assert!(s.local_input.fire);
    assert!(!s.s_key_down_event(Key::Left));
    assert!(s.local_input.left);
    s.s_key_up_event(Key::Space);
    assert!(!s.local_input.fire);
    assert!(s.local_input.left);
    assert!(!s.s_key_down_event(Key::Other));
    assert_eq!(s.local_input, InputState { up: false, down: false, left: true, right: false, fire: false });
    assert!(s.s_key_down_event(Key::Escape));
    s.s_key_up_event(Key::Left);
    assert_eq!(s.local_input, InputState::default());
    assert!(!s.s_key_down_event(Key::Up));
    assert!(!s.s_key_down_event(Key::Down));
    assert!(!s.s_key_down_event(Key::Right));
    assert_eq!(s.local_input, InputState { up: true, down: true, left: false, right: true, fire: false });
}

#[test]
fn pending_sounds_start_unless_still_playing() {
    let mut s = MainState::new(800, 600, 0);
    s.play_sounds = PlaySounds { play_hit: true, play_shot: true };
    let cues = s.play_sounds(false, true);
    assert_eq!(cues, SoundCues { start_hit: true, start_shot: false });
    assert_eq!(s.play_sounds, PlaySounds::default());
    let cues = s.play_sounds(false, false);
    assert_eq!(cues, SoundCues { start_hit: false, start_shot: false });
    s.play_sounds.play_shot = true;
    s.clear_sounds();
    assert_eq!(s.play_sounds, PlaySounds { play_hit: false, play_shot: false });
}

#[test]
fn status_line_by_role() {
    let mut s = MainState::new(800, 600, 0);
    s.connections = 3;
    s.add_player(1);
    assert_eq!(s.ui_status(), UiStatus::Server { players: 2, spectators: 2 });
    s.local_player_index = Some(1);
    assert_eq!(s.ui_status(), UiStatus::Client { player_id: 1 });
    s.local_player_index = None;
    assert_eq!(s.ui_status(), UiStatus::Spectator);
}

#[test]
fn a_held_fire_key_fires_once_per_cooldown() {
    let mut s = MainState::new(800, 600, 2);
    s.s_key_down_event(Key::Space);
    s.s_key_down_event(Key::Right);
    s.curr_time = SHOT_COOLDOWN_MICROS - 1;
    s.update_player_inputs(&steer_right, &shot_from);
    assert_eq!(s.players[0].actor.body, 3);
    assert!(s.shots.is_empty());
    assert!(!s.play_sounds.play_shot);
    s.curr_time = 300_000;
    s.update_player_inputs(&steer_right, &shot_from);
    assert_eq!(s.players[0].actor.body, 4);
    assert_eq!(s.players[0].last_shot_at, 300_000);
    assert_eq!(bodies(&s.shots), vec![39, 40, 41]);
    assert!(s.play_sounds.play_shot);
    assert!(s.local_shots_made.is_empty());
    s.update_player_inputs(&steer_right, &shot_from);
    assert_eq!(s.shots.len(), 3);
    s.curr_time = 300_000 + SHOT_COOLDOWN_MICROS;
    s.update_player_inputs(&no_steer, &shot_from);
    assert_eq!(s.shots.len(), 6);
    assert_eq!(s.players[0].last_shot_at, 500_000);
}

#[test]
fn the_server_fires_only_its_own_player() {
    let mut s = MainState::new(800, 600, 1);
    s.add_player(2);
    s.players[1].input.fire = true;
    s.curr_time = 1_000_000;
    s.update_player_inputs(&no_steer, &shot_from);
    assert!(s.shots.is_empty());
    assert_eq!(s.players[1].last_shot_at, 1_000_000);
    assert!(s.play_sounds.play_shot);
}

#[test]
fn a_client_records_its_own_volleys() {
    let mut s = MainState::new(800, 600, 1);
    s.add_player(2);
    s.add_player(3);
    s.local_player_index = Some(1);
    s.local_input.fire = true;
    s.players[2].input.fire = true;
    s.curr_time = 1_000_000;
    s.update_player_inputs(&no_steer, &shot_from);
    assert_eq!(bodies(&s.shots), vec![19, 20, 21, 29, 30, 31]);
    assert_eq!(bodies(&s.local_shots_made), vec![19, 20, 21]);
    assert!(s.players[1].input.fire);
    assert!(!s.players[0].input.fire);
}

#[test]
fn a_spectator_fires_every_volley() {
    let mut s = MainState::new(800, 600, 1);
    s.add_player(2);
    s.local_player_index = None;
    s.players[0].input.fire = true;
    s.players[1].input.fire = true;
    s.curr_time = 1_000_000;
    s.update_player_inputs(&no_steer, &shot_from);
    assert_eq!(bodies(&s.shots), vec![9, 10, 11, 19, 20, 21]);
    assert!(s.local_shots_made.is_empty());
}

#[test]
fn physics_moves_everything_and_culls_what_left_the_screen() {
    let mut s = MainState::new(100, 100, 0);
    s.shots = vec![Actor::new(10), Actor::new(98), Actor { body: 0, kill: true }];
    s.rocks = vec![Actor::new(96), Actor::new(50)];
    s.local_shots_made = vec![Actor::new(200)];
    s.tick_physics(&step, &outside);
    assert_eq!(bodies(&s.shots), vec![15, 103, 5]);
    assert_eq!(kills(&s.shots), vec![false, true, true]);
    assert_eq!(bodies(&s.rocks), vec![101, 55]);
    assert_eq!(kills(&s.rocks), vec![true, false]);
    assert_eq!(bodies(&s.local_shots_made), vec![205]);
    assert_eq!(kills(&s.local_shots_made), vec![false]);
}

#[test]
fn each_shot_on_a_rock_scores_a_point() {
    let mut s = MainState::new(800, 600, 0);
    s.score = 5;
    s.rocks = vec![Actor::new(7), Actor::new(8)];
    s.shots = vec![Actor::new(7), Actor::new(9), Actor::new(7)];
    let report = s.handle_collisions(&same_place);
    assert_eq!(report, None);
    assert_eq!(s.score, 7);
    assert_eq!(kills(&s.shots), vec![true, false, true]);
    assert_eq!(kills(&s.rocks), vec![true, false]);
    assert!(s.play_sounds.play_hit);
}

#[test]
fn no_contact_changes_nothing() {
    let mut s = MainState::new(800, 600, 0);
    s.rocks = vec![Actor::new(7)];
    s.shots = vec![Actor::new(8)];
    let report = s.handle_collisions(&same_place);
    assert_eq!(report, None);
    assert_eq!(s.score, 0);
    assert_eq!(kills(&s.shots), vec![false]);
    assert_eq!(kills(&s.rocks), vec![false]);
    assert!(!s.play_sounds.play_hit);
}

#[test]
fn a_rock_on_a_ship_ends_the_round() {
    let mut s = MainState::new(800, 600, 4);
    s.score = 3;
    s.curr_time = 9_000_000;
    s.rocks = vec![Actor::new(4), Actor::new(6)];
    s.shots = vec![Actor::new(6), Actor::new(1)];
    s.players[0].last_shot_at = 8_000_000;
    let report = s.handle_collisions(&same_place);
    assert_eq!(report, Some(GameOver { time: 9_000_000, score: 4 }));
    assert_eq!(s.score, 0);
    assert_eq!(kills(&s.shots), vec![true, true]);
    assert_eq!(kills(&s.rocks), vec![true, true]);
    assert_eq!(s.players[0].last_shot_at, 0);
    assert!(s.play_sounds.play_hit);
}

#[test]
fn observed_contacts_follow_the_test() {
    let mut s = MainState::new(800, 600, 4);
    s.rocks = vec![Actor::new(4), Actor::new(6)];
    s.shots = vec![Actor::new(6)];
    let c = s.observe_collisions(&same_place);
    assert_eq!(c.player_contact, vec![vec![true], vec![false]]);
    assert_eq!(c.shot_contact, vec![vec![false], vec![true]]);
    let mut t = MainState::new(800, 600, 4);
    t.rocks = vec![Actor::new(1)];
    t.shots = vec![Actor::new(2), Actor::new(3)];
    let c = Collisions { player_contact: vec![vec![false]], shot_contact: vec![vec![false, true]] };
    assert_eq!(t.apply_collisions(&c), None);
    assert_eq!(t.score, 1);
    assert_eq!(kills(&t.shots), vec![false, true]);
    assert_eq!(kills(&t.rocks), vec![true]);
}

#[test]
fn a_client_only_plays_the_hit_sound() {
    let mut s = MainState::new(800, 600, 0);
    s.local_player_index = Some(1);
    s.rocks = vec![Actor::new(7)];
    s.shots = vec![Actor::new(8)];
    s.client_handle_sounds(&same_place);
    assert!(!s.play_sounds.play_hit);
    s.shots.push(Actor::new(7));
    s.client_handle_sounds(&same_place);
    assert!(s.play_sounds.play_hit);
    assert_eq!(kills(&s.shots), vec![false, false]);
    assert_eq!(s.score, 0);
}

#[test]
fn game_time_follows_the_clock_and_saturates() {
    let mut s = MainState::new(800, 600, 0);
    s.score = 2;
    s.update_time();
    assert!(s.curr_time < 60_000_000);
    assert_eq!(s.score, 2);
    s.set_elapsed(1_500_000);
    assert_eq!(s.curr_time, 1_500_000);
    s.set_elapsed(u128::MAX);
    assert_eq!(s.curr_time, u64::MAX);
    s.set_elapsed(u64::MAX as u128 + 1);
    assert_eq!(s.curr_time, u64::MAX);
    s.curr_time = 10;
    s.advance_time(6_944);
    assert_eq!(s.curr_time, 6_954);
    s.curr_time = u64::MAX - 1;
    s.advance_time(6_944);
    assert_eq!(s.curr_time, u64::MAX);
    s.curr_time = 77;
    s.reset_time();
    assert_eq!(s.curr_time, 77);
    s.update_time();
    assert!(s.curr_time < 60_000_000);
}
