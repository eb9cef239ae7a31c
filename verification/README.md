# Rust Blaster

A cooperative asteroid shooter. The game rules live in the verified library
under `src/`; the window, keyboard, sound, drawing and floating-point physics
live in the program under `app/`.

- `src/input.rs`: keyboard state and what pressing and releasing a key does.
- `src/sound.rs`: pending sounds and the cues handed to the audio device.
- `src/actor.rs`: actors and players, removal of marked actors, stepping
  actors with a physics function.
- `src/firing.rs`: who fires a volley, when, and where its shots go.
- `src/collision.rs`: contact answers and their counts.
- `src/clock.rs`: the monotonic clock.
- `src/state.rs`: the game state and every step of the game.

The library is generic over the physical body of an actor. Whatever has to
look inside a body (moving it, building a shot, testing a contact, testing
the screen bounds) is a function argument, and the contracts hold for every
such function.
