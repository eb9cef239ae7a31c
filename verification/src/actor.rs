use vstd::prelude::*;
use crate::input::InputState;

verus! {

/// Minimum time between two volleys of one player, in microseconds.
pub const SHOT_COOLDOWN_MICROS: u64 = 200_000;

/// A moving object of the game: a player's ship, a shot or a rock.
/// `body` is its physical state; `kill` marks it for removal.
#[derive(Clone, Copy)]
pub struct Actor<B> {
    pub body: B,
    pub kill: bool,
}

impl<B> Actor<B> {
    /// A live actor with the given body.
    pub fn new(body: B) -> (a: Self)
        ensures
            a == (Actor { body, kill: false }),
    {
        Actor { body, kill: false }
    }
}

/// A ship together with its controls.
/// `last_shot_at` is the game time of its last volley, in microseconds.
#[derive(Clone, Copy)]
pub struct Player<B> {
    pub actor: Actor<B>,
    pub index: u32,
    pub input: InputState,
    pub last_shot_at: u64,
}

impl<B> Player<B> {
    /// A fresh player: live ship, no key held, never fired.
    pub open spec fn fresh(body: B, index: u32) -> Player<B> {
        Player {
            actor: Actor { body, kill: false },
            index,
            input: InputState::idle(),
            last_shot_at: 0,
        }
    }

    pub fn create(body: B, index: u32) -> (p: Self)
        ensures
            p == Player::fresh(body, index),
    {
        Player { actor: Actor::new(body), index, input: InputState::default(), last_shot_at: 0 }
    }
}

/// The sideways direction of the `k`-th shot of a volley: left, straight, right.
pub open spec fn spread(k: int) -> i8 {
    (k - 1) as i8
}

/// `launch` is a volley fired from `origin`: three live shots whose bodies
/// `make_shot` built from `origin` with the spreads -1, 0 and 1, in that order.
pub open spec fn is_volley<B, F: Fn(B, i8) -> B>(make_shot: F, origin: B, launch: Seq<Actor<B>>) -> bool {
    &&& launch.len() == 3
    &&& forall|k: int| 0 <= k < 3 ==> !(#[trigger] launch[k]).kill
    &&& forall|k: int| 0 <= k < 3 ==> make_shot.ensures((origin, spread(k)), #[trigger] launch[k].body)
}

/// The actors of `s` that are not marked for removal, in their order.
pub open spec fn survivors<B>(s: Seq<Actor<B>>) -> Seq<Actor<B>>
    decreases s.len(),
{
    if s.len() == 0 {
        s
    } else {
        let rest = survivors(s.drop_last());
        if s.last().kill {
            rest
        } else {
            rest.push(s.last())
        }
    }
}

/// `s` with every actor marked for removal.
pub open spec fn all_killed<B>(s: Seq<Actor<B>>) -> Seq<Actor<B>> {
    s.map_values(|a: Actor<B>| Actor { body: a.body, kill: true })
}

/// Removing the marked actors leaves only live ones, keeps every live one,
/// and doing it twice is the same as doing it once.
pub proof fn lemma_survivors<B>(s: Seq<Actor<B>>)
    ensures
        forall|i: int| 0 <= i < survivors(s).len() ==> !(#[trigger] survivors(s)[i]).kill,
        forall|i: int| 0 <= i < s.len() && !s[i].kill ==> survivors(s).contains(#[trigger] s[i]),
        survivors(s).len() <= s.len(),
        survivors(survivors(s)) == survivors(s),
    decreases s.len(),
{
    if s.len() > 0 {
        let d = s.drop_last();
        lemma_survivors(d);
        let r = survivors(d);
        assert forall|i: int| 0 <= i < s.len() && !s[i].kill implies survivors(s).contains(#[trigger] s[i]) by {
            if i < s.len() - 1 {
                assert(d[i] == s[i]);
                assert(r.contains(d[i]));
                let j = choose|j: int| 0 <= j < r.len() && r[j] == d[i];
                assert(survivors(s)[j] == s[i]);
            } else {
                assert(survivors(s)[survivors(s).len() - 1] == s[i]);
            }
        }
        lemma_survivors_of_live(survivors(s));
    }
}

/// A sequence without marked actors survives whole.
pub proof fn lemma_survivors_of_live<B>(s: Seq<Actor<B>>)
    requires
        forall|i: int| 0 <= i < s.len() ==> !(#[trigger] s[i]).kill,
    ensures
        survivors(s) == s,
    decreases s.len(),
{
    if s.len() > 0 {
        let d = s.drop_last();
        assert forall|i: int| 0 <= i < d.len() implies !(#[trigger] d[i]).kill by {
            assert(d[i] == s[i]);
        }
        lemma_survivors_of_live(d);
        assert(d.push(s.last()) =~= s);
    }
}

/// When every actor is marked, none survives.
pub proof fn lemma_survivors_of_killed<B>(s: Seq<Actor<B>>)
    requires
        forall|i: int| 0 <= i < s.len() ==> (#[trigger] s[i]).kill,
    ensures
        survivors(s).len() == 0,
    decreases s.len(),
{
    if s.len() > 0 {
        let d = s.drop_last();
        assert forall|i: int| 0 <= i < d.len() implies (#[trigger] d[i]).kill by {
            assert(d[i] == s[i]);
        }
        lemma_survivors_of_killed(d);
    }
}

/// The live actors of `v`, in their order.
pub fn keep_alive<B: Copy>(v: &Vec<Actor<B>>) -> (r: Vec<Actor<B>>)
    ensures
        r@ == survivors(v@),
{
    let mut r: Vec<Actor<B>> = Vec::new();
    let mut i: usize = 0;
    assert(v@.take(0) =~= Seq::<Actor<B>>::empty());
    while i < v.len()
        invariant
            i <= v.len(),
            r@ == survivors(v@.take(i as int)),
        decreases v.len() - i,
    {
        let a = v[i];
        assert(v@.take(i as int + 1).drop_last() =~= v@.take(i as int));
        if !a.kill {
            r.push(a);
        }
        i = i + 1;
    }
    assert(v@.take(v.len() as int) =~= v@);
    r
}

/// Marks every actor of `v` for removal.
pub fn kill_all<B: Copy>(v: &mut Vec<Actor<B>>)
    ensures
        final(v)@ == all_killed(old(v)@),
{
    let mut i: usize = 0;
    while i < v.len()
        invariant
            i <= v.len(),
            v@.len() == old(v)@.len(),
            forall|j: int| 0 <= j < i ==> v@[j] == (Actor { body: old(v)@[j].body, kill: true }),
            forall|j: int| i <= j < v@.len() ==> v@[j] == old(v)@[j],
        decreases v.len() - i,
    {
        let a = v[i];
        v.set(i, Actor { body: a.body, kill: true });
        i = i + 1;
    }
    assert(v@ =~= all_killed(old(v)@));
}

/// `after` is `before` moved one step by `advance`; marks are kept.
pub open spec fn moved<B, A: Fn(B) -> B>(advance: A, before: Seq<Actor<B>>, after: Seq<Actor<B>>) -> bool {
    &&& after.len() == before.len()
    &&& forall|i: int| 0 <= i < before.len() ==> advance.ensures((before[i].body,), (#[trigger] after[i]).body)
    &&& forall|i: int| 0 <= i < before.len() ==> (#[trigger] after[i]).kill == before[i].kill
}

/// `after` is `before` moved one step by `advance`, and every actor that
/// `out_of_bounds` found outside a `width` by `height` field after the move
/// is marked; no mark is removed.
pub open spec fn moved_and_culled<B, A: Fn(B) -> B, O: Fn(B, u32, u32) -> bool>(
    advance: A,
    out_of_bounds: O,
    width: u32,
    height: u32,
    before: Seq<Actor<B>>,
    after: Seq<Actor<B>>,
) -> bool {
    &&& after.len() == before.len()
    &&& forall|i: int| 0 <= i < before.len() ==> advance.ensures((before[i].body,), (#[trigger] after[i]).body)
    &&& forall|i: int| 0 <= i < before.len() && before[i].kill ==> (#[trigger] after[i]).kill
    &&& forall|i: int| 0 <= i < before.len() && !before[i].kill && (#[trigger] after[i]).kill
        ==> out_of_bounds.ensures((after[i].body, width, height), true)
    &&& forall|i: int| 0 <= i < before.len() && !(#[trigger] after[i]).kill
        ==> out_of_bounds.ensures((after[i].body, width, height), false)
}

/// Moves every actor of `v` one step with `advance`.
pub fn advance_all<B: Copy, A: Fn(B) -> B>(v: &mut Vec<Actor<B>>, advance: &A)
    requires
        forall|b: B| advance.requires((b,)),
    ensures
        moved(*advance, old(v)@, final(v)@),
{
    let mut i: usize = 0;
    while i < v.len()
        invariant
            i <= v.len(),
            forall|b: B| advance.requires((b,)),
            v@.len() == old(v)@.len(),
            forall|j: int| 0 <= j < i ==> advance.ensures((old(v)@[j].body,), (#[trigger] v@[j]).body),
            forall|j: int| 0 <= j < i ==> (#[trigger] v@[j]).kill == old(v)@[j].kill,
            forall|j: int| i <= j < v@.len() ==> v@[j] == old(v)@[j],
        decreases v.len() - i,
    {
        let a = v[i];
        let b = advance(a.body);
        v.set(i, Actor { body: b, kill: a.kill });
        i = i + 1;
    }
}

/// Moves every actor of `v` one step with `advance` and marks those that
/// `out_of_bounds` finds outside a `width` by `height` field.
pub fn advance_and_cull<B: Copy, A: Fn(B) -> B, O: Fn(B, u32, u32) -> bool>(
    v: &mut Vec<Actor<B>>,
    advance: &A,
    out_of_bounds: &O,
    width: u32,
    height: u32,
)
    requires
        forall|b: B| advance.requires((b,)),
        forall|b: B, w: u32, h: u32| out_of_bounds.requires((b, w, h)),
    ensures
        moved_and_culled(*advance, *out_of_bounds, width, height, old(v)@, final(v)@),
{
    let mut i: usize = 0;
    while i < v.len()
        invariant
            i <= v.len(),
            forall|b: B| advance.requires((b,)),
            forall|b: B, w: u32, h: u32| out_of_bounds.requires((b, w, h)),
            v@.len() == old(v)@.len(),
            forall|j: int| 0 <= j < i ==> advance.ensures((old(v)@[j].body,), (#[trigger] v@[j]).body),
            forall|j: int| 0 <= j < i && old(v)@[j].kill ==> (#[trigger] v@[j]).kill,
            forall|j: int| 0 <= j < i && !old(v)@[j].kill && (#[trigger] v@[j]).kill
                ==> out_of_bounds.ensures((v@[j].body, width, height), true),
            forall|j: int| 0 <= j < i && !(#[trigger] v@[j]).kill
                ==> out_of_bounds.ensures((v@[j].body, width, height), false),
            forall|j: int| i <= j < v@.len() ==> v@[j] == old(v)@[j],
        decreases v.len() - i,
    {
        let a = v[i];
        let b = advance(a.body);
        let outside = out_of_bounds(b, width, height);
        v.set(i, Actor { body: b, kill: a.kill || outside });
        i = i + 1;
    }
}

} // verus!
