use vstd::prelude::*;
use crate::actor::{Actor, Player};

verus! {

/// What a collision test answered for every pair that the game examines in
/// one step: `player_contact[r][p]` for rock `r` and player `p`,
/// `shot_contact[r][s]` for rock `r` and shot `s`.
pub struct Collisions {
    pub player_contact: Vec<Vec<bool>>,
    pub shot_contact: Vec<Vec<bool>>,
}

/// The rows of a boolean matrix as sequences.
pub open spec fn rows(m: Seq<Vec<bool>>) -> Seq<Seq<bool>> {
    m.map_values(|row: Vec<bool>| row@)
}

impl Collisions {
    pub open spec fn players(&self) -> Seq<Seq<bool>> {
        rows(self.player_contact@)
    }

    pub open spec fn shots(&self) -> Seq<Seq<bool>> {
        rows(self.shot_contact@)
    }

    /// The answers cover `rocks` rocks, `players` players and `shots` shots.
    pub open spec fn fits(&self, rocks: nat, players: nat, shots: nat) -> bool {
        &&& self.player_contact@.len() == rocks
        &&& self.shot_contact@.len() == rocks
        &&& forall|r: int| 0 <= r < rocks ==> (#[trigger] self.players()[r]).len() == players
        &&& forall|r: int| 0 <= r < rocks ==> (#[trigger] self.shots()[r]).len() == shots
    }
}

/// How many entries of `s` are true.
pub open spec fn count_true(s: Seq<bool>) -> nat
    decreases s.len(),
{
    if s.len() == 0 {
        0
    } else {
        count_true(s.drop_last()) + if s.last() { 1nat } else { 0nat }
    }
}

/// How many entries of the matrix `m` are true.
pub open spec fn count_hits(m: Seq<Seq<bool>>) -> nat
    decreases m.len(),
{
    if m.len() == 0 {
        0
    } else {
        count_hits(m.drop_last()) + count_true(m.last())
    }
}

/// Some entry of `s` is true.
pub open spec fn any_true(s: Seq<bool>) -> bool {
    exists|i: int| 0 <= i < s.len() && #[trigger] s[i]
}

/// Some entry of the matrix `m` is true.
pub open spec fn any_hit(m: Seq<Seq<bool>>) -> bool {
    exists|r: int| 0 <= r < m.len() && any_true(#[trigger] m[r])
}

/// Some row of `m` has a true entry in column `j`.
pub open spec fn column_hit(m: Seq<Seq<bool>>, j: int) -> bool {
    exists|r: int| 0 <= r < m.len() && #[trigger] m[r][j]
}

/// A row has a true entry exactly when its count is positive; a count never
/// exceeds the length.
pub proof fn lemma_count_true(s: Seq<bool>)
    ensures
        count_true(s) <= s.len(),
        any_true(s) <==> count_true(s) > 0,
    decreases s.len(),
{
    if s.len() > 0 {
        let d = s.drop_last();
        lemma_count_true(d);
        if any_true(d) {
            let i = choose|i: int| 0 <= i < d.len() && #[trigger] d[i];
            assert(s[i]);
        }
        if any_true(s) && !s.last() {
            let i = choose|i: int| 0 <= i < s.len() && #[trigger] s[i];
            assert(d[i]);
        }
    }
}

/// The count of a prefix of rows never exceeds the count of the whole matrix,
/// and the matrix has a true entry exactly when its count is positive.
pub proof fn lemma_count_hits(m: Seq<Seq<bool>>, k: int)
    requires
        0 <= k <= m.len(),
    ensures
        count_hits(m.take(k)) <= count_hits(m),
        any_hit(m) <==> count_hits(m) > 0,
    decreases m.len(),
{
    if m.len() > 0 {
        let d = m.drop_last();
        lemma_count_true(m.last());
        if k == m.len() {
            assert(m.take(k) =~= m);
            lemma_count_hits(d, 0);
        } else {
            assert(m.take(k) =~= d.take(k));
            lemma_count_hits(d, k);
        }
        if any_hit(d) {
            let r = choose|r: int| 0 <= r < d.len() && any_true(#[trigger] d[r]);
            assert(m[r] == d[r]);
        }
        if any_hit(m) && !any_true(m.last()) {
            let r = choose|r: int| 0 <= r < m.len() && any_true(#[trigger] m[r]);
            assert(d[r] == m[r]);
        }
    } else {
        assert(m.take(k) =~= m);
    }
}

/// Adding row `r` to the first `r` rows adds its entries to the column hits.
pub proof fn lemma_column_hit_step(m: Seq<Seq<bool>>, r: int, j: int)
    requires
        0 <= r < m.len(),
    ensures
        column_hit(m.take(r + 1), j) == (column_hit(m.take(r), j) || m[r][j]),
        count_hits(m.take(r + 1)) == count_hits(m.take(r)) + count_true(m[r]),
{
    let a = m.take(r);
    let b = m.take(r + 1);
    assert(b.drop_last() =~= a);
    if column_hit(b, j) {
        let q = choose|q: int| 0 <= q < b.len() && #[trigger] b[q][j];
        if q < r {
            assert(a[q][j]);
        }
    }
    if column_hit(a, j) {
        let q = choose|q: int| 0 <= q < a.len() && #[trigger] a[q][j];
        assert(b[q][j]);
    }
    if m[r][j] {
        assert(b[r][j]);
    }
}

/// A matrix of `m.len()` rows of length `k` has at most `m.len() * k` true entries.
pub proof fn lemma_count_hits_bound(m: Seq<Seq<bool>>, k: nat)
    requires
        forall|r: int| 0 <= r < m.len() ==> (#[trigger] m[r]).len() == k,
    ensures
        count_hits(m) <= m.len() * k,
    decreases m.len(),
{
    if m.len() > 0 {
        let d = m.drop_last();
        assert forall|r: int| 0 <= r < d.len() implies (#[trigger] d[r]).len() == k by {
            assert(d[r] == m[r]);
        }
        lemma_count_hits_bound(d, k);
        lemma_count_true(m.last());
        let n = m.len();
        assert((n - 1) * k + k == n * k) by (nonlinear_arith);
    }
}

/// What `touching` answers for `rock` against each ship, in order.
pub fn player_contacts<B: Copy, T: Fn(B, B) -> bool>(rock: B, players: &Vec<Player<B>>, touching: &T) -> (row: Vec<bool>)
    requires
        forall|a: B, b: B| touching.requires((a, b)),
    ensures
        row@.len() == players@.len(),
        forall|p: int| 0 <= p < players@.len() ==> touching.ensures((rock, players@[p].actor.body), #[trigger] row@[p]),
{
    let mut row: Vec<bool> = Vec::new();
    let mut p: usize = 0;
    while p < players.len()
        invariant
            p <= players@.len(),
            forall|a: B, b: B| touching.requires((a, b)),
            row@.len() == p,
            forall|q: int| 0 <= q < p ==> touching.ensures((rock, players@[q].actor.body), #[trigger] row@[q]),
        decreases players.len() - p,
    {
        let hit = touching(rock, players[p].actor.body);
        row.push(hit);
        p = p + 1;
    }
    row
}

/// What `touching` answers for each shot against `rock`, in order.
pub fn shot_contacts<B: Copy, T: Fn(B, B) -> bool>(rock: B, shots: &Vec<Actor<B>>, touching: &T) -> (row: Vec<bool>)
    requires
        forall|a: B, b: B| touching.requires((a, b)),
    ensures
        row@.len() == shots@.len(),
        forall|s: int| 0 <= s < shots@.len() ==> touching.ensures((shots@[s].body, rock), #[trigger] row@[s]),
{
    let mut row: Vec<bool> = Vec::new();
    let mut s: usize = 0;
    while s < shots.len()
        invariant
            s <= shots@.len(),
            forall|a: B, b: B| touching.requires((a, b)),
            row@.len() == s,
            forall|q: int| 0 <= q < s ==> touching.ensures((shots@[q].body, rock), #[trigger] row@[q]),
        decreases shots.len() - s,
    {
        let hit = touching(shots[s].body, rock);
        row.push(hit);
        s = s + 1;
    }
    row
}

/// Whether some entry of `row` is true.
pub fn row_has_hit(row: &Vec<bool>) -> (r: bool)
    ensures
        r == any_true(row@),
{
    let mut i: usize = 0;
    while i < row.len()
        invariant
            i <= row@.len(),
            forall|j: int| 0 <= j < i ==> !row@[j],
        decreases row.len() - i,
    {
        if row[i] {
            return true;
        }
        i = i + 1;
    }
    false
}

/// Marks every shot whose entry in `row` is true and returns how many
/// entries are true.
pub fn mark_hit_shots<B: Copy>(shots: &mut Vec<Actor<B>>, row: &Vec<bool>) -> (n: usize)
    requires
        row@.len() == old(shots)@.len(),
    ensures
        n == count_true(row@),
        final(shots)@.len() == old(shots)@.len(),
        forall|j: int| 0 <= j < old(shots)@.len() ==> (#[trigger] final(shots)@[j]) == (Actor {
            body: old(shots)@[j].body,
            kill: old(shots)@[j].kill || row@[j],
        }),
{
    let mut n: usize = 0;
    let mut j: usize = 0;
    assert(row@.take(0) =~= Seq::<bool>::empty());
    while j < shots.len()
        invariant
            j <= shots@.len(),
            row@.len() == shots@.len(),
            shots@.len() == old(shots)@.len(),
            n == count_true(row@.take(j as int)),
            n <= j,
            forall|k: int| 0 <= k < j ==> (#[trigger] shots@[k]) == (Actor {
                body: old(shots)@[k].body,
                kill: old(shots)@[k].kill || row@[k],
            }),
            forall|k: int| j <= k < shots@.len() ==> shots@[k] == old(shots)@[k],
        decreases shots.len() - j,
    {
        assert(row@.take(j as int + 1).drop_last() =~= row@.take(j as int));
        if row[j] {
            let a = shots[j];
            shots.set(j, Actor { body: a.body, kill: true });
            n = n + 1;
        }
        j = j + 1;
    }
    assert(row@.take(j as int) =~= row@);
    n
}

} // verus!
