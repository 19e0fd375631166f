use vstd::prelude::*;
use crate::rand::GenState;
use crate::particles::{
    Particle, lemma_first_from, lemma_with_unique, lemma_without_unique, lemma_without_upto,
    occupied, unique, with, without,
};
use crate::rules::{
    feed_targets, fish_phase, fish_targets, fish_turn, gives_birth, hungry_turn, moved, newborn,
    pick, shark_phase, shark_targets, shark_turn, stepped, updated, Progress, WorldView,
};
use crate::rand::draw_value;
use crate::particles::{
    at, find_at, first_from, lemma_first_from_min, lemma_occupied, lemma_with_cells,
    lemma_without_cells, lemma_without_upto_keeps,
};
use crate::world::WorldState;
use crate::placement::initialized_world;

verus! {

/// Whether fish `f` leaves a newborn behind in its turn.
pub open spec fn fish_birth(w: WorldView, next_fish: Seq<Particle>, f: Particle) -> bool {
    fish_targets(w, next_fish, f).len() > 0 && gives_birth(f.reproduced, w.fish_spawn)
}

/// Whether shark `s` leaves a newborn behind in its turn.
pub open spec fn shark_birth(w: WorldView, p: Progress, s: Particle) -> bool {
    gives_birth(s.reproduced, w.shark_spawn) && (feed_targets(w, p.fish, s).len() > 0
        || shark_targets(w, p.sharks, s).len() > 0)
}

/// Number of newborn fish among the turns of the first `k` fish.
pub open spec fn fish_births(w: WorldView, k: int) -> nat
    decreases k,
{
    if k <= 0 || k > w.fish_list.len() {
        0
    } else if fish_birth(w, fish_phase(w, k - 1).0, w.fish_list[k - 1]) {
        fish_births(w, k - 1) + 1
    } else {
        fish_births(w, k - 1)
    }
}

/// Number of newborn sharks among the turns of the first `k` sharks.
pub open spec fn shark_births(w: WorldView, k: int) -> nat
    decreases k,
{
    if k <= 0 || k > w.shark_list.len() {
        0
    } else if shark_birth(w, shark_phase(w, k - 1), w.shark_list[k - 1]) {
        shark_births(w, k - 1) + 1
    } else {
        shark_births(w, k - 1)
    }
}

/// A fish's turn keeps the next population free of doubles and adds the
/// fish, plus one newborn if it gives birth.
pub proof fn lemma_fish_turn(w: WorldView, next_fish: Seq<Particle>, g: GenState, f: Particle)
    requires
        unique(next_fish),
    ensures
        unique(fish_turn(w, next_fish, g, f).0),
        fish_turn(w, next_fish, g, f).0.len() <= next_fish.len() + 1 + (if fish_birth(
            w,
            next_fish,
            f,
        ) {
            1int
        } else {
            0int
        }),
{
    let cell = pick(fish_targets(w, next_fish, f), draw_value(g));
    let baby = newborn(f.row, f.col, w.epoch);
    lemma_with_unique(next_fish, moved(f, (f.row, f.col), 0, f.reproduced + 1));
    lemma_with_unique(next_fish, moved(f, cell, 0, f.reproduced + 1));
    lemma_with_unique(next_fish, baby);
    lemma_with_unique(with(next_fish, baby), moved(f, cell, 0, 0));
}

/// A shark's turn keeps both next populations free of doubles, never adds a
/// fish, and adds at most the shark, plus one newborn if it gives birth.
pub proof fn lemma_shark_turn(w: WorldView, p: Progress, s: Particle)
    requires
        unique(p.fish),
        unique(p.sharks),
    ensures
        unique(shark_turn(w, p, s).fish),
        unique(shark_turn(w, p, s).sharks),
        shark_turn(w, p, s).fish.len() <= p.fish.len(),
        shark_turn(w, p, s).sharks.len() <= p.sharks.len() + 1 + (if shark_birth(w, p, s) {
            1int
        } else {
            0int
        }),
{
    let meal = pick(feed_targets(w, p.fish, s), draw_value(p.gen));
    let cell = pick(shark_targets(w, p.sharks, s), draw_value(p.gen));
    let baby = newborn(s.row, s.col, w.epoch);
    lemma_without_unique(p.fish, meal.0, meal.1);
    lemma_with_unique(p.sharks, baby);
    lemma_with_unique(with(p.sharks, baby), moved(s, meal, 0, 0));
    lemma_with_unique(p.sharks, moved(s, meal, 0, s.reproduced + 1));
    lemma_with_unique(p.sharks, moved(s, (s.row, s.col), s.ate + 1, s.reproduced + 1));
    lemma_with_unique(with(p.sharks, baby), moved(s, cell, s.ate + 1, 0));
    lemma_with_unique(p.sharks, moved(s, cell, s.ate + 1, s.reproduced + 1));
}

/// After any number of fish turns the next fish population is free of
/// doubles and holds at most the fish that moved and their newborns.
pub proof fn lemma_fish_phase(w: WorldView, k: int)
    requires
        0 <= k <= w.fish_list.len(),
    ensures
        unique(fish_phase(w, k).0),
        fish_phase(w, k).0.len() <= k + fish_births(w, k),
        fish_births(w, k) <= k,
    decreases k,
{
    if k > 0 {
        lemma_fish_phase(w, k - 1);
        let before = fish_phase(w, k - 1);
        lemma_fish_turn(w, before.0, before.1, w.fish_list[k - 1]);
    }
}

/// After any number of shark turns both next populations are free of
/// doubles, no fish was added, and the next shark population holds at most
/// the sharks that moved and their newborns.
pub proof fn lemma_shark_phase(w: WorldView, k: int)
    requires
        0 <= k <= w.shark_list.len(),
    ensures
        unique(shark_phase(w, k).fish),
        unique(shark_phase(w, k).sharks),
        shark_phase(w, k).fish.len() <= fish_phase(w, w.fish_list.len() as int).0.len(),
        shark_phase(w, k).sharks.len() <= k + shark_births(w, k),
        shark_births(w, k) <= k,
    decreases k,
{
    if k > 0 {
        lemma_shark_phase(w, k - 1);
        lemma_shark_turn(w, shark_phase(w, k - 1), w.shark_list[k - 1]);
    } else {
        lemma_fish_phase(w, w.fish_list.len() as int);
    }
}

/// Uniqueness: after a step no two fish share a cell and no two sharks
/// share a cell, whatever the world was before.
pub proof fn lemma_step_unique(w: WorldView)
    ensures
        unique(stepped(w).fish_list),
        unique(stepped(w).shark_list),
{
    lemma_shark_phase(w, w.shark_list.len() as int);
}

/// Conservation: a step leaves at most the fish there were plus the fish
/// born in it, and at most the sharks there were plus the sharks born in
/// it; no species can more than double.
pub proof fn lemma_step_conserves(w: WorldView)
    ensures
        stepped(w).fish_list.len() <= w.fish_list.len() + fish_births(w, w.fish_list.len() as int),
        stepped(w).shark_list.len() <= w.shark_list.len() + shark_births(
            w,
            w.shark_list.len() as int,
        ),
        stepped(w).fish_list.len() <= 2 * w.fish_list.len(),
        stepped(w).shark_list.len() <= 2 * w.shark_list.len(),
{
    lemma_shark_phase(w, w.shark_list.len() as int);
    lemma_fish_phase(w, w.fish_list.len() as int);
}

/// Starvation: a shark that finds no food and whose hunger counter, raised
/// by one, reaches the limit is not carried over. All it can leave is a
/// newborn on its cell, and that only if it could move and was due to give
/// birth.
pub proof fn lemma_starved_shark_dies(w: WorldView, p: Progress, s: Particle)
    requires
        feed_targets(w, p.fish, s).len() == 0,
        s.ate + 1 >= w.shark_starve,
    ensures
        shark_turn(w, p, s).fish == p.fish,
        shark_turn(w, p, s).sharks == if shark_targets(w, p.sharks, s).len() > 0 && gives_birth(
            s.reproduced,
            w.shark_spawn,
        ) {
            with(p.sharks, newborn(s.row, s.col, w.epoch))
        } else {
            p.sharks
        },
{
}

/// Survival: a shark that finds no food and stays below the limit is
/// carried over last, with its hunger counter raised by one.
pub proof fn lemma_hungry_shark_survives(w: WorldView, p: Progress, s: Particle)
    requires
        feed_targets(w, p.fish, s).len() == 0,
        s.ate + 1 < w.shark_starve,
    ensures
        shark_turn(w, p, s).sharks.len() > 0,
        shark_turn(w, p, s).sharks.last().born == s.born,
        shark_turn(w, p, s).sharks.last().ate == s.ate + 1,
{
}

/// Reproduction boundary for fish that can move: with `reproduced + 1` at
/// most the period the fish only moves and its counter goes up by one;
/// above the period a newborn takes the old cell and the counter restarts.
pub proof fn lemma_fish_reproduction_boundary(
    w: WorldView,
    next_fish: Seq<Particle>,
    g: GenState,
    f: Particle,
)
    requires
        fish_targets(w, next_fish, f).len() > 0,
    ensures
        f.reproduced + 1 <= w.fish_spawn ==> fish_turn(w, next_fish, g, f).0 == with(
            next_fish,
            moved(f, pick(fish_targets(w, next_fish, f), draw_value(g)), 0, f.reproduced + 1),
        ),
        f.reproduced + 1 > w.fish_spawn ==> fish_turn(w, next_fish, g, f).0 == with(
            with(next_fish, newborn(f.row, f.col, w.epoch)),
            moved(f, pick(fish_targets(w, next_fish, f), draw_value(g)), 0, 0),
        ),
{
}

/// Reproduction boundary for sharks that feed: with `reproduced + 1` at
/// most the period the shark only moves onto its meal; above the period a
/// newborn takes the old cell and the counter restarts.
pub proof fn lemma_shark_reproduction_boundary(w: WorldView, p: Progress, s: Particle)
    requires
        feed_targets(w, p.fish, s).len() > 0,
    ensures
        s.reproduced + 1 <= w.shark_spawn ==> shark_turn(w, p, s).sharks == with(
            p.sharks,
            moved(s, pick(feed_targets(w, p.fish, s), draw_value(p.gen)), 0, s.reproduced + 1),
        ),
        s.reproduced + 1 > w.shark_spawn ==> shark_turn(w, p, s).sharks == with(
            with(p.sharks, newborn(s.row, s.col, w.epoch)),
            moved(s, pick(feed_targets(w, p.fish, s), draw_value(p.gen)), 0, 0),
        ),
{
}

/// Reproduction boundary for hungry sharks that move and live on: with
/// `reproduced + 1` at most the period no newborn appears; above it a
/// newborn takes the old cell.
pub proof fn lemma_hungry_reproduction_boundary(
    w: WorldView,
    next_sharks: Seq<Particle>,
    g: GenState,
    s: Particle,
)
    requires
        shark_targets(w, next_sharks, s).len() > 0,
        s.ate + 1 < w.shark_starve,
    ensures
        s.reproduced + 1 <= w.shark_spawn ==> hungry_turn(w, next_sharks, g, s).0 == with(
            next_sharks,
            moved(
                s,
                pick(shark_targets(w, next_sharks, s), draw_value(g)),
                s.ate + 1,
                s.reproduced + 1,
            ),
        ),
        s.reproduced + 1 > w.shark_spawn ==> hungry_turn(w, next_sharks, g, s).0 == with(
            with(next_sharks, newborn(s.row, s.col, w.epoch)),
            moved(s, pick(shark_targets(w, next_sharks, s), draw_value(g)), s.ate + 1, 0),
        ),
{
}

/// A cleared cell is not occupied.
pub proof fn lemma_without_clears(s: Seq<Particle>, row: u32, col: u32)
    ensures
        !occupied(without(s, row, col), row, col),
{
    lemma_without_upto(s, row, col, s.len() as int);
    lemma_first_from(without(s, row, col), row, col, 0);
}

/// Feeding precedence: a shark with exactly one neighbouring cell to feed
/// on moves onto that cell with its hunger counter at zero, and the fish
/// there is gone from the next fish population.
pub proof fn lemma_feeding_precedence(w: WorldView, p: Progress, s: Particle, cell: (u32, u32))
    requires
        feed_targets(w, p.fish, s) == seq![cell],
    ensures
        shark_turn(w, p, s).fish == without(p.fish, cell.0, cell.1),
        !occupied(shark_turn(w, p, s).fish, cell.0, cell.1),
        shark_turn(w, p, s).sharks.len() > 0,
        shark_turn(w, p, s).sharks.last() == moved(
            s,
            cell,
            0,
            if gives_birth(s.reproduced, w.shark_spawn) {
                0
            } else {
                s.reproduced + 1
            },
        ),
{
    assert(seq![cell].len() == 1);
    assert(seq![cell][0] == cell);
    assert(pick(seq![cell], draw_value(p.gen)) == cell);
    lemma_without_clears(p.fish, cell.0, cell.1);
}

/// Determinism: two worlds with the same value, initialised with the same
/// seed and stepped with the same reported times, have the same value after
/// every step.
pub proof fn lemma_runs_agree(a: WorldState, b: WorldState, seed: u32, times: Seq<u32>, n: int)
    requires
        a@ == b@,
        0 <= n <= times.len(),
    ensures
        initialized_world(a@, seed) == initialized_world(b@, seed),
        run(initialized_world(a@, seed), times.take(n)) == run(
            initialized_world(b@, seed),
            times.take(n),
        ),
{
}

/// The world after the host reported the times `times`, one step each.
pub open spec fn run(w: WorldView, times: Seq<u32>) -> WorldView
    decreases times.len(),
{
    if times.len() == 0 {
        w
    } else {
        updated(run(w, times.drop_last()), times.last())
    }
}

/// Uniqueness along a run: after every step of a run no two fish share a
/// cell and no two sharks share a cell.
pub proof fn lemma_run_unique(w: WorldView, times: Seq<u32>)
    requires
        times.len() > 0,
    ensures
        unique(run(w, times).fish_list),
        unique(run(w, times).shark_list),
{
    let before = run(w, times.drop_last());
    lemma_step_unique(WorldView { time: times.last(), epoch: (before.epoch + 1) as u64, ..before });
}

/// Among members on distinct cells, looking a cell up gives the member that
/// stands there.
pub proof fn lemma_find_member(s: Seq<Particle>, j: int)
    requires
        unique(s),
        0 <= j < s.len(),
    ensures
        find_at(s, s[j].row, s[j].col) == Some(s[j]),
{
    lemma_first_from(s, s[j].row, s[j].col, 0);
    lemma_first_from_min(s, s[j].row, s[j].col, 0, j);
    let k = first_from(s, s[j].row, s[j].col, 0);
    if k < j {
        assert(!at(s[k], s[j].row, s[j].col));
    }
}

/// Last write wins: after a member took a cell, looking that cell up gives
/// that member.
pub proof fn lemma_find_added(s: Seq<Particle>, p: Particle)
    ensures
        find_at(with(s, p), p.row, p.col) == Some(p),
{
    let n = with(s, p);
    let last = n.len() - 1;
    lemma_without_upto(s, p.row, p.col, s.len() as int);
    lemma_first_from(n, p.row, p.col, 0);
    lemma_first_from_min(n, p.row, p.col, 0, last);
    let k = first_from(n, p.row, p.col, 0);
    if k < last {
        assert(!at(without(s, p.row, p.col)[k], p.row, p.col));
    }
}

/// Clearing a cell of a population on distinct cells changes no other
/// cell's lookup.
pub proof fn lemma_find_after_removal(s: Seq<Particle>, row: u32, col: u32, r: u32, c: u32)
    requires
        unique(s),
        !(r == row && c == col),
    ensures
        find_at(without(s, row, col), r, c) == find_at(s, r, c),
{
    let w = without(s, row, col);
    lemma_without_unique(s, row, col);
    lemma_without_cells(s, row, col, r, c);
    lemma_occupied(s, r, c);
    if occupied(s, r, c) {
        let j = choose|j: int| 0 <= j < s.len() && at(#[trigger] s[j], r, c);
        lemma_without_upto_keeps(s, row, col, s.len() as int);
        assert(w.contains(s[j]));
        let i = choose|i: int| 0 <= i < w.len() && w[i] == s[j];
        lemma_find_member(s, j);
        lemma_find_member(w, i);
    }
}

/// A member that takes a cell of a population on distinct cells changes no
/// other cell's lookup.
pub proof fn lemma_find_after_add(s: Seq<Particle>, p: Particle, r: u32, c: u32)
    requires
        unique(s),
        !at(p, r, c),
    ensures
        find_at(with(s, p), r, c) == find_at(s, r, c),
{
    let w = without(s, p.row, p.col);
    let n = with(s, p);
    lemma_find_after_removal(s, p.row, p.col, r, c);
    lemma_with_unique(s, p);
    lemma_without_unique(s, p.row, p.col);
    lemma_with_cells(s, p, r, c);
    lemma_without_cells(s, p.row, p.col, r, c);
    lemma_occupied(w, r, c);
    if occupied(w, r, c) {
        let i = choose|i: int| 0 <= i < w.len() && at(#[trigger] w[i], r, c);
        assert(n[i] == w[i]);
        lemma_find_member(w, i);
        lemma_find_member(n, i);
    }
}

} // verus!
