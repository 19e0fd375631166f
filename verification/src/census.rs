use vstd::prelude::*;
use crate::rand::{GenState, draw_value};
use crate::particles::{
    Particle, at, lemma_occupied, lemma_with_cells, lemma_without_upto_keeps, occupied, unique,
    with, without_upto,
};
use crate::rules::{
    feed_ok, feed_targets, fish_move_ok, fish_phase, fish_targets, fish_turn, moved,
    neighbor_cells, newborn, pick, shark_move_ok, shark_phase, shark_targets, shark_turn,
    stepped, survives, Progress, WorldView,
};
use crate::laws::{fish_birth, fish_births, lemma_shark_phase, shark_birth, shark_births};
use crate::invariants::{apart, lemma_member_occupies, lemma_pick_member, lemma_shark_phase_apart};

verus! {

/// Whether shark `s` finds a fish to eat in its turn.
pub open spec fn shark_feeds(w: WorldView, p: Progress, s: Particle) -> bool {
    feed_targets(w, p.fish, s).len() > 0
}

/// Whether shark `s` starves in its turn.
pub open spec fn shark_starves(w: WorldView, p: Progress, s: Particle) -> bool {
    !shark_feeds(w, p, s) && !survives(s.ate, w.shark_starve)
}

/// Number of fish eaten in the turns of the first `k` sharks.
pub open spec fn meals(w: WorldView, k: int) -> nat
    decreases k,
{
    if k <= 0 || k > w.shark_list.len() {
        0
    } else if shark_feeds(w, shark_phase(w, k - 1), w.shark_list[k - 1]) {
        meals(w, k - 1) + 1
    } else {
        meals(w, k - 1)
    }
}

/// Number of sharks starved in the turns of the first `k` sharks.
pub open spec fn shark_deaths(w: WorldView, k: int) -> nat
    decreases k,
{
    if k <= 0 || k > w.shark_list.len() {
        0
    } else if shark_starves(w, shark_phase(w, k - 1), w.shark_list[k - 1]) {
        shark_deaths(w, k - 1) + 1
    } else {
        shark_deaths(w, k - 1)
    }
}

/// Among members on distinct cells, clearing an occupied cell removes
/// exactly one.
pub proof fn lemma_without_one(s: Seq<Particle>, row: u32, col: u32, k: int)
    requires
        unique(s),
        0 <= k <= s.len(),
    ensures
        (exists|j: int| 0 <= j < k && at(#[trigger] s[j], row, col)) ==> without_upto(
            s,
            row,
            col,
            k,
        ).len() == k - 1,
    decreases k,
{
    if k > 0 {
        lemma_without_one(s, row, col, k - 1);
        lemma_without_upto_keeps(s, row, col, k - 1);
        if at(s[k - 1], row, col) {
            assert forall|j: int| 0 <= j < k - 1 implies !at(#[trigger] s[j], row, col) by {
                assert(!at(s[j], s[k - 1].row, s[k - 1].col));
            }
            assert(without_upto(s, row, col, k - 1) == s.take(k - 1));
        } else {
            if exists|j: int| 0 <= j < k && at(#[trigger] s[j], row, col) {
                let j = choose|j: int| 0 <= j < k && at(#[trigger] s[j], row, col);
                assert(0 <= j < k - 1 && at(s[j], row, col));
            }
        }
    }
}

/// A fish whose cell is still unclaimed adds itself, and a newborn if it
/// gives birth; the cells it claims are its own or one where no fish
/// lived.
pub proof fn lemma_fish_turn_count(w: WorldView, next_fish: Seq<Particle>, g: GenState, f: Particle)
    requires
        occupied(w.fish_list, f.row, f.col),
        !occupied(next_fish, f.row, f.col),
    ensures
        fish_turn(w, next_fish, g, f).0.len() == next_fish.len() + 1 + (if fish_birth(
            w,
            next_fish,
            f,
        ) {
            1int
        } else {
            0int
        }),
        forall|r: u32, c: u32| #[trigger]
            occupied(fish_turn(w, next_fish, g, f).0, r, c) ==> occupied(next_fish, r, c) || (r
                == f.row && c == f.col) || !occupied(w.fish_list, r, c),
{
    let baby = newborn(f.row, f.col, w.epoch);
    let aged = moved(f, (f.row, f.col), 0, f.reproduced + 1);
    let result = fish_turn(w, next_fish, g, f).0;
    lemma_with_cells(next_fish, aged, 0, 0);
    lemma_with_cells(next_fish, baby, 0, 0);
    if fish_targets(w, next_fish, f).len() > 0 {
        let cells = neighbor_cells(w.width, w.height, f.row, f.col);
        lemma_pick_member(cells, fish_move_ok(w, next_fish), draw_value(g));
        let cell = pick(fish_targets(w, next_fish, f), draw_value(g));
        let far = moved(f, cell, 0, f.reproduced + 1);
        let reset = moved(f, cell, 0, 0);
        lemma_with_cells(next_fish, far, 0, 0);
        lemma_with_cells(next_fish, baby, cell.0, cell.1);
        lemma_with_cells(with(next_fish, baby), reset, 0, 0);
        assert forall|r: u32, c: u32| #[trigger] occupied(result, r, c) implies occupied(
            next_fish,
            r,
            c,
        ) || (r == f.row && c == f.col) || !occupied(w.fish_list, r, c) by {
            lemma_with_cells(next_fish, far, r, c);
            lemma_with_cells(next_fish, baby, r, c);
            lemma_with_cells(with(next_fish, baby), reset, r, c);
        }
    } else {
        assert forall|r: u32, c: u32| #[trigger] occupied(result, r, c) implies occupied(
            next_fish,
            r,
            c,
        ) || (r == f.row && c == f.col) || !occupied(w.fish_list, r, c) by {
            lemma_with_cells(next_fish, aged, r, c);
        }
    }
}

/// No fish that still waits for its turn finds its cell claimed.
pub open spec fn fish_cells_kept(w: WorldView, next_fish: Seq<Particle>, k: int) -> bool {
    forall|j: int|
        k <= j < w.fish_list.len() ==> !occupied(
            next_fish,
            (#[trigger] w.fish_list[j]).row,
            w.fish_list[j].col,
        )
}

/// No shark that still waits for its turn finds its cell claimed.
pub open spec fn shark_cells_kept(w: WorldView, next_sharks: Seq<Particle>, k: int) -> bool {
    forall|j: int|
        k <= j < w.shark_list.len() ==> !occupied(
            next_sharks,
            (#[trigger] w.shark_list[j]).row,
            w.shark_list[j].col,
        )
}

/// In a world of distinct cells the fish phase carries every fish over and
/// adds exactly the newborns.
pub proof fn lemma_fish_phase_count(w: WorldView, k: int)
    requires
        unique(w.fish_list),
        0 <= k <= w.fish_list.len(),
    ensures
        fish_phase(w, k).0.len() == k + fish_births(w, k),
        fish_cells_kept(w, fish_phase(w, k).0, k),
    decreases k,
{
    if k > 0 {
        lemma_fish_phase_count(w, k - 1);
        let before = fish_phase(w, k - 1);
        let f = w.fish_list[k - 1];
        lemma_member_occupies(w.fish_list, k - 1);
        lemma_fish_turn_count(w, before.0, before.1, f);
        let next = fish_phase(w, k).0;
        assert forall|j: int| k <= j < w.fish_list.len() implies !occupied(
            next,
            (#[trigger] w.fish_list[j]).row,
            w.fish_list[j].col,
        ) by {
            lemma_member_occupies(w.fish_list, j);
            assert(!at(w.fish_list[k - 1], w.fish_list[j].row, w.fish_list[j].col));
        }
    } else {
        assert forall|j: int| k <= j < w.fish_list.len() implies !occupied(
            Seq::<Particle>::empty(),
            (#[trigger] w.fish_list[j]).row,
            w.fish_list[j].col,
        ) by {
            lemma_occupied(Seq::<Particle>::empty(), w.fish_list[j].row, w.fish_list[j].col);
        }
    }
}

/// A shark whose cell is still unclaimed eats exactly one fish if it
/// feeds, and adds itself unless it starves, and a newborn if it gives
/// birth; the cells it claims are its own or one where no shark lived.
pub proof fn lemma_shark_turn_count(w: WorldView, p: Progress, s: Particle)
    requires
        unique(p.fish),
        apart(p.sharks, p.fish),
        occupied(w.shark_list, s.row, s.col),
        !occupied(p.sharks, s.row, s.col),
    ensures
        shark_turn(w, p, s).fish.len() == p.fish.len() - (if shark_feeds(w, p, s) {
            1int
        } else {
            0int
        }),
        shark_turn(w, p, s).sharks.len() == p.sharks.len() + 1 + (if shark_birth(w, p, s) {
            1int
        } else {
            0int
        }) - (if shark_starves(w, p, s) {
            1int
        } else {
            0int
        }),
        forall|r: u32, c: u32| #[trigger]
            occupied(shark_turn(w, p, s).sharks, r, c) ==> occupied(p.sharks, r, c) || (r == s.row
                && c == s.col) || !occupied(w.shark_list, r, c),
{
    let cells = neighbor_cells(w.width, w.height, s.row, s.col);
    let baby = newborn(s.row, s.col, w.epoch);
    let result = shark_turn(w, p, s).sharks;
    lemma_with_cells(p.sharks, baby, 0, 0);
    if feed_targets(w, p.fish, s).len() > 0 {
        lemma_pick_member(cells, feed_ok(w, p.fish), draw_value(p.gen));
        let meal = pick(feed_targets(w, p.fish, s), draw_value(p.gen));
        lemma_occupied(p.fish, meal.0, meal.1);
        lemma_without_one(p.fish, meal.0, meal.1, p.fish.len() as int);
        assert(!occupied(p.sharks, meal.0, meal.1)) by {
            if occupied(p.sharks, meal.0, meal.1) {
                assert(!occupied(p.fish, meal.0, meal.1));
            }
        }
        let fed = moved(s, meal, 0, s.reproduced + 1);
        let reset = moved(s, meal, 0, 0);
        lemma_with_cells(p.sharks, fed, 0, 0);
        lemma_with_cells(p.sharks, baby, meal.0, meal.1);
        lemma_with_cells(with(p.sharks, baby), reset, 0, 0);
        assert forall|r: u32, c: u32| #[trigger] occupied(result, r, c) implies occupied(
            p.sharks,
            r,
            c,
        ) || (r == s.row && c == s.col) || !occupied(w.shark_list, r, c) by {
            lemma_with_cells(p.sharks, fed, r, c);
            lemma_with_cells(p.sharks, baby, r, c);
            lemma_with_cells(with(p.sharks, baby), reset, r, c);
        }
    } else if shark_targets(w, p.sharks, s).len() > 0 {
        lemma_pick_member(cells, shark_move_ok(w, p.sharks), draw_value(p.gen));
        let cell = pick(shark_targets(w, p.sharks, s), draw_value(p.gen));
        let far = moved(s, cell, s.ate + 1, s.reproduced + 1);
        let reset = moved(s, cell, s.ate + 1, 0);
        lemma_with_cells(p.sharks, far, 0, 0);
        lemma_with_cells(p.sharks, baby, cell.0, cell.1);
        lemma_with_cells(with(p.sharks, baby), reset, 0, 0);
        assert forall|r: u32, c: u32| #[trigger] occupied(result, r, c) implies occupied(
            p.sharks,
            r,
            c,
        ) || (r == s.row && c == s.col) || !occupied(w.shark_list, r, c) by {
            lemma_with_cells(p.sharks, far, r, c);
            lemma_with_cells(p.sharks, baby, r, c);
            lemma_with_cells(with(p.sharks, baby), reset, r, c);
        }
    } else {
        let aged = moved(s, (s.row, s.col), s.ate + 1, s.reproduced + 1);
        lemma_with_cells(p.sharks, aged, 0, 0);
        assert forall|r: u32, c: u32| #[trigger] occupied(result, r, c) implies occupied(
            p.sharks,
            r,
            c,
        ) || (r == s.row && c == s.col) || !occupied(w.shark_list, r, c) by {
            lemma_with_cells(p.sharks, aged, r, c);
        }
    }
}

/// In a world of distinct cells where no fish shares a cell with a shark,
/// the shark phase removes exactly the fish eaten, carries over every shark
/// but the starved, and adds exactly the newborns.
pub proof fn lemma_shark_phase_count(w: WorldView, k: int)
    requires
        unique(w.shark_list),
        apart(w.fish_list, w.shark_list),
        0 <= k <= w.shark_list.len(),
    ensures
        shark_phase(w, k).fish.len() == fish_phase(w, w.fish_list.len() as int).0.len() - meals(
            w,
            k,
        ),
        shark_phase(w, k).sharks.len() == k + shark_births(w, k) - shark_deaths(w, k),
        shark_cells_kept(w, shark_phase(w, k).sharks, k),
    decreases k,
{
    if k > 0 {
        lemma_shark_phase_count(w, k - 1);
        lemma_shark_phase(w, k - 1);
        lemma_shark_phase_apart(w, k - 1);
        let before = shark_phase(w, k - 1);
        let s = w.shark_list[k - 1];
        lemma_member_occupies(w.shark_list, k - 1);
        lemma_shark_turn_count(w, before, s);
        let next = shark_phase(w, k).sharks;
        assert forall|j: int| k <= j < w.shark_list.len() implies !occupied(
            next,
            (#[trigger] w.shark_list[j]).row,
            w.shark_list[j].col,
        ) by {
            lemma_member_occupies(w.shark_list, j);
            assert(!at(w.shark_list[k - 1], w.shark_list[j].row, w.shark_list[j].col));
        }
    } else {
        assert forall|j: int| k <= j < w.shark_list.len() implies !occupied(
            Seq::<Particle>::empty(),
            (#[trigger] w.shark_list[j]).row,
            w.shark_list[j].col,
        ) by {
            lemma_occupied(Seq::<Particle>::empty(), w.shark_list[j].row, w.shark_list[j].col);
        }
    }
}

/// Conservation, exactly: in a world of distinct cells where no fish shares
/// a cell with a shark, a step leaves the fish there were, plus the fish
/// born, minus the fish eaten; and the sharks there were, plus the sharks
/// born, minus the sharks starved. So the sharks grow only by births and
/// shrink only by starvation, never by feeding.
pub proof fn lemma_step_census(w: WorldView)
    requires
        unique(w.fish_list),
        unique(w.shark_list),
        apart(w.fish_list, w.shark_list),
    ensures
        stepped(w).fish_list.len() == w.fish_list.len() + fish_births(
            w,
            w.fish_list.len() as int,
        ) - meals(w, w.shark_list.len() as int),
        stepped(w).shark_list.len() == w.shark_list.len() + shark_births(
            w,
            w.shark_list.len() as int,
        ) - shark_deaths(w, w.shark_list.len() as int),
{
    lemma_fish_phase_count(w, w.fish_list.len() as int);
    lemma_shark_phase_count(w, w.shark_list.len() as int);
}

} // verus!
