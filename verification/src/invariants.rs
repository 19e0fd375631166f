use vstd::prelude::*;
use crate::rand::{GenState, draw_value};
use crate::particles::{
    Particle, lemma_occupied, lemma_with_cells, lemma_with_unique, lemma_without_cells,
    lemma_without_upto, occupied, unique, with, without,
};
use crate::laws::lemma_step_unique;
use crate::particles::CellType;
use crate::rand::seeded;
use crate::placement::{
    config_error, empty_cell, initialization_result, initialized_world, placed, populated,
    search, seeded_world, tried_col, tried_row, Placement, MAX_PLACEMENT_ATTEMPTS,
};
use crate::rand::draw_state;
use crate::rules::{
    feed_ok, feed_targets, fish_move_ok, fish_phase, fish_targets, fish_turn, moved,
    neighbor_cells, newborn, pick, select, shark_move_ok, shark_phase, shark_targets,
    shark_turn, stepped, updated, can_age, Progress, WorldView,
};

verus! {

/// Every member of `s` meets `ok`.
pub open spec fn all(s: Seq<Particle>, ok: spec_fn(Particle) -> bool) -> bool {
    forall|i: int| 0 <= i < s.len() ==> ok(#[trigger] s[i])
}

/// The member stands on a grid of the given size and neither of its
/// counters is above `limit`.
pub open spec fn fits(width: u32, height: u32, limit: int) -> spec_fn(Particle) -> bool {
    |p: Particle| p.row < height && p.col < width && p.ate <= limit && p.reproduced <= limit
}

/// A population with a newcomer that meets `ok` still meets it.
pub proof fn lemma_with_all(s: Seq<Particle>, p: Particle, ok: spec_fn(Particle) -> bool)
    requires
        all(s, ok),
        ok(p),
    ensures
        all(with(s, p), ok),
{
    lemma_without_all(s, p.row, p.col, ok);
}

/// A population with a cell cleared still meets `ok`.
pub proof fn lemma_without_all(s: Seq<Particle>, row: u32, col: u32, ok: spec_fn(Particle) -> bool)
    requires
        all(s, ok),
    ensures
        all(without(s, row, col), ok),
{
    lemma_without_upto(s, row, col, s.len() as int);
    let w = without(s, row, col);
    assert forall|i: int| 0 <= i < w.len() implies ok(#[trigger] w[i]) by {
        let j = choose|j: int| 0 <= j < s.len() && s[j] == w[i];
        assert(ok(s[j]));
    }
}

/// Every selected cell is one of the cells looked at and is accepted; where
/// nothing is selected, no cell was accepted.
pub proof fn lemma_select(cells: Seq<(u32, u32)>, ok: spec_fn((u32, u32)) -> bool, k: int)
    requires
        0 <= k <= cells.len(),
    ensures
        forall|i: int|
            0 <= i < select(cells, ok, k).len() ==> {
                &&& ok(#[trigger] select(cells, ok, k)[i])
                &&& exists|j: int| 0 <= j < k && cells[j] == select(cells, ok, k)[i]
            },
        select(cells, ok, k).len() == 0 ==> forall|j: int| 0 <= j < k ==> !ok(#[trigger] cells[j]),
    decreases k,
{
    if k > 0 {
        lemma_select(cells, ok, k - 1);
        let prev = select(cells, ok, k - 1);
        let cur = select(cells, ok, k);
        assert forall|i: int| 0 <= i < cur.len() implies {
            &&& ok(#[trigger] cur[i])
            &&& exists|j: int| 0 <= j < k && cells[j] == cur[i]
        } by {
            if i < prev.len() {
                let j = choose|j: int| 0 <= j < k - 1 && cells[j] == prev[i];
                assert(cells[j] == cur[i]);
            } else {
                assert(cells[k - 1] == cur[i]);
            }
        }
    }
}

/// A cell picked among selected neighbours of `(row, col)` is accepted and
/// lies on the grid.
pub proof fn lemma_pick(
    width: u32,
    height: u32,
    row: u32,
    col: u32,
    ok: spec_fn((u32, u32)) -> bool,
    x: u32,
)
    requires
        width > 0,
        height > 0,
        row < height,
        col < width,
        select(neighbor_cells(width, height, row, col), ok, 4).len() > 0,
    ensures
        ok(pick(select(neighbor_cells(width, height, row, col), ok, 4), x)),
        pick(select(neighbor_cells(width, height, row, col), ok, 4), x).0 < height,
        pick(select(neighbor_cells(width, height, row, col), ok, 4), x).1 < width,
{
    let cells = neighbor_cells(width, height, row, col);
    let t = select(cells, ok, 4);
    lemma_select(cells, ok, 4);
    let idx = (x as int) % (t.len() as int);
    assert(0 <= idx < t.len());
    let j = choose|j: int| 0 <= j < 4 && cells[j] == t[idx];
    assert(cells[j].0 < height && cells[j].1 < width);
}

/// A fish's turn keeps the next population on the grid and raises no
/// counter above the next limit.
pub proof fn lemma_fish_turn_fits(
    w: WorldView,
    next_fish: Seq<Particle>,
    g: GenState,
    f: Particle,
    limit: int,
)
    requires
        w.width > 0,
        w.height > 0,
        0 <= limit < u64::MAX,
        all(next_fish, fits(w.width, w.height, limit + 1)),
        fits(w.width, w.height, limit)(f),
    ensures
        all(fish_turn(w, next_fish, g, f).0, fits(w.width, w.height, limit + 1)),
{
    let ok = fits(w.width, w.height, limit + 1);
    let baby = newborn(f.row, f.col, w.epoch);
    lemma_with_all(next_fish, moved(f, (f.row, f.col), 0, f.reproduced + 1), ok);
    if fish_targets(w, next_fish, f).len() > 0 {
        lemma_pick(w.width, w.height, f.row, f.col, fish_move_ok(w, next_fish), draw_value(g));
        let cell = pick(fish_targets(w, next_fish, f), draw_value(g));
        lemma_with_all(next_fish, moved(f, cell, 0, f.reproduced + 1), ok);
        lemma_with_all(next_fish, baby, ok);
        lemma_with_all(with(next_fish, baby), moved(f, cell, 0, 0), ok);
    }
}

/// A shark's turn keeps both next populations on the grid and raises no
/// counter above the next limit.
pub proof fn lemma_shark_turn_fits(w: WorldView, p: Progress, s: Particle, limit: int)
    requires
        w.width > 0,
        w.height > 0,
        0 <= limit < u64::MAX,
        all(p.fish, fits(w.width, w.height, limit + 1)),
        all(p.sharks, fits(w.width, w.height, limit + 1)),
        fits(w.width, w.height, limit)(s),
    ensures
        all(shark_turn(w, p, s).fish, fits(w.width, w.height, limit + 1)),
        all(shark_turn(w, p, s).sharks, fits(w.width, w.height, limit + 1)),
{
    let ok = fits(w.width, w.height, limit + 1);
    let baby = newborn(s.row, s.col, w.epoch);
    lemma_with_all(p.sharks, baby, ok);
    if feed_targets(w, p.fish, s).len() > 0 {
        lemma_pick(w.width, w.height, s.row, s.col, feed_ok(w, p.fish), draw_value(p.gen));
        let meal = pick(feed_targets(w, p.fish, s), draw_value(p.gen));
        lemma_without_all(p.fish, meal.0, meal.1, ok);
        lemma_with_all(with(p.sharks, baby), moved(s, meal, 0, 0), ok);
        lemma_with_all(p.sharks, moved(s, meal, 0, s.reproduced + 1), ok);
    } else if shark_targets(w, p.sharks, s).len() > 0 {
        lemma_pick(w.width, w.height, s.row, s.col, shark_move_ok(w, p.sharks), draw_value(p.gen));
        let cell = pick(shark_targets(w, p.sharks, s), draw_value(p.gen));
        lemma_with_all(with(p.sharks, baby), moved(s, cell, s.ate + 1, 0), ok);
        lemma_with_all(p.sharks, moved(s, cell, s.ate + 1, s.reproduced + 1), ok);
    } else {
        lemma_with_all(p.sharks, moved(s, (s.row, s.col), s.ate + 1, s.reproduced + 1), ok);
    }
}

/// The fish phase keeps the next population on the grid and below the next
/// limit.
pub proof fn lemma_fish_phase_fits(w: WorldView, k: int, limit: int)
    requires
        w.width > 0,
        w.height > 0,
        0 <= limit < u64::MAX,
        all(w.fish_list, fits(w.width, w.height, limit)),
        0 <= k <= w.fish_list.len(),
    ensures
        all(fish_phase(w, k).0, fits(w.width, w.height, limit + 1)),
    decreases k,
{
    if k > 0 {
        lemma_fish_phase_fits(w, k - 1, limit);
        let before = fish_phase(w, k - 1);
        lemma_fish_turn_fits(w, before.0, before.1, w.fish_list[k - 1], limit);
    }
}

/// The shark phase keeps both next populations on the grid and below the
/// next limit.
pub proof fn lemma_shark_phase_fits(w: WorldView, k: int, limit: int)
    requires
        w.width > 0,
        w.height > 0,
        0 <= limit < u64::MAX,
        all(w.fish_list, fits(w.width, w.height, limit)),
        all(w.shark_list, fits(w.width, w.height, limit)),
        0 <= k <= w.shark_list.len(),
    ensures
        all(shark_phase(w, k).fish, fits(w.width, w.height, limit + 1)),
        all(shark_phase(w, k).sharks, fits(w.width, w.height, limit + 1)),
    decreases k,
{
    if k > 0 {
        lemma_shark_phase_fits(w, k - 1, limit);
        lemma_shark_turn_fits(w, shark_phase(w, k - 1), w.shark_list[k - 1], limit);
    } else {
        lemma_fish_phase_fits(w, w.fish_list.len() as int, limit);
    }
}

/// A step keeps everybody on the grid, and raises no counter by more than
/// one: counters that were at most `limit` are at most `limit + 1`
/// afterwards.
pub proof fn lemma_step_fits(w: WorldView, limit: int)
    requires
        w.width > 0,
        w.height > 0,
        0 <= limit < u64::MAX,
        all(w.fish_list, fits(w.width, w.height, limit)),
        all(w.shark_list, fits(w.width, w.height, limit)),
    ensures
        all(stepped(w).fish_list, fits(w.width, w.height, limit + 1)),
        all(stepped(w).shark_list, fits(w.width, w.height, limit + 1)),
{
    lemma_shark_phase_fits(w, w.shark_list.len() as int, limit);
}

/// No cell holds a member of `a` and a member of `b`.
pub open spec fn apart(a: Seq<Particle>, b: Seq<Particle>) -> bool {
    forall|r: u32, c: u32| #[trigger] occupied(a, r, c) ==> !occupied(b, r, c)
}

/// The cell of a member is occupied.
pub proof fn lemma_member_occupies(s: Seq<Particle>, i: int)
    requires
        0 <= i < s.len(),
    ensures
        occupied(s, s[i].row, s[i].col),
{
    lemma_occupied(s, s[i].row, s[i].col);
}

/// A newcomer on a cell that `other` leaves free keeps the two apart.
pub proof fn lemma_with_apart(s: Seq<Particle>, p: Particle, other: Seq<Particle>)
    requires
        apart(s, other),
        !occupied(other, p.row, p.col),
    ensures
        apart(with(s, p), other),
{
    assert forall|r: u32, c: u32| #[trigger] occupied(with(s, p), r, c) implies !occupied(
        other,
        r,
        c,
    ) by {
        lemma_with_cells(s, p, r, c);
    }
}

/// Clearing a cell on either side keeps two populations apart.
pub proof fn lemma_without_apart(a: Seq<Particle>, b: Seq<Particle>, row: u32, col: u32)
    requires
        apart(a, b),
    ensures
        apart(without(a, row, col), b),
        apart(a, without(b, row, col)),
{
    assert forall|r: u32, c: u32| #[trigger] occupied(without(a, row, col), r, c) implies !occupied(
        b,
        r,
        c,
    ) by {
        lemma_without_cells(a, row, col, r, c);
    }
    assert forall|r: u32, c: u32| #[trigger] occupied(a, r, c) implies !occupied(
        without(b, row, col),
        r,
        c,
    ) by {
        lemma_without_cells(b, row, col, r, c);
    }
}

/// A cell picked among selected cells is accepted and is one of the four
/// cells looked at.
pub proof fn lemma_pick_member(cells: Seq<(u32, u32)>, ok: spec_fn((u32, u32)) -> bool, x: u32)
    requires
        cells.len() == 4,
        select(cells, ok, 4).len() > 0,
    ensures
        ok(pick(select(cells, ok, 4), x)),
        exists|j: int| 0 <= j < 4 && cells[j] == pick(select(cells, ok, 4), x),
{
    let t = select(cells, ok, 4);
    lemma_select(cells, ok, 4);
    let idx = (x as int) % (t.len() as int);
    assert(0 <= idx < t.len());
    let j = choose|j: int| 0 <= j < 4 && cells[j] == t[idx];
    assert(cells[j] == pick(t, x));
}

/// A fish's turn puts no fish on a cell where a shark lives.
pub proof fn lemma_fish_turn_apart(w: WorldView, next_fish: Seq<Particle>, g: GenState, f: Particle)
    requires
        apart(next_fish, w.shark_list),
        !occupied(w.shark_list, f.row, f.col),
    ensures
        apart(fish_turn(w, next_fish, g, f).0, w.shark_list),
{
    let baby = newborn(f.row, f.col, w.epoch);
    lemma_with_apart(next_fish, moved(f, (f.row, f.col), 0, f.reproduced + 1), w.shark_list);
    if fish_targets(w, next_fish, f).len() > 0 {
        let cells = neighbor_cells(w.width, w.height, f.row, f.col);
        lemma_pick_member(cells, fish_move_ok(w, next_fish), draw_value(g));
        let cell = pick(fish_targets(w, next_fish, f), draw_value(g));
        lemma_with_apart(next_fish, moved(f, cell, 0, f.reproduced + 1), w.shark_list);
        lemma_with_apart(next_fish, baby, w.shark_list);
        lemma_with_apart(with(next_fish, baby), moved(f, cell, 0, 0), w.shark_list);
    }
}

/// A shark's turn leaves no next fish where a shark lives now, and puts no
/// next shark on a next fish.
pub proof fn lemma_shark_turn_apart(w: WorldView, p: Progress, s: Particle)
    requires
        apart(p.fish, w.shark_list),
        apart(p.sharks, p.fish),
        occupied(w.shark_list, s.row, s.col),
    ensures
        apart(shark_turn(w, p, s).fish, w.shark_list),
        apart(shark_turn(w, p, s).sharks, shark_turn(w, p, s).fish),
{
    let cells = neighbor_cells(w.width, w.height, s.row, s.col);
    let baby = newborn(s.row, s.col, w.epoch);
    assert(!occupied(p.fish, s.row, s.col));
    if feed_targets(w, p.fish, s).len() > 0 {
        let meal = pick(feed_targets(w, p.fish, s), draw_value(p.gen));
        let fish = without(p.fish, meal.0, meal.1);
        lemma_without_apart(p.fish, w.shark_list, meal.0, meal.1);
        lemma_without_apart(p.sharks, p.fish, meal.0, meal.1);
        lemma_without_cells(p.fish, meal.0, meal.1, meal.0, meal.1);
        lemma_without_cells(p.fish, meal.0, meal.1, s.row, s.col);
        lemma_with_apart(p.sharks, baby, fish);
        lemma_with_apart(with(p.sharks, baby), moved(s, meal, 0, 0), fish);
        lemma_with_apart(p.sharks, moved(s, meal, 0, s.reproduced + 1), fish);
    } else {
        lemma_select(cells, feed_ok(w, p.fish), 4);
        lemma_with_apart(p.sharks, moved(s, (s.row, s.col), s.ate + 1, s.reproduced + 1), p.fish);
        lemma_with_apart(p.sharks, baby, p.fish);
        if shark_targets(w, p.sharks, s).len() > 0 {
            lemma_pick_member(cells, shark_move_ok(w, p.sharks), draw_value(p.gen));
            let cell = pick(shark_targets(w, p.sharks, s), draw_value(p.gen));
            let j = choose|j: int| 0 <= j < 4 && cells[j] == cell;
            assert(!feed_ok(w, p.fish)(cells[j]));
            assert(!occupied(p.fish, cell.0, cell.1));
            lemma_with_apart(with(p.sharks, baby), moved(s, cell, s.ate + 1, 0), p.fish);
            lemma_with_apart(p.sharks, moved(s, cell, s.ate + 1, s.reproduced + 1), p.fish);
        }
    }
}

/// The fish phase puts no fish on a cell where a shark lives.
pub proof fn lemma_fish_phase_apart(w: WorldView, k: int)
    requires
        apart(w.fish_list, w.shark_list),
        0 <= k <= w.fish_list.len(),
    ensures
        apart(fish_phase(w, k).0, w.shark_list),
    decreases k,
{
    if k > 0 {
        lemma_fish_phase_apart(w, k - 1);
        let before = fish_phase(w, k - 1);
        lemma_member_occupies(w.fish_list, k - 1);
        lemma_fish_turn_apart(w, before.0, before.1, w.fish_list[k - 1]);
    }
}

/// The shark phase keeps the next sharks off the next fish.
pub proof fn lemma_shark_phase_apart(w: WorldView, k: int)
    requires
        apart(w.fish_list, w.shark_list),
        0 <= k <= w.shark_list.len(),
    ensures
        apart(shark_phase(w, k).fish, w.shark_list),
        apart(shark_phase(w, k).sharks, shark_phase(w, k).fish),
    decreases k,
{
    if k > 0 {
        lemma_shark_phase_apart(w, k - 1);
        lemma_member_occupies(w.shark_list, k - 1);
        lemma_shark_turn_apart(w, shark_phase(w, k - 1), w.shark_list[k - 1]);
    } else {
        lemma_fish_phase_apart(w, w.fish_list.len() as int);
        lemma_occupied(Seq::<Particle>::empty(), 0, 0);
        assert forall|r: u32, c: u32| !#[trigger] occupied(Seq::<Particle>::empty(), r, c) by {
            lemma_occupied(Seq::<Particle>::empty(), r, c);
        }
    }
}

/// Where no fish shared a cell with a shark before a step, none does after
/// it.
pub proof fn lemma_step_apart(w: WorldView)
    requires
        apart(w.fish_list, w.shark_list),
    ensures
        apart(stepped(w).fish_list, stepped(w).shark_list),
{
    lemma_shark_phase_apart(w, w.shark_list.len() as int);
    let done = shark_phase(w, w.shark_list.len() as int);
    assert forall|r: u32, c: u32| #[trigger] occupied(done.fish, r, c) implies !occupied(
        done.sharks,
        r,
        c,
    ) by {
        if occupied(done.sharks, r, c) {
            assert(!occupied(done.fish, r, c));
        }
    }
}

/// Slack that the counters have over the epoch: a counter starts below a
/// period of 32 bits and rises by at most one per step.
pub const COUNTER_SLACK: u64 = 0xffff_ffff;

/// Last epoch from which a settled world can still step.
pub const LAST_EPOCH: u64 = 0xffff_fffe_ffff_ffff;

/// The state that is observable between steps: every member stands on the
/// grid, no two of a species share a cell, no fish shares a cell with a
/// shark, and no counter is more than `COUNTER_SLACK` above the epoch.
pub open spec fn settled(w: WorldView) -> bool {
    &&& unique(w.fish_list)
    &&& unique(w.shark_list)
    &&& apart(w.fish_list, w.shark_list)
    &&& all(w.fish_list, fits(w.width, w.height, w.epoch + COUNTER_SLACK))
    &&& all(w.shark_list, fits(w.width, w.height, w.epoch + COUNTER_SLACK))
}

/// A settled world up to the last epoch can step.
pub proof fn lemma_settled_can_step(w: WorldView)
    requires
        settled(w),
        w.epoch <= LAST_EPOCH,
    ensures
        w.epoch < u64::MAX,
        can_age(w.fish_list),
        can_age(w.shark_list),
{
    assert forall|i: int| 0 <= i < w.fish_list.len() implies (#[trigger] w.fish_list[i]).ate
        < u64::MAX && w.fish_list[i].reproduced < u64::MAX by {
        assert(fits(w.width, w.height, w.epoch + COUNTER_SLACK)(w.fish_list[i]));
    }
    assert forall|i: int| 0 <= i < w.shark_list.len() implies (#[trigger] w.shark_list[i]).ate
        < u64::MAX && w.shark_list[i].reproduced < u64::MAX by {
        assert(fits(w.width, w.height, w.epoch + COUNTER_SLACK)(w.shark_list[i]));
    }
}

/// A settled world is settled again after every time advance, as long as
/// the epoch can be counted.
pub proof fn lemma_update_settled(w: WorldView, time: u32)
    requires
        settled(w),
        w.width > 0,
        w.height > 0,
        w.epoch <= LAST_EPOCH,
    ensures
        settled(updated(w, time)),
{
    let before = WorldView { time, epoch: (w.epoch + 1) as u64, ..w };
    lemma_step_unique(before);
    lemma_step_apart(before);
    lemma_step_fits(before, w.epoch + COUNTER_SLACK);
}

/// Being apart does not depend on the side.
pub proof fn lemma_apart_symmetric(a: Seq<Particle>, b: Seq<Particle>)
    requires
        apart(a, b),
    ensures
        apart(b, a),
{
    assert forall|r: u32, c: u32| #[trigger] occupied(b, r, c) implies !occupied(a, r, c) by {
        if occupied(a, r, c) {
            assert(!occupied(b, r, c));
        }
    }
}

/// A cell that the search finds lies on the grid and is empty of both
/// species.
pub proof fn lemma_search(w: WorldView, g: GenState, fuel: nat)
    requires
        w.width > 0,
        w.height > 0,
    ensures
        search(w, g, fuel).0.is_some() ==> {
            let cell = search(w, g, fuel).0.unwrap();
            cell.0 < w.height && cell.1 < w.width && empty_cell(w, cell.0, cell.1)
        },
    decreases fuel,
{
    if fuel > 0 && !empty_cell(w, tried_row(w, g), tried_col(w, g)) {
        lemma_search(w, draw_state(draw_state(g)), (fuel - 1) as nat);
    }
}

/// Two worlds differ in their populations at most.
pub open spec fn same_rules(a: WorldView, b: WorldView) -> bool {
    a == (WorldView { fish_list: a.fish_list, shark_list: a.shark_list, ..b })
}

/// Whether the rules allow timers to be drawn on a grid with cells.
pub open spec fn can_place(w: WorldView) -> bool {
    w.width > 0 && w.height > 0 && w.fish_spawn > 0 && w.shark_spawn > 0 && w.shark_starve > 0
}

/// A placement changes populations only, keeps a settled world settled,
/// and, where it finds a cell, adds exactly one member to the species
/// asked for.
pub proof fn lemma_placed(w: WorldView, g: GenState, kind: Option<CellType>)
    requires
        can_place(w),
    ensures
        same_rules(placed(w, g, kind).world, w),
        settled(w) ==> settled(placed(w, g, kind).world),
        placed(w, g, kind).world.fish_list.len() == w.fish_list.len() + (if placed(w, g, kind).ok
            && kind == Some(CellType::Fish) {
            1int
        } else {
            0int
        }),
        placed(w, g, kind).world.shark_list.len() == w.shark_list.len() + (if placed(
            w,
            g,
            kind,
        ).ok && kind == Some(CellType::Shark) {
            1int
        } else {
            0int
        }),
{
    lemma_search(w, g, MAX_PLACEMENT_ATTEMPTS as nat);
    let (found, g1) = search(w, g, MAX_PLACEMENT_ATTEMPTS as nat);
    if found.is_some() {
        let cell = found.unwrap();
        let g2 = draw_state(g1);
        let g3 = draw_state(g2);
        let ok = fits(w.width, w.height, w.epoch + COUNTER_SLACK);
        let f = Particle {
            row: cell.0,
            col: cell.1,
            born: w.epoch,
            reproduced: (crate::rand::draw_value(g1) % w.fish_spawn) as u64,
            ate: 0,
        };
        let s = Particle {
            row: cell.0,
            col: cell.1,
            born: w.epoch,
            reproduced: (crate::rand::draw_value(g2) % w.shark_spawn) as u64,
            ate: (crate::rand::draw_value(g3) % w.shark_starve) as u64,
        };
        lemma_with_cells(w.fish_list, f, 0, 0);
        lemma_with_cells(w.shark_list, s, 0, 0);
        if settled(w) {
            lemma_with_unique(w.fish_list, f);
            lemma_with_unique(w.shark_list, s);
            lemma_with_apart(w.fish_list, f, w.shark_list);
            lemma_apart_symmetric(w.fish_list, w.shark_list);
            lemma_with_apart(w.shark_list, s, w.fish_list);
            lemma_apart_symmetric(with(w.shark_list, s), w.fish_list);
            lemma_with_all(w.fish_list, f, ok);
            lemma_with_all(w.shark_list, s, ok);
        }
    }
}

/// A row of placements changes populations only, keeps a settled world
/// settled, and, where all of them found a cell, adds exactly `n` members to
/// the species asked for.
pub proof fn lemma_populated(start: Placement, kind: Option<CellType>, n: nat)
    requires
        n > 0 ==> can_place(start.world),
    ensures
        same_rules(populated(start, kind, n).world, start.world),
        settled(start.world) ==> settled(populated(start, kind, n).world),
        populated(start, kind, n).ok ==> start.ok,
        populated(start, kind, n).ok ==> populated(start, kind, n).world.fish_list.len()
            == start.world.fish_list.len() + (if kind == Some(CellType::Fish) {
            n as int
        } else {
            0int
        }),
        populated(start, kind, n).ok ==> populated(start, kind, n).world.shark_list.len()
            == start.world.shark_list.len() + (if kind == Some(CellType::Shark) {
            n as int
        } else {
            0int
        }),
    decreases n,
{
    if n > 0 {
        lemma_populated(start, kind, (n - 1) as nat);
        let before = populated(start, kind, (n - 1) as nat);
        if before.ok {
            lemma_placed(before.world, before.gen, kind);
        }
    }
}

/// Initialisation keeps a settled world settled, and where it succeeds on
/// a world not yet initialised it adds exactly the configured number of
/// fish and of sharks.
pub proof fn lemma_initialized(w: WorldView, seed: u32)
    ensures
        same_rules(initialized_world(w, seed), (WorldView {
            seed: initialized_world(w, seed).seed,
            initialized: initialized_world(w, seed).initialized,
            ..w
        })),
        settled(w) ==> settled(initialized_world(w, seed)),
        initialization_result(w, seed).is_ok() ==> initialized_world(w, seed).initialized,
        !w.initialized && initialization_result(w, seed).is_ok() ==> {
            &&& initialized_world(w, seed).fish_list.len() == w.fish_list.len() + w.fish
            &&& initialized_world(w, seed).shark_list.len() == w.shark_list.len() + w.sharks
        },
{
    if !w.initialized && config_error(w).is_none() {
        assert(w.width * w.height > 0 ==> w.width > 0 && w.height > 0) by (nonlinear_arith);
        let start = Placement { world: WorldView { seed, ..w }, gen: seeded(seed), ok: true };
        lemma_populated(start, Some(CellType::Fish), w.fish as nat);
        let middle = populated(start, Some(CellType::Fish), w.fish as nat);
        lemma_populated(middle, Some(CellType::Shark), w.sharks as nat);
        assert(seeded_world(w, seed) == populated(middle, Some(CellType::Shark), w.sharks as nat));
    }
}

} // verus!
