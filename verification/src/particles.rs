use vstd::prelude::*;

verus! {

/// The two species that live on the grid.
#[derive(Copy, Clone, Debug, PartialEq, Eq)]
pub enum CellType {
    Fish,
    Shark,
}

/// One living individual. The three counters are 64 bits wide, so that a run
/// of any practical length never reaches their limit.
#[derive(Copy, Clone, Debug, PartialEq, Eq)]
pub struct Particle {
    pub row: u32,
    pub col: u32,
    /// Epoch at which the individual was created.
    pub born: u64,
    /// Steps since the individual last fed.
    pub ate: u64,
    /// Steps since the individual last gave birth.
    pub reproduced: u64,
}

/// Whether `p` stands on cell `(row, col)`.
pub open spec fn at(p: Particle, row: u32, col: u32) -> bool {
    p.row == row && p.col == col
}

/// Index of the first member at or after `k` that stands on `(row, col)`;
/// the length of `s` if there is none.
pub open spec fn first_from(s: Seq<Particle>, row: u32, col: u32, k: int) -> int
    decreases s.len() - k,
{
    if k < 0 || k >= s.len() {
        s.len() as int
    } else if at(s[k], row, col) {
        k
    } else {
        first_from(s, row, col, k + 1)
    }
}

/// The first member of `s` on `(row, col)`, if any.
pub open spec fn find_at(s: Seq<Particle>, row: u32, col: u32) -> Option<Particle> {
    let k = first_from(s, row, col, 0);
    if k < s.len() {
        Some(s[k])
    } else {
        None
    }
}

/// Whether some member of `s` stands on `(row, col)`.
pub open spec fn occupied(s: Seq<Particle>, row: u32, col: u32) -> bool {
    find_at(s, row, col).is_some()
}

/// The first `k` members of `s`, in order, without those on `(row, col)`.
pub open spec fn without_upto(s: Seq<Particle>, row: u32, col: u32, k: int) -> Seq<Particle>
    decreases k,
{
    if k <= 0 || k > s.len() {
        Seq::empty()
    } else if at(s[k - 1], row, col) {
        without_upto(s, row, col, k - 1)
    } else {
        without_upto(s, row, col, k - 1).push(s[k - 1])
    }
}

/// `s`, in order, without the members on `(row, col)`.
pub open spec fn without(s: Seq<Particle>, row: u32, col: u32) -> Seq<Particle> {
    without_upto(s, row, col, s.len() as int)
}

/// `s` after `p` took its cell: whoever stood there is gone, `p` comes last.
pub open spec fn with(s: Seq<Particle>, p: Particle) -> Seq<Particle> {
    without(s, p.row, p.col).push(p)
}

/// No two members of `s` stand on the same cell.
pub open spec fn unique(s: Seq<Particle>) -> bool {
    forall|i: int, j: int| 0 <= i < j < s.len() ==> !at(#[trigger] s[i], (#[trigger] s[j]).row, s[j].col)
}

/// Every member of `s` on `(row, col)` is absent from the first `k` kept
/// members, every kept member comes from `s`, and keeping preserves
/// uniqueness.
pub proof fn lemma_without_upto(s: Seq<Particle>, row: u32, col: u32, k: int)
    requires
        0 <= k <= s.len(),
    ensures
        without_upto(s, row, col, k).len() <= k,
        forall|i: int|
            0 <= i < without_upto(s, row, col, k).len() ==> {
                &&& !at(#[trigger] without_upto(s, row, col, k)[i], row, col)
                &&& exists|j: int| 0 <= j < k && s[j] == without_upto(s, row, col, k)[i]
            },
        unique(s) ==> unique(without_upto(s, row, col, k)),
    decreases k,
{
    if k > 0 {
        lemma_without_upto(s, row, col, k - 1);
        let prev = without_upto(s, row, col, k - 1);
        let cur = without_upto(s, row, col, k);
        if !at(s[k - 1], row, col) {
            assert forall|i: int| 0 <= i < cur.len() implies {
                &&& !at(#[trigger] cur[i], row, col)
                &&& exists|j: int| 0 <= j < k && s[j] == cur[i]
            } by {
                if i < prev.len() {
                    let j = choose|j: int| 0 <= j < k - 1 && s[j] == prev[i];
                    assert(s[j] == cur[i]);
                } else {
                    assert(s[k - 1] == cur[i]);
                }
            }
            if unique(s) {
                assert forall|i: int, j: int| 0 <= i < j < cur.len() implies !at(
                    #[trigger] cur[i],
                    (#[trigger] cur[j]).row,
                    cur[j].col,
                ) by {
                    if j == prev.len() {
                        let m = choose|m: int| 0 <= m < k - 1 && s[m] == prev[i];
                        assert(!at(s[m], s[k - 1].row, s[k - 1].col));
                    } else {
                        assert(!at(prev[i], prev[j].row, prev[j].col));
                    }
                }
            }
        } else {
            assert forall|i: int| 0 <= i < cur.len() implies {
                &&& !at(#[trigger] cur[i], row, col)
                &&& exists|j: int| 0 <= j < k && s[j] == cur[i]
            } by {
                let j = choose|j: int| 0 <= j < k - 1 && s[j] == prev[i];
                assert(s[j] == cur[i]);
            }
        }
    }
}

/// Where `first_from` stops, a member stands on the cell.
pub proof fn lemma_first_from(s: Seq<Particle>, row: u32, col: u32, k: int)
    requires
        0 <= k <= s.len(),
    ensures
        k <= first_from(s, row, col, k) <= s.len(),
        first_from(s, row, col, k) < s.len() ==> at(s[first_from(s, row, col, k)], row, col),
    decreases s.len() - k,
{
    if k < s.len() && !at(s[k], row, col) {
        lemma_first_from(s, row, col, k + 1);
    }
}

/// `first_from` stops no later than at any member on the cell.
pub proof fn lemma_first_from_min(s: Seq<Particle>, row: u32, col: u32, k: int, i: int)
    requires
        0 <= k <= i < s.len(),
        at(s[i], row, col),
    ensures
        first_from(s, row, col, k) <= i,
    decreases i - k,
{
    if !at(s[k], row, col) {
        lemma_first_from_min(s, row, col, k + 1, i);
    }
}

/// A cell is occupied exactly if some member stands on it.
pub proof fn lemma_occupied(s: Seq<Particle>, row: u32, col: u32)
    ensures
        occupied(s, row, col) <==> exists|i: int| 0 <= i < s.len() && at(#[trigger] s[i], row, col),
{
    lemma_first_from(s, row, col, 0);
    if exists|i: int| 0 <= i < s.len() && at(#[trigger] s[i], row, col) {
        let i = choose|i: int| 0 <= i < s.len() && at(#[trigger] s[i], row, col);
        lemma_first_from_min(s, row, col, 0, i);
    }
}

/// Every member off `(row, col)` among the first `k` is kept, and where
/// none of them stands on `(row, col)` all `k` are kept as they are.
pub proof fn lemma_without_upto_keeps(s: Seq<Particle>, row: u32, col: u32, k: int)
    requires
        0 <= k <= s.len(),
    ensures
        forall|j: int|
            0 <= j < k && !at(#[trigger] s[j], row, col) ==> without_upto(s, row, col, k).contains(
                s[j],
            ),
        (forall|j: int| 0 <= j < k ==> !at(#[trigger] s[j], row, col)) ==> without_upto(
            s,
            row,
            col,
            k,
        ) == s.take(k),
    decreases k,
{
    if k > 0 {
        lemma_without_upto_keeps(s, row, col, k - 1);
        let prev = without_upto(s, row, col, k - 1);
        let cur = without_upto(s, row, col, k);
        assert forall|j: int| 0 <= j < k && !at(#[trigger] s[j], row, col) implies cur.contains(
            s[j],
        ) by {
            if j < k - 1 {
                let i = choose|i: int| 0 <= i < prev.len() && prev[i] == s[j];
                assert(cur[i] == s[j]);
            } else {
                assert(cur[cur.len() - 1] == s[j]);
            }
        }
        if forall|j: int| 0 <= j < k ==> !at(#[trigger] s[j], row, col) {
            assert(cur =~= s.take(k));
        }
    } else {
        assert(without_upto(s, row, col, k) =~= s.take(k));
    }
}

/// Clearing a cell empties that cell and leaves every other cell as it
/// was.
pub proof fn lemma_without_cells(s: Seq<Particle>, row: u32, col: u32, r: u32, c: u32)
    ensures
        occupied(without(s, row, col), r, c) <==> occupied(s, r, c) && !(r == row && c == col),
        !occupied(s, row, col) ==> without(s, row, col) == s,
{
    let w = without(s, row, col);
    lemma_without_upto(s, row, col, s.len() as int);
    lemma_without_upto_keeps(s, row, col, s.len() as int);
    lemma_occupied(s, r, c);
    lemma_occupied(w, r, c);
    lemma_occupied(s, row, col);
    if occupied(w, r, c) {
        let i = choose|i: int| 0 <= i < w.len() && at(#[trigger] w[i], r, c);
        let j = choose|j: int| 0 <= j < s.len() && s[j] == w[i];
        assert(at(s[j], r, c));
    }
    if occupied(s, r, c) && !(r == row && c == col) {
        let j = choose|j: int| 0 <= j < s.len() && at(#[trigger] s[j], r, c);
        assert(w.contains(s[j]));
        let i = choose|i: int| 0 <= i < w.len() && w[i] == s[j];
        assert(at(w[i], r, c));
    }
    if !occupied(s, row, col) {
        assert(s.take(s.len() as int) =~= s);
    }
}

/// Taking a cell fills that cell and leaves every other cell as it was; on
/// an empty cell the newcomer is simply appended.
pub proof fn lemma_with_cells(s: Seq<Particle>, p: Particle, r: u32, c: u32)
    ensures
        occupied(with(s, p), r, c) <==> occupied(s, r, c) || at(p, r, c),
        !occupied(s, p.row, p.col) ==> with(s, p) == s.push(p),
{
    let w = without(s, p.row, p.col);
    let n = with(s, p);
    lemma_without_cells(s, p.row, p.col, r, c);
    lemma_occupied(w, r, c);
    lemma_occupied(n, r, c);
    if occupied(n, r, c) {
        let i = choose|i: int| 0 <= i < n.len() && at(#[trigger] n[i], r, c);
        if i < w.len() {
            assert(at(w[i], r, c));
        }
    }
    if occupied(w, r, c) {
        let i = choose|i: int| 0 <= i < w.len() && at(#[trigger] w[i], r, c);
        assert(at(n[i], r, c));
    }
    if at(p, r, c) {
        assert(at(n[n.len() - 1], r, c));
    }
}

/// Taking a cell keeps a population free of doubles and adds at most one
/// member.
pub proof fn lemma_with_unique(s: Seq<Particle>, p: Particle)
    requires
        unique(s),
    ensures
        unique(with(s, p)),
        with(s, p).len() <= s.len() + 1,
        with(s, p).len() >= 1,
{
    lemma_without_upto(s, p.row, p.col, s.len() as int);
    let w = without(s, p.row, p.col);
    let r = with(s, p);
    assert forall|i: int, j: int| 0 <= i < j < r.len() implies !at(
        #[trigger] r[i],
        (#[trigger] r[j]).row,
        r[j].col,
    ) by {
        if j == w.len() {
            assert(!at(w[i], p.row, p.col));
        } else {
            assert(!at(w[i], w[j].row, w[j].col));
        }
    }
}

/// Clearing a cell keeps a population free of doubles and never grows it.
pub proof fn lemma_without_unique(s: Seq<Particle>, row: u32, col: u32)
    requires
        unique(s),
    ensures
        unique(without(s, row, col)),
        without(s, row, col).len() <= s.len(),
{
    lemma_without_upto(s, row, col, s.len() as int);
}

/// The population of one species: its members in the order they arrived.
pub struct ParticleList {
    pub items: Vec<Particle>,
}

impl View for ParticleList {
    type V = Seq<Particle>;

    open spec fn view(&self) -> Seq<Particle> {
        self.items@
    }
}

impl ParticleList {
    /// An empty population.
    pub fn new() -> (l: ParticleList)
        ensures
            l@ == Seq::<Particle>::empty(),
    {
        ParticleList { items: Vec::new() }
    }

    /// Puts `p` on its cell, replacing whoever stood there.
    pub fn add(&mut self, p: Particle)
        ensures
            final(self)@ == with(old(self)@, p),
    {
        self.remove_at(p.row, p.col);
        self.items.push(p);
    }

    /// Number of members.
    pub fn _len(&self) -> (n: usize)
        ensures
            n == self@.len(),
    {
        self.items.len()
    }

    /// Clears cell `(row, col)`; the other members keep their order.
    pub fn remove_at(&mut self, row: u32, col: u32)
        ensures
            final(self)@ == without(old(self)@, row, col),
    {
        let mut kept: Vec<Particle> = Vec::new();
        let mut i: usize = 0;
        while i < self.items.len()
            invariant
                i <= self.items.len(),
                kept@ == without_upto(self.items@, row, col, i as int),
            decreases self.items.len() - i,
        {
            let p = self.items[i];
            if p.row != row || p.col != col {
                kept.push(p);
            }
            i += 1;
        }
        self.items = kept;
    }

    /// A copy of the first member on `(row, col)`, if the cell is taken.
    pub fn find(&self, row: u32, col: u32) -> (found: Option<Particle>)
        ensures
            found == find_at(self@, row, col),
    {
        let mut i: usize = 0;
        while i < self.items.len()
            invariant
                i <= self.items.len(),
                first_from(self.items@, row, col, 0) == first_from(self.items@, row, col, i as int),
            decreases self.items.len() - i,
        {
            let p = self.items[i];
            if p.row == row && p.col == col {
                return Some(p);
            }
            i += 1;
        }
        None
    }
}

} // verus!
