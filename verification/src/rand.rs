use vstd::prelude::*;

verus! {

/// Number of words in the generator's cyclic table.
pub const CMWC_CYCLE: usize = 4096;

/// Increment used while expanding a seed into the table.
pub const PHI: u32 = 0x9e3779b9;

/// Carry that a freshly seeded generator starts with.
pub const INITIAL_CARRY: u32 = 362436;

/// Multiplier of the multiply-with-carry recurrence.
pub const MULTIPLIER: u64 = 18782;

/// Value the candidate word is complemented against.
pub const COMPLEMENT_BASE: u32 = 0xfffffffe;

/// Mathematical state of a generator: the table, the carry and the cursor.
pub struct GenState {
    pub q: Seq<u32>,
    pub c: u32,
    pub i: nat,
}

/// Sum of two words modulo 2^32.
pub open spec fn add_mod32(a: u32, b: u32) -> u32 {
    ((a as int + b as int) % 0x1_0000_0000) as u32
}

/// Difference of two words modulo 2^32.
pub open spec fn sub_mod32(a: u32, b: u32) -> u32 {
    ((a as int - b as int) % 0x1_0000_0000) as u32
}

/// Word `i` of the table that `seed` expands to.
pub open spec fn seed_word(seed: u32, i: nat) -> u32
    decreases i,
{
    if i == 0 {
        seed
    } else if i == 1 {
        add_mod32(seed, PHI)
    } else if i == 2 {
        add_mod32(add_mod32(seed, PHI), PHI)
    } else {
        seed_word(seed, (i - 3) as nat) ^ seed_word(seed, (i - 2) as nat) ^ PHI ^ seed
    }
}

/// State of a generator right after seeding.
pub open spec fn seeded(seed: u32) -> GenState {
    GenState {
        q: Seq::new(CMWC_CYCLE as nat, |i: int| seed_word(seed, i as nat)),
        c: INITIAL_CARRY,
        i: 4095,
    }
}

/// Cursor position used by the next draw.
pub open spec fn next_cursor(s: GenState) -> int {
    (s.i as int + 1) % 4096
}

/// The 64-bit sum `MULTIPLIER * table[cursor] + carry` of the next draw.
pub open spec fn draw_sum(s: GenState) -> u64 {
    (MULTIPLIER * s.q[next_cursor(s)] + s.c) as u64
}

/// High word of the sum: the carry before correction.
pub open spec fn draw_high(s: GenState) -> u32 {
    (draw_sum(s) >> 32) as u32
}

/// Low 32 bits of sum plus carry: the candidate before correction.
pub open spec fn draw_candidate(s: GenState) -> u32 {
    ((draw_sum(s) + draw_high(s)) as u64) as u32
}

/// Whether the carry-propagation correction applies to the next draw.
pub open spec fn draw_corrects(s: GenState) -> bool {
    draw_candidate(s) < draw_high(s)
}

/// The value that the next draw returns.
pub open spec fn draw_value(s: GenState) -> u32 {
    if draw_corrects(s) {
        sub_mod32(COMPLEMENT_BASE, (draw_candidate(s) + 1) as u32)
    } else {
        sub_mod32(COMPLEMENT_BASE, draw_candidate(s))
    }
}

/// The state that the next draw leaves behind.
pub open spec fn draw_state(s: GenState) -> GenState {
    GenState {
        q: s.q.update(next_cursor(s), draw_value(s)),
        c: if draw_corrects(s) {
            (draw_high(s) + 1) as u32
        } else {
            draw_high(s)
        },
        i: next_cursor(s) as nat,
    }
}

/// Complementary-multiply-with-carry generator over a table of 4096 words.
pub struct ComplementaryMultiplyWithCarryGen {
    pub q: [u32; CMWC_CYCLE],
    pub c: u32,
    pub i: usize,
}

impl View for ComplementaryMultiplyWithCarryGen {
    type V = GenState;

    open spec fn view(&self) -> GenState {
        GenState { q: self.q@, c: self.c, i: self.i as nat }
    }
}

impl ComplementaryMultiplyWithCarryGen {
    /// The cursor points into the table.
    pub open spec fn wf(&self) -> bool {
        self.i < CMWC_CYCLE
    }

    /// Expands `seed` into a full table; the first draw reads word 0.
    pub fn new(seed: u32) -> (g: ComplementaryMultiplyWithCarryGen)
        ensures
            g.wf(),
            g@ == seeded(seed),
    {
        let mut q = [0u32; CMWC_CYCLE];
        q[0] = seed;
        q[1] = seed.wrapping_add(PHI);
        q[2] = seed.wrapping_add(PHI).wrapping_add(PHI);
        assert(seed_word(seed, 2) == q[2]);
        let mut i: usize = 3;
        while i < CMWC_CYCLE
            invariant
                3 <= i <= CMWC_CYCLE,
                forall|k: int| 0 <= k < i ==> q@[k] == seed_word(seed, k as nat),
            decreases CMWC_CYCLE - i,
        {
            q[i] = q[i - 3] ^ q[i - 2] ^ PHI ^ seed;
            i += 1;
        }
        let g = ComplementaryMultiplyWithCarryGen { q, c: INITIAL_CARRY, i: 4095 };
        assert(g@.q =~= seeded(seed).q);
        g
    }

    /// Draws the next value and advances the state by one step.
    pub fn random(&mut self) -> (x: u32)
        ensures
            final(self).wf(),
            final(self)@ == draw_state(old(self)@),
            x == draw_value(old(self)@),
    {
        self.i = (self.i % CMWC_CYCLE + 1) % CMWC_CYCLE;
        let word: u32 = self.q[self.i];
        let t: u64 = MULTIPLIER * (word as u64) + (self.c as u64);
        assert(t <= 18782 * 0xffff_ffff + 0xffff_ffff ==> (t >> 32) <= 18782) by (bit_vector);
        let high: u32 = (t >> 32) as u32;
        let mut x: u32 = #[verifier::truncate] ((t + high as u64) as u32);
        let mut c: u32 = high;
        if x < c {
            x += 1;
            c += 1;
        }
        self.c = c;
        let v: u32 = COMPLEMENT_BASE.wrapping_sub(x);
        self.q[self.i] = v;
        v
    }
}

} // verus!
