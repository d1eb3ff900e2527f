//! A two-word lock register that contenders pull down with their bit masks.
//!
//! The register starts out *free*, with every bit of both words set. A
//! contender that finds it free writes `[r0 & id, r1 & !id]` (it pulls
//! down the bits of the first word outside its mask and the bits of the
//! second word inside its mask), then reads the register back and holds the
//! lock when what it reads is exactly its own pattern.
use vstd::prelude::*;
use vstd::bits::low_bits_mask;
use vstd::bits::lemma_low_bits_mask_values;
use crate::lemma_all_ones;

verus! {

/// The number of contenders that [`Lock::new`] hands out.
pub const CONTENDERS: usize = 8;

/// The register as nobody has touched it yet: all bits of both words set.
pub open spec fn free_register() -> [usize; 2] {
    [usize::MAX, usize::MAX]
}

/// What a contender with mask `id` writes after reading `r`.
pub open spec fn pulled_down(r: [usize; 2], id: usize) -> [usize; 2] {
    [r[0] & id, r[1] & !id]
}

/// Whether a contender with mask `id`, reading back `r`, considers the lock
/// its own: its whole mask is set in exactly one of the two words, the first
/// word has nothing outside the mask and the second nothing inside it.
pub open spec fn claims(id: usize, r: [usize; 2]) -> bool {
    &&& id & (r[0] ^ r[1]) == id
    &&& r[0] & !id == 0
    &&& r[1] & id == 0
}

/// The mask of the contender that [`Lock::new`] stores at position `i`:
/// the `CONTENDERS - i` lowest bits set.
pub open spec fn contender_mask(i: int) -> nat {
    low_bits_mask((CONTENDERS - i) as nat)
}

/// One party that may try to take the lock.
pub struct Contender {
    pub id: usize,
}

/// The contenders of one lock register, handed out one at a time.
pub struct Lock {
    contenders: Vec<Contender>,
}

proof fn lemma_mask_from_shift(k: usize)
    requires
        1 <= k <= 8,
    ensures
        !(usize::MAX << k) == low_bits_mask(k as nat),
{
    lemma_all_ones();
    lemma_low_bits_mask_values();
    if k == 1 {
        assert(!(!0usize << 1usize) == 1usize) by (bit_vector);
    } else if k == 2 {
        assert(!(!0usize << 2usize) == 3usize) by (bit_vector);
    } else if k == 3 {
        assert(!(!0usize << 3usize) == 7usize) by (bit_vector);
    } else if k == 4 {
        assert(!(!0usize << 4usize) == 15usize) by (bit_vector);
    } else if k == 5 {
        assert(!(!0usize << 5usize) == 31usize) by (bit_vector);
    } else if k == 6 {
        assert(!(!0usize << 6usize) == 63usize) by (bit_vector);
    } else if k == 7 {
        assert(!(!0usize << 7usize) == 127usize) by (bit_vector);
    } else {
        assert(!(!0usize << 8usize) == 255usize) by (bit_vector);
    }
}

impl Lock {
    /// The masks of the contenders not handed out yet, in storage order
    /// (the last one is handed out first).
    pub closed spec fn ids(&self) -> Seq<usize> {
        self.contenders@.map_values(|c: Contender| c.id)
    }

    /// Creates a free lock register and its eight contenders; the contender
    /// at position `i` has the `8 - i` lowest bits set in its mask.
    pub fn new() -> (r: (Lock, [usize; 2]))
        ensures
            r.1 == free_register(),
            r.0.ids().len() == CONTENDERS,
            forall|i: int| 0 <= i < CONTENDERS ==> r.0.ids()[i] == contender_mask(i),
    {
        let reg: [usize; 2] = [usize::MAX, usize::MAX];
        let mut contenders: Vec<Contender> = Vec::new();
        let max: usize = CONTENDERS;
        let mut i: usize = 0;
        while i < max
            invariant
                max == CONTENDERS,
                i <= max,
                contenders@.len() == i,
                forall|j: int| 0 <= j < i ==> contenders@[j].id == contender_mask(j),
            decreases max - i,
        {
            proof {
                lemma_mask_from_shift((max - i) as usize);
            }
            contenders.push(Contender { id: !(usize::MAX << (max - i)) });
            i = i + 1;
        }
        let lock = Lock { contenders };
        assert(lock.ids().len() == CONTENDERS);
        (lock, reg)
    }

    /// Hands out the contender stored last, or `None` once all of them have
    /// been handed out.
    pub fn next(&mut self) -> (r: Option<Contender>)
        ensures
            old(self).ids().len() == 0 ==> r is None && final(self).ids() == old(self).ids(),
            old(self).ids().len() > 0 ==> (r matches Some(c) && c.id == old(self).ids().last()
                && final(self).ids() == old(self).ids().drop_last()),
    {
        let r = self.contenders.pop();
        proof {
            assert(self.ids() =~= old(self).ids().subrange(0, self.contenders@.len() as int));
        }
        r
    }
}

/// Reading back exactly one's own pattern is what holding the lock means:
/// two contenders that see the same register contents cannot both claim it
/// unless their masks are the same.
pub proof fn lemma_claim_is_exclusive(id1: usize, id2: usize, r: [usize; 2])
    requires
        claims(id1, r),
        claims(id2, r),
    ensures
        id1 == id2,
{
    let r0 = r[0];
    let r1 = r[1];
    assert(id1 & (r0 ^ r1) == id1 && r0 & !id1 == 0 && r1 & id1 == 0 ==> r0 == id1)
        by (bit_vector);
    assert(id2 & (r0 ^ r1) == id2 && r0 & !id2 == 0 && r1 & id2 == 0 ==> r0 == id2)
        by (bit_vector);
}

/// A contender holds the lock exactly when the first word it reads back is
/// its own mask and the second word has no bit of the mask set.
pub proof fn lemma_claim_shape(id: usize, r: [usize; 2])
    ensures
        claims(id, r) <==> (r[0] == id && r[1] & id == 0),
{
    let r0 = r[0];
    let r1 = r[1];
    assert((id & (r0 ^ r1) == id && r0 & !id == 0 && r1 & id == 0) <==> (r0 == id && r1 & id
        == 0)) by (bit_vector);
}

/// A contender that pulls down the free register holds the lock when it
/// reads back what it wrote, and the register is no longer free afterwards.
pub proof fn lemma_pull_down_free(id: usize)
    ensures
        pulled_down(free_register(), id) == [id, !id],
        claims(id, pulled_down(free_register(), id)),
        pulled_down(free_register(), id) != free_register(),
{
    lemma_all_ones();
    assert(!0usize & id == id) by (bit_vector);
    assert(!0usize & !id == !id) by (bit_vector);
    assert(id & (id ^ !id) == id) by (bit_vector);
    assert(id & !id == 0) by (bit_vector);
    assert(!id & id == 0) by (bit_vector);
    assert(!(id == !0usize && !id == !0usize)) by (bit_vector);
}

impl Contender {
    /// The first half of a contest: reads the register and, when it is
    /// free, pulls it down with this contender's mask. Fails, leaving the
    /// register alone, when the register is not free.
    pub fn pull_down(&self, reg: &mut [usize; 2]) -> (r: Result<(), ()>)
        ensures
            *old(reg) != free_register() ==> r == Err::<(), ()>(()) && *final(reg) == *old(reg),
            *old(reg) == free_register() ==> r == Ok::<(), ()>(()) && *final(reg) == pulled_down(
                free_register(),
                self.id,
            ),
    {
        let r = *reg;
        // Ensure that the lock is not already established.
        if r[0] != usize::MAX || r[1] != usize::MAX {
            assert(r != free_register());
            return Err(());
        }
        assert(r == free_register());
        // Pull down r0 outside the mask and r1 inside it.
        let enc: [usize; 2] = [r[0] & self.id, r[1] & !self.id];
        *reg = enc;
        Ok(())
    }

    /// The second half of a contest: decides, from the register as read
    /// back after pulling it down, whether this contender holds the lock.
    /// Its whole mask must be set in exactly one of the two words (its region
    /// is not contaminated), and the first word must be clear outside the
    /// mask and the second inside it (the other regions were pulled down).
    pub fn holds(&self, r: [usize; 2]) -> (b: bool)
        ensures
            b == claims(self.id, r),
    {
        let test = self.id & (r[0] ^ r[1]) == self.id;
        let test = test && r[0] & !self.id == 0;
        let test = test && r[1] & self.id == 0;
        test
    }

    /// Tries to take the lock: pulls the register down when it is free,
    /// reads it back and holds the lock when it finds its own pattern.
    ///
    /// Fails, leaving the register alone, when the register is not free.
    /// With the register to itself between the write and the read back, a
    /// contender always finds its own pattern, so a free register is taken.
    pub fn contest(&self, reg: &mut [usize; 2]) -> (r: Result<(), ()>)
        ensures
            *old(reg) != free_register() ==> r == Err::<(), ()>(()) && *final(reg) == *old(reg),
            *old(reg) == free_register() ==> r == Ok::<(), ()>(()) && *final(reg) == pulled_down(
                free_register(),
                self.id,
            ),
    {
        if self.pull_down(reg).is_err() {
            return Err(());
        }
        let r = *reg;
        proof {
            lemma_pull_down_free(self.id);
        }
        if !self.holds(r) {
            return Err(());
        }
        Ok(())
    }
}

/// The contenders of one lock have pairwise different masks, and the ones
/// handed out later have more bits set.
pub proof fn lemma_contender_masks_distinct(i: int, j: int)
    requires
        0 <= i < CONTENDERS,
        0 <= j < CONTENDERS,
        i < j,
    ensures
        contender_mask(i) > contender_mask(j),
        contender_mask(i) != contender_mask(j),
{
    lemma_low_bits_mask_values();
}

} // verus!
