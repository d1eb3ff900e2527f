//! Lock-free hand-over protocols built on shared machine words.
//!
//! * [`Sender`] / [`Receiver`]: a one-word mailbox kept in a two-word
//!   register, where the relation between the two words says whether the
//!   mailbox is empty or full.
//! * [`push_pull`]: a two-socket channel whose wire carries a value in a
//!   slot together with handshake words and their parity, so that each side
//!   can tell the other side's frames from its own.
//! * [`lock`]: a register that several contenders try to pull down, each with
//!   its own bit mask.
//!
//! The shared memory of these protocols is an explicit value here (a
//! `[usize; 2]` register or a [`push_pull::Wire`]) that the endpoints take by
//! reference, so every read and write of it is visible to the verifier.
use vstd::prelude::*;

pub mod lock;
pub mod push_pull;

verus! {

/// A two-word register `[r0, r1]` is *empty* when both words are equal.
pub open spec fn register_empty(r: [usize; 2]) -> bool {
    r[0] == r[1]
}

/// A two-word register `[r0, r1]` is *full* when the second word is the
/// bitwise complement of the first; the first word is then the message.
pub open spec fn register_full(r: [usize; 2]) -> bool {
    r[1] == !r[0]
}

/// The register as the sender leaves it after posting `t`.
pub open spec fn posted(t: usize) -> [usize; 2] {
    [t, !t]
}

/// The register as the receiver leaves it after taking the message `t`.
pub open spec fn taken(t: usize) -> [usize; 2] {
    [t, t]
}

/// Why a register operation did not go through.
#[derive(Debug, PartialEq, Eq)]
pub enum Error {
    /// The register is not in the state this endpoint waits for.
    Blocked,
}

/// The writing end of a register mailbox.
pub struct Sender {
    level: bool,
}

/// The reading end of a register mailbox.
pub struct Receiver {
    level: bool,
}

proof fn lemma_xor_zero(a: usize, b: usize)
    ensures
        (a ^ b == 0) <==> (a == b),
{
    assert((a ^ b == 0) <==> (a == b)) by (bit_vector);
}

/// The all-ones word is the largest `usize`.
pub proof fn lemma_all_ones()
    ensures
        !0usize == usize::MAX,
{
    let m = usize::MAX;
    assert(m <= !0usize) by (bit_vector);
}

/// No machine word equals its own complement.
pub proof fn lemma_word_differs_from_complement(w: usize)
    ensures
        w != !w,
{
    assert(w != !w) by (bit_vector);
}

proof fn lemma_xor_max(a: usize, b: usize)
    ensures
        (a ^ b == usize::MAX) <==> (b == !a),
{
    lemma_all_ones();
    assert((a ^ b == !0usize) <==> (b == !a)) by (bit_vector);
}

impl Sender {
    /// Posts `t` into the register when it is empty.
    ///
    /// The register is read once; when its two words differ (a message is
    /// still waiting) nothing is written and `Blocked` comes back.
    pub fn try_send(&mut self, reg: &mut [usize; 2], t: usize) -> (r: Result<(), Error>)
        ensures
            register_empty(*old(reg)) ==> r == Ok::<(), Error>(()) && *final(reg) == posted(t),
            !register_empty(*old(reg)) ==> r == Err::<(), Error>(Error::Blocked) && *final(reg)
                == *old(reg),
            *final(self) == *old(self),
    {
        let perceived = *reg;
        proof {
            lemma_xor_zero(perceived[0], perceived[1]);
        }
        if (perceived[0] ^ perceived[1]) != 0 {
            return Err(Error::Blocked);
        }
        *reg = [t, !t];
        Ok(())
    }
}

impl Receiver {
    /// Takes the message out of the register when it is full.
    ///
    /// On success the register is left with both words equal to the
    /// message, which marks it empty for the sender.
    pub fn try_recv(&mut self, reg: &mut [usize; 2]) -> (r: Result<usize, Error>)
        ensures
            register_full(*old(reg)) ==> r == Ok::<usize, Error>(old(reg)[0]) && *final(reg)
                == taken(old(reg)[0]),
            !register_full(*old(reg)) ==> r == Err::<usize, Error>(Error::Blocked) && *final(reg)
                == *old(reg),
            *final(self) == *old(self),
    {
        let perceived = *reg;
        proof {
            lemma_xor_max(perceived[0], perceived[1]);
        }
        if (perceived[0] ^ perceived[1]) != usize::MAX {
            return Err(Error::Blocked);
        }
        *reg = [perceived[0], perceived[0]];
        Ok(perceived[0])
    }
}

/// Creates the two ends of a register mailbox together with their shared
/// register, which starts out empty (both words zero).
pub fn channel() -> (r: (Sender, Receiver, [usize; 2]))
    ensures
        r.2 == [0usize, 0usize],
        register_empty(r.2),
{
    (Sender { level: false }, Receiver { level: false }, [0, 0])
}

/// A register is never empty and full at once, so the sender and the
/// receiver never both find their turn.
pub proof fn lemma_register_turns_exclusive(r: [usize; 2])
    ensures
        !(register_empty(r) && register_full(r)),
{
    lemma_word_differs_from_complement(r[0]);
}

/// Posting `t` leaves the register full with `t` as its message, and taking
/// the message leaves it empty again.
pub proof fn lemma_post_then_take(t: usize)
    ensures
        register_full(posted(t)),
        !register_empty(posted(t)),
        posted(t)[0] == t,
        register_empty(taken(t)),
        !register_full(taken(t)),
{
    lemma_word_differs_from_complement(t);
}

} // verus!
