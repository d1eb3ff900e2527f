//! A two-socket channel over a shared wire of handshake words and a slot.
//!
//! The wire holds one data word and one parity word per machine word of the
//! value type `T`, and a slot that holds a value of `T` while it crosses.
//! The main socket puts its value in the slot and writes every data word
//! together with its complement (odd parity); the sub socket puts its value
//! in the slot and writes every data word twice (even parity). Each side
//! only takes the value out of the slot when the handshake words have the
//! other side's parity, and each side must receive before it may send
//! again, so the two sockets take turns and every value is handed over
//! exactly once.
use vstd::prelude::*;
use vstd::layout::size_of;
use vstd::layout::align_of;
use vstd::arithmetic::power2::is_pow2;
use core::marker::PhantomData;

verus! {

broadcast use vstd::layout::layout_of_primitives;

/// The number of machine words that a value of `bytes` bytes occupies.
pub open spec fn words_for_bytes(bytes: nat) -> nat {
    ((bytes + size_of::<usize>() - 1) as nat / size_of::<usize>()) as nat
}

/// The number of machine words that a value of type `T` occupies.
pub open spec fn word_count<T>() -> nat {
    words_for_bytes(size_of::<T>())
}

/// `words_for_bytes(bytes)` is the ceiling of `bytes` over the word size:
/// that many words hold `bytes` bytes, and one word fewer does not.
pub proof fn lemma_words_for_bytes_is_ceiling(bytes: nat)
    ensures
        words_for_bytes(bytes) * size_of::<usize>() >= bytes,
        words_for_bytes(bytes) * size_of::<usize>() < bytes + size_of::<usize>(),
{
    let s = size_of::<usize>();
    let q = words_for_bytes(bytes);
    assert(s * 8 == usize::BITS);
    assert(q == (bytes + s - 1) as nat / s);
    assert(q * s >= bytes && q * s < bytes + s) by (nonlinear_arith)
        requires
            s > 0,
            q == (bytes + s - 1) as nat / s,
    ;
}

/// The wire of a channel for `T` has the fewest words that hold a `T`.
pub proof fn lemma_word_count_is_ceiling<T>()
    ensures
        word_count::<T>() * size_of::<usize>() >= size_of::<T>(),
        word_count::<T>() * size_of::<usize>() < size_of::<T>() + size_of::<usize>(),
{
    lemma_words_for_bytes_is_ceiling(size_of::<T>());
}

/// A type of at least one byte takes at least one word.
pub proof fn lemma_word_count_positive<T>()
    requires
        size_of::<T>() > 0,
    ensures
        word_count::<T>() > 0,
{
    let s = size_of::<usize>();
    let b = size_of::<T>();
    assert(s * 8 == usize::BITS);
    assert((b + s - 1) as nat / s >= 1) by (nonlinear_arith)
        requires
            0 < b,
            0 < s,
    ;
}

/// The handshake words on a wire: data words and parity words.
pub type Frame = (Seq<usize>, Seq<usize>);

/// The frame the main socket writes on a wire of `n` words: every data word
/// zero, every parity word its complement.
pub open spec fn main_frame(n: nat) -> Frame {
    (Seq::new(n, |i: int| 0usize), Seq::new(n, |i: int| !0usize))
}

/// The frame the sub socket writes on a wire of `n` words: every data word
/// and every parity word zero. A fresh wire holds this frame too.
pub open spec fn sub_frame(n: nat) -> Frame {
    (Seq::new(n, |i: int| 0usize), Seq::new(n, |i: int| 0usize))
}

/// Every data word equals its parity word (the sub socket's frames).
pub open spec fn even_parity(f: Frame) -> bool {
    forall|i: int| 0 <= i < f.0.len() ==> #[trigger] f.0[i] == f.1[i]
}

/// Every data word is the complement of its parity word (the main socket's
/// frames).
pub open spec fn odd_parity(f: Frame) -> bool {
    forall|i: int| 0 <= i < f.0.len() ==> #[trigger] f.0[i] == !f.1[i]
}

/// The memory shared by the two sockets of one channel: the handshake words
/// of the frame last written, and the slot the value crosses in.
pub struct Wire<T> {
    channel: Vec<usize>,
    parity: Vec<usize>,
    slot: Option<T>,
}

impl<T> Wire<T> {
    #[verifier::type_invariant]
    closed spec fn wf(self) -> bool {
        &&& self.channel@.len() == word_count::<T>()
        &&& self.parity@.len() == word_count::<T>()
    }

    /// The data words and the parity words on the wire.
    pub closed spec fn frame(&self) -> Frame {
        (self.channel@, self.parity@)
    }

    /// The value on its way, if any.
    pub closed spec fn slot(&self) -> Option<T> {
        self.slot
    }
}

/// Why a socket did not send.
#[derive(Debug, PartialEq, Eq)]
pub enum SendErr<T> {
    /// The other side has not acknowledged; the value comes back.
    NoAck(T),
    /// The socket has to receive before it may send again; the value comes
    /// back.
    MustRecv(T),
}

/// Why a socket did not receive.
#[derive(Debug, PartialEq, Eq)]
pub enum RecvErr {
    /// The wire does not hold a value from the other side.
    Blocked,
    /// The socket has to send before it may receive again.
    MustSend,
}

/// The socket that speaks first.
pub struct MainSocket<T: Sized> {
    can_send: bool,
    usize_count: usize,
    _marker: PhantomData<T>,
}

/// The socket that listens first.
pub struct SubSocket<T> {
    can_send: bool,
    usize_count: usize,
    _marker: PhantomData<T>,
}

impl<T> MainSocket<T> {
    #[verifier::type_invariant]
    closed spec fn wf(self) -> bool {
        self.usize_count == word_count::<T>()
    }

    /// Whether it is this socket's turn to send.
    pub closed spec fn can_send(&self) -> bool {
        self.can_send
    }
}

impl<T> SubSocket<T> {
    #[verifier::type_invariant]
    closed spec fn wf(self) -> bool {
        self.usize_count == word_count::<T>()
    }

    /// Whether it is this socket's turn to send.
    pub closed spec fn can_send(&self) -> bool {
        self.can_send
    }
}

/// What a send by the main socket does: in turn it writes the main frame,
/// puts `x` in the slot, gives up its turn and answers `Ok`; out of turn it
/// changes nothing and hands `x` back in `MustRecv`.
pub open spec fn main_sends<T>(
    can0: bool,
    f0: Frame,
    slot0: Option<T>,
    x: T,
    r: Result<(), SendErr<T>>,
    can1: bool,
    f1: Frame,
    slot1: Option<T>,
) -> bool {
    if can0 {
        &&& r == Ok::<(), SendErr<T>>(())
        &&& !can1
        &&& f1 == main_frame(word_count::<T>())
        &&& slot1 == Some(x)
    } else {
        &&& r == Err::<(), SendErr<T>>(SendErr::MustRecv(x))
        &&& can1 == can0
        &&& f1 == f0
        &&& slot1 == slot0
    }
}

/// What a send by the sub socket does: in turn it writes the sub frame, puts
/// `x` in the slot, gives up its turn and answers `Ok`; out of turn it
/// changes nothing and hands `x` back in `MustRecv`.
pub open spec fn sub_sends<T>(
    can0: bool,
    f0: Frame,
    slot0: Option<T>,
    x: T,
    r: Result<(), SendErr<T>>,
    can1: bool,
    f1: Frame,
    slot1: Option<T>,
) -> bool {
    if can0 {
        &&& r == Ok::<(), SendErr<T>>(())
        &&& !can1
        &&& f1 == sub_frame(word_count::<T>())
        &&& slot1 == Some(x)
    } else {
        &&& r == Err::<(), SendErr<T>>(SendErr::MustRecv(x))
        &&& can1 == can0
        &&& f1 == f0
        &&& slot1 == slot0
    }
}

/// What a receive does, for a socket that accepts frames of parity
/// `accepts`: in turn it answers `MustSend`; waiting, with a frame it
/// accepts and a value in the slot, it takes the value out of the slot,
/// answers it and takes the turn; otherwise it answers `Blocked`. Only a
/// successful receive changes anything, and none changes the frame.
pub open spec fn receives<T>(
    can0: bool,
    accepts: bool,
    slot0: Option<T>,
    r: Result<T, RecvErr>,
    can1: bool,
    slot1: Option<T>,
) -> bool {
    if can0 {
        &&& r == Err::<T, RecvErr>(RecvErr::MustSend)
        &&& can1 == can0
        &&& slot1 == slot0
    } else if accepts && slot0 is Some {
        &&& r == Ok::<T, RecvErr>(slot0->0)
        &&& can1
        &&& slot1 is None
    } else {
        &&& r == Err::<T, RecvErr>(RecvErr::Blocked)
        &&& can1 == can0
        &&& slot1 == slot0
    }
}

/// `size` rounded up to the next multiple of `align`.
pub open spec fn round_up(size: nat, align: nat) -> nat {
    ((size + align - 1) as nat / align * align) as nat
}

/// Whether a memory layout of `size` bytes aligned to `align` can be
/// described: the alignment is a power of two and the size, rounded up to
/// it, stays within `isize::MAX`.
pub open spec fn layout_accepts(size: nat, align: nat) -> bool {
    is_pow2(align as int) && round_up(size, align) <= isize::MAX
}

/// The size in bytes of the handshake region of a channel for `T`: a data
/// word and a parity word per machine word of `T`.
pub open spec fn handshake_bytes<T>() -> nat {
    2 * (word_count::<T>() * size_of::<usize>())
}

/// The handshake region holds two words, a data word and a parity word, per
/// word of `T`.
pub proof fn lemma_handshake_bytes<T>()
    ensures
        handshake_bytes::<T>() == 2 * (word_count::<T>() * size_of::<usize>()),
{
}

#[verifier::external_type_specification]
#[verifier::external_body]
pub struct ExLayoutError(std::alloc::LayoutError);

/// Calls `std::alloc::Layout::from_size_align(size, align)`, drops the
/// layout it builds and passes its error through. Its documentation says
/// that it fails exactly when `align` is zero or not a power of two, or when
/// `size` rounded up to a multiple of `align` exceeds `isize::MAX`; that is
/// what the contract states.
#[verifier::external_body]
fn check_layout(size: usize, align: usize) -> (r: Result<(), std::alloc::LayoutError>)
    ensures
        r is Ok <==> layout_accepts(size as nat, align as nat),
{
    match std::alloc::Layout::from_size_align(size, align) {
        Ok(_) => Ok(()),
        Err(e) => Err(e),
    }
}

/// The handshake region of a channel can be described whenever its size is
/// at most `isize::MAX`: the size is a multiple of a word, hence of the
/// alignment of `usize`.
pub proof fn lemma_handshake_layout<T>()
    requires
        handshake_bytes::<T>() <= isize::MAX,
    ensures
        layout_accepts(handshake_bytes::<T>(), align_of::<usize>()),
{
    broadcast use vstd::layout::align_properties;

    let a = align_of::<usize>();
    let w = size_of::<usize>();
    let size = handshake_bytes::<T>();
    let k = 2 * word_count::<T>();
    assert(is_pow2(a as int));
    assert(a > 0) by {
        broadcast use vstd::layout::align_nonzero;

    }
    assert(w % a == 0);
    assert(size == k * w) by (nonlinear_arith)
        requires
            size == 2 * (word_count::<T>() * w),
            k == 2 * word_count::<T>(),
    ;
    assert(round_up(size, a) == size) by (nonlinear_arith)
        requires
            a > 0,
            w % a == 0,
            size == k * w,
            k >= 0,
            round_up(size, a) == (size + a - 1) as nat / a * a,
    {
        let q = w / a;
        assert(w == q * a);
        assert(size == (k * q) * a);
        assert((size + a - 1) as nat / a == k * q);
    }
}

impl<T> Wire<T> {
    /// The number of data words (and of parity words) on the wire: one per
    /// machine word of `T`.
    pub fn word_len(&self) -> (n: usize)
        ensures
            n == word_count::<T>(),
            n == self.frame().0.len(),
            n == self.frame().1.len(),
    {
        proof {
            use_type_invariant(self);
        }
        self.channel.len()
    }

    fn zeroed(count: usize) -> (w: Wire<T>)
        requires
            count == word_count::<T>(),
        ensures
            w.frame() == sub_frame(count as nat),
            w.slot() is None,
    {
        let mut channel: Vec<usize> = Vec::new();
        let mut parity: Vec<usize> = Vec::new();
        let mut i: usize = 0;
        while i < count
            invariant
                i <= count,
                channel@ == Seq::new(i as nat, |j: int| 0usize),
                parity@ == Seq::new(i as nat, |j: int| 0usize),
            decreases count - i,
        {
            channel.push(0);
            parity.push(0);
            i = i + 1;
        }
        Wire { channel, parity, slot: None }
    }

    /// Writes one data word and its parity word at position `i`.
    fn put(&mut self, i: usize, data: usize, check: usize)
        requires
            i < old(self).frame().0.len(),
        ensures
            final(self).frame() == (
                old(self).frame().0.update(i as int, data),
                old(self).frame().1.update(i as int, check),
            ),
            final(self).slot() == old(self).slot(),
        no_unwind
    {
        proof {
            use_type_invariant(&*self);
        }
        self.channel[i] = data;
        self.parity[i] = check;
    }

    /// Writes `data` and `check` at every position, and puts `t` in the slot.
    fn fill(&mut self, data: usize, check: usize, t: T)
        ensures
            final(self).frame() == (
                Seq::new(word_count::<T>(), |i: int| data),
                Seq::new(word_count::<T>(), |i: int| check),
            ),
            final(self).slot() == Some(t),
    {
        let n = self.word_len();
        let mut i: usize = 0;
        while i < n
            invariant
                i <= n,
                n == word_count::<T>(),
                self.frame().0.len() == n,
                self.frame().1.len() == n,
                forall|j: int| 0 <= j < i ==> self.frame().0[j] == data,
                forall|j: int| 0 <= j < i ==> self.frame().1[j] == check,
            decreases n - i,
        {
            self.put(i, data, check);
            i = i + 1;
        }
        self.slot = Some(t);
        proof {
            assert(self.frame().0 =~= Seq::new(word_count::<T>(), |i: int| data));
            assert(self.frame().1 =~= Seq::new(word_count::<T>(), |i: int| check));
        }
    }

    /// Takes the value out of the slot.
    fn take(&mut self) -> (r: Option<T>)
        ensures
            r == old(self).slot(),
            final(self).slot() is None,
            final(self).frame() == old(self).frame(),
        no_unwind
    {
        proof {
            use_type_invariant(&*self);
        }
        let mut out: Option<T> = None;
        core::mem::swap(&mut out, &mut self.slot);
        out
    }
}

/// Creates the two sockets of a channel for values of type `T`, together
/// with the wire they share.
///
/// The wire holds one data word and one parity word per machine word of
/// `T`, all zero at first, and an empty slot. The handshake region is
/// described by a memory layout of twice that many words; when no such
/// layout can be described the layout error comes back.
pub fn channel<T>() -> (r: Result<(MainSocket<T>, SubSocket<T>, Wire<T>), std::alloc::LayoutError>)
    requires
        2 * (word_count::<T>() * size_of::<usize>()) <= usize::MAX,
    ensures
        r is Ok <==> layout_accepts(
            2 * (word_count::<T>() * size_of::<usize>()),
            align_of::<usize>(),
        ),
        2 * (word_count::<T>() * size_of::<usize>()) <= isize::MAX ==> r is Ok,
        r matches Ok((main, sub, wire)) ==> {
            &&& main.can_send()
            &&& !sub.can_send()
            &&& wire.frame() == sub_frame(word_count::<T>())
            &&& wire.frame().0.len() * size_of::<usize>() >= size_of::<T>()
            &&& wire.frame().0.len() * size_of::<usize>() < size_of::<T>() + size_of::<usize>()
            &&& wire.slot() is None
            &&& word_count::<T>() > 0 ==> channel_in_turn(main, sub, wire)
        },
{
    vstd::layout::layout_for_type_is_valid::<T>();
    proof {
        lemma_handshake_bytes::<T>();
        lemma_word_count_is_ceiling::<T>();
        if handshake_bytes::<T>() <= isize::MAX {
            lemma_handshake_layout::<T>();
        }
    }
    let t_size_bytes = core::mem::size_of::<T>();
    let word = core::mem::size_of::<usize>();
    assert(word * 8 == usize::BITS);
    assert(t_size_bytes <= isize::MAX);
    let usize_count = (t_size_bytes + word - 1) / word;
    assert(usize_count == word_count::<T>());
    let total_size_bytes = usize_count * word;
    match check_layout(2 * total_size_bytes, core::mem::align_of::<usize>()) {
        Ok(()) => {},
        Err(e) => {
            return Err(e);
        },
    }
    let wire = Wire::<T>::zeroed(usize_count);
    let main = MainSocket::<T> { can_send: true, usize_count, _marker: PhantomData };
    let sub = SubSocket::<T> { can_send: false, usize_count, _marker: PhantomData };
    proof {
        if word_count::<T>() > 0 {
            lemma_fresh_wire_parity(word_count::<T>());
        }
    }
    Ok((main, sub, wire))
}

impl<T> MainSocket<T> {
    /// Sends `t` when it is this socket's turn: the value goes into the
    /// wire's slot, the handshake words get odd parity, and the turn passes
    /// to receiving. Out of turn the value comes back in `MustRecv` and
    /// nothing changes.
    pub fn try_send(&mut self, wire: &mut Wire<T>, t: T) -> (r: Result<(), SendErr<T>>)
        ensures
            main_sends(
                old(self).can_send(),
                old(wire).frame(),
                old(wire).slot(),
                t,
                r,
                final(self).can_send(),
                final(wire).frame(),
                final(wire).slot(),
            ),
            old(self).can_send() ==> r == Ok::<(), SendErr<T>>(()) && !final(self).can_send()
                && final(wire).slot() == Some(t),
            !old(self).can_send() ==> r == Err::<(), SendErr<T>>(SendErr::MustRecv(t))
                && *final(self) == *old(self) && *final(wire) == *old(wire),
    {
        proof {
            use_type_invariant(&*self);
        }
        if !self.can_send {
            return Err(SendErr::MustRecv(t));
        }
        // Write the handshake with odd parity.
        wire.fill(0, !0usize, t);
        // We must now receive before we can send again.
        self.can_send = false;
        Ok(())
    }

    /// Receives when it is this socket's turn and the wire holds a value
    /// whose handshake words have even parity (written by the sub socket):
    /// the value is taken out of the slot and the turn passes to sending.
    /// The handshake words are left as they are.
    pub fn try_recv(&mut self, wire: &mut Wire<T>) -> (r: Result<T, RecvErr>)
        ensures
            receives(
                old(self).can_send(),
                even_parity(old(wire).frame()),
                old(wire).slot(),
                r,
                final(self).can_send(),
                final(wire).slot(),
            ),
            final(wire).frame() == old(wire).frame(),
    {
        proof {
            use_type_invariant(&*self);
            use_type_invariant(&*wire);
        }
        // We must send before we can receive.
        if self.can_send {
            return Err(RecvErr::MustSend);
        }
        // Ensure even parity.
        let n = self.usize_count;
        let mut i: usize = 0;
        while i < n
            invariant
                !self.can_send,
                n == self.usize_count,
                i <= n,
                n == wire.frame().0.len(),
                n == wire.frame().1.len(),
                forall|j: int| 0 <= j < i ==> wire.frame().0[j] == wire.frame().1[j],
            decreases n - i,
        {
            let u = wire.channel[i];
            if u != wire.parity[i] {
                assert(wire.frame().0[i as int] != wire.frame().1[i as int]);
                return Err(RecvErr::Blocked);
            }
            i = i + 1;
        }
        match wire.take() {
            Some(t) => {
                // We take ownership of the value; we must send before we can
                // receive again.
                self.can_send = true;
                Ok(t)
            },
            None => Err(RecvErr::Blocked),
        }
    }
}

impl<T> SubSocket<T> {
    /// Sends `t` when it is this socket's turn: the value goes into the
    /// wire's slot, the handshake words get even parity, and the turn passes
    /// to receiving. Out of turn the value comes back in `MustRecv` and
    /// nothing changes.
    pub fn try_send(&mut self, wire: &mut Wire<T>, t: T) -> (r: Result<(), SendErr<T>>)
        ensures
            sub_sends(
                old(self).can_send(),
                old(wire).frame(),
                old(wire).slot(),
                t,
                r,
                final(self).can_send(),
                final(wire).frame(),
                final(wire).slot(),
            ),
            old(self).can_send() ==> r == Ok::<(), SendErr<T>>(()) && !final(self).can_send()
                && final(wire).slot() == Some(t),
            !old(self).can_send() ==> r == Err::<(), SendErr<T>>(SendErr::MustRecv(t))
                && *final(self) == *old(self) && *final(wire) == *old(wire),
    {
        proof {
            use_type_invariant(&*self);
        }
        if !self.can_send {
            return Err(SendErr::MustRecv(t));
        }
        // Write the handshake with even parity.
        wire.fill(0, 0, t);
        // We must now receive before we can send again.
        self.can_send = false;
        Ok(())
    }

    /// Receives when it is this socket's turn and the wire holds a value
    /// whose handshake words have odd parity (written by the main socket):
    /// the value is taken out of the slot and the turn passes to sending.
    /// The handshake words are left as they are.
    pub fn try_recv(&mut self, wire: &mut Wire<T>) -> (r: Result<T, RecvErr>)
        ensures
            receives(
                old(self).can_send(),
                odd_parity(old(wire).frame()),
                old(wire).slot(),
                r,
                final(self).can_send(),
                final(wire).slot(),
            ),
            final(wire).frame() == old(wire).frame(),
    {
        proof {
            use_type_invariant(&*self);
            use_type_invariant(&*wire);
        }
        // We must send before we can receive.
        if self.can_send {
            return Err(RecvErr::MustSend);
        }
        // Ensure odd parity.
        let n = self.usize_count;
        let mut i: usize = 0;
        while i < n
            invariant
                !self.can_send,
                n == self.usize_count,
                i <= n,
                n == wire.frame().0.len(),
                n == wire.frame().1.len(),
                forall|j: int| 0 <= j < i ==> wire.frame().0[j] == !wire.frame().1[j],
            decreases n - i,
        {
            let u = wire.channel[i];
            if u != !wire.parity[i] {
                assert(wire.frame().0[i as int] != !wire.frame().1[i as int]);
                return Err(RecvErr::Blocked);
            }
            i = i + 1;
        }
        match wire.take() {
            Some(t) => {
                // We take ownership of the value; we must send before we can
                // receive again.
                self.can_send = true;
                Ok(t)
            },
            None => Err(RecvErr::Blocked),
        }
    }
}

/// A main frame of `n > 0` words has odd parity and not even parity: the
/// sub socket accepts it and the main socket never takes its own value
/// back.
pub proof fn lemma_main_frame_parity(n: nat)
    ensures
        odd_parity(main_frame(n)),
        n > 0 ==> !even_parity(main_frame(n)),
{
    crate::lemma_all_ones();
    assert(0usize == !!0usize) by (bit_vector);
    crate::lemma_word_differs_from_complement(0usize);
    if n > 0 {
        assert(main_frame(n).0[0] != main_frame(n).1[0]);
    }
}

/// A sub frame of `n > 0` words has even parity and not odd parity: the
/// main socket accepts it and the sub socket never takes its own value
/// back.
pub proof fn lemma_sub_frame_parity(n: nat)
    ensures
        even_parity(sub_frame(n)),
        n > 0 ==> !odd_parity(sub_frame(n)),
{
    crate::lemma_word_differs_from_complement(0usize);
    if n > 0 {
        assert(sub_frame(n).0[0] != !sub_frame(n).1[0]);
    }
}

/// A fresh wire of `n > 0` words holds no frame from the main socket, so
/// the sub socket cannot receive before the main socket has sent.
pub proof fn lemma_fresh_wire_parity(n: nat)
    ensures
        even_parity(sub_frame(n)),
        n > 0 ==> !odd_parity(sub_frame(n)),
{
    lemma_sub_frame_parity(n);
}

/// A non-empty frame cannot have both parities.
pub proof fn lemma_parities_exclusive(f: Frame)
    requires
        f.0.len() > 0,
        f.1.len() == f.0.len(),
    ensures
        !(odd_parity(f) && even_parity(f)),
{
    crate::lemma_word_differs_from_complement(f.1[0]);
    assert(f.0[0] == f.1[0] ==> f.0[0] != !f.1[0]);
}

/// The turn-taking invariant of one channel, over the main socket's turn,
/// the sub socket's turn, the frame and the slot on their wire: both halves
/// of the frame hold one word per word of `T`; the sockets never may both
/// send; a socket that may send finds no value from the other side and an
/// empty slot; while neither may send, a value is on its way and the frame
/// belongs to one of the two sides.
pub open spec fn in_turn<T>(main_can: bool, sub_can: bool, f: Frame, slot: Option<T>) -> bool {
    &&& f.0.len() == word_count::<T>()
    &&& f.1.len() == word_count::<T>()
    &&& !(main_can && sub_can)
    &&& main_can ==> !odd_parity(f) && slot is None
    &&& sub_can ==> !even_parity(f) && slot is None
    &&& (!main_can && !sub_can) ==> slot is Some && (odd_parity(f) || even_parity(f))
}

/// The turn-taking invariant over the two sockets and the wire themselves.
pub open spec fn channel_in_turn<T>(main: MainSocket<T>, sub: SubSocket<T>, wire: Wire<T>) -> bool {
    in_turn::<T>(main.can_send(), sub.can_send(), wire.frame(), wire.slot())
}

/// A send by the main socket, whatever its outcome, keeps the channel in
/// turn.
pub proof fn lemma_main_send_keeps_turns<T>(
    main0: MainSocket<T>,
    main1: MainSocket<T>,
    sub: SubSocket<T>,
    wire0: Wire<T>,
    wire1: Wire<T>,
    x: T,
    r: Result<(), SendErr<T>>,
)
    requires
        word_count::<T>() > 0,
        channel_in_turn(main0, sub, wire0),
        main_sends(
            main0.can_send(),
            wire0.frame(),
            wire0.slot(),
            x,
            r,
            main1.can_send(),
            wire1.frame(),
            wire1.slot(),
        ),
    ensures
        channel_in_turn(main1, sub, wire1),
{
    lemma_main_frame_parity(word_count::<T>());
}

/// A send by the sub socket, whatever its outcome, keeps the channel in turn.
pub proof fn lemma_sub_send_keeps_turns<T>(
    main: MainSocket<T>,
    sub0: SubSocket<T>,
    sub1: SubSocket<T>,
    wire0: Wire<T>,
    wire1: Wire<T>,
    x: T,
    r: Result<(), SendErr<T>>,
)
    requires
        word_count::<T>() > 0,
        channel_in_turn(main, sub0, wire0),
        sub_sends(
            sub0.can_send(),
            wire0.frame(),
            wire0.slot(),
            x,
            r,
            sub1.can_send(),
            wire1.frame(),
            wire1.slot(),
        ),
    ensures
        channel_in_turn(main, sub1, wire1),
{
    lemma_sub_frame_parity(word_count::<T>());
}

/// A receive by the main socket, whatever its outcome, keeps the channel in
/// turn.
pub proof fn lemma_main_recv_keeps_turns<T>(
    main0: MainSocket<T>,
    main1: MainSocket<T>,
    sub: SubSocket<T>,
    wire0: Wire<T>,
    wire1: Wire<T>,
    r: Result<T, RecvErr>,
)
    requires
        word_count::<T>() > 0,
        channel_in_turn(main0, sub, wire0),
        receives(
            main0.can_send(),
            even_parity(wire0.frame()),
            wire0.slot(),
            r,
            main1.can_send(),
            wire1.slot(),
        ),
        wire1.frame() == wire0.frame(),
    ensures
        channel_in_turn(main1, sub, wire1),
{
    lemma_parities_exclusive(wire0.frame());
}

/// A receive by the sub socket, whatever its outcome, keeps the channel in
/// turn.
pub proof fn lemma_sub_recv_keeps_turns<T>(
    main: MainSocket<T>,
    sub0: SubSocket<T>,
    sub1: SubSocket<T>,
    wire0: Wire<T>,
    wire1: Wire<T>,
    r: Result<T, RecvErr>,
)
    requires
        word_count::<T>() > 0,
        channel_in_turn(main, sub0, wire0),
        receives(
            sub0.can_send(),
            odd_parity(wire0.frame()),
            wire0.slot(),
            r,
            sub1.can_send(),
            wire1.slot(),
        ),
        wire1.frame() == wire0.frame(),
    ensures
        channel_in_turn(main, sub1, wire1),
{
    lemma_parities_exclusive(wire0.frame());
}

/// In a channel that is in turn: the sockets never may both send; while
/// neither may send, exactly one of them accepts the frame on the wire, so
/// the value on its way is handed out once and never back to its sender.
pub proof fn lemma_in_turn_outcomes<T>(main: MainSocket<T>, sub: SubSocket<T>, wire: Wire<T>)
    requires
        word_count::<T>() > 0,
        channel_in_turn(main, sub, wire),
    ensures
        !(main.can_send() && sub.can_send()),
        main.can_send() ==> !odd_parity(wire.frame()) && wire.slot() is None,
        sub.can_send() ==> !even_parity(wire.frame()) && wire.slot() is None,
        !main.can_send() && !sub.can_send() ==> wire.slot() is Some && (odd_parity(wire.frame())
            <==> !even_parity(wire.frame())),
{
    lemma_parities_exclusive(wire.frame());
}

/// What the main socket sends from a channel in turn is what the sub socket
/// receives next: after a successful main send, the sub socket's receive
/// answers exactly the value sent.
pub proof fn lemma_main_to_sub<T>(
    main0: MainSocket<T>,
    main1: MainSocket<T>,
    sub0: SubSocket<T>,
    sub1: SubSocket<T>,
    wire0: Wire<T>,
    wire1: Wire<T>,
    wire2: Wire<T>,
    x: T,
    r1: Result<(), SendErr<T>>,
    r2: Result<T, RecvErr>,
)
    requires
        word_count::<T>() > 0,
        channel_in_turn(main0, sub0, wire0),
        main0.can_send(),
        main_sends(
            main0.can_send(),
            wire0.frame(),
            wire0.slot(),
            x,
            r1,
            main1.can_send(),
            wire1.frame(),
            wire1.slot(),
        ),
        receives(
            sub0.can_send(),
            odd_parity(wire1.frame()),
            wire1.slot(),
            r2,
            sub1.can_send(),
            wire2.slot(),
        ),
    ensures
        r2 == Ok::<T, RecvErr>(x),
        sub1.can_send(),
        wire2.slot() is None,
{
    lemma_main_frame_parity(word_count::<T>());
}

/// What the sub socket sends from a channel in turn is what the main socket
/// receives next: after a successful sub send, the main socket's receive
/// answers exactly the value sent.
pub proof fn lemma_sub_to_main<T>(
    main0: MainSocket<T>,
    main1: MainSocket<T>,
    sub0: SubSocket<T>,
    sub1: SubSocket<T>,
    wire0: Wire<T>,
    wire1: Wire<T>,
    wire2: Wire<T>,
    x: T,
    r1: Result<(), SendErr<T>>,
    r2: Result<T, RecvErr>,
)
    requires
        word_count::<T>() > 0,
        channel_in_turn(main0, sub0, wire0),
        sub0.can_send(),
        sub_sends(
            sub0.can_send(),
            wire0.frame(),
            wire0.slot(),
            x,
            r1,
            sub1.can_send(),
            wire1.frame(),
            wire1.slot(),
        ),
        receives(
            main0.can_send(),
            even_parity(wire1.frame()),
            wire1.slot(),
            r2,
            main1.can_send(),
            wire2.slot(),
        ),
    ensures
        r2 == Ok::<T, RecvErr>(x),
        main1.can_send(),
        wire2.slot() is None,
{
    lemma_sub_frame_parity(word_count::<T>());
}

/// A send by a socket whose turn it is not is refused, whatever the wire
/// holds: the value comes back in `MustRecv`, and neither the turn, the
/// frame nor the slot changes. A send in turn succeeds, puts the value in
/// the slot and gives up the turn.
pub proof fn lemma_send_outcomes<T>(
    can0: bool,
    f0: Frame,
    slot0: Option<T>,
    x: T,
    r: Result<(), SendErr<T>>,
    can1: bool,
    f1: Frame,
    slot1: Option<T>,
)
    ensures
        main_sends(can0, f0, slot0, x, r, can1, f1, slot1) ==> {
            &&& !can0 ==> r == Err::<(), SendErr<T>>(SendErr::MustRecv(x)) && can1 == can0 && f1
                == f0 && slot1 == slot0
            &&& can0 ==> r == Ok::<(), SendErr<T>>(()) && !can1 && slot1 == Some(x)
                && odd_parity(f1) && f1.0.len() == word_count::<T>()
        },
        sub_sends(can0, f0, slot0, x, r, can1, f1, slot1) ==> {
            &&& !can0 ==> r == Err::<(), SendErr<T>>(SendErr::MustRecv(x)) && can1 == can0 && f1
                == f0 && slot1 == slot0
            &&& can0 ==> r == Ok::<(), SendErr<T>>(()) && !can1 && slot1 == Some(x)
                && even_parity(f1) && f1.0.len() == word_count::<T>()
        },
{
    lemma_main_frame_parity(word_count::<T>());
    lemma_sub_frame_parity(word_count::<T>());
}

} // verus!
