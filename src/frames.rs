//! The per-frame protocol of the swapchain: which synchronisation slot a
//! frame uses, which presentable image it draws into, and in what order the
//! CPU may acquire, wait, record and submit.
//!
//! The slot (`current`) indexes the "image available" and "rendering
//! finished" semaphores and the "may begin drawing" fence; the image index
//! handed back by the presentation engine indexes framebuffers and command
//! buffers. The two are tracked separately.
use vstd::prelude::*;
use vstd::arithmetic::div_mod::{
    lemma_add_mod_noop, lemma_div_pos_is_pos, lemma_fundamental_div_mod, lemma_mod_pos_bound,
    lemma_small_mod,
};
use vstd::arithmetic::mul::lemma_mul_inequality;

verus! {

/// Number of swapchain images to ask for: three, within the surface's
/// bounds. A maximum of 0 means the surface sets no upper bound.
pub fn swapchain_image_count(min_image_count: u32, max_image_count: u32) -> (r: u32)
    ensures
        r == ({
            let lower: u32 = if 3 > min_image_count { 3 } else { min_image_count };
            if max_image_count == 0 || lower <= max_image_count { lower } else { max_image_count }
        }),
{
    let lower: u32 = if 3 > min_image_count { 3 } else { min_image_count };
    if max_image_count == 0 || lower <= max_image_count {
        lower
    } else {
        max_image_count
    }
}

/// Where the current frame stands.
#[derive(Clone, Copy, Debug, PartialEq, Eq, Structural)]
pub enum FramePhase {
    /// No frame is being prepared.
    Idle,
    /// A slot was chosen; its image has not been acquired yet.
    Acquiring,
    /// The image was acquired; the slot's fence has not been observed yet.
    Acquired(u32),
    /// The slot's fence was observed signalled and reset: the command buffer
    /// of the image may be recorded and submitted.
    Ready(u32),
}

/// A step taken out of order.
#[derive(Clone, Copy, Debug, PartialEq, Eq, Structural)]
pub enum FrameError {
    /// The step does not follow from the current phase.
    OutOfOrder,
    /// The presentation engine returned an image index beyond the swapchain.
    BadImageIndex,
}

/// What a recorded frame is submitted with: the synchronisation slot and
/// the presentable image (framebuffer and command buffer index).
#[derive(Clone, Copy, Debug, PartialEq, Eq, Structural)]
pub struct FrameTarget {
    pub slot: usize,
    pub image_index: u32,
}

/// The frame ring of a swapchain of `in_flight.len()` images.
pub struct FrameSync {
    current: usize,
    in_flight: Vec<bool>,
    phase: FramePhase,
}

/// The abstract state of a frame ring.
pub struct FrameSyncView {
    /// Index of the current synchronisation slot.
    pub current: nat,
    /// For each slot: submitted and not yet observed retired by its fence.
    pub in_flight: Seq<bool>,
    pub phase: FramePhase,
}

impl View for FrameSync {
    type V = FrameSyncView;

    closed spec fn view(&self) -> FrameSyncView {
        FrameSyncView { current: self.current as nat, in_flight: self.in_flight@, phase: self.phase }
    }
}

/// The slot that follows `c` in a ring of `n`.
pub open spec fn next_in_ring(c: nat, n: nat) -> nat {
    (c + 1) % n
}

/// The slot reached from `c` after `k` steps of a ring of `n`.
pub open spec fn ring_after(c: nat, n: nat, k: nat) -> nat
    decreases k,
{
    if k == 0 {
        c
    } else {
        next_in_ring(ring_after(c, n, (k - 1) as nat), n)
    }
}

impl FrameSyncView {
    /// Number of slots (and of swapchain images).
    pub open spec fn slots(&self) -> nat {
        self.in_flight.len()
    }

    pub open spec fn wf(&self) -> bool {
        &&& self.slots() > 0
        &&& self.current < self.slots()
        &&& match self.phase {
            FramePhase::Acquired(i) => i < self.slots(),
            FramePhase::Ready(i) => i < self.slots() && !self.in_flight[self.current as int],
            _ => true,
        }
    }
}

impl FrameSync {
    /// A ring of `images` slots whose fences start signalled: nothing is in
    /// flight and slot 0 is current.
    pub fn new(images: usize) -> (r: FrameSync)
        requires
            images > 0,
        ensures
            r@.wf(),
            r@.slots() == images,
            r@.current == 0,
            r@.phase == FramePhase::Idle,
            forall|i: int| 0 <= i < images ==> !#[trigger] r@.in_flight[i],
    {
        let mut in_flight: Vec<bool> = Vec::new();
        let mut i: usize = 0;
        while i < images
            invariant
                i <= images,
                in_flight@.len() == i,
                forall|j: int| 0 <= j < i ==> !#[trigger] in_flight@[j],
            decreases images - i,
        {
            in_flight.push(false);
            i = i + 1;
        }
        FrameSync { current: 0, in_flight, phase: FramePhase::Idle }
    }

    /// Number of slots.
    pub fn size(&self) -> (r: usize)
        ensures
            r == self@.slots(),
    {
        self.in_flight.len()
    }

    /// The current synchronisation slot.
    pub fn current_image(&self) -> (r: usize)
        ensures
            r == self@.current,
    {
        self.current
    }

    /// The phase of the frame being prepared.
    pub fn phase(&self) -> (r: FramePhase)
        ensures
            r == self@.phase,
    {
        self.phase
    }

    /// Whether a slot's last submission has not been observed retired.
    pub fn is_in_flight(&self, slot: usize) -> (r: bool)
        requires
            slot < self@.slots(),
        ensures
            r == self@.in_flight[slot as int],
    {
        self.in_flight[slot]
    }

    /// Starts a frame: advances the ring and returns the slot whose "image
    /// available" semaphore the acquisition is to signal.
    pub fn next_slot(&mut self) -> (r: Result<usize, FrameError>)
        requires
            old(self)@.wf(),
        ensures
            final(self)@.wf(),
            final(self)@.in_flight == old(self)@.in_flight,
            old(self)@.phase == FramePhase::Idle ==> {
                &&& r == Ok::<usize, FrameError>(final(self)@.current as usize)
                &&& final(self)@.current == next_in_ring(old(self)@.current, old(self)@.slots())
                &&& final(self)@.phase == FramePhase::Acquiring
            },
            old(self)@.phase != FramePhase::Idle ==> {
                &&& r == Err::<usize, FrameError>(FrameError::OutOfOrder)
                &&& final(self)@ == old(self)@
            },
    {
        if self.phase != FramePhase::Idle {
            return Err(FrameError::OutOfOrder);
        }
        let n = self.in_flight.len();
        self.current = (self.current + 1) % n;
        self.phase = FramePhase::Acquiring;
        Ok(self.current)
    }

    /// The presentation engine handed back image `image_index` for the
    /// current slot.
    pub fn acquired(&mut self, image_index: u32) -> (r: Result<(), FrameError>)
        requires
            old(self)@.wf(),
        ensures
            final(self)@.wf(),
            final(self)@.in_flight == old(self)@.in_flight,
            final(self)@.current == old(self)@.current,
            r is Ok <==> old(self)@.phase == FramePhase::Acquiring && image_index
                < old(self)@.slots(),
            r is Ok ==> final(self)@.phase == FramePhase::Acquired(image_index),
            r == Err::<(), FrameError>(FrameError::OutOfOrder) <==> old(self)@.phase
                != FramePhase::Acquiring,
            r is Err ==> final(self)@ == old(self)@,
    {
        if self.phase != FramePhase::Acquiring {
            return Err(FrameError::OutOfOrder);
        }
        if image_index as usize >= self.in_flight.len() {
            return Err(FrameError::BadImageIndex);
        }
        self.phase = FramePhase::Acquired(image_index);
        Ok(())
    }

    /// The current slot's "may begin drawing" fence was waited on and reset:
    /// the GPU has retired the slot's previous frame.
    pub fn fence_signaled(&mut self) -> (r: Result<(), FrameError>)
        requires
            old(self)@.wf(),
        ensures
            final(self)@.wf(),
            final(self)@.current == old(self)@.current,
            r is Ok <==> old(self)@.phase is Acquired,
            r is Ok ==> {
                &&& final(self)@.phase == FramePhase::Ready(old(self)@.phase->Acquired_0)
                &&& final(self)@.in_flight == old(self)@.in_flight.update(
                    old(self)@.current as int,
                    false,
                )
            },
            r is Err ==> r == Err::<(), FrameError>(FrameError::OutOfOrder) && final(self)@ == old(self)@,
    {
        match self.phase {
            FramePhase::Acquired(i) => {
                let c = self.current;
                self.in_flight.set(c, false);
                self.phase = FramePhase::Ready(i);
                Ok(())
            },
            _ => Err(FrameError::OutOfOrder),
        }
    }

    /// Drops the frame being prepared when acquiring its image, or waiting
    /// for its fence, failed (an out-of-date surface): the ring returns to
    /// idle and the slot's state is untouched. Once the fence has been reset
    /// the frame must be submitted instead.
    pub fn abandon(&mut self) -> (r: Result<(), FrameError>)
        requires
            old(self)@.wf(),
        ensures
            final(self)@.wf(),
            final(self)@.current == old(self)@.current,
            final(self)@.in_flight == old(self)@.in_flight,
            r is Ok <==> (old(self)@.phase is Acquiring || old(self)@.phase is Acquired),
            r is Ok ==> final(self)@.phase == FramePhase::Idle,
            r is Err ==> r == Err::<(), FrameError>(FrameError::OutOfOrder) && final(self)@ == old(self)@,
    {
        match self.phase {
            FramePhase::Acquiring => {
                self.phase = FramePhase::Idle;
                Ok(())
            },
            FramePhase::Acquired(_) => {
                self.phase = FramePhase::Idle;
                Ok(())
            },
            _ => Err(FrameError::OutOfOrder),
        }
    }

    /// The slot and image whose command buffer may be recorded now: only
    /// once the slot's fence has been observed.
    pub fn recording_target(&self) -> (r: Result<FrameTarget, FrameError>)
        requires
            self@.wf(),
        ensures
            r is Ok <==> self@.phase is Ready,
            r is Ok ==> r->Ok_0 == (FrameTarget {
                slot: self@.current as usize,
                image_index: self@.phase->Ready_0,
            }),
            r is Ok ==> !self@.in_flight[self@.current as int],
            r is Err ==> r == Err::<FrameTarget, FrameError>(FrameError::OutOfOrder),
    {
        match self.phase {
            FramePhase::Ready(i) => Ok(FrameTarget { slot: self.current, image_index: i }),
            _ => Err(FrameError::OutOfOrder),
        }
    }

    /// The recorded frame was submitted: its slot is in flight until its
    /// fence is observed again, and the ring is ready for the next frame.
    /// A slot is only ever submitted while it is not in flight.
    pub fn submitted(&mut self) -> (r: Result<FrameTarget, FrameError>)
        requires
            old(self)@.wf(),
        ensures
            final(self)@.wf(),
            final(self)@.current == old(self)@.current,
            r is Ok <==> old(self)@.phase is Ready,
            r is Ok ==> {
                &&& r->Ok_0 == (FrameTarget {
                    slot: old(self)@.current as usize,
                    image_index: old(self)@.phase->Ready_0,
                })
                &&& !old(self)@.in_flight[old(self)@.current as int]
                &&& final(self)@.in_flight == old(self)@.in_flight.update(
                    old(self)@.current as int,
                    true,
                )
                &&& final(self)@.phase == FramePhase::Idle
            },
            r is Err ==> r == Err::<FrameTarget, FrameError>(FrameError::OutOfOrder) && final(self)@ == old(self)@,
    {
        match self.phase {
            FramePhase::Ready(i) => {
                let c = self.current;
                self.in_flight.set(c, true);
                self.phase = FramePhase::Idle;
                Ok(FrameTarget { slot: c, image_index: i })
            },
            _ => Err(FrameError::OutOfOrder),
        }
    }
}

/// A command buffer is only recorded for a slot whose fence has been
/// observed since the slot was last submitted: in the phase that allows
/// recording, the current slot is never in flight.
pub proof fn lemma_recording_slot_retired(v: FrameSyncView)
    requires
        v.wf(),
        v.phase is Ready,
    ensures
        !v.in_flight[v.current as int],
{
}

/// Successive frames walk the ring in order: after `k` steps from slot `c`
/// of a ring of `n` slots the current slot is `(c + k) mod n`, and the ring
/// is back at `c` exactly when `k` is a multiple of `n`: its period is `n`.
pub proof fn lemma_ring_period(c: nat, n: nat, k: nat)
    requires
        n > 0,
        c < n,
    ensures
        ring_after(c, n, k) == (c + k) % n,
        ring_after(c, n, k) == c <==> k % n == 0,
    decreases k,
{
    if k > 0 {
        lemma_ring_period(c, n, (k - 1) as nat);
        let prev = ring_after(c, n, (k - 1) as nat);
        assert(prev == (c + k - 1) % n as int);
        lemma_add_mod_noop((c + k - 1) as int, 1, n as int);
        if n > 1 {
            lemma_small_mod(1, n);
        } else {
            lemma_mod_one((c + k) as int);
            lemma_mod_one((prev + 1) as int);
        }
    }
    lemma_add_mod_noop(c as int, k as int, n as int);
    lemma_small_mod(c, n);
    let r = k % n;
    lemma_mod_bound(k as int, n as int);
    if c + r < n {
        lemma_small_mod((c + r) as nat, n);
    } else {
        lemma_mod_subtract_once((c + r) as int, n as int);
    }
}

/// Slot `s` is reached within `n` steps from `c`.
pub open spec fn visited_within_period(c: nat, n: nat, s: nat) -> bool {
    exists|k: nat| 1 <= k <= n && #[trigger] ring_after(c, n, k) == s
}

/// Over one period the ring visits every slot exactly once: the slots
/// reached after 1, 2, ..., n steps from `c` are pairwise distinct and cover
/// all of `0..n`.
pub proof fn lemma_ring_visits_each_slot(c: nat, n: nat)
    requires
        n > 0,
        c < n,
    ensures
        forall|i: nat, j: nat|
            1 <= i < j <= n ==> #[trigger] ring_after(c, n, i) != #[trigger] ring_after(c, n, j),
        forall|s: nat| s < n ==> #[trigger] visited_within_period(c, n, s),
{
    assert forall|i: nat, j: nat| 1 <= i < j <= n implies #[trigger] ring_after(c, n, i)
        != #[trigger] ring_after(c, n, j) by {
        lemma_ring_period(c, n, i);
        lemma_ring_period(c, n, j);
        lemma_slot_of(c, n, i);
        lemma_slot_of(c, n, j);
    }
    assert forall|s: nat| s < n implies #[trigger] visited_within_period(c, n, s) by {
        let k: nat = if s > c { (s - c) as nat } else { (s + n - c) as nat };
        lemma_ring_period(c, n, k);
        if s > c {
            lemma_small_mod(s, n);
        } else {
            lemma_mod_subtract_once((s + n) as int, n as int);
        }
        assert(ring_after(c, n, k) == s);
    }
}

/// The slot reached after `k` steps, `1 <= k <= n`, written without `mod`.
proof fn lemma_slot_of(c: nat, n: nat, k: nat)
    requires
        n > 0,
        c < n,
        1 <= k <= n,
    ensures
        (c + k) % n == if c + k < n { (c + k) as int } else { c + k - n },
{
    if c + k < n {
        lemma_small_mod((c + k) as nat, n);
    } else {
        lemma_mod_subtract_once((c + k) as int, n as int);
    }
}

proof fn lemma_mod_bound(x: int, m: int)
    requires
        x >= 0,
        m > 0,
    ensures
        0 <= x % m < m,
{
    lemma_mod_pos_bound(x, m);
}

proof fn lemma_mod_subtract_once(x: int, m: int)
    requires
        m > 0,
        m <= x < 2 * m,
    ensures
        x % m == x - m,
{
    lemma_fundamental_div_mod(x, m);
    lemma_mod_pos_bound(x, m);
    assert(x / m == 1) by {
        lemma_div_pos_is_pos(x, m);
        if x / m >= 2 {
            lemma_mul_inequality(2, x / m, m);
        }
        assert(x / m >= 1 || x < m) by (nonlinear_arith)
            requires
                x == m * (x / m) + x % m,
                0 <= x % m < m,
                x >= m,
        ;
        assert(x / m < 2 || x >= 2 * m) by (nonlinear_arith)
            requires
                x == m * (x / m) + x % m,
                0 <= x % m < m,
                m > 0,
        ;
    }
}

/// One call of `next_slot` moves the ring by one step.
pub proof fn lemma_next_slot_steps(c: nat, n: nat)
    requires
        n > 0,
        c < n,
    ensures
        next_in_ring(c, n) == ring_after(c, n, 1),
        next_in_ring(c, n) < n,
{
    lemma_mod_pos_bound((c + 1) as int, n as int);
    assert(ring_after(c, n, 0) == c);
}

proof fn lemma_mod_one(x: int)
    requires
        x >= 0,
    ensures
        x % 1 == 0,
{
    lemma_mod_pos_bound(x, 1);
}

} // verus!
