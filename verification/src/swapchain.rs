//! Frame synchronization primitive: a fixed pool of three framebuffers with
//! a role-rotation protocol.
//!
//! The producer acquires a free buffer, draws into it and submits it; the
//! refresh consumer latches the most recently submitted frame once per scan
//! cycle. Buffers move between four roles (`Free`, `Writing`, `Pending`,
//! `Reading`) under the drop-oldest policy: a submit that finds an unread
//! pending frame returns that older frame to the free pool. On the target
//! hardware every transition runs inside a short critical section so that
//! the producer and the interrupt-driven consumer each see the role table
//! atomically; the transitions themselves are the sequential logic below.
//!
//! A simpler double-buffer-plus-spare design with a fixed permutation table
//! was considered and rejected: it assumes the read and write indices are
//! always distinct at swap time without checking, while the role table
//! makes that disjointness an invariant.

use vstd::prelude::*;

verus! {

use crate::framebuffer::Framebuffer;
use crate::framebuffer::FRAME_BYTES;

/// The role a swapchain slot currently plays. Ownership of the underlying
/// buffer follows the role: a `Writing` slot's buffer has been moved out
/// into the producer's handle; every other slot holds its buffer.
#[derive(Clone, Copy, Debug, PartialEq, Eq, Structural)]
pub enum Role {
    /// In the pool; may be handed to the producer next.
    Free,
    /// Moved out to the producer through a `SwapchainImage`.
    Writing,
    /// Submitted; becomes the scan-out frame at the next latch.
    Pending,
    /// Currently scanned out by the refresh state machine.
    Reading,
}

/// A pool of exactly three framebuffers plus the role of each. The
/// buffers are allocated once at construction and never reallocated;
/// only the roles rotate.
pub struct Swapchain {
    slot0: Option<Framebuffer>,
    slot1: Option<Framebuffer>,
    slot2: Option<Framebuffer>,
    role0: Role,
    role1: Role,
    role2: Role,
}

/// Exclusive write access to one pooled buffer. The buffer itself is held
/// by value, so while the handle lives no other actor can even name it;
/// submitting moves it back into the pool as the pending frame.
pub struct SwapchainImage {
    fb: Framebuffer,
    index: usize,
}

/// Bytes of a pooled slot; a slot whose buffer is handed out reads as empty.
pub open spec fn frame_of(slot: Option<Framebuffer>) -> Seq<u8> {
    match slot {
        Some(fb) => fb@,
        None => Seq::empty(),
    }
}

impl View for SwapchainImage {
    type V = Seq<u8>;

    closed spec fn view(&self) -> Seq<u8> {
        self.fb@
    }
}

impl SwapchainImage {
    /// Which pool slot this handle was acquired from.
    pub closed spec fn spec_index(&self) -> int {
        self.index as int
    }

    /// A handle always addresses a real slot and carries a full frame.
    pub open spec fn wf(&self) -> bool {
        0 <= self.spec_index() < 3 && self@.len() == FRAME_BYTES
    }

    /// The buffer the producer may freely mutate until it submits.
    pub fn framebuffer(&mut self) -> (fb: &mut Framebuffer)
        ensures
            (*fb)@ == old(self)@,
            (*fb).wf() <==> old(self)@.len() == FRAME_BYTES,
            final(self)@ == (*final(fb))@,
            final(self).spec_index() == old(self).spec_index(),
    {
        &mut self.fb
    }
}

impl Swapchain {
    /// Role of slot `i`.
    pub closed spec fn spec_role(&self, i: int) -> Role {
        if i == 0 {
            self.role0
        } else if i == 1 {
            self.role1
        } else {
            self.role2
        }
    }

    /// Whether slot `i` currently holds its buffer.
    pub closed spec fn slot_present(&self, i: int) -> bool {
        if i == 0 {
            self.slot0 is Some
        } else if i == 1 {
            self.slot1 is Some
        } else {
            self.slot2 is Some
        }
    }

    /// Bytes held by slot `i`; empty while the buffer is handed out.
    pub closed spec fn frame(&self, i: int) -> Seq<u8> {
        if i == 0 {
            frame_of(self.slot0)
        } else if i == 1 {
            frame_of(self.slot1)
        } else {
            frame_of(self.slot2)
        }
    }

    /// The slot currently scanned out.
    pub closed spec fn read_index(&self) -> int {
        if self.role0 == Role::Reading {
            0
        } else if self.role1 == Role::Reading {
            1
        } else {
            2
        }
    }

    /// Whether a submitted frame is waiting to be latched.
    pub open spec fn has_pending(&self) -> bool {
        exists|i: int| 0 <= i < 3 && #[trigger] self.spec_role(i) == Role::Pending
    }

    /// The slot holding the waiting frame (meaningful when `has_pending()`).
    pub closed spec fn pending_index(&self) -> int {
        if self.role0 == Role::Pending {
            0
        } else if self.role1 == Role::Pending {
            1
        } else {
            2
        }
    }

    /// Whether the producer currently owns a buffer through a handle.
    pub open spec fn writer_outstanding(&self) -> bool {
        exists|i: int| 0 <= i < 3 && #[trigger] self.spec_role(i) == Role::Writing
    }

    /// The swapchain invariant:
    /// - exactly one slot is being read at any instant;
    /// - at most one slot is being written, and at most one is pending;
    /// - a slot holds its buffer exactly when the producer does not;
    /// - every held buffer is a full frame.
    pub open spec fn wf(&self) -> bool {
        &&& self.spec_role(self.read_index()) == Role::Reading
        &&& forall|i: int, j: int|
            0 <= i < 3 && 0 <= j < 3 && #[trigger] self.spec_role(i) == Role::Reading
                && #[trigger] self.spec_role(j) == Role::Reading ==> i == j
        &&& forall|i: int, j: int|
            0 <= i < 3 && 0 <= j < 3 && #[trigger] self.spec_role(i) == Role::Writing
                && #[trigger] self.spec_role(j) == Role::Writing ==> i == j
        &&& forall|i: int, j: int|
            0 <= i < 3 && 0 <= j < 3 && #[trigger] self.spec_role(i) == Role::Pending
                && #[trigger] self.spec_role(j) == Role::Pending ==> i == j
        &&& forall|i: int|
            0 <= i < 3 ==> (#[trigger] self.slot_present(i) <==> self.spec_role(i) != Role::Writing)
        &&& forall|i: int|
            0 <= i < 3 && #[trigger] self.slot_present(i) ==> self.frame(i).len() == FRAME_BYTES
    }

    /// The bytes the refresh machine is currently scanning out.
    pub open spec fn read_frame(&self) -> Seq<u8> {
        self.frame(self.read_index())
    }

    /// A fresh pool: three dark frames, slot 2 exposed to the consumer and
    /// the other two free, no pending frame and no outstanding writer.
    pub fn new() -> (chain: Swapchain)
        ensures
            chain.wf(),
            !chain.writer_outstanding(),
            !chain.has_pending(),
            chain.read_index() == 2,
            forall|i: int| 0 <= i < 3 ==> #[trigger] chain.frame(i) == Seq::new(
                FRAME_BYTES as nat,
                |k: int| 0u8,
            ),
    {
        let chain = Swapchain {
            slot0: Some(Framebuffer::new()),
            slot1: Some(Framebuffer::new()),
            slot2: Some(Framebuffer::new()),
            role0: Role::Free,
            role1: Role::Free,
            role2: Role::Reading,
        };
        proof {
            assert forall|i: int| 0 <= i < 3 implies #[trigger] chain.frame(i) == Seq::new(
                FRAME_BYTES as nat,
                |k: int| 0u8,
            ) by {
                assert(chain.frame(i) =~= Seq::new(FRAME_BYTES as nat, |k: int| 0u8));
            }
        }
        chain
    }
}

/// How `acquire_next` changes the chain: one free slot's buffer moves out
/// to the producer; every other role, the scan-out frame and any pending
/// mark stay exactly as they were.
pub open spec fn acquire_rel(pre: Swapchain, post: Swapchain, img: SwapchainImage) -> bool {
    &&& 0 <= img.spec_index() < 3
    &&& pre.spec_role(img.spec_index()) == Role::Free
    &&& post.spec_role(img.spec_index()) == Role::Writing
    &&& img@ == pre.frame(img.spec_index())
    &&& !post.slot_present(img.spec_index())
    &&& forall|i: int|
        0 <= i < 3 && i != img.spec_index() ==> #[trigger] post.spec_role(i) == pre.spec_role(i)
    &&& forall|i: int|
        0 <= i < 3 && i != img.spec_index() ==> #[trigger] post.frame(i) == pre.frame(i)
            && (post.slot_present(i) <==> pre.slot_present(i))
}

/// How `submit` changes the chain: the handle's buffer returns to its slot
/// as the pending frame; under the drop-oldest policy an older unread
/// pending frame goes back to the free pool; the scan-out slot is untouched.
pub open spec fn submit_rel(pre: Swapchain, img: SwapchainImage, post: Swapchain) -> bool {
    &&& post.spec_role(img.spec_index()) == Role::Pending
    &&& post.slot_present(img.spec_index())
    &&& post.frame(img.spec_index()) == img@
    &&& (pre.has_pending() ==> post.spec_role(pre.pending_index()) == Role::Free)
    &&& forall|i: int|
        0 <= i < 3 && i != img.spec_index() && !(pre.has_pending() && i == pre.pending_index())
            ==> #[trigger] post.spec_role(i) == pre.spec_role(i)
    &&& forall|i: int|
        0 <= i < 3 && i != img.spec_index() ==> #[trigger] post.frame(i) == pre.frame(i)
            && (post.slot_present(i) <==> pre.slot_present(i))
}

/// How `read` changes the chain and what it hands out: a waiting pending
/// frame is latched (the old scan-out slot becomes free); with nothing
/// pending the state and the returned frame repeat unchanged. No buffer's
/// bytes move either way.
pub open spec fn read_rel(pre: Swapchain, post: Swapchain, frame: Seq<u8>) -> bool {
    &&& if pre.has_pending() {
        &&& post.read_index() == pre.pending_index()
        &&& post.spec_role(pre.read_index()) == Role::Free
        &&& forall|i: int|
            0 <= i < 3 && i != pre.pending_index() && i != pre.read_index()
                ==> #[trigger] post.spec_role(i) == pre.spec_role(i)
    } else {
        post == pre
    }
    &&& !post.has_pending()
    &&& forall|i: int|
        0 <= i < 3 ==> #[trigger] post.frame(i) == pre.frame(i)
            && (post.slot_present(i) <==> pre.slot_present(i))
    &&& frame == post.read_frame()
}

/// Grounds the invariant's quantified clauses at the three slots, so the
/// operations below can reason about each slot directly.
proof fn lemma_wf_unfold(c: Swapchain)
    requires
        c.wf(),
    ensures
        c.slot_present(0) <==> c.spec_role(0) != Role::Writing,
        c.slot_present(1) <==> c.spec_role(1) != Role::Writing,
        c.slot_present(2) <==> c.spec_role(2) != Role::Writing,
        c.slot_present(0) ==> c.frame(0).len() == FRAME_BYTES,
        c.slot_present(1) ==> c.frame(1).len() == FRAME_BYTES,
        c.slot_present(2) ==> c.frame(2).len() == FRAME_BYTES,
        c.spec_role(0) == Role::Reading ==> c.spec_role(1) != Role::Reading && c.spec_role(2)
            != Role::Reading,
        c.spec_role(1) == Role::Reading ==> c.spec_role(2) != Role::Reading,
        c.spec_role(0) == Role::Writing ==> c.spec_role(1) != Role::Writing && c.spec_role(2)
            != Role::Writing,
        c.spec_role(1) == Role::Writing ==> c.spec_role(2) != Role::Writing,
        c.spec_role(0) == Role::Pending ==> c.spec_role(1) != Role::Pending && c.spec_role(2)
            != Role::Pending,
        c.spec_role(1) == Role::Pending ==> c.spec_role(2) != Role::Pending,
        c.spec_role(c.read_index()) == Role::Reading,
{
    assert(c.slot_present(0) <==> c.spec_role(0) != Role::Writing);
    assert(c.slot_present(1) <==> c.spec_role(1) != Role::Writing);
    assert(c.slot_present(2) <==> c.spec_role(2) != Role::Writing);
    assert(c.slot_present(0) ==> c.frame(0).len() == FRAME_BYTES);
    assert(c.slot_present(1) ==> c.frame(1).len() == FRAME_BYTES);
    assert(c.slot_present(2) ==> c.frame(2).len() == FRAME_BYTES);
}

impl Swapchain {
    /// Hands the producer exclusive write access to a free buffer. The
    /// producer may mutate it at will; nothing it does there can be seen
    /// by the consumer until the handle is submitted.
    ///
    /// With three buffers, one reader, at most one pending frame and no
    /// outstanding writer, a free buffer always exists, so acquiring
    /// never waits.
    pub fn acquire_next(&mut self) -> (img: SwapchainImage)
        requires
            old(self).wf(),
            !old(self).writer_outstanding(),
        ensures
            final(self).wf(),
            img.wf(),
            acquire_rel(*old(self), *final(self), img),
            final(self).writer_outstanding(),
            final(self).spec_role(img.spec_index()) == Role::Writing,
            final(self).read_index() == old(self).read_index(),
            final(self).read_frame() == old(self).read_frame(),
            final(self).has_pending() == old(self).has_pending(),
            old(self).has_pending() ==> final(self).pending_index() == old(self).pending_index(),
    {
        proof {
            lemma_wf_unfold(*self);
            // No slot is writing, at most one reads and at most one is
            // pending, so among three slots a free one exists.
            assert(self.spec_role(0) == Role::Free || self.spec_role(1) == Role::Free
                || self.spec_role(2) == Role::Free);
        }
        let idx: usize = if self.role0 == Role::Free {
            0
        } else if self.role1 == Role::Free {
            1
        } else {
            2
        };
        let taken: Option<Framebuffer> = match idx {
            0 => self.slot0.take(),
            1 => self.slot1.take(),
            _ => self.slot2.take(),
        };
        match idx {
            0 => self.role0 = Role::Writing,
            1 => self.role1 = Role::Writing,
            _ => self.role2 = Role::Writing,
        };
        let fb = taken.unwrap();
        proof {
            // A pending mark, if any, sits on a slot the acquire left alone.
            if old(self).has_pending() {
                let w = choose|i: int|
                    0 <= i < 3 && #[trigger] old(self).spec_role(i) == Role::Pending;
                assert(self.spec_role(w) == Role::Pending);
            }
            if self.has_pending() {
                let w = choose|i: int| 0 <= i < 3 && #[trigger] self.spec_role(i) == Role::Pending;
                assert(old(self).spec_role(w) == Role::Pending);
            }
        }
        SwapchainImage { fb, index: idx }
    }

    /// Latches the most recently submitted frame if one is waiting and
    /// returns the frame to scan out. With no new submission the same
    /// frame repeats: stale-frame repeat is the defined idle behavior,
    /// never an error and never a wait.
    pub fn read(&mut self) -> (frame: &Framebuffer)
        requires
            old(self).wf(),
        ensures
            final(self).wf(),
            read_rel(*old(self), *final(self), frame@),
            frame.wf(),
            final(self).writer_outstanding() == old(self).writer_outstanding(),
            forall|i: int|
                0 <= i < 3 && old(self).spec_role(i) == Role::Writing
                    ==> #[trigger] final(self).spec_role(i) == Role::Writing,
    {
        proof {
            lemma_wf_unfold(*self);
        }
        let p: usize = if self.role0 == Role::Pending {
            0
        } else if self.role1 == Role::Pending {
            1
        } else if self.role2 == Role::Pending {
            2
        } else {
            3
        };
        if p < 3 {
            // Release the old scan-out slot, then latch the pending one.
            if self.role0 == Role::Reading {
                self.role0 = Role::Free;
            } else if self.role1 == Role::Reading {
                self.role1 = Role::Free;
            } else {
                self.role2 = Role::Free;
            }
            match p {
                0 => self.role0 = Role::Reading,
                1 => self.role1 = Role::Reading,
                _ => self.role2 = Role::Reading,
            };
        }
        proof {
            // A write handle, if any, is on a slot the latch left alone.
            if old(self).writer_outstanding() {
                let w = choose|i: int|
                    0 <= i < 3 && #[trigger] old(self).spec_role(i) == Role::Writing;
                assert(self.spec_role(w) == Role::Writing);
            }
            if self.writer_outstanding() {
                let w = choose|i: int| 0 <= i < 3 && #[trigger] self.spec_role(i) == Role::Writing;
                assert(old(self).spec_role(w) == Role::Writing);
            }
        }
        let fb: &Framebuffer = if self.role0 == Role::Reading {
            self.slot0.as_ref().unwrap()
        } else if self.role1 == Role::Reading {
            self.slot1.as_ref().unwrap()
        } else {
            self.slot2.as_ref().unwrap()
        };
        fb
    }
}

impl SwapchainImage {
    /// Publishes the written buffer as the next frame to be read and
    /// consumes the handle; no further writes can reach the frame. The
    /// role flip is a plain store, so with respect to `read` it takes
    /// effect atomically: a consumer sees the whole frame or none of it.
    pub fn submit(self, chain: &mut Swapchain)
        requires
            old(chain).wf(),
            self.wf(),
            old(chain).spec_role(self.spec_index()) == Role::Writing,
        ensures
            final(chain).wf(),
            submit_rel(*old(chain), self, *final(chain)),
            final(chain).has_pending(),
            final(chain).pending_index() == self.spec_index(),
            !final(chain).writer_outstanding(),
            final(chain).read_index() == old(chain).read_index(),
            final(chain).read_frame() == old(chain).read_frame(),
    {
        proof {
            lemma_wf_unfold(*old(chain));
        }
        // Drop-oldest: an unread pending frame returns to the free pool.
        if chain.role0 == Role::Pending {
            chain.role0 = Role::Free;
        } else if chain.role1 == Role::Pending {
            chain.role1 = Role::Free;
        } else if chain.role2 == Role::Pending {
            chain.role2 = Role::Free;
        }
        let SwapchainImage { fb, index } = self;
        match index {
            0 => {
                chain.slot0 = Some(fb);
                chain.role0 = Role::Pending;
            },
            1 => {
                chain.slot1 = Some(fb);
                chain.role1 = Role::Pending;
            },
            _ => {
                chain.slot2 = Some(fb);
                chain.role2 = Role::Pending;
            },
        };
    }
}

/// Role disjointness: in any well-formed chain, the slot scanned out by
/// `read` is never the slot held by an un-submitted write handle — and the
/// handle owns its buffer by value, so the producer can never mutate the
/// frame the consumer sees.
pub proof fn lemma_role_disjoint(chain: Swapchain, img: SwapchainImage)
    requires
        chain.wf(),
        chain.spec_role(img.spec_index()) == Role::Writing,
    ensures
        chain.read_index() != img.spec_index(),
        !chain.slot_present(img.spec_index()),
{
    lemma_wf_unfold(chain);
}

/// Submit visibility: the frame a `read` returns right after a `submit`
/// is the submitted frame, bit for bit.
pub proof fn lemma_submit_visibility(
    pre: Swapchain,
    img: SwapchainImage,
    mid: Swapchain,
    post: Swapchain,
    frame: Seq<u8>,
)
    requires
        pre.wf(),
        mid.wf(),
        img.wf(),
        submit_rel(pre, img, mid),
        mid.pending_index() == img.spec_index(),
        read_rel(mid, post, frame),
    ensures
        frame == img@,
{
    assert(mid.spec_role(img.spec_index()) == Role::Pending);
    assert(mid.has_pending());
    assert(post.read_index() == img.spec_index());
    assert(frame == post.frame(img.spec_index()));
}

/// Idle repeat idempotence: two reads with no submit in between return
/// identical bytes, and the second leaves the chain exactly as it was.
pub proof fn lemma_idle_repeat(
    s0: Swapchain,
    s1: Swapchain,
    f1: Seq<u8>,
    s2: Swapchain,
    f2: Seq<u8>,
)
    requires
        s0.wf(),
        s1.wf(),
        read_rel(s0, s1, f1),
        read_rel(s1, s2, f2),
    ensures
        f2 == f1,
        s2 == s1,
{
    assert(!s1.has_pending());
}

} // verus!
