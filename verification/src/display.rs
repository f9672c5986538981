//! Double-buffer swap protocol for the display surface.
//!
//! The display controller owns two equally sized pixel buffers: at any
//! instant one is the front buffer, streamed to the panel, and the other
//! is the back buffer, the only one the renderer may write. Completion of
//! a frame transfer is observed through the vertical-sync flag, set by
//! the frame-complete interrupt and polled (never blocked on) by the
//! render step; the caller spin-waits on that flag before presenting.
//!
//! `FrameBuffers` models the buffer pair and enforces the role protocol:
//! writes reach the back buffer alone, and roles change only at
//! `present`, where the freshly written back buffer is handed to the
//! panel and becomes the front buffer.

use vstd::prelude::*;

verus! {

/// The two pixel buffers and their roles. Pixels are in the panel's
/// native 16-bit format.
pub struct FrameBuffers {
    buf0: Vec<u16>,
    buf1: Vec<u16>,
    /// True when buffer 1 is the back (writable) buffer.
    back_is_1: bool,
}

impl FrameBuffers {
    /// Both buffers hold this many pixels.
    pub closed spec fn spec_len(&self) -> nat {
        self.buf0@.len()
    }

    /// The buffers are the same fixed size, as the display controller
    /// allocated them.
    pub closed spec fn wf(&self) -> bool {
        self.buf0@.len() == self.buf1@.len()
    }

    /// Which buffer is the back (writable) one: 0 or 1.
    pub closed spec fn spec_back_index(&self) -> int {
        if self.back_is_1 {
            1
        } else {
            0
        }
    }

    /// The contents of the back buffer, the only one the renderer may
    /// write before the next present.
    pub closed spec fn back_view(&self) -> Seq<u16> {
        if self.back_is_1 {
            self.buf1@
        } else {
            self.buf0@
        }
    }

    /// The contents of the front buffer, the one being streamed to the
    /// panel; it must not change until it becomes the back buffer again.
    pub closed spec fn front_view(&self) -> Seq<u16> {
        if self.back_is_1 {
            self.buf0@
        } else {
            self.buf1@
        }
    }

    /// Allocate the two buffers once, at startup, both cleared; buffer 0
    /// starts as the back buffer.
    pub fn new(len: usize) -> (fb: Self)
        ensures
            fb.wf(),
            fb.spec_len() == len,
            fb.spec_back_index() == 0,
            fb.back_view() == Seq::new(len as nat, |i: int| 0u16),
            fb.front_view() == Seq::new(len as nat, |i: int| 0u16),
    {
        let mut buf0: Vec<u16> = Vec::new();
        let mut buf1: Vec<u16> = Vec::new();
        let mut i: usize = 0;
        while i < len
            invariant
                i <= len,
                buf0@ =~= Seq::new(i as nat, |j: int| 0u16),
                buf1@ =~= Seq::new(i as nat, |j: int| 0u16),
            decreases len - i,
        {
            buf0.push(0);
            buf1.push(0);
            proof {
                assert(buf0@ =~= Seq::new((i + 1) as nat, |j: int| 0u16));
                assert(buf1@ =~= Seq::new((i + 1) as nat, |j: int| 0u16));
            }
            i = i + 1;
        }
        FrameBuffers { buf0, buf1, back_is_1: false }
    }

    /// The index of the back buffer, 0 or 1, for a caller that keeps the
    /// device addresses outside.
    pub fn back_index(&self) -> (k: u8)
        ensures
            k as int == self.spec_back_index(),
    {
        if self.back_is_1 {
            1
        } else {
            0
        }
    }

    /// How many pixels each buffer holds.
    pub fn len(&self) -> (n: usize)
        ensures
            n == self.spec_len(),
    {
        self.buf0.len()
    }

    /// Read one pixel of the back buffer.
    pub fn read_back(&self, i: usize) -> (px: u16)
        requires
            self.wf(),
            i < self.spec_len(),
        ensures
            px == self.back_view()[i as int],
    {
        if self.back_is_1 {
            self.buf1[i]
        } else {
            self.buf0[i]
        }
    }

    /// Read one pixel of the front buffer, as the panel streams it.
    pub fn read_front(&self, i: usize) -> (px: u16)
        requires
            self.wf(),
            i < self.spec_len(),
        ensures
            px == self.front_view()[i as int],
    {
        if self.back_is_1 {
            self.buf0[i]
        } else {
            self.buf1[i]
        }
    }

    /// Write one pixel of the back buffer. The front buffer, the one
    /// last handed to the panel, is untouched.
    pub fn write_back(&mut self, i: usize, px: u16)
        requires
            old(self).wf(),
            i < old(self).spec_len(),
        ensures
            final(self).wf(),
            final(self).spec_len() == old(self).spec_len(),
            final(self).spec_back_index() == old(self).spec_back_index(),
            final(self).back_view() == old(self).back_view().update(i as int, px),
            final(self).front_view() == old(self).front_view(),
    {
        if self.back_is_1 {
            self.buf1.set(i, px);
        } else {
            self.buf0.set(i, px);
        }
    }

    /// Replace the whole back buffer with one rendered frame. The front
    /// buffer is untouched.
    pub fn render_back(&mut self, frame: &Vec<u16>)
        requires
            old(self).wf(),
            frame@.len() == old(self).spec_len(),
        ensures
            final(self).wf(),
            final(self).spec_len() == old(self).spec_len(),
            final(self).spec_back_index() == old(self).spec_back_index(),
            final(self).back_view() == frame@,
            final(self).front_view() == old(self).front_view(),
    {
        let mut i: usize = 0;
        let len = frame.len();
        while i < len
            invariant
                i <= len,
                len == frame@.len(),
                self.wf(),
                self.spec_len() == old(self).spec_len(),
                self.spec_len() == len,
                self.spec_back_index() == old(self).spec_back_index(),
                self.front_view() == old(self).front_view(),
                self.back_view().len() == len,
                forall|j: int| 0 <= j < i ==> self.back_view()[j] == frame@[j],
            decreases len - i,
        {
            self.write_back(i, frame[i]);
            i = i + 1;
        }
        proof {
            assert(self.back_view() =~= frame@);
        }
    }

    /// Complete one frame: hand the back buffer to the panel and swap
    /// roles. The caller performs this only after observing the
    /// vertical-sync flag, issues the hardware push for the returned
    /// index, and then clears the flag. The buffer just pushed is the
    /// new front buffer; nothing writes it until it is swapped back.
    pub fn present(&mut self) -> (pushed: u8)
        requires
            old(self).wf(),
        ensures
            final(self).wf(),
            final(self).spec_len() == old(self).spec_len(),
            pushed as int == old(self).spec_back_index(),
            final(self).spec_back_index() == 1 - old(self).spec_back_index(),
            final(self).front_view() == old(self).back_view(),
            final(self).back_view() == old(self).front_view(),
    {
        let pushed = self.back_index();
        self.back_is_1 = !self.back_is_1;
        pushed
    }

    /// One `ConditionalRedraw` step of the loop: when the window reports
    /// dirty content, render the frame into the back buffer and present
    /// it, returning the pushed buffer's index; when it reports none,
    /// do nothing at all — no write, no push, no swap.
    pub fn conditional_redraw(&mut self, dirty: bool, frame: &Vec<u16>) -> (pushed: Option<u8>)
        requires
            old(self).wf(),
            dirty ==> frame@.len() == old(self).spec_len(),
        ensures
            final(self).wf(),
            final(self).spec_len() == old(self).spec_len(),
            !dirty ==> *final(self) == *old(self) && pushed is None,
            dirty ==> {
                &&& pushed == Some((old(self).spec_back_index() as u8))
                &&& final(self).spec_back_index() == 1 - old(self).spec_back_index()
                &&& final(self).front_view() == frame@
                &&& final(self).back_view() == old(self).front_view()
            },
    {
        if dirty {
            self.render_back(frame);
            let pushed = self.present();
            Some(pushed)
        } else {
            None
        }
    }
}

/// The buffer pair after one renderer write, as `write_back` performs
/// it: the write reaches the back buffer alone.
pub open spec fn spec_write_roles(back: Seq<u16>, front: Seq<u16>, i: int, px: u16) -> (
    Seq<u16>,
    Seq<u16>,
) {
    (back.update(i, px), front)
}

/// The buffer pair after one completed swap, as `present` performs it:
/// the freshly written back buffer becomes the front buffer.
pub open spec fn spec_present_roles(back: Seq<u16>, front: Seq<u16>) -> (Seq<u16>, Seq<u16>) {
    (front, back)
}

/// The buffer pair after a whole sequence of renderer writes, first to
/// last.
pub open spec fn spec_apply_writes(back: Seq<u16>, front: Seq<u16>, writes: Seq<(int, u16)>) -> (
    Seq<u16>,
    Seq<u16>,
)
    decreases writes.len(),
{
    if writes.len() == 0 {
        (back, front)
    } else {
        let stepped = spec_write_roles(back, front, writes[0].0, writes[0].1);
        spec_apply_writes(stepped.0, stepped.1, writes.drop_first())
    }
}

/// Law (buffer role invariant): after a completed swap, the buffer just
/// handed to the display surface is never written by any number of
/// subsequent renderer writes — its contents stay exactly what was
/// pushed — until a later swap makes it the back buffer again.
pub proof fn lemma_no_write_after_push(back: Seq<u16>, front: Seq<u16>, writes: Seq<(int, u16)>)
    ensures
        ({
            let swapped = spec_present_roles(back, front);
            spec_apply_writes(swapped.0, swapped.1, writes).1 == back
        }),
{
    let swapped = spec_present_roles(back, front);
    lemma_writes_fix_front(swapped.0, swapped.1, writes);
}

/// Renderer writes never change the front buffer, whatever state the
/// buffer pair starts in.
pub proof fn lemma_writes_fix_front(back: Seq<u16>, front: Seq<u16>, writes: Seq<(int, u16)>)
    ensures
        spec_apply_writes(back, front, writes).1 == front,
    decreases writes.len(),
{
    if writes.len() > 0 {
        let stepped = spec_write_roles(back, front, writes[0].0, writes[0].1);
        lemma_writes_fix_front(stepped.0, stepped.1, writes.drop_first());
    }
}

} // verus!
