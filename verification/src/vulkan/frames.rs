use vstd::prelude::*;

verus! {

/// One fence slot per swapchain image, and the image presented last.
pub struct FrameFences<F> {
    fences: Vec<Option<F>>,
    previous_fence_i: u32,
}

impl<F> View for FrameFences<F> {
    type V = Seq<Option<F>>;

    /// The fence slot of each swapchain image.
    closed spec fn view(&self) -> Seq<Option<F>> {
        self.fences@
    }
}

impl<F> FrameFences<F> {
    /// The image that was presented last (0 before any).
    pub closed spec fn previous(&self) -> u32 {
        self.previous_fence_i
    }

    /// One empty slot for each of `frames_in_flight` images; the previous
    /// image is 0.
    pub fn new(frames_in_flight: usize) -> (f: Self)
        ensures
            f@ == Seq::<Option<F>>::new(frames_in_flight as nat, |i: int| None::<F>),
            f.previous() == 0,
    {
        let mut fences: Vec<Option<F>> = Vec::new();
        let mut k: usize = 0;
        while k < frames_in_flight
            invariant
                k <= frames_in_flight,
                fences@ == Seq::<Option<F>>::new(k as nat, |i: int| None::<F>),
            decreases frames_in_flight - k,
        {
            fences.push(None);
            k += 1;
            assert(fences@ =~= Seq::<Option<F>>::new(k as nat, |i: int| None::<F>));
        }
        FrameFences { fences, previous_fence_i: 0 }
    }

    /// The number of slots.
    pub fn len(&self) -> (n: usize)
        ensures
            n == self@.len(),
    {
        self.fences.len()
    }

    /// The fence of image `image_i`, if its last frame left one.
    pub fn fence(&self, image_i: u32) -> (r: &Option<F>)
        requires
            image_i < self@.len(),
        ensures
            *r == self@[image_i as int],
    {
        &self.fences[image_i as usize]
    }

    /// The fence of the image presented last, if it left one.
    pub fn previous_fence(&self) -> (r: &Option<F>)
        requires
            self.previous() < self@.len(),
        ensures
            *r == self@[self.previous() as int],
    {
        &self.fences[self.previous_fence_i as usize]
    }

    /// Stores `fence` in the slot of image `image_i`, which becomes the
    /// image presented last.
    pub fn record(&mut self, image_i: u32, fence: Option<F>)
        requires
            image_i < old(self)@.len(),
        ensures
            final(self)@ == old(self)@.update(image_i as int, fence),
            final(self).previous() == image_i,
    {
        self.fences.set(image_i as usize, fence);
        self.previous_fence_i = image_i;
    }
}

/// After recording a frame, the previous fence is the one just recorded.
pub proof fn lemma_record_then_previous<F>(slots: Seq<Option<F>>, image_i: int, fence: Option<F>)
    requires
        0 <= image_i < slots.len(),
    ensures
        slots.update(image_i, fence)[image_i] == fence,
        forall|j: int| 0 <= j < slots.len() && j != image_i ==> #[trigger] slots.update(image_i, fence)[j] == slots[j],
{
}

/// What acquiring the next swapchain image gave.
#[derive(Clone, Copy, Debug, PartialEq, Eq, Structural)]
pub enum AcquireOutcome {
    /// The image's index, and whether the swapchain no longer fits the
    /// surface exactly.
    Acquired { image_i: u32, suboptimal: bool },
    /// The swapchain no longer fits the surface at all.
    OutOfDate,
    /// Any other error.
    Failed,
}

/// What flushing a frame's work to the GPU gave.
#[derive(Clone, Copy, Debug, PartialEq, Eq, Structural)]
pub enum FlushOutcome {
    /// A fence that signals when the frame is done.
    Flushed,
    /// The swapchain no longer fits the surface.
    OutOfDate,
    /// Any other error.
    Failed,
}

/// What to do with a frame once its image is acquired.
#[derive(Clone, Copy, Debug, PartialEq, Eq, Structural)]
pub enum AcquireAction {
    /// Draw into image `image_i` and present it.
    Present(u32),
    /// Skip this frame.
    Skip,
    /// Stop with an error.
    Abort,
}

/// What to keep of a flushed frame.
#[derive(Clone, Copy, Debug, PartialEq, Eq, Structural)]
pub enum FlushAction {
    /// Keep the frame's fence in its image's slot.
    KeepFence,
    /// Leave the slot empty.
    DropFence,
    /// Log the error and leave the slot empty.
    LogAndDropFence,
}

/// The flags of the event loop of a resizable window.
#[derive(Clone, Copy, Debug, PartialEq, Eq, Structural)]
pub struct RedrawFlags {
    pub window_resized: bool,
    pub recreate_swapchain: bool,
}

/// A window event, by what the redraw loop reads of it.
#[derive(Clone, Copy, Debug, PartialEq, Eq, Structural)]
pub enum RedrawEvent {
    CloseRequested,
    Resized,
    MainEventsCleared,
    Other,
}

/// What the redraw loop does after an event.
#[derive(Clone, Copy, Debug, PartialEq, Eq, Structural)]
pub enum RedrawAction {
    /// Leave the loop.
    Exit,
    /// Nothing more.
    Nothing,
    /// Draw a frame; first recreate the swapchain (and its framebuffers)
    /// when `recreate_swapchain`, and rebuild the pipeline and command
    /// buffers for the new size when `rebuild_pipeline`.
    Draw { recreate_swapchain: bool, rebuild_pipeline: bool },
}

impl RedrawFlags {
    /// Nothing to redo at start-up.
    pub fn new() -> (f: Self)
        ensures
            !f.window_resized,
            !f.recreate_swapchain,
    {
        RedrawFlags { window_resized: false, recreate_swapchain: false }
    }
}

/// The redraw loop's answer to an event: a resize is remembered; a cleared
/// event queue draws, recreating the swapchain first when the window was
/// resized or the swapchain went stale, and rebuilding the pipeline only on
/// a resize; both flags are then cleared.
pub open spec fn spec_redraw(flags: RedrawFlags, event: RedrawEvent) -> (RedrawFlags, RedrawAction) {
    match event {
        RedrawEvent::CloseRequested => (flags, RedrawAction::Exit),
        RedrawEvent::Resized => (RedrawFlags { window_resized: true, ..flags }, RedrawAction::Nothing),
        RedrawEvent::MainEventsCleared => (
            RedrawFlags { window_resized: false, recreate_swapchain: false },
            RedrawAction::Draw {
                recreate_swapchain: flags.window_resized || flags.recreate_swapchain,
                rebuild_pipeline: flags.window_resized,
            },
        ),
        RedrawEvent::Other => (flags, RedrawAction::Nothing),
    }
}

/// Handles one event of the resizable window's loop.
pub fn on_redraw_event(flags: &mut RedrawFlags, event: RedrawEvent) -> (action: RedrawAction)
    ensures
        (*final(flags), action) == spec_redraw(*old(flags), event),
{
    match event {
        RedrawEvent::CloseRequested => RedrawAction::Exit,
        RedrawEvent::Resized => {
            flags.window_resized = true;
            RedrawAction::Nothing
        },
        RedrawEvent::MainEventsCleared => {
            let recreate = flags.window_resized || flags.recreate_swapchain;
            let rebuild = flags.window_resized;
            if recreate {
                flags.recreate_swapchain = false;
                if rebuild {
                    flags.window_resized = false;
                }
            }
            RedrawAction::Draw { recreate_swapchain: recreate, rebuild_pipeline: rebuild }
        },
        RedrawEvent::Other => RedrawAction::Nothing,
    }
}

/// The redraw loop's answer to an acquired image: an out-of-date swapchain
/// skips the frame and marks the swapchain for recreation, as does a
/// suboptimal one without skipping; any other error aborts.
pub fn redraw_after_acquire(flags: &mut RedrawFlags, outcome: AcquireOutcome) -> (action: AcquireAction)
    ensures
        final(flags).window_resized == old(flags).window_resized,
        final(flags).recreate_swapchain == (old(flags).recreate_swapchain || outcome
            == AcquireOutcome::OutOfDate || (outcome matches AcquireOutcome::Acquired {
            suboptimal,
            ..
        } && suboptimal)),
        action == match outcome {
            AcquireOutcome::Acquired { image_i, .. } => AcquireAction::Present(image_i),
            AcquireOutcome::OutOfDate => AcquireAction::Skip,
            AcquireOutcome::Failed => AcquireAction::Abort,
        },
{
    match outcome {
        AcquireOutcome::Acquired { image_i, suboptimal } => {
            if suboptimal {
                flags.recreate_swapchain = true;
            }
            AcquireAction::Present(image_i)
        },
        AcquireOutcome::OutOfDate => {
            flags.recreate_swapchain = true;
            AcquireAction::Skip
        },
        AcquireOutcome::Failed => AcquireAction::Abort,
    }
}

/// The redraw loop's answer to a flushed frame: keep its fence; an
/// out-of-date swapchain drops it and marks the swapchain for recreation;
/// another error is logged and drops it.
pub fn redraw_after_flush(flags: &mut RedrawFlags, outcome: FlushOutcome) -> (action: FlushAction)
    ensures
        final(flags).window_resized == old(flags).window_resized,
        final(flags).recreate_swapchain == (old(flags).recreate_swapchain || outcome
            == FlushOutcome::OutOfDate),
        action == match outcome {
            FlushOutcome::Flushed => FlushAction::KeepFence,
            FlushOutcome::OutOfDate => FlushAction::DropFence,
            FlushOutcome::Failed => FlushAction::LogAndDropFence,
        },
{
    match outcome {
        FlushOutcome::Flushed => FlushAction::KeepFence,
        FlushOutcome::OutOfDate => {
            flags.recreate_swapchain = true;
            FlushAction::DropFence
        },
        FlushOutcome::Failed => FlushAction::LogAndDropFence,
    }
}

/// A resize is never lost: after a resize, the next draw rebuilds the
/// pipeline, whatever other events came between (other than draws).
pub proof fn lemma_resize_rebuilds_on_next_draw(flags: RedrawFlags, between: RedrawEvent)
    requires
        between != RedrawEvent::MainEventsCleared,
    ensures
        ({
            let after_resize = spec_redraw(flags, RedrawEvent::Resized).0;
            let after_between = spec_redraw(after_resize, between).0;
            spec_redraw(after_between, RedrawEvent::MainEventsCleared).1 == RedrawAction::Draw {
                recreate_swapchain: true,
                rebuild_pipeline: true,
            }
        }),
{
}

/// What each event does to the redraw flags: closing and other events leave
/// them as they were; a resize marks the window resized and keeps the mark
/// on the swapchain; a draw clears both marks, and recreates the swapchain
/// exactly when one of them was set, rebuilding the pipeline exactly when
/// the window was resized.
pub proof fn lemma_redraw_flags(flags: RedrawFlags, event: RedrawEvent)
    ensures
        event == RedrawEvent::Other ==> spec_redraw(flags, event) == (flags, RedrawAction::Nothing),
        event == RedrawEvent::CloseRequested ==> spec_redraw(flags, event) == (
            flags,
            RedrawAction::Exit,
        ),
        event == RedrawEvent::Resized ==> spec_redraw(flags, event).0.window_resized
            && spec_redraw(flags, event).0.recreate_swapchain == flags.recreate_swapchain
            && spec_redraw(flags, event).1 == RedrawAction::Nothing,
        event == RedrawEvent::MainEventsCleared ==> !spec_redraw(flags, event).0.window_resized
            && !spec_redraw(flags, event).0.recreate_swapchain && spec_redraw(flags, event).1
            == (RedrawAction::Draw {
            recreate_swapchain: flags.window_resized || flags.recreate_swapchain,
            rebuild_pipeline: flags.window_resized,
        }),
{
}

/// A stale swapchain is never forgotten: once marked for recreation, it is
/// recreated by the next draw, whatever other events come between.
pub proof fn lemma_stale_swapchain_recreated_on_next_draw(flags: RedrawFlags, between: RedrawEvent)
    requires
        flags.recreate_swapchain,
        between != RedrawEvent::MainEventsCleared,
    ensures
        (spec_redraw(spec_redraw(flags, between).0, RedrawEvent::MainEventsCleared).1 matches RedrawAction::Draw { recreate_swapchain, .. } && recreate_swapchain),
{
}

} // verus!
