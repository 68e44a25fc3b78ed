use crate::vulkan::frames::{AcquireAction, AcquireOutcome, FlushAction, FlushOutcome};
use vstd::prelude::*;

verus! {

/// The flags that window events switch.
#[derive(Clone, Copy, Debug, PartialEq, Eq, Structural)]
pub struct SimulationFlags {
    pub recreate_swapchain_flag: bool,
    pub is_paused_flag: bool,
}

/// The scancodes of the keys that quit, pause and resume the simulation.
#[derive(Clone, Copy, Debug, PartialEq, Eq, Structural)]
pub struct KeyBindings {
    pub quit: u32,
    pub pause: u32,
    pub resume: u32,
}

/// A window event, by what the simulation reads of it.
#[derive(Clone, Copy, Debug, PartialEq, Eq, Structural)]
pub enum WindowInput {
    /// The window's close button.
    CloseRequested,
    /// A key went down or up; the scancode of the key.
    Keyboard(u32),
    /// All pending events were handled: time for a frame.
    MainEventsCleared,
    /// Any other event.
    Other,
}

/// What the event loop does after an event.
#[derive(Clone, Copy, Debug, PartialEq, Eq, Structural)]
pub enum WindowAction {
    /// End the process.
    Exit,
    /// Report the frame rates gathered, then end the process.
    ReportAndExit,
    /// Log that the key of this scancode was pressed.
    LogKey(u32),
    /// Step the scene and draw a frame.
    RenderFrame,
    /// Nothing more.
    Nothing,
}

impl SimulationFlags {
    /// Flags at start-up: running, and the swapchain up to date.
    pub fn new() -> (flags: Self)
        ensures
            !flags.recreate_swapchain_flag,
            !flags.is_paused_flag,
    {
        SimulationFlags { recreate_swapchain_flag: false, is_paused_flag: false }
    }
}

impl KeyBindings {
    /// The scancodes on x86-64 keyboards: `q` is 16, `p` is 25, `r` is 19.
    pub fn x86_64() -> (b: Self)
        ensures
            b.quit == 16,
            b.pause == 25,
            b.resume == 19,
    {
        KeyBindings { quit: 16, pause: 25, resume: 19 }
    }
}

/// The flags after `input`: the pause key pauses, the resume key resumes;
/// nothing else changes them. The quit key wins over the others when two
/// bindings share a scancode, then pause, then resume.
pub open spec fn next_flags(flags: SimulationFlags, keys: KeyBindings, input: WindowInput) -> SimulationFlags {
    match input {
        WindowInput::Keyboard(code) => if code == keys.quit {
            flags
        } else if code == keys.pause {
            SimulationFlags { is_paused_flag: true, ..flags }
        } else if code == keys.resume {
            SimulationFlags { is_paused_flag: false, ..flags }
        } else {
            flags
        },
        _ => flags,
    }
}

/// What the loop does after `input`: closing the window exits; the quit key
/// reports and exits; pause and resume keys do nothing more; other keys are
/// logged; a cleared event queue draws a frame unless paused.
pub open spec fn spec_action(flags: SimulationFlags, keys: KeyBindings, input: WindowInput) -> WindowAction {
    match input {
        WindowInput::CloseRequested => WindowAction::Exit,
        WindowInput::Keyboard(code) => if code == keys.quit {
            WindowAction::ReportAndExit
        } else if code == keys.pause || code == keys.resume {
            WindowAction::Nothing
        } else {
            WindowAction::LogKey(code)
        },
        WindowInput::MainEventsCleared => if flags.is_paused_flag {
            WindowAction::Nothing
        } else {
            WindowAction::RenderFrame
        },
        WindowInput::Other => WindowAction::Nothing,
    }
}

/// Handles one window event: updates the simulation's flags and says what
/// the loop must do next.
pub fn handle_window_input(flags: &mut SimulationFlags, keys: &KeyBindings, input: WindowInput) -> (action: WindowAction)
    ensures
        *final(flags) == next_flags(*old(flags), *keys, input),
        action == spec_action(*old(flags), *keys, input),
{
    match input {
        WindowInput::CloseRequested => WindowAction::Exit,
        WindowInput::Keyboard(code) => {
            if code == keys.quit {
                WindowAction::ReportAndExit
            } else if code == keys.pause {
                flags.is_paused_flag = true;
                WindowAction::Nothing
            } else if code == keys.resume {
                flags.is_paused_flag = false;
                WindowAction::Nothing
            } else {
                WindowAction::LogKey(code)
            }
        },
        WindowInput::MainEventsCleared => {
            if flags.is_paused_flag {
                WindowAction::Nothing
            } else {
                WindowAction::RenderFrame
            }
        },
        WindowInput::Other => WindowAction::Nothing,
    }
}

/// The answer to an acquired image: draw into it, remembering whether the
/// swapchain was suboptimal; an out-of-date swapchain skips the frame and
/// leaves the flags; any other error aborts.
pub fn after_acquire(flags: &mut SimulationFlags, outcome: AcquireOutcome) -> (action: AcquireAction)
    ensures
        final(flags).is_paused_flag == old(flags).is_paused_flag,
        final(flags).recreate_swapchain_flag == match outcome {
            AcquireOutcome::Acquired { suboptimal, .. } => suboptimal,
            _ => old(flags).recreate_swapchain_flag,
        },
        action == match outcome {
            AcquireOutcome::Acquired { image_i, .. } => AcquireAction::Present(image_i),
            AcquireOutcome::OutOfDate => AcquireAction::Skip,
            AcquireOutcome::Failed => AcquireAction::Abort,
        },
{
    match outcome {
        AcquireOutcome::Acquired { image_i, suboptimal } => {
            flags.recreate_swapchain_flag = if suboptimal {
                true
            } else {
                false
            };
            AcquireAction::Present(image_i)
        },
        AcquireOutcome::OutOfDate => AcquireAction::Skip,
        AcquireOutcome::Failed => AcquireAction::Abort,
    }
}

/// The answer to a flushed frame: keep its fence; an out-of-date swapchain
/// drops it; another error is logged and drops it.
pub fn after_flush(outcome: FlushOutcome) -> (action: FlushAction)
    ensures
        action == match outcome {
            FlushOutcome::Flushed => FlushAction::KeepFence,
            FlushOutcome::OutOfDate => FlushAction::DropFence,
            FlushOutcome::Failed => FlushAction::LogAndDropFence,
        },
{
    match outcome {
        FlushOutcome::Flushed => FlushAction::KeepFence,
        FlushOutcome::OutOfDate => FlushAction::DropFence,
        FlushOutcome::Failed => FlushAction::LogAndDropFence,
    }
}

/// While paused, no frame is drawn, whatever events come, until the resume
/// key (that is not also the quit or pause key) arrives.
pub proof fn lemma_paused_draws_nothing(flags: SimulationFlags, keys: KeyBindings, input: WindowInput)
    requires
        flags.is_paused_flag,
        !(input matches WindowInput::Keyboard(code) && code == keys.resume && code != keys.quit
            && code != keys.pause),
    ensures
        spec_action(flags, keys, input) != WindowAction::RenderFrame,
        next_flags(flags, keys, input).is_paused_flag,
{
}

/// Pausing and then resuming gives the flags back: the pause key followed
/// by the resume key (three distinct bindings) restores running.
pub proof fn lemma_pause_then_resume(flags: SimulationFlags, keys: KeyBindings)
    requires
        keys.quit != keys.pause,
        keys.quit != keys.resume,
        keys.pause != keys.resume,
        !flags.is_paused_flag,
    ensures
        next_flags(
            next_flags(flags, keys, WindowInput::Keyboard(keys.pause)),
            keys,
            WindowInput::Keyboard(keys.resume),
        ) == flags,
{
}

/// What the keys do to the flags: the resume key (bound apart from the quit
/// and pause keys) leaves the simulation running whatever it was doing,
/// the pause key (bound apart from the quit key) leaves it paused, and no
/// input changes whether the swapchain must be recreated. Any other input
/// leaves the flags as they were.
pub proof fn lemma_keys_set_pause(flags: SimulationFlags, keys: KeyBindings, input: WindowInput)
    ensures
        next_flags(flags, keys, input).recreate_swapchain_flag == flags.recreate_swapchain_flag,
        input == WindowInput::Keyboard(keys.resume) && keys.resume != keys.quit && keys.resume
            != keys.pause ==> !next_flags(flags, keys, input).is_paused_flag,
        input == WindowInput::Keyboard(keys.pause) && keys.pause != keys.quit ==> next_flags(
            flags,
            keys,
            input,
        ).is_paused_flag,
        !(input matches WindowInput::Keyboard(code) && code != keys.quit && (code == keys.pause
            || code == keys.resume)) ==> next_flags(flags, keys, input) == flags,
{
}

} // verus!
