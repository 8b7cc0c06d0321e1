//! The decisions of the programs' event loop. The loop itself, which waits
//! for window events, draws frames and presents them, runs outside the
//! library; it hands each event or frame outcome to these functions and
//! performs the action they return.

use vstd::prelude::*;

verus! {

/// An event of the program's own window that the scene did not consume.
#[derive(Debug, Clone, Copy, PartialEq, Eq, Structural)]
pub enum WindowSignal {
    /// The drawable area changed to `width` by `height` pixels, by a resize
    /// or a change of scale factor.
    Resized { width: u32, height: u32 },
    /// The user asked to close the window.
    CloseRequested,
    /// Any other window event.
    Other,
}

/// An event as the loop receives it.
#[derive(Debug, Clone, Copy, PartialEq, Eq, Structural)]
pub enum LoopEvent {
    /// An event of the program's window, not consumed by the scene.
    Window(WindowSignal),
    /// The program's window asks to be drawn.
    RedrawRequested,
    /// All pending events have been handled.
    EventsCleared,
    /// Anything else: events of other windows or devices, and window events
    /// that the scene consumed.
    Other,
}

/// How drawing a frame ended.
#[derive(Debug, Clone, Copy, PartialEq, Eq, Structural)]
pub enum FrameOutcome {
    /// The frame was drawn and presented.
    Presented,
    /// The surface was lost and must be configured again.
    SurfaceLost,
    /// The graphics device ran out of memory.
    OutOfMemory,
    /// Another surface error; the frame is skipped.
    OtherError,
}

/// What the loop does next.
#[derive(Debug, Clone, Copy, PartialEq, Eq, Structural)]
pub enum LoopAction {
    /// Nothing.
    Wait,
    /// Configure the surface for `width` by `height` pixels.
    Resize { width: u32, height: u32 },
    /// Update the scene and draw a frame.
    Draw,
    /// Ask the window to be drawn.
    RequestRedraw,
    /// Report the failed frame and go on.
    ReportError,
    /// Leave the loop.
    Exit,
}

/// The surface is configured only for a drawable area that is not empty.
pub open spec fn resize_action(width: u32, height: u32) -> LoopAction {
    if width > 0 && height > 0 {
        LoopAction::Resize { width, height }
    } else {
        LoopAction::Wait
    }
}

/// The action that answers an event.
pub open spec fn event_action(event: LoopEvent) -> LoopAction {
    match event {
        LoopEvent::Window(WindowSignal::Resized { width, height }) => resize_action(width, height),
        LoopEvent::Window(WindowSignal::CloseRequested) => LoopAction::Exit,
        LoopEvent::Window(WindowSignal::Other) => LoopAction::Wait,
        LoopEvent::RedrawRequested => LoopAction::Draw,
        LoopEvent::EventsCleared => LoopAction::RequestRedraw,
        LoopEvent::Other => LoopAction::Wait,
    }
}

/// The action that follows a frame, for a surface of `width` by `height`
/// pixels: a lost surface is configured again at its size.
pub open spec fn frame_action(outcome: FrameOutcome, width: u32, height: u32) -> LoopAction {
    match outcome {
        FrameOutcome::Presented => LoopAction::Wait,
        FrameOutcome::SurfaceLost => resize_action(width, height),
        FrameOutcome::OutOfMemory => LoopAction::Exit,
        FrameOutcome::OtherError => LoopAction::ReportError,
    }
}

/// Whether the surface is configured for a new size of `width` by `height`.
pub fn resize_to(width: u32, height: u32) -> (r: LoopAction)
    ensures
        r == resize_action(width, height),
{
    if width > 0 && height > 0 {
        LoopAction::Resize { width, height }
    } else {
        LoopAction::Wait
    }
}

/// The action that answers `event`.
pub fn handle_event(event: LoopEvent) -> (r: LoopAction)
    ensures
        r == event_action(event),
{
    match event {
        LoopEvent::Window(signal) => match signal {
            WindowSignal::Resized { width, height } => resize_to(width, height),
            WindowSignal::CloseRequested => LoopAction::Exit,
            WindowSignal::Other => LoopAction::Wait,
        },
        LoopEvent::RedrawRequested => LoopAction::Draw,
        LoopEvent::EventsCleared => LoopAction::RequestRedraw,
        LoopEvent::Other => LoopAction::Wait,
    }
}

/// The action that follows a frame that ended with `outcome`, on a surface
/// of `width` by `height` pixels.
pub fn handle_frame(outcome: FrameOutcome, width: u32, height: u32) -> (r: LoopAction)
    ensures
        r == frame_action(outcome, width, height),
{
    match outcome {
        FrameOutcome::Presented => LoopAction::Wait,
        FrameOutcome::SurfaceLost => resize_to(width, height),
        FrameOutcome::OutOfMemory => LoopAction::Exit,
        FrameOutcome::OtherError => LoopAction::ReportError,
    }
}

} // verus!
