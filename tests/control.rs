use learn_wgpu::control::{
    handle_event, handle_frame, resize_to, FrameOutcome, LoopAction, LoopEvent, WindowSignal,
};

#[test]
fn close_request_exits() {
    assert_eq!(
        handle_event(LoopEvent::Window(WindowSignal::CloseRequested)),
        LoopAction::Exit
    );
}

#[test]
fn resize_configures_the_surface() {
    assert_eq!(
        handle_event(LoopEvent::Window(WindowSignal::Resized { width: 800, height: 600 })),
        LoopAction::Resize { width: 800, height: 600 }
    );
}

#[test]
fn empty_resize_is_ignored() {
    assert_eq!(
        handle_event(LoopEvent::Window(WindowSignal::Resized { width: 0, height: 600 })),
        LoopAction::Wait
    );
    assert_eq!(resize_to(800, 0), LoopAction::Wait);
    assert_eq!(resize_to(0, 0), LoopAction::Wait);
    assert_eq!(resize_to(1, 1), LoopAction::Resize { width: 1, height: 1 });
}

#[test]
fn redraw_and_idle_events() {
    assert_eq!(handle_event(LoopEvent::RedrawRequested), LoopAction::Draw);
    assert_eq!(handle_event(LoopEvent::EventsCleared), LoopAction::RequestRedraw);
    assert_eq!(handle_event(LoopEvent::Other), LoopAction::Wait);
    assert_eq!(handle_event(LoopEvent::Window(WindowSignal::Other)), LoopAction::Wait);
}

#[test]
fn frame_outcomes() {
    assert_eq!(handle_frame(FrameOutcome::Presented, 800, 600), LoopAction::Wait);
    assert_eq!(
        handle_frame(FrameOutcome::SurfaceLost, 800, 600),
        LoopAction::Resize { width: 800, height: 600 }
    );
    assert_eq!(handle_frame(FrameOutcome::SurfaceLost, 0, 600), LoopAction::Wait);
    assert_eq!(handle_frame(FrameOutcome::OutOfMemory, 800, 600), LoopAction::Exit);
    assert_eq!(handle_frame(FrameOutcome::OtherError, 800, 600), LoopAction::ReportError);
}
