use panel_adapter::display::FrameBuffers;
use panel_adapter::event_loop::Adapter;
use panel_adapter::event_loop::IterationInput;
use panel_adapter::queue::ActionQueue;
use panel_adapter::queue::split_drained;
use panel_adapter::touch::Point;
use panel_adapter::touch::PointerEvent;
use panel_adapter::touch::TouchSample;
use panel_adapter::touch::TouchState;

fn pt(x: i32, y: i32) -> Point {
    Point { x, y }
}

#[test]
fn touch_press_move_release_sequence() {
    let mut s = TouchState::new();
    let samples = vec![
        TouchSample::Contact(pt(10, 10)),
        TouchSample::Contact(pt(12, 11)),
        TouchSample::NoContact,
    ];
    let events = s.process_samples(&samples);
    assert_eq!(
        events,
        vec![
            PointerEvent::Pressed(pt(10, 10)),
            PointerEvent::Moved(pt(10, 10)),
            PointerEvent::Moved(pt(12, 11)),
            PointerEvent::Released(pt(12, 11)),
            PointerEvent::Exited,
        ]
    );
    assert!(!s.down);
}

#[test]
fn touch_idle_no_contact_dispatches_nothing() {
    let mut s = TouchState::new();
    let events = s.process_sample(TouchSample::NoContact);
    assert!(events.is_empty());
    assert!(!s.down);
}

#[test]
fn touch_held_contact_moves_only() {
    let mut s = TouchState::new();
    s.process_sample(TouchSample::Contact(pt(1, 2)));
    let events = s.process_sample(TouchSample::Contact(pt(3, 4)));
    assert_eq!(events, vec![PointerEvent::Moved(pt(3, 4))]);
    assert!(s.down);
    assert_eq!(s.last, pt(3, 4));
}

#[test]
fn touch_not_ready_is_noop_in_every_state() {
    let mut idle = TouchState::new();
    let events = idle.process_sample(TouchSample::NotReady);
    assert!(events.is_empty());
    assert!(!idle.down);

    let mut pressed = TouchState::new();
    pressed.process_sample(TouchSample::Contact(pt(5, 6)));
    let before = pressed;
    let events = pressed.process_sample(TouchSample::NotReady);
    assert!(events.is_empty());
    assert_eq!(pressed, before);
}

#[test]
fn touch_fault_is_noop_in_every_state() {
    let mut idle = TouchState::new();
    let events = idle.process_sample(TouchSample::Fault);
    assert!(events.is_empty());
    assert!(!idle.down);

    let mut pressed = TouchState::new();
    pressed.process_sample(TouchSample::Contact(pt(5, 6)));
    let before = pressed;
    let events = pressed.process_sample(TouchSample::Fault);
    assert!(events.is_empty());
    assert_eq!(pressed, before);
}

#[test]
fn touch_not_ready_does_not_break_a_gesture() {
    let mut s = TouchState::new();
    let samples = vec![
        TouchSample::Contact(pt(10, 10)),
        TouchSample::NotReady,
        TouchSample::Fault,
        TouchSample::NoContact,
    ];
    let events = s.process_samples(&samples);
    assert_eq!(
        events,
        vec![
            PointerEvent::Pressed(pt(10, 10)),
            PointerEvent::Moved(pt(10, 10)),
            PointerEvent::Released(pt(10, 10)),
            PointerEvent::Exited,
        ]
    );
}

#[test]
fn touch_empty_sample_sequence() {
    let mut s = TouchState::new();
    let events = s.process_samples(&Vec::new());
    assert!(events.is_empty());
    assert!(!s.down);
}

#[test]
fn queue_runs_actions_in_submission_order() {
    let mut q: ActionQueue<u32> = ActionQueue::new();
    q.enqueue(1);
    q.enqueue(2);
    q.enqueue(3);
    let drained = q.drain();
    assert_eq!(q.len(), 0);
    let (actions, stop) = split_drained(drained);
    assert_eq!(actions, vec![1, 2, 3]);
    assert!(!stop);
}

#[test]
fn queue_interleaved_producers_keep_their_own_order() {
    // Producer a submits 10, 11, 12; producer b submits 20, 21; one
    // interleaving of the two reaches the queue.
    let mut q: ActionQueue<u32> = ActionQueue::new();
    q.enqueue(10);
    q.enqueue(20);
    q.enqueue(11);
    q.enqueue(21);
    q.enqueue(12);
    let (actions, stop) = split_drained(q.drain());
    assert!(!stop);
    assert_eq!(actions, vec![10, 20, 11, 21, 12]);
    let from_a: Vec<u32> = actions.iter().copied().filter(|a| *a < 20).collect();
    let from_b: Vec<u32> = actions.iter().copied().filter(|a| *a >= 20).collect();
    assert_eq!(from_a, vec![10, 11, 12]);
    assert_eq!(from_b, vec![20, 21]);
}

#[test]
fn queue_is_empty_immediately_after_drain() {
    let mut q: ActionQueue<u32> = ActionQueue::new();
    q.enqueue(7);
    q.enqueue_terminate();
    let drained = q.drain();
    assert_eq!(q.len(), 0);
    let (actions, stop) = split_drained(drained);
    assert_eq!(actions, vec![7]);
    assert!(stop);
}

#[test]
fn queue_terminate_drops_later_entries() {
    let mut q: ActionQueue<u32> = ActionQueue::new();
    q.enqueue(1);
    q.enqueue(2);
    q.enqueue_terminate();
    q.enqueue(3);
    let (actions, stop) = split_drained(q.drain());
    assert_eq!(actions, vec![1, 2]);
    assert!(stop);
}

#[test]
fn queue_empty_drain_is_empty_and_keeps_running() {
    let mut q: ActionQueue<u32> = ActionQueue::new();
    let (actions, stop) = split_drained(q.drain());
    assert!(actions.is_empty());
    assert!(!stop);
}

#[test]
fn display_starts_cleared_with_buffer_zero_back() {
    let fb = FrameBuffers::new(3);
    assert_eq!(fb.len(), 3);
    assert_eq!(fb.back_index(), 0);
    for i in 0..3 {
        assert_eq!(fb.read_back(i), 0);
        assert_eq!(fb.read_front(i), 0);
    }
}

#[test]
fn display_no_dirty_content_means_no_push_and_no_swap() {
    let mut fb = FrameBuffers::new(2);
    let frame = vec![7u16, 8u16];
    fb.conditional_redraw(true, &frame);
    let pushed = fb.conditional_redraw(false, &frame);
    assert_eq!(pushed, None);
    assert_eq!(fb.back_index(), 1);
    assert_eq!(fb.read_front(0), 7);
    assert_eq!(fb.read_front(1), 8);
}

#[test]
fn display_redraw_pushes_back_buffer_and_swaps_roles() {
    let mut fb = FrameBuffers::new(2);
    let first = vec![7u16, 8u16];
    let pushed = fb.conditional_redraw(true, &first);
    assert_eq!(pushed, Some(0));
    assert_eq!(fb.back_index(), 1);
    assert_eq!(fb.read_front(0), 7);
    assert_eq!(fb.read_front(1), 8);

    let second = vec![9u16, 10u16];
    let pushed = fb.conditional_redraw(true, &second);
    assert_eq!(pushed, Some(1));
    assert_eq!(fb.back_index(), 0);
    assert_eq!(fb.read_front(0), 9);
    assert_eq!(fb.read_front(1), 10);
    // The buffer pushed first is the back buffer again, still holding
    // its old frame until the renderer overwrites it.
    assert_eq!(fb.read_back(0), 7);
    assert_eq!(fb.read_back(1), 8);
}

#[test]
fn display_writes_after_push_never_touch_the_pushed_buffer() {
    let mut fb = FrameBuffers::new(2);
    let frame = vec![7u16, 8u16];
    fb.conditional_redraw(true, &frame);
    // The pushed buffer is now the front buffer; renderer writes go to
    // the other one and must leave it exactly as pushed.
    fb.write_back(0, 100);
    fb.write_back(1, 200);
    fb.write_back(0, 300);
    assert_eq!(fb.read_front(0), 7);
    assert_eq!(fb.read_front(1), 8);
    assert_eq!(fb.read_back(0), 300);
    assert_eq!(fb.read_back(1), 200);
}

#[test]
fn iteration_with_pending_animation_never_idle_yields() {
    let mut a = Adapter::new(1);
    let mut q: ActionQueue<u32> = ActionQueue::new();
    let frame = vec![0u16];
    let plan = a.run_iteration(q.drain(), TouchSample::NoContact, true, &frame, true);
    assert!(!plan.yield_now);
    assert!(plan.keep_running);
    let plan = a.run_iteration(q.drain(), TouchSample::NoContact, false, &frame, false);
    assert!(plan.yield_now);
}

#[test]
fn iteration_after_terminate_reports_stopped() {
    let mut a = Adapter::new(1);
    let mut q: ActionQueue<u32> = ActionQueue::new();
    q.enqueue(5);
    q.enqueue_terminate();
    let frame = vec![0u16];
    let plan = a.run_iteration(q.drain(), TouchSample::NoContact, false, &frame, false);
    assert_eq!(plan.actions, vec![5]);
    assert!(!plan.keep_running);
    assert!(!a.running);
}

fn quiet_iteration(drained: Vec<panel_adapter::queue::QueueEntry<u32>>, has_animations: bool) -> IterationInput<u32> {
    IterationInput {
        drained,
        sample: TouchSample::NoContact,
        dirty: false,
        frame: Vec::new(),
        has_animations,
    }
}

#[test]
fn no_iteration_begins_after_terminate_is_drained() {
    let mut a = Adapter::new(1);
    let mut q: ActionQueue<u32> = ActionQueue::new();
    q.enqueue_terminate();
    let terminating = q.drain();
    let script = vec![
        quiet_iteration(Vec::new(), false),
        quiet_iteration(terminating, false),
        quiet_iteration(Vec::new(), false),
        quiet_iteration(Vec::new(), false),
    ];
    let plans = a.run_scripted(script);
    assert_eq!(plans.len(), 2);
    assert!(plans[0].keep_running);
    assert!(!plans[1].keep_running);
    assert!(!a.running);
}

#[test]
fn loop_with_pending_animation_never_takes_the_idle_branch() {
    let mut a = Adapter::new(1);
    let script = vec![
        quiet_iteration(Vec::new(), true),
        quiet_iteration(Vec::new(), true),
        quiet_iteration(Vec::new(), true),
    ];
    let plans = a.run_scripted(script);
    assert_eq!(plans.len(), 3);
    for plan in &plans {
        assert!(!plan.yield_now);
    }
    assert!(a.running);
}

#[test]
fn scripted_run_alternates_pushed_buffers_on_dirty_iterations() {
    let mut a = Adapter::new(1);
    let dirty = |has_animations: bool| IterationInput::<u32> {
        drained: Vec::new(),
        sample: TouchSample::NoContact,
        dirty: true,
        frame: vec![1u16],
        has_animations,
    };
    let script = vec![
        dirty(true),
        dirty(true),
        quiet_iteration(Vec::new(), true),
        dirty(true),
    ];
    let plans = a.run_scripted(script);
    assert_eq!(plans.len(), 4);
    assert_eq!(plans[0].pushed, Some(0));
    assert_eq!(plans[1].pushed, Some(1));
    assert_eq!(plans[2].pushed, None);
    assert_eq!(plans[3].pushed, Some(0));
    assert_eq!(a.buffers.back_index(), 1);
}

#[test]
fn iteration_carries_touch_and_redraw_together() {
    let mut a = Adapter::new(2);
    let mut q: ActionQueue<u32> = ActionQueue::new();
    q.enqueue(1);
    let frame = vec![3u16, 4u16];
    let plan = a.run_iteration(q.drain(), TouchSample::Contact(pt(10, 10)), true, &frame, false);
    assert_eq!(plan.actions, vec![1]);
    assert_eq!(
        plan.events,
        vec![
            PointerEvent::Pressed(pt(10, 10)),
            PointerEvent::Moved(pt(10, 10)),
        ]
    );
    assert_eq!(plan.pushed, Some(0));
    assert!(plan.yield_now);
    assert!(plan.keep_running);
    assert_eq!(a.buffers.read_front(0), 3);
    assert_eq!(a.buffers.read_front(1), 4);
    assert!(a.touch.down);
}
