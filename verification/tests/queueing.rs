use chat_hub::frame::OutboundFrame;
use chat_hub::queue::OutboundQueue;

#[test]
fn queue_is_fifo() {
    let mut q = OutboundQueue::new();
    q.try_enqueue(OutboundFrame::Text(String::from("a")));
    q.try_enqueue(OutboundFrame::Text(String::from("b")));
    assert_eq!(q.len(), 2);
    assert_eq!(q.pop_front(), Some(OutboundFrame::Text(String::from("a"))));
    assert_eq!(q.pop_front(), Some(OutboundFrame::Text(String::from("b"))));
    assert_eq!(q.pop_front(), None);
}

#[test]
fn new_queue_is_empty_and_accepting() {
    let mut q = OutboundQueue::new();
    assert_eq!(q.len(), 0);
    assert!(!q.is_closed());
    assert_eq!(q.pop_front(), None);
}

#[test]
fn closed_queue_drops_frames_silently() {
    let mut q = OutboundQueue::new();
    q.try_enqueue(OutboundFrame::Text(String::from("kept")));
    q.close();
    q.try_enqueue(OutboundFrame::Text(String::from("dropped")));
    assert!(q.is_closed());
    assert_eq!(q.len(), 1);
    assert_eq!(q.pop_front(), Some(OutboundFrame::Text(String::from("kept"))));
    assert_eq!(q.pop_front(), None);
}

#[test]
fn seal_appends_terminal_signal_once() {
    let mut q = OutboundQueue::new();
    q.try_enqueue(OutboundFrame::Text(String::from("last")));
    q.seal();
    q.seal();
    assert!(q.is_closed());
    assert_eq!(q.pop_front(), Some(OutboundFrame::Text(String::from("last"))));
    assert_eq!(q.pop_front(), Some(OutboundFrame::Terminate));
    assert_eq!(q.pop_front(), None);
}

#[test]
fn seal_of_closed_queue_appends_nothing() {
    let mut q = OutboundQueue::new();
    q.close();
    q.seal();
    assert_eq!(q.len(), 0);
}
