use search_stream::controller::SearchController;
use search_stream::error::SearchError;
use search_stream::process::ProcessHandle;
use search_stream::slot::SearchSlot;

#[test]
fn new_controller_has_no_search() {
    let controller: SearchController<String> = SearchController::new();
    assert_eq!(controller.current_session(), None);
}

#[test]
fn second_search_evicts_the_first_before_it_is_installed() {
    let mut controller: SearchController<String> = SearchController::new();
    assert_eq!(controller.begin_search(), None);
    let (foo, displaced) = controller.install_search("foo".to_string());
    assert_eq!(displaced, None);
    assert_eq!(controller.current_session(), Some(foo));

    let evicted = controller.begin_search();
    assert_eq!(evicted, Some("foo".to_string()));
    assert_eq!(controller.current_session(), None);
    let (bar, displaced) = controller.install_search("bar".to_string());
    assert_eq!(displaced, None);
    assert_ne!(foo, bar);
    assert_eq!(controller.current_session(), Some(bar));
}

#[test]
fn sessions_are_numbered_in_order() {
    let mut controller: SearchController<u32> = SearchController::new();
    assert_eq!(controller.install_search(10), (0, None));
    assert_eq!(controller.install_search(11), (1, Some(10)));
    assert_eq!(controller.install_search(12), (2, Some(11)));
    assert_eq!(controller.current_session(), Some(2));
}

#[test]
fn every_handle_is_handed_out_once() {
    let mut controller: SearchController<u32> = SearchController::new();
    let mut terminated = Vec::new();
    terminated.extend(controller.cancel_search());
    terminated.extend(controller.begin_search());
    let (first, displaced) = controller.install_search(1);
    terminated.extend(displaced);
    terminated.extend(controller.begin_search());
    let (second, displaced) = controller.install_search(2);
    terminated.extend(displaced);
    terminated.extend(controller.match_cap_reached(first));
    let (_, displaced) = controller.install_search(3);
    terminated.extend(displaced);
    terminated.extend(controller.match_cap_reached(second));
    terminated.extend(controller.cancel_search());
    terminated.extend(controller.cancel_search());
    let (fourth, displaced) = controller.install_search(4);
    terminated.extend(displaced);
    assert_eq!(terminated, vec![1, 2, 3]);
    assert_eq!(controller.current_session(), Some(fourth));
    assert_eq!(controller.cancel_search(), Some(4));
}

#[test]
fn cancelling_twice_hands_out_nothing_the_second_time() {
    let mut controller: SearchController<u32> = SearchController::new();
    controller.install_search(5);
    assert_eq!(controller.cancel_search(), Some(5));
    assert_eq!(controller.cancel_search(), None);
    assert_eq!(controller.current_session(), None);
}

#[test]
fn cancelling_without_a_search_is_a_no_op() {
    let mut controller: SearchController<u32> = SearchController::new();
    assert_eq!(controller.cancel_search(), None);
    assert_eq!(controller.current_session(), None);
    assert_eq!(controller.install_search(9), (0, None));
}

#[test]
fn cap_of_the_current_session_takes_its_handle() {
    let mut controller: SearchController<u32> = SearchController::new();
    let (session, _) = controller.install_search(7);
    assert_eq!(controller.match_cap_reached(session), Some(7));
    assert_eq!(controller.current_session(), None);
    assert_eq!(controller.match_cap_reached(session), None);
}

#[test]
fn cap_of_a_session_that_was_replaced_takes_nothing() {
    let mut controller: SearchController<u32> = SearchController::new();
    let (old, _) = controller.install_search(7);
    assert_eq!(controller.begin_search(), Some(7));
    let (new, _) = controller.install_search(8);
    assert_eq!(controller.match_cap_reached(old), None);
    assert_eq!(controller.current_session(), Some(new));
    assert_eq!(controller.cancel_search(), Some(8));
}

#[test]
fn slot_replace_hands_out_the_previous_occupant() {
    let mut slot: SearchSlot<&str> = SearchSlot::new();
    assert_eq!(slot.current_session(), None);
    assert_eq!(slot.replace(Some((1, "a"))), None);
    assert_eq!(slot.current_session(), Some(1));
    assert_eq!(slot.replace(Some((2, "b"))), Some((1, "a")));
    assert_eq!(slot.replace(None), Some((2, "b")));
    assert_eq!(slot.current_session(), None);
}

#[test]
fn slot_take_empties_the_slot() {
    let mut slot: SearchSlot<&str> = SearchSlot::new();
    assert_eq!(slot.take(), None);
    slot.replace(Some((3, "c")));
    assert_eq!(slot.take(), Some((3, "c")));
    assert_eq!(slot.take(), None);
}

#[test]
fn slot_take_if_current_leaves_another_session() {
    let mut slot: SearchSlot<&str> = SearchSlot::new();
    assert_eq!(slot.take_if_current(4), None);
    slot.replace(Some((4, "d")));
    assert_eq!(slot.take_if_current(5), None);
    assert_eq!(slot.current_session(), Some(4));
    assert_eq!(slot.take_if_current(4), Some("d"));
    assert_eq!(slot.current_session(), None);
}

#[test]
fn output_stream_is_handed_over_once() {
    let mut handle: ProcessHandle<u32, &str> = ProcessHandle::new(42, Some("stdout"));
    assert!(handle.has_output());
    assert_eq!(handle.take_output_stream(), Ok("stdout"));
    assert!(!handle.has_output());
    assert_eq!(handle.take_output_stream(), Err(SearchError::StreamAcquisition));
}

#[test]
fn process_without_output_has_no_stream() {
    let mut handle: ProcessHandle<u32, &str> = ProcessHandle::new(42, None);
    assert!(!handle.has_output());
    assert_eq!(handle.take_output_stream(), Err(SearchError::StreamAcquisition));
    assert_eq!(handle.into_process(), 42);
}

#[test]
fn termination_is_due_once() {
    let mut handle: ProcessHandle<u32, &str> = ProcessHandle::new(42, Some("stdout"));
    assert!(!handle.is_terminated());
    assert!(handle.terminate());
    assert!(handle.is_terminated());
    assert!(!handle.terminate());
    assert!(handle.is_terminated());
    assert_eq!(handle.take_output_stream(), Ok("stdout"));
}

#[test]
fn process_can_be_acted_on_through_the_handle() {
    let mut handle: ProcessHandle<Vec<u8>, &str> = ProcessHandle::new(vec![1], None);
    handle.process_mut().push(2);
    assert!(!handle.is_terminated());
    assert_eq!(handle.into_process(), vec![1, 2]);
}

#[test]
fn errors_have_their_messages() {
    let spawn = SearchError::Spawn("No such file or directory (os error 2)".to_string());
    assert_eq!(spawn.message(), "No such file or directory (os error 2)");
    assert_eq!(SearchError::StreamAcquisition.message(), "Failed to open stdout");
    let lock = SearchError::Lock("poisoned lock: another task failed inside".to_string());
    assert_eq!(lock.message(), "poisoned lock: another task failed inside");
}
