use modern_sender::lifecycle::{LinkEffect, LinkEvent, LinkLifecycle, LinkState};
use modern_sender::history::MessageHistory;
use modern_sender::observable::Observable;
use modern_sender::record::{SendMessageInfo, SendStatus};
use modern_sender::retry::{
    delete_step_signal, delete_step_whatsapp, race_outcome, send_step_signal, send_step_whatsapp,
    RaceOutcome, SendStep,
};
use modern_sender::scheduler::{Job, SchedulerAction, SignalAction, TaskScheduler};

fn two_group_record() -> SendMessageInfo {
    let mut record = SendMessageInfo::new(String::from("hello"));
    record.push([1u8; 32], String::from("alpha"));
    record.push([2u8; 32], String::from("beta"));
    record
}

#[test]
fn completion_never_exceeds_total() {
    let mut record = two_group_record();
    record.push_whatsapp(String::from("123@g.us"), String::from("gamma"), modern_sender::SendMode::Normal);
    assert_eq!(record.sent_count(), 0);
    assert_eq!(record.total_count(), 3);
    record.mark_sent(0, 77);
    assert_eq!(record.sent_count(), 1);
    record.mark_sent(1, 78);
    record.mark_whatsapp_sent(0, String::from("id-1"));
    assert_eq!(record.sent_count(), 3);
    assert!(record.sent_count() <= record.total_count());
}

#[test]
fn sent_status_requires_all_markers() {
    let mut record = two_group_record();
    record.mark_sent(0, 77);
    record.set_status(SendStatus::Sent);
    assert_eq!(record.status, SendStatus::Pending);
    record.mark_sent(1, 78);
    record.set_status(SendStatus::Sent);
    assert_eq!(record.status, SendStatus::Sent);
}

#[test]
fn delete_only_when_nothing_completed() {
    let mut record = two_group_record();
    record.mark_sent(0, 77);
    record.mark_sent(1, 78);
    record.set_status(SendStatus::Sent);
    record.set_status(SendStatus::Deleted);
    assert_eq!(record.status, SendStatus::Sent);
    record.set_status(SendStatus::Sending);
    record.confirm_delete(0);
    record.set_status(SendStatus::Deleted);
    assert_eq!(record.status, SendStatus::Sending);
    record.confirm_delete(1);
    record.set_status(SendStatus::Deleted);
    assert_eq!(record.status, SendStatus::Deleted);
}

#[test]
fn empty_record_can_be_abandoned() {
    let mut record = SendMessageInfo::new(String::from("nowhere to go"));
    record.set_status(SendStatus::Deleted);
    assert_eq!(record.status, SendStatus::Deleted);
}

#[test]
fn edit_keeps_destinations_and_returns_identifiers() {
    let mut record = two_group_record();
    record.push_whatsapp(String::from("123@g.us"), String::from("gamma"), modern_sender::SendMode::Frequency);
    record.mark_sent(0, 111);
    record.mark_sent(1, 222);
    record.mark_whatsapp_sent(0, String::from("wa-id"));
    record.set_status(SendStatus::Sent);
    assert_eq!(record.status, SendStatus::Sent);

    let (edited, timestamps, ids) = record.edit(String::from("corrected"));
    assert_eq!(edited.content, "corrected");
    assert_eq!(edited.status, SendStatus::Pending);
    assert_eq!(edited.groups.len(), 2);
    assert_eq!(edited.groups[0].key, [1u8; 32]);
    assert_eq!(edited.groups[1].key, [2u8; 32]);
    assert!(!edited.groups[0].sent());
    assert!(!edited.groups[1].sent());
    assert_eq!(edited.groups_whatsapp.len(), 1);
    assert_eq!(edited.groups_whatsapp[0].key, "123@g.us");
    assert!(!edited.groups_whatsapp[0].sent);
    assert_eq!(timestamps, vec![111, 222]);
    assert_eq!(ids, vec![String::from("wa-id")]);
}

#[test]
fn delete_targets_lists_every_identifier_once() {
    let mut record = two_group_record();
    record.mark_sent(0, 111);
    record.mark_sent(1, 222);
    record.set_status(SendStatus::Sent);
    let (timestamps, ids) = record.delete_targets();
    assert_eq!(timestamps, vec![111, 222]);
    assert!(ids.is_empty());
}

#[test]
fn timer_win_is_a_timeout() {
    assert_eq!(race_outcome(true, true), RaceOutcome::TimedOut);
    assert_eq!(race_outcome(true, false), RaceOutcome::TimedOut);
    assert_eq!(race_outcome(false, true), RaceOutcome::Succeeded);
    assert_eq!(race_outcome(false, false), RaceOutcome::Failed);
}

#[test]
fn cancelled_send_leaves_marker_unset() {
    let mut record = two_group_record();
    record.set_status(SendStatus::Sending);

    let step = send_step_signal(&mut record, 0, RaceOutcome::TimedOut, 99);
    assert_eq!(step, SendStep::RetrySame);
    assert!(!record.groups[0].sent());
    assert_eq!(record.status, SendStatus::Failed);

    // The relaunched job retries the same destination and may then set it.
    let step = send_step_signal(&mut record, 0, RaceOutcome::Succeeded, 100);
    assert_eq!(step, SendStep::Advance);
    assert!(record.groups[0].sent());
    assert_eq!(record.groups[0].timestamp, 100);
    assert!(!record.groups[1].sent());
}

#[test]
fn whatsapp_send_keeps_message_identifier() {
    let mut record = SendMessageInfo::new(String::from("hi"));
    record.push_whatsapp(String::from("123@g.us"), String::from("gamma"), modern_sender::SendMode::Normal);
    record.set_status(SendStatus::Sending);

    let step = send_step_whatsapp(&mut record, 0, RaceOutcome::Failed, String::new());
    assert_eq!(step, SendStep::RetrySame);
    assert!(!record.groups_whatsapp[0].sent);

    let step = send_step_whatsapp(&mut record, 0, RaceOutcome::Succeeded, String::from("id-9"));
    assert_eq!(step, SendStep::Advance);
    assert!(record.groups_whatsapp[0].sent);
    assert_eq!(record.groups_whatsapp[0].sent_id, "id-9");
}

#[test]
fn delete_confirms_one_destination_at_a_time() {
    let mut record = two_group_record();
    record.push_whatsapp(String::from("123@g.us"), String::from("gamma"), modern_sender::SendMode::Normal);
    record.mark_sent(0, 11);
    record.mark_sent(1, 12);
    record.mark_whatsapp_sent(0, String::from("id"));
    record.set_status(SendStatus::Sent);
    assert_eq!(record.status, SendStatus::Sent);

    record.set_status(SendStatus::Sending);
    let step = delete_step_signal(&mut record, 0, RaceOutcome::Failed);
    assert_eq!(step, SendStep::RetrySame);
    assert!(record.groups[0].sent());
    assert_eq!(record.status, SendStatus::Failed);

    assert_eq!(delete_step_signal(&mut record, 0, RaceOutcome::Succeeded), SendStep::Advance);
    assert!(!record.groups[0].sent());
    assert_eq!(delete_step_signal(&mut record, 1, RaceOutcome::Succeeded), SendStep::Advance);
    assert_eq!(delete_step_whatsapp(&mut record, 0, RaceOutcome::Succeeded), SendStep::Advance);
    assert!(!record.groups_whatsapp[0].sent);
    assert!(record.groups_whatsapp[0].sent_id.is_empty());

    record.set_status(SendStatus::Deleted);
    assert_eq!(record.status, SendStatus::Deleted);
}

#[test]
fn cancel_relaunches_same_front_job() {
    let mut scheduler = TaskScheduler::new();
    assert_eq!(scheduler.enqueue(Job::Send(7)), SchedulerAction::Idle);
    assert_eq!(scheduler.connect(), SchedulerAction::Start(Job::Send(7)));
    assert_eq!(scheduler.enqueue(Job::Delete(7)), SchedulerAction::Idle);

    let action = scheduler.cancel();
    assert_eq!(action, SchedulerAction::Start(Job::Send(7)));
    assert_eq!(scheduler.queue.len(), 2);
    assert_eq!(scheduler.queue[0], Job::Send(7));
}

#[test]
fn queued_jobs_run_in_fifo_order() {
    let mut scheduler = TaskScheduler::new();
    assert_eq!(scheduler.connect(), SchedulerAction::Idle);
    assert_eq!(scheduler.enqueue(Job::Send(1)), SchedulerAction::Start(Job::Send(1)));
    assert_eq!(scheduler.enqueue(Job::Send(2)), SchedulerAction::Idle);
    assert_eq!(scheduler.enqueue(Job::Edit(1)), SchedulerAction::Idle);
    assert_eq!(scheduler.finished(), SchedulerAction::Start(Job::Send(2)));
    assert_eq!(scheduler.finished(), SchedulerAction::Start(Job::Edit(1)));
    assert_eq!(scheduler.finished(), SchedulerAction::Idle);
    assert!(scheduler.queue.is_empty());
}

#[test]
fn disconnect_leaves_queue_dormant() {
    let mut scheduler = TaskScheduler::new();
    scheduler.connect();
    scheduler.enqueue(Job::Send(1));
    scheduler.enqueue(Job::Send(2));
    scheduler.disconnect();
    assert!(!scheduler.in_flight);
    assert_eq!(scheduler.queue.len(), 2);
    assert_eq!(scheduler.enqueue(Job::Send(3)), SchedulerAction::Idle);
    assert_eq!(scheduler.connect(), SchedulerAction::Start(Job::Send(1)));
}

#[test]
fn only_send_requests_are_queued() {
    assert!(!SignalAction::LinkBegin.queued());
    assert!(!SignalAction::Sync.queued());
    assert!(!SignalAction::GetGroups.queued());
    assert!(SignalAction::SendMessage(String::from("m")).queued());
}

#[test]
fn lifecycle_reaches_linked_through_handshake() {
    let mut lifecycle = LinkLifecycle::new();
    assert_eq!(lifecycle.state, LinkState::Unlinked);

    assert_eq!(lifecycle.step(LinkEvent::Startup { prior_session: false }), LinkEffect::Nothing);
    assert_eq!(lifecycle.state, LinkState::Unlinked);

    assert_eq!(lifecycle.step(LinkEvent::LinkRequested), LinkEffect::BeginHandshake);
    assert_eq!(lifecycle.state, LinkState::Linking);
    assert_eq!(lifecycle.step(LinkEvent::PairingReady), LinkEffect::ShowPairing);
    assert_eq!(lifecycle.step(LinkEvent::HandshakeCompleted), LinkEffect::StartSyncAndResume);
    assert_eq!(lifecycle.state, LinkState::Linked);

    assert_eq!(lifecycle.step(LinkEvent::StreamEnded), LinkEffect::PauseQueue);
    assert_eq!(lifecycle.state, LinkState::Disconnected);
}

#[test]
fn handshake_failure_depends_on_history() {
    let mut fresh = LinkLifecycle::new();
    fresh.step(LinkEvent::LinkRequested);
    fresh.step(LinkEvent::HandshakeFailed);
    assert_eq!(fresh.state, LinkState::Unlinked);

    let mut seasoned = LinkLifecycle::new();
    seasoned.step(LinkEvent::LinkRequested);
    seasoned.step(LinkEvent::HandshakeCompleted);
    seasoned.step(LinkEvent::StreamEnded);
    seasoned.step(LinkEvent::LinkRequested);
    seasoned.step(LinkEvent::HandshakeFailed);
    assert_eq!(seasoned.state, LinkState::Disconnected);
}

#[test]
fn startup_with_prior_session_relinks() {
    let mut lifecycle = LinkLifecycle::new();
    assert_eq!(
        lifecycle.step(LinkEvent::Startup { prior_session: true }),
        LinkEffect::BeginHandshake
    );
    assert_eq!(lifecycle.state, LinkState::Linking);
}

#[test]
fn history_evicts_oldest() {
    let mut history = MessageHistory::new(2);
    history.push_front(SendMessageInfo::new(String::from("one")));
    history.push_front(SendMessageInfo::new(String::from("two")));
    history.push_front(SendMessageInfo::new(String::from("three")));
    assert_eq!(history.len(), 2);
    assert_eq!(history.get(0).content, "three");
    assert_eq!(history.get(1).content, "two");

    let taken = history.remove(0);
    assert_eq!(taken.content, "three");
    assert_eq!(history.len(), 1);
}

#[test]
fn observable_reports_each_change_once() {
    let mut observable = Observable::new(5u32);
    assert!(observable.is_changed());
    assert_eq!(observable.get_changed(), Some(&5));
    assert!(!observable.is_changed());
    assert_eq!(observable.get_changed(), None);
    observable.change(9);
    assert!(observable.is_changed());
    assert_eq!(observable.get_changed(), Some(&9));
    assert_eq!(*observable.as_value(), 9);
}

#[test]
fn status_codes_round_trip() {
    for code in 0u8..5u8 {
        assert_eq!(SendStatus::from_u8(code).as_u8(), code);
    }
    assert_eq!(SendStatus::from_u8(0), SendStatus::Pending);
    assert_eq!(SendStatus::from_u8(4), SendStatus::Deleted);
}
