//! Send-until-success with a timeout-raced attempt. Each attempt races the
//! backend call against a timer; whichever resolves first decides the
//! outcome, and a timeout counts as a transient failure. On success the
//! destination's completion marker is set; on failure or timeout the marker
//! is left unset, the record shows `Failed`, and the same destination is
//! retried. A cancelled job performs no step at all, so cancellation can
//! never set or clear a marker.

use vstd::prelude::*;

use crate::record::GroupInfo;
use crate::record::SendMessageInfo;
use crate::record::SendStatus;
use crate::record::WhatsappGroupInfo;
use crate::send_mode::SendMode;

verus! {

/// Result of racing one backend send against the attempt timer.
#[derive(Debug, Clone, Copy, PartialEq, Eq, Structural)]
pub enum RaceOutcome {
    /// The timer won; the attempt is abandoned, its eventual result ignored.
    TimedOut,
    /// The send resolved first and failed.
    Failed,
    /// The send resolved first and succeeded.
    Succeeded,
}

/// What the send loop does next for the current destination.
#[derive(Debug, Clone, Copy, PartialEq, Eq, Structural)]
pub enum SendStep {
    /// The destination is confirmed; move to the next one.
    Advance,
    /// Transient failure; retry the same destination.
    RetrySame,
}

/// Decide the outcome of one raced attempt: if the timer resolved first
/// the attempt counts as timed out whatever the send would have returned;
/// otherwise the send's own result decides.
pub fn race_outcome(timer_first: bool, send_ok: bool) -> (r: RaceOutcome)
    ensures
        r == (if timer_first {
            RaceOutcome::TimedOut
        } else if send_ok {
            RaceOutcome::Succeeded
        } else {
            RaceOutcome::Failed
        }),
{
    if timer_first {
        RaceOutcome::TimedOut
    } else if send_ok {
        RaceOutcome::Succeeded
    } else {
        RaceOutcome::Failed
    }
}

/// The text actually sent to one destination: the message content,
/// prefixed with the frequency annotation exactly when that destination's
/// resolved mode is `Frequency` and the message carries an annotation.
pub fn render_for_destination(content: &str, freq: &Option<String>, mode: SendMode) -> (r: String)
    ensures
        r@ == (if mode == SendMode::Frequency && freq is Some {
            freq.unwrap()@ + seq!['\n'] + content@
        } else {
            content@
        }),
{
    match freq {
        Some(f) if matches!(mode, SendMode::Frequency) => {
            proof {
                reveal_strlit("\n");
                assert("\n"@ =~= seq!['\n']);
            }
            let mut s = f.clone();
            s.append("\n");
            s.append(content);
            s
        },
        _ => content.to_owned(),
    }
}

/// Apply the outcome of one raced attempt for Signal destination `i`.
/// `timestamp` is the (nonzero) timestamp the attempt was sent under; it
/// becomes the destination's completion marker on success. On failure or
/// timeout no marker changes and the record transiently shows `Failed`.
pub fn send_step_signal(
    record: &mut SendMessageInfo,
    i: usize,
    outcome: RaceOutcome,
    timestamp: u64,
) -> (r: SendStep)
    requires
        old(record).wf(),
        old(record).status != SendStatus::Deleted,
        old(record).total() <= usize::MAX,
        i < old(record).groups@.len(),
        timestamp != 0,
    ensures
        final(record).wf(),
        final(record).content == old(record).content,
        final(record).freq == old(record).freq,
        final(record).groups_whatsapp == old(record).groups_whatsapp,
        outcome == RaceOutcome::Succeeded ==> {
            &&& final(record).groups@ == old(record).groups@.update(
                i as int,
                (GroupInfo { timestamp, ..old(record).groups@[i as int] }),
            )
            &&& final(record).groups@[i as int].sent_spec()
            &&& final(record).status == SendStatus::Sending
            &&& r == SendStep::Advance
        },
        outcome != RaceOutcome::Succeeded ==> {
            &&& final(record).groups == old(record).groups
            &&& final(record).status == SendStatus::Failed
            &&& r == SendStep::RetrySame
        },
{
    match outcome {
        RaceOutcome::Succeeded => {
            record.mark_sent(i, timestamp);
            record.set_status(SendStatus::Sending);
            SendStep::Advance
        },
        _ => {
            record.set_status(SendStatus::Failed);
            SendStep::RetrySame
        },
    }
}

/// Apply the outcome of one attempt for Whatsapp destination `i`; `id` is
/// the delivered message's identifier reported by the backend on success.
pub fn send_step_whatsapp(
    record: &mut SendMessageInfo,
    i: usize,
    outcome: RaceOutcome,
    id: String,
) -> (r: SendStep)
    requires
        old(record).wf(),
        old(record).status != SendStatus::Deleted,
        old(record).total() <= usize::MAX,
        i < old(record).groups_whatsapp@.len(),
    ensures
        final(record).wf(),
        final(record).content == old(record).content,
        final(record).freq == old(record).freq,
        final(record).groups == old(record).groups,
        outcome == RaceOutcome::Succeeded ==> {
            &&& final(record).groups_whatsapp@ == old(record).groups_whatsapp@.update(
                i as int,
                (WhatsappGroupInfo {
                    sent: true,
                    sent_id: id,
                    ..old(record).groups_whatsapp@[i as int]
                }),
            )
            &&& final(record).groups_whatsapp@[i as int].sent_spec()
            &&& final(record).status == SendStatus::Sending
            &&& r == SendStep::Advance
        },
        outcome != RaceOutcome::Succeeded ==> {
            &&& final(record).groups_whatsapp == old(record).groups_whatsapp
            &&& final(record).status == SendStatus::Failed
            &&& r == SendStep::RetrySame
        },
{
    match outcome {
        RaceOutcome::Succeeded => {
            record.mark_whatsapp_sent(i, id);
            record.set_status(SendStatus::Sending);
            SendStep::Advance
        },
        _ => {
            record.set_status(SendStatus::Failed);
            SendStep::RetrySame
        },
    }
}

/// Apply the outcome of one per-destination delete attempt for Signal
/// destination `i`: the marker is reset only on confirmed deletion.
pub fn delete_step_signal(record: &mut SendMessageInfo, i: usize, outcome: RaceOutcome) -> (r:
    SendStep)
    requires
        old(record).wf(),
        old(record).status != SendStatus::Sent,
        old(record).total() <= usize::MAX,
        i < old(record).groups@.len(),
    ensures
        final(record).wf(),
        final(record).content == old(record).content,
        final(record).freq == old(record).freq,
        final(record).groups_whatsapp == old(record).groups_whatsapp,
        outcome == RaceOutcome::Succeeded ==> {
            &&& final(record).groups@ == old(record).groups@.update(
                i as int,
                (GroupInfo { timestamp: 0, ..old(record).groups@[i as int] }),
            )
            &&& !final(record).groups@[i as int].sent_spec()
            &&& final(record).status == SendStatus::Sending
            &&& r == SendStep::Advance
        },
        outcome != RaceOutcome::Succeeded ==> {
            &&& final(record).groups == old(record).groups
            &&& final(record).status == SendStatus::Failed
            &&& r == SendStep::RetrySame
        },
{
    match outcome {
        RaceOutcome::Succeeded => {
            record.set_status(SendStatus::Sending);
            record.confirm_delete(i);
            SendStep::Advance
        },
        _ => {
            record.set_status(SendStatus::Failed);
            SendStep::RetrySame
        },
    }
}

/// Apply the outcome of one per-destination delete attempt for Whatsapp
/// destination `i`.
pub fn delete_step_whatsapp(record: &mut SendMessageInfo, i: usize, outcome: RaceOutcome) -> (r:
    SendStep)
    requires
        old(record).wf(),
        old(record).status != SendStatus::Sent,
        old(record).total() <= usize::MAX,
        i < old(record).groups_whatsapp@.len(),
    ensures
        final(record).wf(),
        final(record).content == old(record).content,
        final(record).freq == old(record).freq,
        final(record).groups == old(record).groups,
        outcome == RaceOutcome::Succeeded ==> {
            &&& !final(record).groups_whatsapp@[i as int].sent_spec()
            &&& final(record).groups_whatsapp@[i as int].sent_id@ == Seq::<char>::empty()
            &&& final(record).groups_whatsapp@[i as int].key == old(
                record,
            ).groups_whatsapp@[i as int].key
            &&& final(record).groups_whatsapp@.len() == old(record).groups_whatsapp@.len()
            &&& (forall|j: int|
                0 <= j < old(record).groups_whatsapp@.len() && j != i
                    ==> #[trigger] final(record).groups_whatsapp@[j] == old(
                    record,
                ).groups_whatsapp@[j])
            &&& final(record).status == SendStatus::Sending
            &&& r == SendStep::Advance
        },
        outcome != RaceOutcome::Succeeded ==> {
            &&& final(record).groups_whatsapp == old(record).groups_whatsapp
            &&& final(record).status == SendStatus::Failed
            &&& r == SendStep::RetrySame
        },
{
    match outcome {
        RaceOutcome::Succeeded => {
            record.set_status(SendStatus::Sending);
            record.confirm_delete_whatsapp(i);
            SendStep::Advance
        },
        _ => {
            record.set_status(SendStatus::Failed);
            SendStep::RetrySame
        },
    }
}

} // verus!
