//! Delivery tracking for one message: the record owns the message content
//! and the per-destination completion markers, and guards its aggregate
//! status so that `Sent` can only hold when every destination is confirmed
//! and `Deleted` only when none is.

use vstd::prelude::*;

use crate::send_mode::SendMode;

verus! {

/// Aggregate delivery status of one record.
#[derive(Debug, Clone, Copy, PartialEq, Eq, Structural)]
pub enum SendStatus {
    Pending,
    Sending,
    Sent,
    Failed,
    Deleted,
}

impl SendStatus {
    /// Numeric code of this status, as stored by a presentation layer.
    pub open spec fn as_u8_spec(self) -> u8 {
        match self {
            SendStatus::Pending => 0,
            SendStatus::Sending => 1,
            SendStatus::Sent => 2,
            SendStatus::Failed => 3,
            SendStatus::Deleted => 4,
        }
    }

    pub fn as_u8(self) -> (r: u8)
        ensures
            r == self.as_u8_spec(),
    {
        match self {
            SendStatus::Pending => 0,
            SendStatus::Sending => 1,
            SendStatus::Sent => 2,
            SendStatus::Failed => 3,
            SendStatus::Deleted => 4,
        }
    }

    /// Inverse of `as_u8`; only the five status codes are meaningful.
    pub fn from_u8(value: u8) -> (r: SendStatus)
        requires
            value < 5,
        ensures
            r.as_u8_spec() == value,
    {
        if value == 0 {
            SendStatus::Pending
        } else if value == 1 {
            SendStatus::Sending
        } else if value == 2 {
            SendStatus::Sent
        } else if value == 3 {
            SendStatus::Failed
        } else {
            SendStatus::Deleted
        }
    }
}

/// Completion marker for one Signal destination. The timestamp doubles as
/// the delivery confirmation and as the edit/delete target reference:
/// `0` means "not sent", any other value is the delivered message's
/// timestamp.
#[derive(Debug, Clone)]
pub struct GroupInfo {
    pub key: [u8; 32],
    pub title: String,
    pub send_mode: SendMode,
    pub timestamp: u64,
}

impl GroupInfo {
    /// The marker counts as set exactly when the timestamp is nonzero.
    pub open spec fn sent_spec(&self) -> bool {
        self.timestamp != 0
    }

    pub fn new(key: [u8; 32], title: String) -> (r: GroupInfo)
        ensures
            r.key == key,
            r.title == title,
            r.send_mode == SendMode::Normal,
            r.timestamp == 0,
    {
        GroupInfo { key, title, send_mode: SendMode::Normal, timestamp: 0 }
    }

    /// A marker for a destination resolved with an explicit send mode.
    pub fn with_mode(key: [u8; 32], title: String, send_mode: SendMode) -> (r: GroupInfo)
        ensures
            r.key == key,
            r.title == title,
            r.send_mode == send_mode,
            r.timestamp == 0,
    {
        GroupInfo { key, title, send_mode, timestamp: 0 }
    }

    pub fn set_timestamp(&mut self, timestamp: u64)
        ensures
            final(self).key == old(self).key,
            final(self).title == old(self).title,
            final(self).send_mode == old(self).send_mode,
            final(self).timestamp == timestamp,
    {
        self.timestamp = timestamp;
    }

    /// The delivery timestamp, or `None` while the destination has not been
    /// confirmed.
    pub fn timestamp(&self) -> (r: Option<u64>)
        ensures
            r == (if self.timestamp == 0 {
                Option::<u64>::None
            } else {
                Option::<u64>::Some(self.timestamp)
            }),
    {
        if self.timestamp == 0 {
            None
        } else {
            Some(self.timestamp)
        }
    }

    pub fn sent(&self) -> (r: bool)
        ensures
            r == self.sent_spec(),
    {
        self.timestamp != 0
    }
}

/// Completion marker for one Whatsapp destination: a sent flag plus the
/// separately held identifier of the delivered message, used as the
/// edit/delete target and empty until a delivery is confirmed.
#[derive(Debug, Clone)]
pub struct WhatsappGroupInfo {
    pub key: String,
    pub title: String,
    pub send_mode: SendMode,
    pub sent: bool,
    pub sent_id: String,
}

impl WhatsappGroupInfo {
    pub open spec fn sent_spec(&self) -> bool {
        self.sent
    }

    pub fn new(key: String, title: String, send_mode: SendMode) -> (r: WhatsappGroupInfo)
        ensures
            r.key == key,
            r.title == title,
            r.send_mode == send_mode,
            r.sent == false,
            r.sent_id@ == Seq::<char>::empty(),
    {
        WhatsappGroupInfo { key, title, send_mode, sent: false, sent_id: String::new() }
    }

    /// Record a confirmed delivery: the marker becomes set and holds the
    /// delivered message's identifier.
    pub fn set_id(&mut self, id: String)
        ensures
            final(self).key == old(self).key,
            final(self).title == old(self).title,
            final(self).send_mode == old(self).send_mode,
            final(self).sent == true,
            final(self).sent_id == id,
    {
        self.sent = true;
        self.sent_id = id;
    }

    /// Reset the marker after a confirmed per-destination delete.
    pub fn delete(&mut self)
        ensures
            final(self).key == old(self).key,
            final(self).title == old(self).title,
            final(self).send_mode == old(self).send_mode,
            final(self).sent == false,
            final(self).sent_id@ == Seq::<char>::empty(),
    {
        self.sent = false;
        self.sent_id = String::new();
    }
}

/// How many of the Signal markers in `s` are set.
pub open spec fn count_sent_signal(s: Seq<GroupInfo>) -> int
    decreases s.len(),
{
    if s.len() == 0 {
        0
    } else {
        count_sent_signal(s.drop_last()) + if s.last().sent_spec() {
            1int
        } else {
            0int
        }
    }
}

/// How many of the Whatsapp markers in `s` are set.
pub open spec fn count_sent_whatsapp(s: Seq<WhatsappGroupInfo>) -> int
    decreases s.len(),
{
    if s.len() == 0 {
        0
    } else {
        count_sent_whatsapp(s.drop_last()) + if s.last().sent_spec() {
            1int
        } else {
            0int
        }
    }
}

/// The set-marker count is bounded by the length, reaches the length
/// exactly when every marker is set, and reaches zero exactly when none is.
pub proof fn lemma_count_signal_bounds(s: Seq<GroupInfo>)
    ensures
        0 <= count_sent_signal(s) <= s.len(),
        (count_sent_signal(s) == s.len()) <==> (forall|i: int|
            0 <= i < s.len() ==> s[i].sent_spec()),
        (count_sent_signal(s) == 0) <==> (forall|i: int| 0 <= i < s.len() ==> !s[i].sent_spec()),
    decreases s.len(),
{
    if s.len() > 0 {
        lemma_count_signal_bounds(s.drop_last());
        assert(forall|i: int| 0 <= i < s.len() - 1 ==> s[i] == s.drop_last()[i]);
    }
}

pub proof fn lemma_count_whatsapp_bounds(s: Seq<WhatsappGroupInfo>)
    ensures
        0 <= count_sent_whatsapp(s) <= s.len(),
        (count_sent_whatsapp(s) == s.len()) <==> (forall|i: int|
            0 <= i < s.len() ==> s[i].sent_spec()),
        (count_sent_whatsapp(s) == 0) <==> (forall|i: int|
            0 <= i < s.len() ==> !s[i].sent_spec()),
    decreases s.len(),
{
    if s.len() > 0 {
        lemma_count_whatsapp_bounds(s.drop_last());
        assert(forall|i: int| 0 <= i < s.len() - 1 ==> s[i] == s.drop_last()[i]);
    }
}

/// Updating one marker changes the count by the difference at that index.
pub proof fn lemma_count_signal_update(s: Seq<GroupInfo>, i: int, g: GroupInfo)
    requires
        0 <= i < s.len(),
    ensures
        count_sent_signal(s.update(i, g)) == count_sent_signal(s) + (if g.sent_spec() {
            1int
        } else {
            0int
        }) - (if s[i].sent_spec() {
            1int
        } else {
            0int
        }),
    decreases s.len(),
{
    let t = s.update(i, g);
    if i == s.len() - 1 {
        assert(t.drop_last() =~= s.drop_last());
        assert(t.last() == g);
    } else {
        assert(t.drop_last() =~= s.drop_last().update(i, g));
        assert(t.last() == s.last());
        lemma_count_signal_update(s.drop_last(), i, g);
    }
}

pub proof fn lemma_count_whatsapp_update(s: Seq<WhatsappGroupInfo>, i: int, g: WhatsappGroupInfo)
    requires
        0 <= i < s.len(),
    ensures
        count_sent_whatsapp(s.update(i, g)) == count_sent_whatsapp(s) + (if g.sent_spec() {
            1int
        } else {
            0int
        }) - (if s[i].sent_spec() {
            1int
        } else {
            0int
        }),
    decreases s.len(),
{
    let t = s.update(i, g);
    if i == s.len() - 1 {
        assert(t.drop_last() =~= s.drop_last());
        assert(t.last() == g);
    } else {
        assert(t.drop_last() =~= s.drop_last().update(i, g));
        assert(t.last() == s.last());
        lemma_count_whatsapp_update(s.drop_last(), i, g);
    }
}

/// The tracked unit of work for sending one message: the content, an
/// optional frequency annotation, the aggregate status, and one completion
/// marker per resolved destination, partitioned by backend.
#[derive(Debug, Clone)]
pub struct SendMessageInfo {
    pub content: String,
    pub freq: Option<String>,
    pub status: SendStatus,
    pub groups: Vec<GroupInfo>,
    pub groups_whatsapp: Vec<WhatsappGroupInfo>,
}

impl SendMessageInfo {
    /// Total number of destinations across both backends.
    pub open spec fn total(&self) -> int {
        self.groups@.len() + self.groups_whatsapp@.len() as int
    }

    /// Number of destinations whose completion marker is set.
    pub open spec fn completed(&self) -> int {
        count_sent_signal(self.groups@) + count_sent_whatsapp(self.groups_whatsapp@)
    }

    /// Well-formedness: `Sent` requires every marker set, `Deleted`
    /// requires every marker unset.
    pub open spec fn wf(&self) -> bool {
        &&& (self.status == SendStatus::Sent ==> self.completed() == self.total())
        &&& (self.status == SendStatus::Deleted ==> self.completed() == 0)
    }

    /// All destinations, markers and annotations equal; only content and
    /// status free.
    pub open spec fn same_destinations(&self, other: &SendMessageInfo) -> bool {
        &&& self.groups@.len() == other.groups@.len()
        &&& self.groups_whatsapp@.len() == other.groups_whatsapp@.len()
        &&& (forall|i: int|
            0 <= i < self.groups@.len() ==> {
                &&& self.groups@[i].key == #[trigger] other.groups@[i].key
                &&& self.groups@[i].title == other.groups@[i].title
                &&& self.groups@[i].send_mode == other.groups@[i].send_mode
            })
        &&& (forall|i: int|
            0 <= i < self.groups_whatsapp@.len() ==> {
                &&& self.groups_whatsapp@[i].key == #[trigger] other.groups_whatsapp@[i].key
                &&& self.groups_whatsapp@[i].title == other.groups_whatsapp@[i].title
                &&& self.groups_whatsapp@[i].send_mode == other.groups_whatsapp@[i].send_mode
            })
    }

    pub fn new(content: String) -> (r: SendMessageInfo)
        ensures
            r.content == content,
            r.freq is None,
            r.status == SendStatus::Pending,
            r.groups@.len() == 0,
            r.groups_whatsapp@.len() == 0,
            r.wf(),
    {
        SendMessageInfo {
            content,
            freq: None,
            status: SendStatus::Pending,
            groups: Vec::new(),
            groups_whatsapp: Vec::new(),
        }
    }

    /// Attach the message's frequency annotation.
    pub fn set_freq(&mut self, freq: Option<String>)
        ensures
            final(self).content == old(self).content,
            final(self).freq == freq,
            final(self).status == old(self).status,
            final(self).groups == old(self).groups,
            final(self).groups_whatsapp == old(self).groups_whatsapp,
            old(self).wf() ==> final(self).wf(),
    {
        self.freq = freq;
    }

    /// Append an unset Signal marker. Not allowed on a record already
    /// finalized as `Sent`: its invariant says every marker is set.
    pub fn push(&mut self, group_key: [u8; 32], title: String)
        requires
            old(self).status != SendStatus::Sent,
            old(self).wf(),
        ensures
            final(self).content == old(self).content,
            final(self).freq == old(self).freq,
            final(self).status == old(self).status,
            final(self).groups@ == old(self).groups@.push(
                GroupInfo { key: group_key, title, send_mode: SendMode::Normal, timestamp: 0 },
            ),
            final(self).groups_whatsapp == old(self).groups_whatsapp,
            final(self).completed() == old(self).completed(),
            final(self).wf(),
    {
        let g = GroupInfo::new(group_key, title);
        proof {
            let pushed = self.groups@.push(
                GroupInfo { key: group_key, title: g.title, send_mode: SendMode::Normal, timestamp: 0 },
            );
            assert(pushed.drop_last() =~= self.groups@);
        }
        self.groups.push(g);
    }

    /// Append an unset Signal marker carrying its resolved send mode.
    pub fn push_signal(&mut self, group_key: [u8; 32], title: String, send_mode: SendMode)
        requires
            old(self).status != SendStatus::Sent,
            old(self).wf(),
        ensures
            final(self).content == old(self).content,
            final(self).freq == old(self).freq,
            final(self).status == old(self).status,
            final(self).groups@ == old(self).groups@.push(
                GroupInfo { key: group_key, title, send_mode, timestamp: 0 },
            ),
            final(self).groups_whatsapp == old(self).groups_whatsapp,
            final(self).completed() == old(self).completed(),
            final(self).wf(),
    {
        let g = GroupInfo::with_mode(group_key, title, send_mode);
        proof {
            let pushed = self.groups@.push(
                GroupInfo { key: group_key, title: g.title, send_mode, timestamp: 0 },
            );
            assert(pushed.drop_last() =~= self.groups@);
        }
        self.groups.push(g);
    }

    /// Append an unset Whatsapp marker carrying its resolved send mode.
    pub fn push_whatsapp(&mut self, key: String, title: String, send_mode: SendMode)
        requires
            old(self).status != SendStatus::Sent,
            old(self).wf(),
        ensures
            final(self).content == old(self).content,
            final(self).freq == old(self).freq,
            final(self).status == old(self).status,
            final(self).groups == old(self).groups,
            final(self).groups_whatsapp@.len() == old(self).groups_whatsapp@.len() + 1,
            final(self).groups_whatsapp@.drop_last() == old(self).groups_whatsapp@,
            final(self).groups_whatsapp@.last().key == key,
            final(self).groups_whatsapp@.last().title == title,
            final(self).groups_whatsapp@.last().send_mode == send_mode,
            final(self).groups_whatsapp@.last().sent == false,
            final(self).groups_whatsapp@.last().sent_id@ == Seq::<char>::empty(),
            final(self).completed() == old(self).completed(),
            final(self).wf(),
    {
        let g = WhatsappGroupInfo::new(key, title, send_mode);
        proof {
            assert(self.groups_whatsapp@.push(g).drop_last() =~= self.groups_whatsapp@);
        }
        self.groups_whatsapp.push(g);
    }

    /// How many destinations are confirmed delivered.
    pub fn sent_count(&self) -> (r: usize)
        requires
            self.total() <= usize::MAX,
        ensures
            r == self.completed(),
    {
        let mut count: usize = 0;
        let mut i: usize = 0;
        while i < self.groups.len()
            invariant
                i <= self.groups@.len(),
                count == count_sent_signal(self.groups@.take(i as int)),
                count <= i,
            decreases self.groups@.len() - i,
        {
            proof {
                let taken = self.groups@.take(i + 1);
                assert(taken.drop_last() =~= self.groups@.take(i as int));
                assert(taken.last() == self.groups@[i as int]);
            }
            if self.groups[i].sent() {
                count += 1;
            }
            i += 1;
        }
        proof {
            assert(self.groups@.take(self.groups@.len() as int) =~= self.groups@);
            lemma_count_whatsapp_bounds(self.groups_whatsapp@);
        }
        let mut j: usize = 0;
        while j < self.groups_whatsapp.len()
            invariant
                j <= self.groups_whatsapp@.len(),
                count == count_sent_signal(self.groups@) + count_sent_whatsapp(
                    self.groups_whatsapp@.take(j as int),
                ),
                count_sent_signal(self.groups@) <= self.groups@.len(),
                count_sent_whatsapp(self.groups_whatsapp@.take(j as int)) <= j,
                self.total() <= usize::MAX,
            decreases self.groups_whatsapp@.len() - j,
        {
            proof {
                let taken = self.groups_whatsapp@.take(j + 1);
                assert(taken.drop_last() =~= self.groups_whatsapp@.take(j as int));
                assert(taken.last() == self.groups_whatsapp@[j as int]);
                lemma_count_signal_bounds(self.groups@);
                lemma_count_whatsapp_bounds(self.groups_whatsapp@.take(j as int));
            }
            if self.groups_whatsapp[j].sent {
                count += 1;
            }
            j += 1;
        }
        proof {
            assert(self.groups_whatsapp@.take(self.groups_whatsapp@.len() as int)
                =~= self.groups_whatsapp@);
        }
        count
    }

    /// Total number of destinations.
    pub fn total_count(&self) -> (r: usize)
        requires
            self.total() <= usize::MAX,
        ensures
            r == self.total(),
    {
        self.groups.len() + self.groups_whatsapp.len()
    }

    /// Guarded status transition: `Sent` is applied only if every marker is
    /// set, `Deleted` only if none is; the other statuses apply
    /// unconditionally. A guarded attempt that fails its precondition is a
    /// silent no-op.
    pub fn set_status(&mut self, status: SendStatus)
        requires
            old(self).wf(),
            old(self).total() <= usize::MAX,
        ensures
            final(self).content == old(self).content,
            final(self).freq == old(self).freq,
            final(self).groups == old(self).groups,
            final(self).groups_whatsapp == old(self).groups_whatsapp,
            final(self).status == (if status == SendStatus::Sent {
                if old(self).completed() == old(self).total() {
                    SendStatus::Sent
                } else {
                    old(self).status
                }
            } else if status == SendStatus::Deleted {
                if old(self).completed() == 0 {
                    SendStatus::Deleted
                } else {
                    old(self).status
                }
            } else {
                status
            }),
            final(self).wf(),
    {
        match status {
            SendStatus::Sent => {
                if self.sent_count() == self.total_count() {
                    self.status = SendStatus::Sent;
                }
            },
            SendStatus::Deleted => {
                if self.sent_count() == 0 {
                    self.status = SendStatus::Deleted;
                }
            },
            _ => {
                self.status = status;
            },
        }
    }

    /// Record a confirmed Signal delivery for destination `i`.
    pub fn mark_sent(&mut self, i: usize, timestamp: u64)
        requires
            old(self).wf(),
            old(self).status != SendStatus::Deleted,
            i < old(self).groups@.len(),
            timestamp != 0,
        ensures
            final(self).content == old(self).content,
            final(self).freq == old(self).freq,
            final(self).status == old(self).status,
            final(self).groups_whatsapp == old(self).groups_whatsapp,
            final(self).groups@ == old(self).groups@.update(
                i as int,
                GroupInfo {
                    key: old(self).groups@[i as int].key,
                    title: old(self).groups@[i as int].title,
                    send_mode: old(self).groups@[i as int].send_mode,
                    timestamp,
                },
            ),
            final(self).completed() == old(self).completed() + (if old(
                self,
            ).groups@[i as int].sent_spec() {
                0int
            } else {
                1int
            }),
            final(self).wf(),
    {
        proof {
            lemma_count_signal_update(
                self.groups@,
                i as int,
                GroupInfo {
                    key: self.groups@[i as int].key,
                    title: self.groups@[i as int].title,
                    send_mode: self.groups@[i as int].send_mode,
                    timestamp,
                },
            );
            lemma_count_signal_bounds(self.groups@);
            lemma_count_whatsapp_bounds(self.groups_whatsapp@);
        }
        let g = &mut self.groups[i];
        g.set_timestamp(timestamp);
        proof {
            assert(self.groups@ =~= old(self).groups@.update(
                i as int,
                GroupInfo {
                    key: old(self).groups@[i as int].key,
                    title: old(self).groups@[i as int].title,
                    send_mode: old(self).groups@[i as int].send_mode,
                    timestamp,
                },
            ));
        }
    }

    /// Record a confirmed Whatsapp delivery for destination `i`, keeping
    /// the delivered message's identifier.
    pub fn mark_whatsapp_sent(&mut self, i: usize, id: String)
        requires
            old(self).wf(),
            old(self).status != SendStatus::Deleted,
            i < old(self).groups_whatsapp@.len(),
        ensures
            final(self).content == old(self).content,
            final(self).freq == old(self).freq,
            final(self).status == old(self).status,
            final(self).groups == old(self).groups,
            final(self).groups_whatsapp@ == old(self).groups_whatsapp@.update(
                i as int,
                WhatsappGroupInfo {
                    key: old(self).groups_whatsapp@[i as int].key,
                    title: old(self).groups_whatsapp@[i as int].title,
                    send_mode: old(self).groups_whatsapp@[i as int].send_mode,
                    sent: true,
                    sent_id: id,
                },
            ),
            final(self).completed() == old(self).completed() + (if old(
                self,
            ).groups_whatsapp@[i as int].sent_spec() {
                0int
            } else {
                1int
            }),
            final(self).wf(),
    {
        proof {
            lemma_count_whatsapp_update(
                self.groups_whatsapp@,
                i as int,
                WhatsappGroupInfo {
                    key: self.groups_whatsapp@[i as int].key,
                    title: self.groups_whatsapp@[i as int].title,
                    send_mode: self.groups_whatsapp@[i as int].send_mode,
                    sent: true,
                    sent_id: id,
                },
            );
            lemma_count_signal_bounds(self.groups@);
            lemma_count_whatsapp_bounds(self.groups_whatsapp@);
        }
        let g = &mut self.groups_whatsapp[i];
        g.set_id(id);
        proof {
            assert(self.groups_whatsapp@ =~= old(self).groups_whatsapp@.update(
                i as int,
                WhatsappGroupInfo {
                    key: old(self).groups_whatsapp@[i as int].key,
                    title: old(self).groups_whatsapp@[i as int].title,
                    send_mode: old(self).groups_whatsapp@[i as int].send_mode,
                    sent: true,
                    sent_id: id,
                },
            ));
        }
    }

    /// Reset destination `i`'s Signal marker after its delete was
    /// confirmed. Not allowed while the record claims `Sent`.
    pub fn confirm_delete(&mut self, i: usize)
        requires
            old(self).wf(),
            old(self).status != SendStatus::Sent,
            i < old(self).groups@.len(),
        ensures
            final(self).content == old(self).content,
            final(self).freq == old(self).freq,
            final(self).status == old(self).status,
            final(self).groups_whatsapp == old(self).groups_whatsapp,
            final(self).groups@ == old(self).groups@.update(
                i as int,
                GroupInfo {
                    key: old(self).groups@[i as int].key,
                    title: old(self).groups@[i as int].title,
                    send_mode: old(self).groups@[i as int].send_mode,
                    timestamp: 0,
                },
            ),
            final(self).completed() == old(self).completed() - (if old(
                self,
            ).groups@[i as int].sent_spec() {
                1int
            } else {
                0int
            }),
            final(self).wf(),
    {
        proof {
            lemma_count_signal_update(
                self.groups@,
                i as int,
                GroupInfo {
                    key: self.groups@[i as int].key,
                    title: self.groups@[i as int].title,
                    send_mode: self.groups@[i as int].send_mode,
                    timestamp: 0,
                },
            );
            lemma_count_signal_bounds(self.groups@);
            lemma_count_whatsapp_bounds(self.groups_whatsapp@);
        }
        let g = &mut self.groups[i];
        g.set_timestamp(0);
        proof {
            assert(self.groups@ =~= old(self).groups@.update(
                i as int,
                GroupInfo {
                    key: old(self).groups@[i as int].key,
                    title: old(self).groups@[i as int].title,
                    send_mode: old(self).groups@[i as int].send_mode,
                    timestamp: 0,
                },
            ));
        }
    }

    /// Reset destination `i`'s Whatsapp marker after its delete was
    /// confirmed. Not allowed while the record claims `Sent`.
    pub fn confirm_delete_whatsapp(&mut self, i: usize)
        requires
            old(self).wf(),
            old(self).status != SendStatus::Sent,
            i < old(self).groups_whatsapp@.len(),
        ensures
            final(self).content == old(self).content,
            final(self).freq == old(self).freq,
            final(self).status == old(self).status,
            final(self).groups == old(self).groups,
            final(self).groups_whatsapp@ == old(self).groups_whatsapp@.update(
                i as int,
                WhatsappGroupInfo {
                    key: old(self).groups_whatsapp@[i as int].key,
                    title: old(self).groups_whatsapp@[i as int].title,
                    send_mode: old(self).groups_whatsapp@[i as int].send_mode,
                    sent: false,
                    sent_id: final(self).groups_whatsapp@[i as int].sent_id,
                },
            ),
            final(self).groups_whatsapp@[i as int].sent_id@ == Seq::<char>::empty(),
            final(self).completed() == old(self).completed() - (if old(
                self,
            ).groups_whatsapp@[i as int].sent_spec() {
                1int
            } else {
                0int
            }),
            final(self).wf(),
    {
        proof {
            lemma_count_signal_bounds(self.groups@);
            lemma_count_whatsapp_bounds(self.groups_whatsapp@);
        }
        let g = &mut self.groups_whatsapp[i];
        g.delete();
        proof {
            lemma_count_whatsapp_update(
                old(self).groups_whatsapp@,
                i as int,
                self.groups_whatsapp@[i as int],
            );
            assert(self.groups_whatsapp@ =~= old(self).groups_whatsapp@.update(
                i as int,
                self.groups_whatsapp@[i as int],
            ));
        }
    }

    /// Build the follow-up record for an edit: same destinations in the
    /// same order, every marker unset, new content. Returns the new record
    /// together with each prior destination's identifier, exactly once and
    /// in destination order, so the caller can issue backend-level edit
    /// calls against the already-delivered messages. Valid only on a record
    /// that is fully `Sent`.
    pub fn edit(self, new_content: String) -> (r: (SendMessageInfo, Vec<u64>, Vec<String>))
        requires
            self.wf(),
            self.status == SendStatus::Sent,
        ensures
            r.0.content == new_content,
            r.0.freq == self.freq,
            r.0.status == SendStatus::Pending,
            r.0.same_destinations(&self),
            forall|i: int| 0 <= i < r.0.groups@.len() ==> !(#[trigger] r.0.groups@[i]).sent_spec(),
            forall|i: int|
                0 <= i < r.0.groups_whatsapp@.len() ==> !(
                #[trigger] r.0.groups_whatsapp@[i]).sent_spec(),
            r.1@.len() == self.groups@.len(),
            forall|i: int| 0 <= i < r.1@.len() ==> r.1@[i] == (#[trigger] self.groups@[i]).timestamp,
            r.2@.len() == self.groups_whatsapp@.len(),
            forall|i: int|
                0 <= i < r.2@.len() ==> r.2@[i] == (#[trigger] self.groups_whatsapp@[i]).sent_id,
            r.0.wf(),
    {
        let mut new_groups: Vec<GroupInfo> = Vec::new();
        let mut new_wa: Vec<WhatsappGroupInfo> = Vec::new();
        let mut timestamps: Vec<u64> = Vec::new();
        let mut ids: Vec<String> = Vec::new();
        let mut i: usize = 0;
        while i < self.groups.len()
            invariant
                i <= self.groups@.len(),
                new_groups@.len() == i,
                timestamps@.len() == i,
                forall|j: int|
                    0 <= j < i ==> {
                        &&& (#[trigger] new_groups@[j]).key == self.groups@[j].key
                        &&& new_groups@[j].title == self.groups@[j].title
                        &&& new_groups@[j].send_mode == self.groups@[j].send_mode
                        &&& new_groups@[j].timestamp == 0
                    },
                forall|j: int| 0 <= j < i ==> timestamps@[j] == (#[trigger] self.groups@[j]).timestamp,
            decreases self.groups@.len() - i,
        {
            let g = &self.groups[i];
            timestamps.push(g.timestamp);
            new_groups.push(GroupInfo::with_mode(g.key, g.title.clone(), g.send_mode));
            i += 1;
        }
        let mut j: usize = 0;
        while j < self.groups_whatsapp.len()
            invariant
                j <= self.groups_whatsapp@.len(),
                new_wa@.len() == j,
                ids@.len() == j,
                forall|k: int|
                    0 <= k < j ==> {
                        &&& (#[trigger] new_wa@[k]).key == self.groups_whatsapp@[k].key
                        &&& new_wa@[k].title == self.groups_whatsapp@[k].title
                        &&& new_wa@[k].send_mode == self.groups_whatsapp@[k].send_mode
                        &&& new_wa@[k].sent == false
                    },
                forall|k: int|
                    0 <= k < j ==> ids@[k] == (#[trigger] self.groups_whatsapp@[k]).sent_id,
            decreases self.groups_whatsapp@.len() - j,
        {
            let g = &self.groups_whatsapp[j];
            ids.push(g.sent_id.clone());
            new_wa.push(WhatsappGroupInfo::new(g.key.clone(), g.title.clone(), g.send_mode));
            j += 1;
        }
        let record = SendMessageInfo {
            content: new_content,
            freq: self.freq,
            status: SendStatus::Pending,
            groups: new_groups,
            groups_whatsapp: new_wa,
        };
        proof {
            lemma_count_signal_bounds(record.groups@);
            lemma_count_whatsapp_bounds(record.groups_whatsapp@);
        }
        (record, timestamps, ids)
    }

    /// The per-destination identifiers a delete must target: the Signal
    /// timestamps and the Whatsapp message identifiers, in destination
    /// order. Valid only on a fully `Sent` record, so every Signal
    /// timestamp returned is nonzero.
    pub fn delete_targets(&self) -> (r: (Vec<u64>, Vec<String>))
        requires
            self.wf(),
            self.status == SendStatus::Sent,
        ensures
            r.0@.len() == self.groups@.len(),
            forall|i: int| 0 <= i < r.0@.len() ==> r.0@[i] == (#[trigger] self.groups@[i]).timestamp,
            forall|i: int| 0 <= i < r.0@.len() ==> r.0@[i] != 0,
            r.1@.len() == self.groups_whatsapp@.len(),
            forall|i: int|
                0 <= i < r.1@.len() ==> r.1@[i] == (#[trigger] self.groups_whatsapp@[i]).sent_id,
    {
        proof {
            lemma_count_signal_bounds(self.groups@);
            lemma_count_whatsapp_bounds(self.groups_whatsapp@);
        }
        let mut timestamps: Vec<u64> = Vec::new();
        let mut ids: Vec<String> = Vec::new();
        let mut i: usize = 0;
        while i < self.groups.len()
            invariant
                i <= self.groups@.len(),
                timestamps@.len() == i,
                forall|j: int| 0 <= j < i ==> timestamps@[j] == (#[trigger] self.groups@[j]).timestamp,
                forall|j: int| 0 <= j < self.groups@.len() ==> (#[trigger] self.groups@[j]).sent_spec(),
            decreases self.groups@.len() - i,
        {
            timestamps.push(self.groups[i].timestamp);
            i += 1;
        }
        proof {
            assert forall|k: int| 0 <= k < timestamps@.len() implies timestamps@[k] != 0 by {
                assert(self.groups@[k].sent_spec());
            }
        }
        let mut j: usize = 0;
        while j < self.groups_whatsapp.len()
            invariant
                j <= self.groups_whatsapp@.len(),
                ids@.len() == j,
                timestamps@.len() == self.groups@.len(),
                forall|k: int| 0 <= k < timestamps@.len() ==> #[trigger] timestamps@[k] != 0,
                forall|k: int|
                    0 <= k < timestamps@.len() ==> timestamps@[k] == (
                    #[trigger] self.groups@[k]).timestamp,
                forall|k: int|
                    0 <= k < j ==> ids@[k] == (#[trigger] self.groups_whatsapp@[k]).sent_id,
            decreases self.groups_whatsapp@.len() - j,
        {
            ids.push(self.groups_whatsapp[j].sent_id.clone());
            j += 1;
        }
        (timestamps, ids)
    }
}

/// Completion never overshoots: for any well-formed record the number of
/// confirmed destinations stays within the destination count; a record in
/// `Sent` has every destination confirmed, one in `Deleted` has none.
pub proof fn lemma_delivery_counts(r: &SendMessageInfo)
    requires
        r.wf(),
    ensures
        0 <= r.completed() <= r.total(),
        r.status == SendStatus::Sent ==> r.completed() == r.total(),
        r.status == SendStatus::Deleted ==> r.completed() == 0,
{
    lemma_count_signal_bounds(r.groups@);
    lemma_count_whatsapp_bounds(r.groups_whatsapp@);
}

} // verus!
