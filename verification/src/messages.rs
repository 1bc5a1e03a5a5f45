//! Ids, the Id-addressed message queue, and the external observer registry.
//!
//! Widgets push messages into a per-frame queue ([`UIContext`]); once per
//! frame the driver drains it and dispatches every message to the tree and
//! to at most one matching external observer. Observers listen through
//! `flume` channels, the one shared resource handed out of the library.

use vstd::prelude::*;
use crate::button::ButtonMessage;
use crate::expandable_button::ExpandableButtonMessage;

verus! {

/// Routing key of a widget; only ever compared, never dereferenced.
#[derive(Clone, Copy, Debug, PartialEq, Eq, Hash, Structural)]
pub struct Id(pub u32);

/// Issues process-unique ids: an explicit, monotonically increasing counter
/// threaded through construction.
#[derive(Clone, Copy, Debug, PartialEq, Eq, Structural)]
pub struct IdGen {
    pub next: u32,
}

impl IdGen {
    pub fn new() -> (g: IdGen)
        ensures
            g.next == 0,
    {
        IdGen { next: 0 }
    }

    /// The next fresh id; strictly larger ids remain for later calls, which
    /// is what makes every issued id unique.
    pub fn next_id(&mut self) -> (id: Id)
        requires
            old(self).next < u32::MAX,
        ensures
            id.0 == old(self).next,
            final(self).next == old(self).next + 1,
    {
        let id = Id(self.next);
        self.next = self.next + 1;
        id
    }
}

/// Whether a condition just began or just ended.
#[derive(Clone, Copy, Debug, PartialEq, Eq, Structural)]
pub enum ActionState {
    Start,
    End,
}

/// One queued event, addressed to a single widget id.
#[derive(Clone, Debug, PartialEq, Eq, Structural)]
pub struct Message {
    pub target: Id,
    pub data: MessageData,
}

#[derive(Clone, Debug, PartialEq, Eq, Structural)]
pub enum MessageData {
    Button(ButtonMessage),
    ExpandableButton(ExpandableButtonMessage),
    Null,
}

/// The per-frame message queue: append-only while the tree updates, drained
/// once per frame by the driver.
pub struct UIContext {
    pub queue: Vec<Message>,
}

impl UIContext {
    pub fn new() -> (ctx: UIContext)
        ensures
            ctx.queue@ == Seq::<Message>::empty(),
    {
        UIContext { queue: Vec::new() }
    }

    /// Append one message; nothing already queued moves.
    pub fn send(&mut self, msg: Message)
        ensures
            final(self).queue@ == old(self).queue@.push(msg),
    {
        self.queue.push(msg);
    }

    /// Hand out everything queued, in emission order, leaving the queue
    /// empty: the once-per-frame drain.
    pub fn drain(&mut self) -> (msgs: Vec<Message>)
        ensures
            msgs@ == old(self).queue@,
            final(self).queue@ == Seq::<Message>::empty(),
    {
        let mut out: Vec<Message> = Vec::new();
        core::mem::swap(&mut out, &mut self.queue);
        out
    }
}

#[verifier::external_type_specification]
#[verifier::external_body]
#[verifier::reject_recursive_types(T)]
pub struct ExSender<T>(flume::Sender<T>);

#[verifier::external_type_specification]
#[verifier::external_body]
#[verifier::reject_recursive_types(T)]
pub struct ExReceiver<T>(flume::Receiver<T>);

/// Relies on flume::unbounded: a fresh channel whose sender never blocks.
#[verifier::external_body]
fn mdata_channel() -> (pair: (flume::Sender<MessageData>, flume::Receiver<MessageData>)) {
    flume::unbounded()
}

/// Relies on flume::Sender::send: on an unbounded channel it fails only when
/// every receiver is gone; the returned flag says whether it was taken.
#[verifier::external_body]
fn send_mdata(tx: &flume::Sender<MessageData>, data: &MessageData) -> (taken: bool) {
    tx.send(data.clone()).is_ok()
}

/// Registry of external subscribers, keyed by target id, last registration
/// winning. A message addressed to an id is forwarded to at most the one
/// subscriber holding that id.
pub struct EventObserver {
    pub targets: Vec<(Id, flume::Sender<MessageData>)>,
}

impl EventObserver {
    /// Registered ids never repeat, so routing is unambiguous.
    pub open spec fn wf(self) -> bool {
        forall|i: int, j: int|
            0 <= i < j < self.targets@.len() ==> (#[trigger] self.targets@[i]).0 != (
            #[trigger] self.targets@[j]).0
    }

    pub open spec fn registered(self, target: Id) -> bool {
        exists|i: int| 0 <= i < self.targets@.len() && (#[trigger] self.targets@[i]).0 == target
    }

    /// The slot a message addressed to `target` is routed to, if any.
    pub open spec fn route(self, target: Id) -> Option<int> {
        if self.registered(target) {
            Some(
                choose|i: int|
                    0 <= i < self.targets@.len() && (#[trigger] self.targets@[i]).0 == target,
            )
        } else {
            None
        }
    }

    pub fn new() -> (obs: EventObserver)
        ensures
            obs.targets@.len() == 0,
            obs.wf(),
    {
        EventObserver { targets: Vec::new() }
    }

    /// Subscribe to everything addressed to `target`; a second subscription
    /// to the same id replaces the first. The returned receiver sees exactly
    /// what is forwarded for that id.
    pub fn observe(&mut self, target: Id) -> (rx: flume::Receiver<MessageData>)
        requires
            old(self).wf(),
        ensures
            final(self).wf(),
            final(self).registered(target),
            forall|id: Id| id != target ==> final(self).registered(id) == old(self).registered(id),
            final(self).targets@.len() == old(self).targets@.len() + (if old(self).registered(
                target,
            ) {
                0int
            } else {
                1int
            }),
            forall|k: int|
                0 <= k < old(self).targets@.len() ==> (#[trigger] final(self).targets@[k]).0 == old(
                    self,
                ).targets@[k].0,
    {
        let pair = mdata_channel();
        let tx = pair.0;
        let rx = pair.1;
        let n = self.targets.len();
        let mut i: usize = 0;
        let mut found: Option<usize> = None;
        while i < n
            invariant
                n == self.targets@.len(),
                0 <= i <= n,
                match found {
                    Option::None => forall|k: int|
                        0 <= k < i ==> (#[trigger] self.targets@[k]).0 != target,
                    Option::Some(j) => j < i <= n && self.targets@[j as int].0 == target,
                },
            decreases n - i,
        {
            if self.targets[i].0 == target {
                found = Some(i);
            }
            i = i + 1;
        }
        match found {
            Some(j) => {
                self.targets[j] = (target, tx);
                proof {
                    assert(self.targets@[j as int].0 == target);
                    assert forall|id: Id| id != target implies self.registered(id) == old(
                        self,
                    ).registered(id) by {
                        if old(self).registered(id) {
                            let k = choose|k: int|
                                0 <= k < old(self).targets@.len() && (#[trigger] old(
                                    self,
                                ).targets@[k]).0 == id;
                            assert(self.targets@[k].0 == id);
                        }
                        if self.registered(id) {
                            let k = choose|k: int|
                                0 <= k < self.targets@.len() && (#[trigger] self.targets@[k]).0
                                    == id;
                            assert(old(self).targets@[k].0 == id);
                        }
                    }
                }
            },
            None => {
                self.targets.push((target, tx));
                proof {
                    assert(self.targets@[self.targets@.len() - 1].0 == target);
                    assert forall|id: Id| id != target implies self.registered(id) == old(
                        self,
                    ).registered(id) by {
                        if old(self).registered(id) {
                            let k = choose|k: int|
                                0 <= k < old(self).targets@.len() && (#[trigger] old(
                                    self,
                                ).targets@[k]).0 == id;
                            assert(self.targets@[k].0 == id);
                        }
                        if self.registered(id) {
                            let k = choose|k: int|
                                0 <= k < self.targets@.len() && (#[trigger] self.targets@[k]).0
                                    == id;
                            assert(0 <= k < old(self).targets@.len());
                            assert(old(self).targets@[k].0 == id);
                        }
                    }
                }
            },
        }
        rx
    }

    /// Forward `msg.data` to the one subscriber registered for `msg.target`,
    /// if any; subscribers for other ids see nothing of it.
    pub fn handle(&self, msg: &Message) -> (delivered: bool)
        requires
            self.wf(),
        ensures
            delivered == self.registered(msg.target),
    {
        let n = self.targets.len();
        let mut i: usize = 0;
        let mut found: Option<usize> = None;
        while i < n
            invariant
                n == self.targets@.len(),
                0 <= i <= n,
                match found {
                    Option::None => forall|k: int|
                        0 <= k < i ==> (#[trigger] self.targets@[k]).0 != msg.target,
                    Option::Some(j) => j < i <= n && self.targets@[j as int].0 == msg.target,
                },
            decreases n - i,
        {
            if self.targets[i].0 == msg.target {
                found = Some(i);
            }
            i = i + 1;
        }
        match found {
            Some(j) => {
                send_mdata(&self.targets[j].1, &msg.data);
                true
            },
            None => false,
        }
    }
}

/// Routing is selective: a message addressed to `y` goes to the slot holding
/// `y` and never to a slot holding a different id `x`.
pub proof fn lemma_observer_isolation(obs: EventObserver, x: Id, y: Id, i: int, j: int)
    requires
        obs.wf(),
        x != y,
        0 <= i < obs.targets@.len(),
        0 <= j < obs.targets@.len(),
        obs.targets@[i].0 == x,
        obs.targets@[j].0 == y,
    ensures
        obs.route(y) == Some(j),
        obs.route(y) != Some(i),
{
    assert(obs.registered(y));
    let k = choose|k: int| 0 <= k < obs.targets@.len() && (#[trigger] obs.targets@[k]).0 == y;
    if k != j {
        assert(obs.targets@[k].0 != obs.targets@[j].0);
    }
}

} // verus!
