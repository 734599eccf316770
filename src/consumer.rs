//! What the bot side does with each inbound event: presence changes and
//! command replies are handed on, log lines are buffered per log type until
//! they are posted.
use vstd::prelude::*;
use crate::config::{log_index, log_slot, LOG_TYPES};
use crate::event::{CommandReplyEvent, Message, ServerEvent, StatusEvent};

verus! {

/// Most log lines kept per log type; older lines give way to newer ones.
pub const LOG_CAPACITY: usize = 100;

/// `q` after `m` is buffered: appended, with the oldest line given up when
/// the queue is full.
pub open spec fn bounded_push(q: Seq<Message>, m: Message) -> Seq<Message> {
    if q.len() < LOG_CAPACITY {
        q.push(m)
    } else {
        q.subrange(1, q.len() as int).push(m)
    }
}

/// Buffered log lines, one queue per log type, oldest first.
pub struct LogBuffers {
    queues: Vec<Vec<Message>>,
}

impl View for LogBuffers {
    type V = Seq<Seq<Message>>;

    closed spec fn view(&self) -> Seq<Seq<Message>> {
        self.queues@.map_values(|q: Vec<Message>| q@)
    }
}

impl LogBuffers {
    /// One queue per log type, each within capacity.
    pub open spec fn wf(&self) -> bool {
        &&& self@.len() == LOG_TYPES
        &&& forall|i: int| 0 <= i < LOG_TYPES ==> (#[trigger] self@[i]).len() <= LOG_CAPACITY
    }

    /// Buffers with no line.
    pub fn new() -> (r: LogBuffers)
        ensures
            r.wf(),
            forall|i: int| 0 <= i < LOG_TYPES ==> (#[trigger] r@[i]).len() == 0,
    {
        let mut queues: Vec<Vec<Message>> = Vec::new();
        let mut i: usize = 0;
        while i < LOG_TYPES
            invariant
                i <= LOG_TYPES,
                queues@.len() == i,
                forall|k: int| 0 <= k < i ==> (#[trigger] queues@[k])@.len() == 0,
            decreases LOG_TYPES - i,
        {
            queues.push(Vec::new());
            i = i + 1;
        }
        LogBuffers { queues }
    }

    /// The number of lines buffered for the log type at position `i`.
    pub fn len_at(&self, i: usize) -> (r: usize)
        requires
            self.wf(),
            i < LOG_TYPES,
        ensures
            r == self@[i as int].len(),
    {
        self.queues[i].len()
    }

    /// Buffers `m` under the log type at position `i`.
    pub fn push_at(&mut self, i: usize, m: Message)
        requires
            old(self).wf(),
            i < LOG_TYPES,
        ensures
            final(self).wf(),
            final(self)@ == old(self)@.update(i as int, bounded_push(old(self)@[i as int], m)),
    {
        let ghost before = self@;
        let mut q = self.queues.remove(i);
        if q.len() >= LOG_CAPACITY {
            q.remove(0);
        }
        q.push(m);
        self.queues.insert(i, q);
        proof {
            assert(self@ =~= before.update(i as int, bounded_push(before[i as int], m)));
        }
    }

    /// Takes every line buffered under the log type at position `i`, oldest
    /// first, leaving that queue empty.
    pub fn drain_at(&mut self, i: usize) -> (r: Vec<Message>)
        requires
            old(self).wf(),
            i < LOG_TYPES,
        ensures
            final(self).wf(),
            r@ == old(self)@[i as int],
            final(self)@ == old(self)@.update(i as int, Seq::<Message>::empty()),
    {
        let ghost before = self@;
        let q = self.queues.remove(i);
        self.queues.insert(i, Vec::new());
        proof {
            assert(self@ =~= before.update(i as int, Seq::<Message>::empty()));
        }
        q
    }
}

/// What the bot does about one inbound event, besides buffering.
#[derive(Debug)]
pub enum Reaction {
    /// Show this presence.
    SetPresence(StatusEvent),
    /// Resolve the pending command this replies to.
    Reply(CommandReplyEvent),
    /// The event was a log line, now buffered.
    Buffered,
}

/// Takes one inbound event: a log line is buffered under its log type, any
/// other event is handed back to be acted on.
pub fn handle_event(buffers: &mut LogBuffers, event: ServerEvent) -> (r: Reaction)
    requires
        old(buffers).wf(),
    ensures
        final(buffers).wf(),
        match event {
            ServerEvent::Log(l) => r is Buffered && final(buffers)@ == old(buffers)@.update(
                log_index(l.log_type),
                bounded_push(old(buffers)@[log_index(l.log_type)], l.message),
            ),
            ServerEvent::Status(s) => r == Reaction::SetPresence(s) && final(buffers)@ == old(
                buffers,
            )@,
            ServerEvent::CommandReply(c) => r == Reaction::Reply(c) && final(buffers)@ == old(
                buffers,
            )@,
        },
{
    match event {
        ServerEvent::Log(l) => {
            buffers.push_at(log_slot(l.log_type), l.message);
            Reaction::Buffered
        },
        ServerEvent::Status(s) => Reaction::SetPresence(s),
        ServerEvent::CommandReply(c) => Reaction::Reply(c),
    }
}

} // verus!
