use vstd::prelude::*;
use crate::text::spec_trim;
use crate::text::spec_lowercase;
use crate::text::trim;

verus! {

/// The three interchangeable policies for turning accepted connections
/// into completed request/response cycles. They differ only in
/// scheduling, never in per-connection behaviour.
#[derive(Debug, PartialEq, Eq, Structural, Clone, Copy)]
pub enum DispatchStrategy {
    /// Each connection is handled to completion before the next accept.
    Direct,
    /// Each connection is handed to a fresh concurrent task.
    Spawned,
    /// Connections are queued and drained by a fixed set of workers.
    Pooled,
}

/// Whether a console line, once trimmed and lowered, is the quit command.
pub open spec fn spec_is_quit(line: Seq<char>) -> bool {
    spec_lowercase(spec_trim(line)) == "quit"@
}

/// Decides whether one console line asks the server to terminate:
/// the line must read `quit` after trimming, in any letter case.
pub fn is_quit_command(line: &str) -> (r: bool)
    ensures
        r == spec_is_quit(line@),
{
    proof {
        reveal_strlit("quit");
    }
    let t = trim(line);
    let n = t.as_str().unicode_len();
    proof {
        assert(spec_lowercase(spec_trim(line@)).len() == spec_trim(line@).len());
    }
    if n != 4 {
        return false;
    }
    let c0 = t.as_str().get_char(0);
    let c1 = t.as_str().get_char(1);
    let c2 = t.as_str().get_char(2);
    let c3 = t.as_str().get_char(3);
    let r = (c0 == 'q' || c0 == 'Q') && (c1 == 'u' || c1 == 'U') && (c2 == 'i' || c2 == 'I') && (c3
        == 't' || c3 == 'T');
    proof {
        let tv = spec_trim(line@);
        let lv = spec_lowercase(tv);
        assert(lv.len() == 4);
        assert(lv[0] == crate::text::spec_lower(tv[0]));
        assert(lv[1] == crate::text::spec_lower(tv[1]));
        assert(lv[2] == crate::text::spec_lower(tv[2]));
        assert(lv[3] == crate::text::spec_lower(tv[3]));
        if r {
            assert(lv =~= "quit"@);
        } else {
            assert(lv != "quit"@);
        }
    }
    r
}

/// What the console loop does after one read attempt.
#[derive(Debug, PartialEq, Eq, Structural, Clone, Copy)]
pub enum ConsoleAction {
    /// Send the termination signal and stop reading.
    SignalShutdown,
    /// Keep reading lines.
    KeepReading,
}

/// The console rule: a failed read of the operator's input, or a quit
/// line, signals shutdown; every other line keeps the console open.
pub open spec fn spec_console_decision(read_ok: bool, line: Seq<char>) -> ConsoleAction {
    if !read_ok || spec_is_quit(line) {
        ConsoleAction::SignalShutdown
    } else {
        ConsoleAction::KeepReading
    }
}

/// Decides what the console loop does with one read attempt and the
/// line it produced.
pub fn console_decision(read_ok: bool, line: &str) -> (r: ConsoleAction)
    ensures
        r == spec_console_decision(read_ok, line@),
{
    if !read_ok {
        ConsoleAction::SignalShutdown
    } else if is_quit_command(line) {
        ConsoleAction::SignalShutdown
    } else {
        ConsoleAction::KeepReading
    }
}

/// What the accept loop raced against: the termination signal arrived,
/// a connection was accepted, or the accept itself failed.
#[derive(Debug, PartialEq, Eq, Structural, Clone, Copy)]
pub enum ListenerEvent {
    Shutdown,
    Accepted,
    AcceptFailed,
}

/// What the accept loop does with one event.
#[derive(Debug, PartialEq, Eq, Structural, Clone, Copy)]
pub enum ListenerAction {
    /// Leave the loop; nothing further is accepted.
    Stop,
    /// Hand the accepted connection to the configured strategy.
    Dispatch,
    /// Log and keep accepting; an accept failure is never fatal.
    Continue,
}

/// The accept-loop rule: only the termination signal stops the loop,
/// only an accepted connection is dispatched, and an accept failure is
/// ignored.
pub open spec fn spec_listener_decision(ev: ListenerEvent) -> ListenerAction {
    match ev {
        ListenerEvent::Shutdown => ListenerAction::Stop,
        ListenerEvent::Accepted => ListenerAction::Dispatch,
        ListenerEvent::AcceptFailed => ListenerAction::Continue,
    }
}

/// The accept loop's control state: whether the termination signal has
/// been received. Once it is, the loop makes no further decision, so
/// no connection is accepted after the signal.
pub struct AcceptLoop {
    pub terminated: bool,
}

impl AcceptLoop {
    /// A fresh accept loop, not yet terminated.
    pub fn new() -> (r: AcceptLoop)
        ensures
            !r.terminated,
    {
        AcceptLoop { terminated: false }
    }

    /// Decides one raced event. A terminated loop takes no step, so
    /// everything that arrives after the signal goes undecided and
    /// unaccepted; the signal itself is the only event that terminates.
    pub fn step(&mut self, ev: ListenerEvent) -> (a: ListenerAction)
        requires
            !old(self).terminated,
        ensures
            a == spec_listener_decision(ev),
            final(self).terminated == (ev is Shutdown),
            a is Stop <==> final(self).terminated,
    {
        match ev {
            ListenerEvent::Shutdown => {
                self.terminated = true;
                ListenerAction::Stop
            },
            ListenerEvent::Accepted => ListenerAction::Dispatch,
            ListenerEvent::AcceptFailed => ListenerAction::Continue,
        }
    }
}

/// Law: the shutdown signal, and only the shutdown signal, stops the
/// accept loop, and only an accepted connection is ever dispatched.
pub proof fn lemma_shutdown_stops_accepting(ev: ListenerEvent)
    ensures
        spec_listener_decision(ev) is Stop <==> ev is Shutdown,
        spec_listener_decision(ev) is Dispatch <==> ev is Accepted,
{
}

/// The pooled dispatcher's bookkeeping: the connections queued in
/// arrival order, and how many a worker is busy with right now.
/// The queue is unbounded; only the handling is capped.
pub struct PoolDispatcher {
    pub worker_count: usize,
    pub queued: Vec<u64>,
    pub active: usize,
}

impl PoolDispatcher {
    /// The pool's invariant: at least one worker, and never more
    /// connections in service than there are workers.
    pub open spec fn wf(&self) -> bool {
        1 <= self.worker_count && self.active <= self.worker_count
    }

    /// A fresh pool of `worker_count` idle workers and an empty queue.
    pub fn new(worker_count: usize) -> (r: PoolDispatcher)
        requires
            worker_count >= 1,
        ensures
            r.wf(),
            r.worker_count == worker_count,
            r.queued@ == Seq::<u64>::empty(),
            r.active == 0,
    {
        PoolDispatcher { worker_count, queued: Vec::new(), active: 0 }
    }

    /// The accept loop queues a connection. Handling never starts here,
    /// so an accept burst grows the queue, not the concurrency.
    pub fn enqueue(&mut self, conn: u64)
        requires
            old(self).wf(),
        ensures
            final(self).wf(),
            final(self).worker_count == old(self).worker_count,
            final(self).queued@ == old(self).queued@.push(conn),
            final(self).active == old(self).active,
    {
        self.queued.push(conn);
    }

    /// An idle worker takes the oldest queued connection into service.
    /// With every worker busy, or nothing queued, no handling starts.
    pub fn start_next(&mut self) -> (r: Option<u64>)
        requires
            old(self).wf(),
        ensures
            final(self).wf(),
            final(self).worker_count == old(self).worker_count,
            if old(self).active < old(self).worker_count && old(self).queued@.len() > 0 {
                r == Some(old(self).queued@[0]) && final(self).queued@ == old(
                    self,
                ).queued@.drop_first() && final(self).active == old(self).active + 1
            } else {
                r is None && final(self).queued@ == old(self).queued@ && final(self).active == old(
                    self,
                ).active
            },
    {
        if self.active < self.worker_count && self.queued.len() > 0 {
            let conn = self.queued.remove(0);
            self.active = self.active + 1;
            proof {
                assert(self.queued@ =~= old(self).queued@.drop_first());
            }
            Some(conn)
        } else {
            None
        }
    }

    /// A worker finishes the connection it was serving.
    pub fn finish(&mut self)
        requires
            old(self).wf(),
            old(self).active >= 1,
        ensures
            final(self).wf(),
            final(self).worker_count == old(self).worker_count,
            final(self).queued@ == old(self).queued@,
            final(self).active == old(self).active - 1,
    {
        self.active = self.active - 1;
    }
}

/// Law: with a pool of `worker_count` workers, no more than
/// `worker_count` connections are ever in service at once, however many
/// stand queued — every transition preserves the bound.
pub proof fn lemma_pool_concurrency_bounded(d: &PoolDispatcher)
    requires
        d.wf(),
    ensures
        d.active <= d.worker_count,
{
}

/// The direct dispatcher's bookkeeping: every accepted connection in
/// arrival order, how many are fully serviced, and the one, if any,
/// in service right now.
pub struct DirectDispatcher {
    pub accepted: Vec<u64>,
    pub done: usize,
    pub current: Option<u64>,
}

impl DirectDispatcher {
    /// The direct loop's invariant: everything accepted earlier is
    /// already serviced, and at most the latest connection is open.
    pub open spec fn wf(&self) -> bool {
        match self.current {
            Some(c) => self.done + 1 == self.accepted@.len() && self.accepted@.last() == c,
            None => self.done == self.accepted@.len(),
        }
    }

    /// The connections already fully serviced, in order.
    pub open spec fn serviced(&self) -> Seq<u64> {
        self.accepted@.take(self.done as int)
    }

    /// A fresh direct loop with nothing accepted.
    pub fn new() -> (r: DirectDispatcher)
        ensures
            r.wf(),
            r.accepted@ == Seq::<u64>::empty(),
            r.serviced() == Seq::<u64>::empty(),
            r.current is None,
    {
        let r = DirectDispatcher { accepted: Vec::new(), done: 0, current: None };
        proof {
            assert(r.serviced() =~= Seq::<u64>::empty());
        }
        r
    }

    /// Accepts a connection. The loop only returns to accepting after
    /// the previous response was written, so acceptance requires that
    /// nothing is in service.
    pub fn accept(&mut self, conn: u64)
        requires
            old(self).wf(),
            old(self).current is None,
        ensures
            final(self).wf(),
            final(self).accepted@ == old(self).accepted@.push(conn),
            final(self).current == Some(conn),
            final(self).serviced() == old(self).serviced(),
    {
        self.accepted.push(conn);
        self.current = Some(conn);
        proof {
            assert(self.serviced() =~= old(self).serviced());
        }
    }

    /// Completes the connection in service; it joins the serviced
    /// sequence at the end, in arrival order.
    pub fn complete(&mut self)
        requires
            old(self).wf(),
            old(self).current is Some,
        ensures
            final(self).wf(),
            final(self).accepted@ == old(self).accepted@,
            final(self).current is None,
            final(self).serviced() == old(self).serviced().push(old(self).current.unwrap()),
    {
        let n = self.accepted.len();
        proof {
            assert(self.done < n);
        }
        self.done = self.done + 1;
        self.current = None;
        proof {
            assert(self.serviced() =~= old(self).serviced().push(old(self).current.unwrap()));
        }
    }
}

/// Law: under the direct strategy the serviced connections are exactly
/// the first accepted ones, in the order accepted, and at most one
/// connection is ever in service.
pub proof fn lemma_direct_in_order(d: &DirectDispatcher)
    requires
        d.wf(),
    ensures
        d.serviced().len() <= d.accepted@.len(),
        forall|i: int| 0 <= i < d.serviced().len() ==> d.serviced()[i] == d.accepted@[i],
{
}

} // verus!
