//! Client-side multiplexing: many independent callers share one connection
//! through a single manager. Each caller wraps its command in an envelope
//! with a private reply slot; the manager drains the queue in order, issues
//! one command at a time, and routes each reply back to the caller that asked
//! for it.

use vstd::prelude::*;
use crate::command::{run_model, CmdModel, Command, RespModel, Response};
use crate::server::apply_command;
use crate::store::Store;

verus! {

/// One queued request: the command and the identity of the caller whose
/// private reply slot the answer must reach.
#[derive(Debug, Clone, PartialEq, Eq)]
pub struct Envelope {
    pub caller: u64,
    pub cmd: Command,
}

/// What the connection yielded for the command in flight: the server's reply,
/// or the loss of the connection.
#[derive(Debug, Clone, PartialEq, Eq)]
pub enum WireOutcome {
    Reply(Response),
    ConnLost,
}

/// What the manager puts into the in-flight envelope's reply slot: the
/// server's reply, or an error because the connection failed first. Every
/// envelope the manager takes up receives exactly one of these.
#[derive(Debug, Clone, PartialEq, Eq)]
pub enum Delivery {
    Reply(Response),
    Failed,
}

/// A reply routed back to the caller that asked for it.
#[derive(Debug, Clone, PartialEq, Eq)]
pub struct RoutedReply {
    pub caller: u64,
    pub resp: Response,
}

/// The connection manager's own state: whether it is still serving its
/// queue. Once the connection has failed it stops, and later submissions must
/// be refused instead of silently dropped.
pub struct Manager {
    running: bool,
}

impl Manager {
    /// Whether the manager is still serving its queue.
    pub closed spec fn is_running(&self) -> bool {
        self.running
    }

    /// A fresh manager, ready to serve.
    pub fn new() -> (m: Manager)
        ensures
            m.is_running(),
    {
        Manager { running: true }
    }

    /// Whether a submission would be accepted now. When this is false a
    /// caller's submission must fail immediately rather than hang.
    pub fn accepts(&self) -> (b: bool)
        ensures
            b == self.is_running(),
    {
        self.running
    }

    /// Decides what the envelope in flight receives, given what the
    /// connection yielded: the server's reply is passed through unchanged,
    /// and a lost connection turns into an error delivery — never silence —
    /// after which the manager stops serving.
    pub fn conclude(&mut self, outcome: WireOutcome) -> (d: Delivery)
        requires
            old(self).is_running(),
        ensures
            match outcome {
                WireOutcome::Reply(r) => d == Delivery::Reply(r) && final(self).is_running(),
                WireOutcome::ConnLost => d == Delivery::Failed && !final(self).is_running(),
            },
    {
        match outcome {
            WireOutcome::Reply(r) => Delivery::Reply(r),
            WireOutcome::ConnLost => {
                self.running = false;
                Delivery::Failed
            },
        }
    }
}

/// The commands of a queue of envelopes, in queue order.
pub open spec fn queue_cmds(q: Seq<Envelope>) -> Seq<CmdModel> {
    Seq::new(q.len(), |i: int| q[i].cmd@)
}

/// The replies of a batch of routed replies, in delivery order.
pub open spec fn routed_resps(rs: Seq<RoutedReply>) -> Seq<RespModel> {
    Seq::new(rs.len(), |i: int| rs[i].resp@)
}

/// Drains a queue of envelopes against the store, one at a time and in queue
/// order, and routes each reply to the caller whose envelope asked for it:
/// the i-th delivery goes to the i-th envelope's caller and carries exactly
/// the reply the i-th command earned, however the callers interleaved their
/// submissions before the queue fixed the order.
#[verifier::loop_isolation(false)]
pub fn drain_queue(store: &mut Store, queue: &Vec<Envelope>) -> (out: Vec<RoutedReply>)
    ensures
        out.len() == queue.len(),
        final(store)@ == run_model(old(store)@, queue_cmds(queue@)).0,
        forall|i: int|
            0 <= i < queue@.len() ==> (#[trigger] out@[i]).caller == queue@[i].caller
                && out@[i].resp@ == run_model(old(store)@, queue_cmds(queue@)).1[i],
{
    let ghost cmds = queue_cmds(queue@);
    let ghost full = run_model(old(store)@, cmds);
    let mut out: Vec<RoutedReply> = Vec::new();
    let mut i: usize = 0;
    proof {
        assert(cmds.skip(0) =~= cmds);
        assert(routed_resps(out@) + run_model(store@, cmds).1 =~= run_model(store@, cmds).1);
    }
    while i < queue.len()
        invariant
            i <= queue.len(),
            out.len() == i,
            full.0 == run_model(store@, cmds.skip(i as int)).0,
            full.1 == routed_resps(out@) + run_model(store@, cmds.skip(i as int)).1,
            forall|j: int| 0 <= j < i ==> (#[trigger] out@[j]).caller == queue@[j].caller,
        decreases queue.len() - i,
    {
        let ghost rest = cmds.skip(i as int);
        proof {
            assert(rest.len() > 0);
            assert(rest[0] == cmds[i as int]);
            assert(rest.drop_first() =~= cmds.skip(i as int + 1));
        }
        let env = &queue[i];
        let resp = apply_command(store, &env.cmd);
        let ghost prev = routed_resps(out@);
        let ghost resp_m = resp@;
        out.push(RoutedReply { caller: env.caller, resp });
        i += 1;
        proof {
            assert(routed_resps(out@) =~= prev + seq![resp_m]);
            assert((prev + seq![resp_m]) + run_model(store@, cmds.skip(i as int)).1 =~= prev + (
            seq![resp_m] + run_model(store@, cmds.skip(i as int)).1));
        }
    }
    proof {
        assert(cmds.skip(queue.len() as int) =~= Seq::<CmdModel>::empty());
        assert(routed_resps(out@) + Seq::<RespModel>::empty() =~= routed_resps(out@));
    }
    out
}

} // verus!
