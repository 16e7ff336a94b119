//! The guarantees the service gives across whole runs: reads see the last
//! write, unwritten keys read as absent and never as an error, writes to
//! distinct keys never disturb one another, and a connection serves exactly
//! the commands decoded before the first terminating event, in order.

use vstd::prelude::*;
use crate::command::{
    apply_model, lemma_run_model_len, lookup, run_model, writes_key, CmdModel, RespModel,
};
use crate::server::{connection_model, EventModel};

verus! {

/// A `Get` reads whatever the store associated with its key when the run
/// started, as long as nothing before it in the run wrote that key.
pub proof fn lemma_get_reads_lookup(
    m: Map<Seq<char>, Seq<u8>>,
    cmds: Seq<CmdModel>,
    j: int,
    k: Seq<char>,
)
    requires
        0 <= j < cmds.len(),
        cmds[j] == (CmdModel::Get { key: k }),
        forall|l: int| 0 <= l < j ==> !writes_key(#[trigger] cmds[l], k),
    ensures
        run_model(m, cmds).1[j] == RespModel::Value(lookup(m, k)),
    decreases j,
{
    let (m1, r) = apply_model(m, cmds[0]);
    lemma_run_model_len(m1, cmds.drop_first());
    if j == 0 {
        assert((seq![r] + run_model(m1, cmds.drop_first()).1)[0] == r);
    } else {
        assert(!writes_key(cmds[0], k));
        assert(lookup(m1, k) == lookup(m, k));
        assert forall|l: int| 0 <= l < j - 1 implies !writes_key(
            #[trigger] cmds.drop_first()[l],
            k,
        ) by {
            assert(cmds.drop_first()[l] == cmds[l + 1]);
        }
        lemma_get_reads_lookup(m1, cmds.drop_first(), j - 1, k);
        assert((seq![r] + run_model(m1, cmds.drop_first()).1)[j] == run_model(
            m1,
            cmds.drop_first(),
        ).1[j - 1]);
    }
}

/// A `Set` followed by a `Get` of the same key on the same run, with no
/// intervening write to that key, reads exactly the value that was written.
pub proof fn lemma_set_then_get(
    m: Map<Seq<char>, Seq<u8>>,
    cmds: Seq<CmdModel>,
    i: int,
    j: int,
    k: Seq<char>,
    v: Seq<u8>,
)
    requires
        0 <= i < j < cmds.len(),
        cmds[i] == (CmdModel::Put { key: k, value: v }),
        cmds[j] == (CmdModel::Get { key: k }),
        forall|l: int| i < l < j ==> !writes_key(#[trigger] cmds[l], k),
    ensures
        run_model(m, cmds).1[j] == RespModel::Value(Some(v)),
    decreases i,
{
    let (m1, r) = apply_model(m, cmds[0]);
    lemma_run_model_len(m1, cmds.drop_first());
    if i == 0 {
        assert(lookup(m1, k) == Some(v));
        assert forall|l: int| 0 <= l < j - 1 implies !writes_key(
            #[trigger] cmds.drop_first()[l],
            k,
        ) by {
            assert(cmds.drop_first()[l] == cmds[l + 1]);
        }
        lemma_get_reads_lookup(m1, cmds.drop_first(), j - 1, k);
    } else {
        assert forall|l: int| i - 1 < l < j - 1 implies !writes_key(
            #[trigger] cmds.drop_first()[l],
            k,
        ) by {
            assert(cmds.drop_first()[l] == cmds[l + 1]);
        }
        assert(cmds.drop_first()[i - 1] == cmds[i]);
        assert(cmds.drop_first()[j - 1] == cmds[j]);
        lemma_set_then_get(m1, cmds.drop_first(), i - 1, j - 1, k, v);
    }
    assert((seq![r] + run_model(m1, cmds.drop_first()).1)[j] == run_model(
        m1,
        cmds.drop_first(),
    ).1[j - 1]);
}

/// A `Get` of a key that the store never held and that nothing in the run
/// wrote answers "absent" — a normal reply, never an error.
pub proof fn lemma_get_unwritten(
    m: Map<Seq<char>, Seq<u8>>,
    cmds: Seq<CmdModel>,
    j: int,
    k: Seq<char>,
)
    requires
        0 <= j < cmds.len(),
        !m.contains_key(k),
        cmds[j] == (CmdModel::Get { key: k }),
        forall|l: int| 0 <= l < j ==> !writes_key(#[trigger] cmds[l], k),
    ensures
        run_model(m, cmds).1[j] == RespModel::Value(None),
        !(run_model(m, cmds).1[j] is Error),
{
    lemma_get_reads_lookup(m, cmds, j, k);
}

/// Writes to two distinct keys land independently: in whichever order the two
/// `Set`s reach the store, the end state holds both values, each under its
/// own key.
pub proof fn lemma_distinct_puts_commute(
    m: Map<Seq<char>, Seq<u8>>,
    k1: Seq<char>,
    v1: Seq<u8>,
    k2: Seq<char>,
    v2: Seq<u8>,
)
    requires
        k1 != k2,
    ensures
        ({
            let first = run_model(m, seq![CmdModel::Put { key: k1, value: v1 }, CmdModel::Put { key: k2, value: v2 }]).0;
            let second = run_model(m, seq![CmdModel::Put { key: k2, value: v2 }, CmdModel::Put { key: k1, value: v1 }]).0;
            first == second && first.contains_key(k1) && first[k1] == v1 && first.contains_key(k2)
                && first[k2] == v2
        }),
{
    reveal_with_fuel(run_model, 3);
    let one = seq![CmdModel::Put { key: k1, value: v1 }, CmdModel::Put { key: k2, value: v2 }];
    let two = seq![CmdModel::Put { key: k2, value: v2 }, CmdModel::Put { key: k1, value: v1 }];
    assert(one.drop_first() =~= seq![CmdModel::Put { key: k2, value: v2 }]);
    assert(two.drop_first() =~= seq![CmdModel::Put { key: k1, value: v1 }]);
    assert(one.drop_first().drop_first() =~= Seq::<CmdModel>::empty());
    assert(two.drop_first().drop_first() =~= Seq::<CmdModel>::empty());
    assert(m.insert(k1, v1).insert(k2, v2) =~= m.insert(k2, v2).insert(k1, v1));
}

/// Each caller of the shared queue reads its own written value: if a caller's
/// `Set` of its key precedes its `Get` in the queue, and no other command in
/// the whole run writes that key, the caller's `Get` answers the caller's own
/// value, however the other callers' commands interleave around it.
pub proof fn lemma_distinct_callers_read_own(
    m: Map<Seq<char>, Seq<u8>>,
    cmds: Seq<CmdModel>,
    i: int,
    j: int,
    k: Seq<char>,
    v: Seq<u8>,
)
    requires
        0 <= i < j < cmds.len(),
        cmds[i] == (CmdModel::Put { key: k, value: v }),
        cmds[j] == (CmdModel::Get { key: k }),
        forall|l: int| 0 <= l < cmds.len() && l != i ==> !writes_key(#[trigger] cmds[l], k),
    ensures
        run_model(m, cmds).1[j] == RespModel::Value(Some(v)),
{
    lemma_set_then_get(m, cmds, i, j, k, v);
}

/// The commands of a connection's decode events, up to but not past the first
/// terminating event.
pub open spec fn cmds_before_stop(evs: Seq<EventModel>) -> Seq<CmdModel>
    decreases evs.len(),
{
    if evs.len() == 0 {
        Seq::empty()
    } else {
        match evs[0] {
            EventModel::Cmd(c) => seq![c] + cmds_before_stop(evs.drop_first()),
            EventModel::EndOfStream => Seq::empty(),
            EventModel::DecodeError => Seq::empty(),
        }
    }
}

/// While a connection has only decoded commands so far, the commands it
/// serves are those events, one for one and in order.
pub proof fn lemma_cmds_before_stop_prefix(evs: Seq<EventModel>, n: int)
    requires
        0 <= n <= evs.len(),
        forall|l: int| 0 <= l < n ==> (#[trigger] evs[l]) is Cmd,
    ensures
        cmds_before_stop(evs).len() >= n,
        forall|l: int| 0 <= l < n ==> #[trigger] cmds_before_stop(evs)[l] == evs[l]->Cmd_0,
    decreases n,
{
    if n > 0 {
        assert(evs[0] is Cmd);
        let c = evs[0]->Cmd_0;
        let tail = cmds_before_stop(evs.drop_first());
        assert(cmds_before_stop(evs) == seq![c] + tail);
        assert forall|l: int| 0 <= l < n - 1 implies (#[trigger] evs.drop_first()[l]) is Cmd by {
            assert(evs.drop_first()[l] == evs[l + 1]);
        }
        lemma_cmds_before_stop_prefix(evs.drop_first(), n - 1);
        assert forall|l: int| 0 <= l < n implies #[trigger] cmds_before_stop(evs)[l] == evs[l]
            ->Cmd_0 by {
            if l > 0 {
                assert((seq![c] + tail)[l] == tail[l - 1]);
                assert(evs.drop_first()[l - 1] == evs[l]);
            }
        }
    }
}

/// Read-your-writes on one connection: a `Set` answered on a connection,
/// followed on the same connection by a `Get` of the same key with no
/// intervening write to it, is read back exactly, whatever else the
/// connection decoded around them.
pub proof fn lemma_connection_set_then_get(
    m: Map<Seq<char>, Seq<u8>>,
    evs: Seq<EventModel>,
    i: int,
    j: int,
    k: Seq<char>,
    v: Seq<u8>,
)
    requires
        0 <= i < j < evs.len(),
        forall|l: int| 0 <= l <= j ==> (#[trigger] evs[l]) is Cmd,
        evs[i] == EventModel::Cmd(CmdModel::Put { key: k, value: v }),
        evs[j] == EventModel::Cmd(CmdModel::Get { key: k }),
        forall|l: int| i < l < j ==> !writes_key((#[trigger] evs[l])->Cmd_0, k),
    ensures
        connection_model(m, evs).1[j] == RespModel::Value(Some(v)),
{
    lemma_cmds_before_stop_prefix(evs, j + 1);
    let cmds = cmds_before_stop(evs);
    lemma_set_then_get(m, cmds, i, j, k, v);
    lemma_connection_serves_commands(m, evs);
}

/// On one connection, a `Get` of a key the store never held and that nothing
/// on the connection wrote answers "absent", never an error.
pub proof fn lemma_connection_get_unwritten(
    m: Map<Seq<char>, Seq<u8>>,
    evs: Seq<EventModel>,
    j: int,
    k: Seq<char>,
)
    requires
        0 <= j < evs.len(),
        !m.contains_key(k),
        forall|l: int| 0 <= l <= j ==> (#[trigger] evs[l]) is Cmd,
        evs[j] == EventModel::Cmd(CmdModel::Get { key: k }),
        forall|l: int| 0 <= l < j ==> !writes_key((#[trigger] evs[l])->Cmd_0, k),
    ensures
        connection_model(m, evs).1[j] == RespModel::Value(None),
        !(connection_model(m, evs).1[j] is Error),
{
    lemma_cmds_before_stop_prefix(evs, j + 1);
    lemma_get_unwritten(m, cmds_before_stop(evs), j, k);
    lemma_connection_serves_commands(m, evs);
}

/// A connection serves exactly the commands decoded before the first
/// terminating event, in decode order: its replies and its effect on the
/// store are those of running that command sequence.
pub proof fn lemma_connection_serves_commands(m: Map<Seq<char>, Seq<u8>>, evs: Seq<EventModel>)
    ensures
        connection_model(m, evs).0 == run_model(m, cmds_before_stop(evs)).0,
        connection_model(m, evs).1 == run_model(m, cmds_before_stop(evs)).1,
    decreases evs.len(),
{
    if evs.len() == 0 {
    } else {
        match evs[0] {
            EventModel::Cmd(c) => {
                let (m1, r) = apply_model(m, c);
                lemma_connection_serves_commands(m1, evs.drop_first());
                let tail = cmds_before_stop(evs.drop_first());
                let whole = seq![c] + tail;
                assert(whole[0] == c);
                assert(whole.drop_first() =~= tail);
            },
            EventModel::EndOfStream => {},
            EventModel::DecodeError => {},
        }
    }
}

} // verus!
