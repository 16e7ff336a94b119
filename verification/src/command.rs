//! Commands and responses of the service, together with their mathematical
//! models and the semantics of applying commands to the store's abstract map.

use vstd::prelude::*;

verus! {

/// One decoded request. `Get` reads a key; `Put` is the wire protocol's SET
/// operation, writing a value under a key. `Unknown` stands for any command
/// the wire protocol can carry that this service does not implement; it is
/// answered with an error response rather than tearing the connection down.
/// Its `name` is informational only and never read by the semantics; the
/// frame codec produces it empty, since mini-redis does not expose the
/// unrecognized command's name.
#[derive(Debug, Clone, PartialEq, Eq)]
pub enum Command {
    Get { key: String },
    Put { key: String, value: Vec<u8> },
    Unknown { name: String },
}

/// One reply. `Value(None)` signals key-not-found on a `Get`, which is a
/// normal result, not an error. `Ack` is the only success result of a write.
#[derive(Debug, Clone, PartialEq, Eq)]
pub enum Response {
    Value(Option<Vec<u8>>),
    Ack,
    Error(String),
}

/// The mathematical model of a `Command`: keys as character sequences,
/// values as byte sequences.
pub enum CmdModel {
    Get { key: Seq<char> },
    Put { key: Seq<char>, value: Seq<u8> },
    Unknown { name: Seq<char> },
}

/// The mathematical model of a `Response`.
pub enum RespModel {
    Value(Option<Seq<u8>>),
    Ack,
    Error(Seq<char>),
}

impl View for Command {
    type V = CmdModel;

    open spec fn view(&self) -> CmdModel {
        match self {
            Command::Get { key } => CmdModel::Get { key: key@ },
            Command::Put { key, value } => CmdModel::Put { key: key@, value: value@ },
            Command::Unknown { name } => CmdModel::Unknown { name: name@ },
        }
    }
}

impl DeepView for Command {
    type V = CmdModel;

    open spec fn deep_view(&self) -> CmdModel {
        self.view()
    }
}

impl View for Response {
    type V = RespModel;

    open spec fn view(&self) -> RespModel {
        match self {
            Response::Value(ov) => RespModel::Value(
                match ov {
                    Some(v) => Some(v@),
                    None => None,
                },
            ),
            Response::Ack => RespModel::Ack,
            Response::Error(reason) => RespModel::Error(reason@),
        }
    }
}

impl DeepView for Response {
    type V = RespModel;

    open spec fn deep_view(&self) -> RespModel {
        self.view()
    }
}

/// The value the abstract store associates with `key`, if any.
pub open spec fn lookup(m: Map<Seq<char>, Seq<u8>>, key: Seq<char>) -> Option<Seq<u8>> {
    if m.contains_key(key) {
        Some(m[key])
    } else {
        None
    }
}

/// What applying one command to the abstract store yields: the store
/// afterwards and the reply owed to the issuer. A read leaves the store
/// alone; a write overwrites and acknowledges; anything else leaves the
/// store alone and is answered with an error, so the connection can go on.
pub open spec fn apply_model(m: Map<Seq<char>, Seq<u8>>, c: CmdModel) -> (
    Map<Seq<char>, Seq<u8>>,
    RespModel,
) {
    match c {
        CmdModel::Get { key } => (m, RespModel::Value(lookup(m, key))),
        CmdModel::Put { key, value } => (m.insert(key, value), RespModel::Ack),
        CmdModel::Unknown { .. } => (m, RespModel::Error("unsupported"@)),
    }
}

/// What applying a sequence of commands in order yields: the final store and
/// the replies, one per command, in the same order.
pub open spec fn run_model(m: Map<Seq<char>, Seq<u8>>, cmds: Seq<CmdModel>) -> (
    Map<Seq<char>, Seq<u8>>,
    Seq<RespModel>,
)
    decreases cmds.len(),
{
    if cmds.len() == 0 {
        (m, Seq::empty())
    } else {
        let (m1, r) = apply_model(m, cmds[0]);
        let (m2, rs) = run_model(m1, cmds.drop_first());
        (m2, seq![r] + rs)
    }
}

/// A run answers every command: there are exactly as many replies as
/// commands.
pub proof fn lemma_run_model_len(m: Map<Seq<char>, Seq<u8>>, cmds: Seq<CmdModel>)
    ensures
        run_model(m, cmds).1.len() == cmds.len(),
    decreases cmds.len(),
{
    if cmds.len() == 0 {
    } else {
        let (m1, r) = apply_model(m, cmds[0]);
        lemma_run_model_len(m1, cmds.drop_first());
    }
}

/// Copies the bytes of a vector into a fresh vector.
pub(crate) fn copy_bytes(v: &Vec<u8>) -> (r: Vec<u8>)
    ensures
        r@ == v@,
{
    let mut out: Vec<u8> = Vec::new();
    let mut i: usize = 0;
    while i < v.len()
        invariant
            i <= v.len(),
            out@ == v@.subrange(0, i as int),
        decreases v.len() - i,
    {
        out.push(v[i]);
        i += 1;
    }
    proof {
        assert(out@ =~= v@);
    }
    out
}

/// Whether `c` is a write to `key`.
pub open spec fn writes_key(c: CmdModel, key: Seq<char>) -> bool {
    match c {
        CmdModel::Put { key: k, .. } => k == key,
        _ => false,
    }
}

} // verus!
