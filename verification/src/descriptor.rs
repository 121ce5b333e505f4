//! The external proxy-descriptor builder.
//!
//! Locating and installing the external client run as subprocesses outside
//! this library; the decisions between them are a small state machine here,
//! fed with the outcome of each command as plain values. The descriptor line
//! itself is assembled from the endpoint and the two paths, in a fixed field
//! order.

use vstd::prelude::*;
use vstd::string::StringExecFns;
use crate::errors::Error;
use crate::transform::ControllerInfo;

verus! {

/// The state of the search for the external client executable.
#[derive(Debug)]
pub enum ExecSearch {
    /// The executable must still be located.
    Looking,
    /// Locating failed; the package-manager install must run.
    Installing,
    /// The install succeeded; locating runs once more.
    Relocating,
    /// The executable's path, as the locate command reported it.
    Found(String),
    /// The install failed; the pipeline stops.
    Failed,
}

/// The outcome of one external command, as plain values.
#[derive(Debug)]
pub enum ExecEvent {
    /// The locate command finished: its success flag and its trimmed output.
    LocateDone(bool, String),
    /// The install command finished with this success flag.
    InstallDone(bool),
}

/// The transition relation of the search: a failed locate triggers one
/// install; a successful install triggers one more locate, whose output is
/// taken as the path without a further success check; a failed install is
/// terminal. An event that does not belong to the state changes nothing.
pub open spec fn exec_search_next(s: ExecSearch, ev: ExecEvent) -> ExecSearch {
    match (s, ev) {
        (ExecSearch::Looking, ExecEvent::LocateDone(true, out)) => ExecSearch::Found(out),
        (ExecSearch::Looking, ExecEvent::LocateDone(false, _)) => ExecSearch::Installing,
        (ExecSearch::Installing, ExecEvent::InstallDone(true)) => ExecSearch::Relocating,
        (ExecSearch::Installing, ExecEvent::InstallDone(false)) => ExecSearch::Failed,
        (ExecSearch::Relocating, ExecEvent::LocateDone(_, out)) => ExecSearch::Found(out),
        (s2, _) => s2,
    }
}

/// One step of the search.
pub fn exec_search_step(s: ExecSearch, ev: ExecEvent) -> (r: ExecSearch)
    ensures
        r == exec_search_next(s, ev),
{
    match (s, ev) {
        (ExecSearch::Looking, ExecEvent::LocateDone(true, out)) => ExecSearch::Found(out),
        (ExecSearch::Looking, ExecEvent::LocateDone(false, _)) => ExecSearch::Installing,
        (ExecSearch::Installing, ExecEvent::InstallDone(true)) => ExecSearch::Relocating,
        (ExecSearch::Installing, ExecEvent::InstallDone(false)) => ExecSearch::Failed,
        (ExecSearch::Relocating, ExecEvent::LocateDone(_, out)) => ExecSearch::Found(out),
        (s2, _) => s2,
    }
}

/// The result of a finished search: the path, or `InstallFailed`.
pub fn exec_search_result(s: ExecSearch) -> (r: Result<String, Error>)
    requires
        s is Found || s is Failed,
    ensures
        s matches ExecSearch::Found(p) ==> r == Ok::<String, Error>(p),
        s is Failed ==> r == Err::<String, Error>(Error::InstallFailed),
{
    match s {
        ExecSearch::Found(p) => Ok(p),
        _ => Err(Error::InstallFailed),
    }
}

/// The descriptor line: a fixed profile name, then the executable path, the
/// local port, the two fixed invocation arguments, the config path, and the
/// bind address, in this order and nothing else.
pub open spec fn descriptor_spec(
    exec: Seq<char>,
    port: Seq<char>,
    cfg: Seq<char>,
    addr: Seq<char>,
) -> Seq<char> {
    "External = external, exec = \""@ + exec + "\", local-port = "@ + port
        + ", args = \"run\", args = \"-c\", args = \""@ + cfg + "\", address = "@ + addr
}

/// Assembles the single-line proxy descriptor for the endpoint, the located
/// executable and the written config file.
pub fn build_descriptor(exec_path: &str, controller: &ControllerInfo, config_path: &str) -> (r:
    String)
    ensures
        r@ == descriptor_spec(exec_path@, controller.port@, config_path@, controller.address@),
{
    let mut out: String = "External = external, exec = \"".to_owned();
    out.append(exec_path);
    out.append("\", local-port = ");
    out.append(controller.port.as_str());
    out.append(", args = \"run\", args = \"-c\", args = \"");
    out.append(config_path);
    out.append("\", address = ");
    out.append(controller.address.as_str());
    out
}

/// Law: the descriptor is deterministic — the same endpoint, executable path
/// and config path give the byte-for-byte identical descriptor line.
pub proof fn lemma_descriptor_deterministic(
    r1: Seq<char>,
    r2: Seq<char>,
    exec: Seq<char>,
    port: Seq<char>,
    cfg: Seq<char>,
    addr: Seq<char>,
)
    requires
        r1 == descriptor_spec(exec, port, cfg, addr),
        r2 == descriptor_spec(exec, port, cfg, addr),
    ensures
        r1 == r2,
{
}

} // verus!
