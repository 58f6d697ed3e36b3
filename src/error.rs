//! The errors of the library.
use vstd::prelude::*;

verus! {

/// What went wrong while reading the description of a pod.
#[derive(Debug, PartialEq, Eq)]
pub enum K8sError {
    /// The Kubernetes client failed; its message.
    KubeclientError(String),
    /// No configuration file for the Kubernetes client could be found.
    KubeconfigMissing,
    /// A container runs under a runtime this library does not know.
    UnsupportedContainerRuntime(String),
    /// A field of the pod holds a value in an unexpected shape.
    UnsupportedFieldFormat { field: String, val: String },
    /// A field of the pod is absent or null.
    MissingOrNullField(String),
}

/// A command run on the host did not give a usable output.
#[derive(Debug, PartialEq, Eq)]
pub enum HostCmdError {
    /// The command ran and exited with a failure.
    CmdFailed { cmd: String, code: String, stderr: String },
    /// The command line holds no program to run.
    CmdInvalid(String),
    /// The program could not be started, or its output was not text.
    CmdNotRun { cmd: String, reason: String },
}

/// A text could not be read; the offending part of it.
#[derive(Debug, PartialEq, Eq)]
pub enum DataExtractionError {
    OutputParsingError(String),
}

/// No interface of the link listing belongs to the given link-netnsid.
#[derive(Debug, PartialEq, Eq, Copy, Clone)]
pub struct IntfMatchError(pub u32);

/// The link or address listing could not be read.
#[derive(Debug, PartialEq, Eq, Copy, Clone)]
pub struct IpLinkOrAddrShowParseErr;

/// No host-side interface has the given index.
#[derive(Debug, PartialEq, Eq, Copy, Clone)]
pub struct IntfMissingErr(pub u32);

/// Why a link listing gave no interfaces.
#[derive(Debug, PartialEq, Eq)]
pub enum IpLinkError {
    /// A record of the listing is malformed.
    Parse(DataExtractionError),
    /// The listing is well formed but no interface matches.
    NoMatch(IntfMatchError),
}

/// Why container-side interfaces could not be paired with host-side ones.
#[derive(Debug, PartialEq, Eq, Copy, Clone)]
pub enum CorrelationError {
    /// No remaining host-side interface has the peer index.
    PeerInterfaceNotFound(IntfMissingErr),
    /// Two or more remaining host-side interfaces have the peer index.
    AmbiguousPeerMatch(u32),
    /// A container-side veth end with the given index names no peer.
    VethWithoutPeer(u32),
}

} // verus!
