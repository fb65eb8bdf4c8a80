use vstd::prelude::*;

use crate::call::{call_context, said, Call};
use crate::config::Url;
use crate::filters::{fault_cause, fault_message, FilterError};
use crate::text::enclose;

verus! {

/// Why an installation did not happen.
#[derive(Debug, Clone, Copy, PartialEq, Eq)]
pub enum InstallError<'a> {
    /// No device to install to.
    DeviceMissing,
    /// The Ignition config would come over plain HTTP, and nothing vouches for it.
    UnprotectedIgnition,
    /// The Ignition config cannot be fetched from such a URL.
    UnknownProtocol { url: &'a Url },
    /// The partitions to keep are not named right.
    Filter { error: &'a FilterError },
    /// The running system cannot rebuild the image, and nothing may be downloaded.
    OfflineMetadataMissing,
    /// There is nothing to install.
    NoArtifacts,
    /// There is more than one image to install.
    MultipleArtifacts,
    /// The image ought to be signed.
    SignatureMissing,
    /// Partitions of a DASD cannot be kept.
    DasdPartitions,
    /// The device cannot hold an installation.
    NotBlockDevice { device: &'a String },
    /// Writing the disk failed, which was reported by itself.
    WriteFailed,
    /// A call failed.
    CallFailed { call: Call<'a> },
}

/// How an error is put to the user, where the failed call does not do so itself.
pub open spec fn error_message(error: InstallError) -> Option<Seq<char>> {
    match error {
        InstallError::DeviceMissing => Some("destination device must be specified"@),
        InstallError::UnprotectedIgnition => Some(
            "refusing to fetch Ignition config over HTTP without --ignition-hash or --insecure-ignition"@,
        ),
        InstallError::UnknownProtocol { url } => Some(
            "unknown protocol for URL '"@ + url.text@ + "'"@,
        ),
        InstallError::Filter { error } => Some(fault_message(error@)),
        InstallError::OfflineMetadataMissing => Some(
            "cannot perform offline install; metadata missing"@,
        ),
        InstallError::NoArtifacts => Some("no artifacts found"@),
        InstallError::MultipleArtifacts => Some("found multiple artifacts"@),
        InstallError::SignatureMissing => Some(
            "--insecure not specified and signature not found"@,
        ),
        InstallError::DasdPartitions => Some("saving DASD partitions is not supported"@),
        InstallError::NotBlockDevice { device } => Some(device@ + " is not a block device"@),
        InstallError::WriteFailed => Some("install failed"@),
        InstallError::CallFailed { call } => call_context(call),
    }
}

impl<'a> InstallError<'a> {
    /// How the error is put to the user. There is no message where a call failed that speaks
    /// for itself.
    pub fn message(&self) -> (message: Option<String>)
        ensures
            said(message) == error_message(*self),
    {
        match self {
            InstallError::DeviceMissing => Some(
                "destination device must be specified".to_owned(),
            ),
            InstallError::UnprotectedIgnition => Some(
                "refusing to fetch Ignition config over HTTP without --ignition-hash or --insecure-ignition".to_owned(),
            ),
            InstallError::UnknownProtocol { url } => Some(
                enclose("unknown protocol for URL '", url.text.as_str(), "'"),
            ),
            InstallError::Filter { error } => Some(error.message()),
            InstallError::OfflineMetadataMissing => Some(
                "cannot perform offline install; metadata missing".to_owned(),
            ),
            InstallError::NoArtifacts => Some("no artifacts found".to_owned()),
            InstallError::MultipleArtifacts => Some("found multiple artifacts".to_owned()),
            InstallError::SignatureMissing => Some(
                "--insecure not specified and signature not found".to_owned(),
            ),
            InstallError::DasdPartitions => Some(
                "saving DASD partitions is not supported".to_owned(),
            ),
            InstallError::NotBlockDevice { device } => Some(
                device.as_str().to_owned().concat(" is not a block device"),
            ),
            InstallError::WriteFailed => Some("install failed".to_owned()),
            InstallError::CallFailed { call } => call.context(),
        }
    }
}

/// What lies beneath an error, where there is more to say than its message does. A failed call
/// has an error of its own.
pub open spec fn error_cause(error: InstallError) -> Option<Seq<char>> {
    match error {
        InstallError::Filter { error } => fault_cause(error@),
        _ => None,
    }
}

impl<'a> InstallError<'a> {
    /// What lies beneath the error, where there is more to say than its message does.
    pub fn cause(&self) -> (cause: Option<String>)
        ensures
            said(cause) == error_cause(*self),
    {
        match self {
            InstallError::Filter { error } => error.cause(),
            _ => None,
        }
    }
}

/// Every error has its words, which name what it is about, whole.
pub proof fn law_errors_have_their_words<'a>(
    url: &'a Url,
    filter: &'a FilterError,
    device: &'a String,
    call: Call<'a>,
)
    ensures
        error_message(InstallError::DeviceMissing) == Some("destination device must be specified"@),
        error_message(InstallError::UnprotectedIgnition) == Some(
            "refusing to fetch Ignition config over HTTP without --ignition-hash or --insecure-ignition"@,
        ),
        error_message(InstallError::UnknownProtocol { url }) == Some(
            "unknown protocol for URL '"@ + url.text@ + "'"@,
        ),
        error_message(InstallError::Filter { error: filter }) == Some(fault_message(filter@)),
        error_message(InstallError::OfflineMetadataMissing) == Some(
            "cannot perform offline install; metadata missing"@,
        ),
        error_message(InstallError::NoArtifacts) == Some("no artifacts found"@),
        error_message(InstallError::MultipleArtifacts) == Some("found multiple artifacts"@),
        error_message(InstallError::SignatureMissing) == Some(
            "--insecure not specified and signature not found"@,
        ),
        error_message(InstallError::DasdPartitions) == Some(
            "saving DASD partitions is not supported"@,
        ),
        error_message(InstallError::NotBlockDevice { device }) == Some(
            device@ + " is not a block device"@,
        ),
        error_message(InstallError::WriteFailed) == Some("install failed"@),
        error_message(InstallError::CallFailed { call }) == call_context(call),
{
}

/// Only what is wrong with the partitions to keep has a cause beneath it.
pub proof fn law_filter_errors_have_causes<'a>(error: InstallError<'a>)
    ensures
        error matches InstallError::Filter { error: filter } ==> error_cause(error) == fault_cause(
            filter@,
        ),
        !(error is Filter) ==> error_cause(error) is None,
{
}

} // verus!
