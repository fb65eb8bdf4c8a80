use vstd::prelude::*;

use crate::config::{FetchRetries, Url};
use crate::filters::PartitionFilter;
use crate::location::{Location, StreamRequest};
use crate::text::enclose;

verus! {

/// Something that an installation has done outside of this library.
#[derive(Debug, Clone, Copy, PartialEq, Eq)]
pub enum Call<'a> {
    /// Open the file with the Ignition config.
    OpenIgnition { path: &'a String },
    /// Fetch the Ignition config into a temporary file.
    DownloadIgnition { url: &'a Url, retries: FetchRetries },
    /// Find out whether the device is a DASD.
    ProbeDasd { device: &'a String },
    /// Ask a DASD for the sector size that formatting will give it.
    ReadDasdSectorSize { device: &'a String },
    /// Ask for the sector size of the device.
    ReadSectorSize { device: &'a String },
    /// Find out whether the running system can rebuild the image.
    FindOsmet { architecture: &'a String, sector_size: u32 },
    /// Look up an image in the metadata of its stream.
    OpenStream { request: StreamRequest<'a> },
    /// Report the location to the user and list what it offers.
    ListSources { location: Location<'a> },
    /// Find out again whether the device is a DASD.
    RecheckDasd { device: &'a String },
    /// Format a DASD.
    PrepareDasd { device: &'a String },
    /// Open the device for reading and writing.
    OpenDevice { device: &'a String },
    /// Find out whether the device is a block device.
    ReadMetadata { device: &'a String },
    /// Make sure that nothing uses the device.
    ClaimDevice { device: &'a String },
    /// Take down which partitions of the device are kept.
    SavePartitions { device: &'a String, filters: &'a Vec<PartitionFilter> },
    /// Look at the device as a disk.
    OpenDisk { device: &'a String },
    /// Get hold of the partition table of the disk.
    ReadTable { device: &'a String },
    /// Go to the start of the device.
    SeekStart { device: &'a String },
    /// Copy the image and adapt the copy.
    WriteDisk { device: &'a String, ignition: bool, network_config: Option<&'a String> },
    /// Put the kept partitions in a file.
    StashSavedPartitions,
    /// Clear the partition table and put the kept partitions back.
    ResetPartitionTable { device: &'a String },
    /// List the filesystems that are labeled as boot filesystems.
    ListBootFilesystems,
}

/// What is said of a call that failed, where its own error does not say enough.
pub open spec fn call_context(call: Call) -> Option<Seq<char>> {
    match call {
        Call::OpenIgnition { path } => Some("opening source Ignition config "@ + path@),
        Call::DownloadIgnition { url, .. } => Some(
            "downloading source Ignition config "@ + url.text@,
        ),
        Call::ProbeDasd { device } => Some(
            "checking whether "@ + device@ + " is an IBM DASD disk"@,
        ),
        Call::ReadDasdSectorSize { device } => Some("getting sector size of "@ + device@),
        Call::ReadSectorSize { device } => Some("getting sector size of "@ + device@),
        Call::OpenDevice { device } => Some("opening "@ + device@),
        Call::ReadMetadata { device } => Some("getting metadata for "@ + device@),
        Call::ClaimDevice { device } => Some("checking for exclusive access to "@ + device@),
        Call::SavePartitions { device, .. } => Some("saving partitions from "@ + device@),
        Call::ReadTable { device } => Some("getting partition table for "@ + device@),
        Call::SeekStart { device } => Some("seeking "@ + device@),
        _ => None,
    }
}

/// A text, if there is one.
pub open spec fn said(text: Option<String>) -> Option<Seq<char>> {
    match text {
        Some(text) => Some(text@),
        None => None,
    }
}

impl<'a> Call<'a> {
    /// What to say of the call if it fails, in front of its own error.
    pub fn context(&self) -> (context: Option<String>)
        ensures
            said(context) == call_context(*self),
    {
        match self {
            Call::OpenIgnition { path } => Some(
                "opening source Ignition config ".to_owned().concat(path.as_str()),
            ),
            Call::DownloadIgnition { url, .. } => Some(
                "downloading source Ignition config ".to_owned().concat(url.text.as_str()),
            ),
            Call::ProbeDasd { device } => Some(
                enclose("checking whether ", device.as_str(), " is an IBM DASD disk"),
            ),
            Call::ReadDasdSectorSize { device } => Some(
                "getting sector size of ".to_owned().concat(device.as_str()),
            ),
            Call::ReadSectorSize { device } => Some(
                "getting sector size of ".to_owned().concat(device.as_str()),
            ),
            Call::OpenDevice { device } => Some("opening ".to_owned().concat(device.as_str())),
            Call::ReadMetadata { device } => Some(
                "getting metadata for ".to_owned().concat(device.as_str()),
            ),
            Call::ClaimDevice { device } => Some(
                "checking for exclusive access to ".to_owned().concat(device.as_str()),
            ),
            Call::SavePartitions { device, .. } => Some(
                "saving partitions from ".to_owned().concat(device.as_str()),
            ),
            Call::ReadTable { device } => Some(
                "getting partition table for ".to_owned().concat(device.as_str()),
            ),
            Call::SeekStart { device } => Some("seeking ".to_owned().concat(device.as_str())),
            _ => None,
        }
    }
}

/// What the user is told at once of a call that failed, with what is known of the failure, where
/// the error of the installation will not speak of it.
pub open spec fn call_report(call: Call, details: Seq<char>) -> Option<Seq<char>> {
    match call {
        Call::WriteDisk { .. } => Some("\nError: "@ + details + "\n"@),
        Call::ListBootFilesystems => Some("checking filesystems labeled 'boot': "@ + details),
        _ => None,
    }
}

impl<'a> Call<'a> {
    /// What to tell the user at once if the call fails, with what is known of the failure. There
    /// is nothing to tell where the error of the installation will speak of it.
    pub fn report(&self, details: &str) -> (report: Option<String>)
        ensures
            said(report) == call_report(*self, details@),
    {
        match self {
            Call::WriteDisk { .. } => Some(enclose("\nError: ", details, "\n")),
            Call::ListBootFilesystems => Some(
                "checking filesystems labeled 'boot': ".to_owned().concat(details),
            ),
            _ => None,
        }
    }
}

/// What is said of a call that failed names what the call was for, whole.
pub proof fn law_contexts_name_their_subject<'a>(
    path: &'a String,
    url: &'a Url,
    retries: FetchRetries,
    filters: &'a Vec<PartitionFilter>,
)
    ensures
        call_context(Call::OpenIgnition { path }) == Some(
            "opening source Ignition config "@ + path@,
        ),
        call_context(Call::DownloadIgnition { url, retries }) == Some(
            "downloading source Ignition config "@ + url.text@,
        ),
        call_context(Call::ProbeDasd { device: path }) == Some(
            "checking whether "@ + path@ + " is an IBM DASD disk"@,
        ),
        call_context(Call::ReadDasdSectorSize { device: path }) == Some(
            "getting sector size of "@ + path@,
        ),
        call_context(Call::ReadSectorSize { device: path }) == Some(
            "getting sector size of "@ + path@,
        ),
        call_context(Call::OpenDevice { device: path }) == Some("opening "@ + path@),
        call_context(Call::ReadMetadata { device: path }) == Some(
            "getting metadata for "@ + path@,
        ),
        call_context(Call::ClaimDevice { device: path }) == Some(
            "checking for exclusive access to "@ + path@,
        ),
        call_context(Call::SavePartitions { device: path, filters }) == Some(
            "saving partitions from "@ + path@,
        ),
        call_context(Call::ReadTable { device: path }) == Some(
            "getting partition table for "@ + path@,
        ),
        call_context(Call::SeekStart { device: path }) == Some("seeking "@ + path@),
{
}

/// The other calls speak for themselves when they fail, and what they say is passed on as it is.
pub proof fn law_other_calls_speak_for_themselves<'a>(call: Call<'a>)
    requires
        call is FindOsmet || call is OpenStream || call is ListSources || call is RecheckDasd
            || call is PrepareDasd || call is OpenDisk || call is WriteDisk
            || call is StashSavedPartitions || call is ResetPartitionTable
            || call is ListBootFilesystems,
    ensures
        call_context(call) is None,
{
}

/// A failure is reported at once, with all that is known of it, exactly for the two calls whose
/// failure does not become the error of the installation.
pub proof fn law_reports_hold_the_details<'a>(call: Call<'a>, details: Seq<char>)
    ensures
        call is WriteDisk ==> call_report(call, details) == Some("\nError: "@ + details + "\n"@),
        call is ListBootFilesystems ==> call_report(call, details) == Some(
            "checking filesystems labeled 'boot': "@ + details,
        ),
        call_report(call, details) is Some <==> call is WriteDisk || call is ListBootFilesystems,
{
}

/// A text that is said is said whole.
pub proof fn law_text_is_said_whole(text: String)
    ensures
        said(Some(text)) == Some(text@),
        said(None) is None,
{
}

} // verus!
