use vstd::prelude::*;

use crate::call::Call;
use crate::config::InstallConfig;
use crate::error::InstallError;
use crate::filters::{
    filter_results, gathered, glob_errors, index_filter, parse_partition_filters, Filter,
    FilterError, FilterFault, PartitionFilter,
};
use crate::ignition::{find_ignition, ignition_source, IgnitionSource};
use crate::location::{
    begin_search, check_sources, lacks_signature, make_stream_request, search, sources_error,
    standard_sector_size, stream_request, Location, Search, Sources,
};
use crate::notice::Notice;
use crate::text::contents;

verus! {

/// An installation that can be carried out.
#[derive(Debug)]
pub struct Job<'a> {
    pub config: &'a InstallConfig,
    /// The disk to install to.
    pub device: &'a String,
    /// The installer runs on s390x, where disks may be DASDs.
    pub s390x: bool,
    /// The partitions to keep.
    pub filters: Vec<PartitionFilter>,
    /// What is wrong with the partitions to keep. It is brought up when their turn comes.
    pub filter_error: Option<FilterError>,
}

/// What came of a call.
#[derive(Debug, Clone, Copy, PartialEq, Eq, Structural)]
pub enum Event {
    /// It failed.
    Failed,
    /// It succeeded, and there is nothing more to tell.
    Done,
    /// The device is a DASD, or is none.
    Dasd { dasd: bool },
    /// The sector size of a DASD, if the device knows it.
    DasdSectorSize { known: Option<u32> },
    /// The sector size of the device.
    SectorSize { sector_size: u32 },
    /// The running system can rebuild the image, or cannot.
    Osmet { found: bool },
    /// What the location of the image offers.
    Offers { sources: Sources },
    /// The device is a block device, or is none.
    BlockDevice { block: bool },
    /// There are partitions to keep, or there are none.
    Saved { saved: bool },
}

/// How far an installation has come: the call that it waits for, and what it needs to
/// remember until later.
#[derive(Debug, Clone, Copy, PartialEq, Eq)]
pub enum Stage<'a> {
    Ignition { source: IgnitionSource<'a> },
    DasdProbe,
    DasdSectorSize,
    SectorSize,
    Osmet { sector_size: u32 },
    Stream { sector_size: u32 },
    Sources { location: Location<'a> },
    DasdRecheck,
    DasdPrepare,
    Open,
    Metadata,
    Claim,
    Save,
    Disk { saved: bool },
    Table { saved: bool },
    Rewind { saved: bool },
    Write { saved: bool },
    Stash,
    Reset,
    BootFilesystems,
    Over { outcome: Result<(), InstallError<'a>> },
}

/// The installation ends with an error.
pub open spec fn refused<'a>(error: InstallError<'a>) -> Stage<'a> {
    Stage::Over { outcome: Err(error) }
}

/// The Ignition config is embedded in the installed system.
pub open spec fn has_ignition(config: &InstallConfig) -> bool {
    config.ignition_file is Some || config.ignition_url is Some
}

/// Where the network configuration to copy lies, if it is to be copied.
pub open spec fn network_config<'a>(config: &'a InstallConfig) -> Option<&'a String> {
    if config.copy_network {
        Some(&config.network_dir)
    } else {
        None
    }
}

/// The call that an installation waits for.
pub open spec fn awaited<'a>(job: &'a Job<'a>, stage: Stage<'a>) -> Option<Call<'a>> {
    let config = job.config;
    let device = job.device;
    match stage {
        Stage::Ignition { source } => Some(
            match source {
                IgnitionSource::File { path } => Call::OpenIgnition { path },
                IgnitionSource::Download { url, retries } => Call::DownloadIgnition { url, retries },
            },
        ),
        Stage::DasdProbe => Some(Call::ProbeDasd { device }),
        Stage::DasdSectorSize => Some(Call::ReadDasdSectorSize { device }),
        Stage::SectorSize => Some(Call::ReadSectorSize { device }),
        Stage::Osmet { sector_size } => Some(
            Call::FindOsmet { architecture: &config.architecture, sector_size },
        ),
        Stage::Stream { sector_size } => Some(
            Call::OpenStream { request: stream_request(config, sector_size) },
        ),
        Stage::Sources { location } => Some(Call::ListSources { location }),
        Stage::DasdRecheck => Some(Call::RecheckDasd { device }),
        Stage::DasdPrepare => Some(Call::PrepareDasd { device }),
        Stage::Open => Some(Call::OpenDevice { device }),
        Stage::Metadata => Some(Call::ReadMetadata { device }),
        Stage::Claim => Some(Call::ClaimDevice { device }),
        Stage::Save => Some(Call::SavePartitions { device, filters: &job.filters }),
        Stage::Disk { .. } => Some(Call::OpenDisk { device }),
        Stage::Table { .. } => Some(Call::ReadTable { device }),
        Stage::Rewind { .. } => Some(Call::SeekStart { device }),
        Stage::Write { .. } => Some(
            Call::WriteDisk {
                device,
                ignition: has_ignition(config),
                network_config: network_config(config),
            },
        ),
        Stage::Stash => Some(Call::StashSavedPartitions),
        Stage::Reset => Some(Call::ResetPartitionTable { device }),
        Stage::BootFilesystems => Some(Call::ListBootFilesystems),
        Stage::Over { .. } => None,
    }
}

/// Where an installation goes on once the Ignition config is there.
pub open spec fn after_ignition<'a>(job: &'a Job<'a>) -> Stage<'a> {
    match &job.filter_error {
        Some(error) => refused(InstallError::Filter { error }),
        None => Stage::DasdProbe,
    }
}

/// Where an installation starts.
pub open spec fn first_stage<'a>(job: &'a Job<'a>) -> Stage<'a> {
    match ignition_source(job.config) {
        Err(error) => refused(error),
        Ok(Some(source)) => Stage::Ignition { source },
        Ok(None) => after_ignition(job),
    }
}

/// Where an installation goes on once the sector size is known.
pub open spec fn after_sector_size<'a>(job: &'a Job<'a>, sector_size: u32) -> Stage<'a> {
    match search(job.config) {
        Search::At { location } => Stage::Sources { location },
        Search::AskOsmet => Stage::Osmet { sector_size },
        Search::AskStream => Stage::Stream { sector_size },
    }
}

/// Where an installation goes on once the running system said whether it has the image.
pub open spec fn after_osmet<'a>(job: &'a Job<'a>, sector_size: u32, found: bool) -> Stage<'a> {
    if found {
        Stage::Sources {
            location: Location::Osmet { architecture: &job.config.architecture, sector_size },
        }
    } else if job.config.offline {
        refused(InstallError::OfflineMetadataMissing)
    } else {
        Stage::Stream { sector_size }
    }
}

/// Where an installation goes on once it is known what the location of the image offers.
pub open spec fn after_sources<'a>(job: &'a Job<'a>, sources: Sources) -> Stage<'a> {
    match sources_error(job.config, sources) {
        Some(error) => refused(error),
        None => if job.s390x {
            Stage::DasdRecheck
        } else {
            Stage::Open
        },
    }
}

/// Where an installation goes on when the disk could not be written. The damaged partition
/// table is reset, unless the user wants to look at it. Then the kept partitions are put
/// aside, since the table may not have them any more.
pub open spec fn after_write_failure<'a>(job: &'a Job<'a>, saved: bool) -> Stage<'a> {
    if !job.config.preserve_on_error {
        Stage::Reset
    } else if saved {
        Stage::Stash
    } else {
        refused(InstallError::WriteFailed)
    }
}

/// Where an installation goes on after a call that did not succeed, or that was not answered
/// with what it was made for. Only a failure to write the disk is followed by more work, and
/// only a failure to list filesystems does no harm.
pub open spec fn after_failure<'a>(job: &'a Job<'a>, stage: Stage<'a>) -> Stage<'a> {
    match stage {
        Stage::Write { saved } => after_write_failure(job, saved),
        Stage::BootFilesystems => Stage::Over { outcome: Ok(()) },
        Stage::Over { .. } => stage,
        _ => refused(InstallError::CallFailed { call: awaited(job, stage)->0 }),
    }
}

/// Where an installation goes on after a call.
pub open spec fn next_stage<'a>(job: &'a Job<'a>, stage: Stage<'a>, event: Event) -> Stage<'a> {
    match (stage, event) {
        (Stage::Ignition { .. }, Event::Done) => after_ignition(job),
        (Stage::DasdProbe, Event::Dasd { dasd }) => if job.s390x && dasd {
            Stage::DasdSectorSize
        } else {
            Stage::SectorSize
        },
        (Stage::DasdSectorSize, Event::DasdSectorSize { known: None }) => Stage::SectorSize,
        (
            Stage::DasdSectorSize,
            Event::DasdSectorSize { known: Some(sector_size) },
        ) => after_sector_size(job, sector_size),
        (Stage::SectorSize, Event::SectorSize { sector_size }) => after_sector_size(
            job,
            sector_size,
        ),
        (Stage::Osmet { sector_size }, Event::Osmet { found }) => after_osmet(
            job,
            sector_size,
            found,
        ),
        (Stage::Stream { sector_size }, Event::Done) => Stage::Sources {
            location: Location::Stream { request: stream_request(job.config, sector_size) },
        },
        (Stage::Sources { .. }, Event::Offers { sources }) => after_sources(job, sources),
        (Stage::DasdRecheck, Event::Dasd { dasd }) => if !dasd {
            Stage::Open
        } else if job.filters@.len() > 0 {
            refused(InstallError::DasdPartitions)
        } else {
            Stage::DasdPrepare
        },
        (Stage::DasdPrepare, Event::Done) => Stage::Open,
        (Stage::Open, Event::Done) => Stage::Metadata,
        (Stage::Metadata, Event::BlockDevice { block }) => if block {
            Stage::Claim
        } else {
            refused(InstallError::NotBlockDevice { device: job.device })
        },
        (Stage::Claim, Event::Done) => Stage::Save,
        (Stage::Save, Event::Saved { saved }) => Stage::Disk { saved },
        (Stage::Disk { saved }, Event::Done) => Stage::Table { saved },
        (Stage::Table { saved }, Event::Done) => Stage::Rewind { saved },
        (Stage::Rewind { saved }, Event::Done) => Stage::Write { saved },
        (Stage::Write { .. }, Event::Done) => Stage::BootFilesystems,
        (Stage::Stash, Event::Done) => refused(InstallError::WriteFailed),
        (Stage::Reset, Event::Done) => refused(InstallError::WriteFailed),
        _ => after_failure(job, stage),
    }
}

/// What the user is told when an installation goes on.
pub open spec fn next_notice<'a>(job: &'a Job<'a>, stage: Stage<'a>, event: Event) -> Option<
    Notice<'a>,
> {
    match stage {
        Stage::Sources { .. } => match event {
            Event::Offers { sources } if sources_error(job.config, sources) is None
                && lacks_signature(sources) => Some(Notice::SignatureSkipped),
            _ => None,
        },
        Stage::Write { .. } => if event != Event::Done && job.config.preserve_on_error {
            Some(Notice::TablePreserved)
        } else {
            None
        },
        Stage::BootFilesystems => Some(Notice::Complete),
        _ => match next_stage(job, stage, event) {
            Stage::Stream { sector_size } if !standard_sector_size(sector_size) => Some(
                Notice::OddSectorSize { sector_size, device: job.device },
            ),
            _ => None,
        },
    }
}

/// A step of an installation: where it goes on, and what the user is told before.
#[derive(Debug, Clone, Copy, PartialEq, Eq)]
pub struct Turn<'a> {
    pub stage: Stage<'a>,
    pub notice: Option<Notice<'a>>,
}

/// `job` is the installation that `config` asks for.
pub open spec fn is_job_for(job: Job, config: &InstallConfig, s390x: bool) -> bool {
    let labels = contents(config.save_partlabel@);
    let indexes = contents(config.save_partindex@);
    let results = filter_results(labels, glob_errors(labels), indexes);
    &&& job.config == config
    &&& config.dest_device == Some(*job.device)
    &&& job.s390x == s390x
    &&& match job.filter_error {
        Some(error) => job.filters@.len() == 0 && gathered(Err(error), results),
        None => gathered(Ok(job.filters), results),
    }
}

/// The filters keep the partitions with the labels, and then those with the indexes, in the order
/// in which they are given.
pub open spec fn keeps_requested(
    filters: Seq<PartitionFilter>,
    labels: Seq<String>,
    indexes: Seq<String>,
) -> bool {
    &&& filters.len() == labels.len() + indexes.len()
    &&& forall|i: int|
        0 <= i < labels.len() ==> filters[i]@ == Filter::Label((#[trigger] labels[i])@)
    &&& forall|i: int|
        0 <= i < indexes.len() ==> index_filter((#[trigger] indexes[i])@) == Ok::<_, FilterFault>(
            filters[labels.len() + i]@,
        )
}

fn as_texts<'a>(list: &'a Vec<String>) -> (texts: Vec<&'a str>)
    ensures
        crate::filters::texts(texts@) == contents(list@),
        texts@.len() == list@.len(),
        forall|k: int| 0 <= k < list@.len() ==> (#[trigger] texts@[k])@ == list@[k]@,
{
    let mut texts: Vec<&'a str> = Vec::new();
    let mut i: usize = 0;
    while i < list.len()
        invariant
            i <= list@.len(),
            texts@.len() == i,
            forall|k: int| 0 <= k < i ==> (#[trigger] texts@[k])@ == list@[k]@,
        decreases list@.len() - i,
    {
        texts.push(list[i].as_str());
        i += 1;
    }
    assert(crate::filters::texts(texts@) =~= contents(list@));
    texts
}

/// Takes on the installation that `config` asks for, on a machine that is an s390x or not.
/// Nothing is done yet: [`begin`] says where to start.
pub fn install<'a>(config: &'a InstallConfig, s390x: bool) -> (taken: Result<
    Job<'a>,
    InstallError<'a>,
>)
    ensures
        taken is Ok <==> config.dest_device is Some,
        taken matches Ok(job) ==> is_job_for(job, config, s390x),
        taken matches Ok(job) ==> job.config == config && config.dest_device == Some(*job.device)
            && job.s390x == s390x,
        taken matches Ok(job) ==> (job.filter_error is None ==> keeps_requested(
            job.filters@,
            config.save_partlabel@,
            config.save_partindex@,
        )),
        taken matches Ok(job) ==> (job.filter_error is Some ==> job.filters@.len() == 0),
        taken matches Err(error) ==> error == InstallError::DeviceMissing,
{
    let device = match &config.dest_device {
        Some(device) => device,
        None => {
            return Err(InstallError::DeviceMissing);
        },
    };
    let labels = as_texts(&config.save_partlabel);
    let indexes = as_texts(&config.save_partindex);
    match parse_partition_filters(labels.as_slice(), indexes.as_slice()) {
        Ok(filters) => {
            proof {
                let wanted = config.save_partlabel@;
                let ranges = config.save_partindex@;
                assert forall|i: int| 0 <= i < wanted.len() implies filters@[i]@ == Filter::Label(
                    (#[trigger] wanted[i])@,
                ) by {
                    assert(labels@[i]@ == wanted[i]@);
                }
                assert forall|i: int| 0 <= i < ranges.len() implies index_filter(
                    (#[trigger] ranges[i])@,
                ) == Ok::<_, FilterFault>(filters@[wanted.len() + i]@) by {
                    assert(indexes@[i]@ == ranges[i]@);
                }
            }
            Ok(Job { config, device, s390x, filters, filter_error: None })
        },
        Err(error) => Ok(
            Job { config, device, s390x, filters: Vec::new(), filter_error: Some(error) },
        ),
    }
}

/// The call to make next, or nothing when the installation is over.
pub fn pending<'a>(job: &'a Job<'a>, stage: Stage<'a>) -> (call: Option<Call<'a>>)
    ensures
        call == awaited(job, stage),
{
    let config = job.config;
    let device = job.device;
    let call = match stage {
        Stage::Ignition { source } => match source {
            IgnitionSource::File { path } => Call::OpenIgnition { path },
            IgnitionSource::Download { url, retries } => Call::DownloadIgnition { url, retries },
        },
        Stage::DasdProbe => Call::ProbeDasd { device },
        Stage::DasdSectorSize => Call::ReadDasdSectorSize { device },
        Stage::SectorSize => Call::ReadSectorSize { device },
        Stage::Osmet { sector_size } => Call::FindOsmet {
            architecture: &config.architecture,
            sector_size,
        },
        Stage::Stream { sector_size } => Call::OpenStream {
            request: make_stream_request(config, sector_size),
        },
        Stage::Sources { location } => Call::ListSources { location },
        Stage::DasdRecheck => Call::RecheckDasd { device },
        Stage::DasdPrepare => Call::PrepareDasd { device },
        Stage::Open => Call::OpenDevice { device },
        Stage::Metadata => Call::ReadMetadata { device },
        Stage::Claim => Call::ClaimDevice { device },
        Stage::Save => Call::SavePartitions { device, filters: &job.filters },
        Stage::Disk { .. } => Call::OpenDisk { device },
        Stage::Table { .. } => Call::ReadTable { device },
        Stage::Rewind { .. } => Call::SeekStart { device },
        Stage::Write { .. } => Call::WriteDisk {
            device,
            ignition: config.ignition_file.is_some() || config.ignition_url.is_some(),
            network_config: if config.copy_network {
                Some(&config.network_dir)
            } else {
                None
            },
        },
        Stage::Stash => Call::StashSavedPartitions,
        Stage::Reset => Call::ResetPartitionTable { device },
        Stage::BootFilesystems => Call::ListBootFilesystems,
        Stage::Over { .. } => {
            return None;
        },
    };
    Some(call)
}

fn past_ignition<'a>(job: &'a Job<'a>) -> (stage: Stage<'a>)
    ensures
        stage == after_ignition(job),
{
    match &job.filter_error {
        Some(error) => Stage::Over { outcome: Err(InstallError::Filter { error }) },
        None => Stage::DasdProbe,
    }
}

/// Where to start.
pub fn begin<'a>(job: &'a Job<'a>) -> (stage: Stage<'a>)
    ensures
        stage == first_stage(job),
{
    match find_ignition(job.config) {
        Err(error) => Stage::Over { outcome: Err(error) },
        Ok(Some(source)) => Stage::Ignition { source },
        Ok(None) => past_ignition(job),
    }
}

/// Looks the image up in a stream, which is worth a word where the image may not fit.
fn turn_to_stream<'a>(job: &'a Job<'a>, sector_size: u32) -> (turn: Turn<'a>)
    ensures
        turn.stage == (Stage::Stream { sector_size }),
        turn.notice == if standard_sector_size(sector_size) {
            None
        } else {
            Some(Notice::OddSectorSize { sector_size, device: job.device })
        },
{
    let notice = match sector_size {
        512 | 4096 => None,
        _ => Some(Notice::OddSectorSize { sector_size, device: job.device }),
    };
    Turn { stage: Stage::Stream { sector_size }, notice }
}

fn turn_to_image<'a>(job: &'a Job<'a>, sector_size: u32) -> (turn: Turn<'a>)
    ensures
        turn.stage == after_sector_size(job, sector_size),
        turn.notice == match turn.stage {
            Stage::Stream { .. } => if standard_sector_size(sector_size) {
                None
            } else {
                Some(Notice::OddSectorSize { sector_size, device: job.device })
            },
            _ => None,
        },
{
    match begin_search(job.config) {
        Search::At { location } => Turn { stage: Stage::Sources { location }, notice: None },
        Search::AskOsmet => Turn { stage: Stage::Osmet { sector_size }, notice: None },
        Search::AskStream => turn_to_stream(job, sector_size),
    }
}

fn turn_after_failure<'a>(job: &'a Job<'a>, stage: Stage<'a>) -> (turn: Turn<'a>)
    ensures
        turn.stage == after_failure(job, stage),
        turn.notice == match stage {
            Stage::Write { .. } => if job.config.preserve_on_error {
                Some(Notice::TablePreserved)
            } else {
                None
            },
            Stage::BootFilesystems => Some(Notice::Complete),
            _ => None,
        },
{
    match stage {
        Stage::Write { saved } => if job.config.preserve_on_error {
            let stage = if saved {
                Stage::Stash
            } else {
                Stage::Over { outcome: Err(InstallError::WriteFailed) }
            };
            Turn { stage, notice: Some(Notice::TablePreserved) }
        } else {
            Turn { stage: Stage::Reset, notice: None }
        },
        Stage::BootFilesystems => Turn {
            stage: Stage::Over { outcome: Ok(()) },
            notice: Some(Notice::Complete),
        },
        _ => match pending(job, stage) {
            Some(call) => Turn {
                stage: Stage::Over { outcome: Err(InstallError::CallFailed { call }) },
                notice: None,
            },
            None => Turn { stage, notice: None },
        },
    }
}

/// Goes on with an installation after the call that it waited for. An event that does not
/// answer that call counts as its failure.
pub fn step<'a>(job: &'a Job<'a>, stage: Stage<'a>, event: Event) -> (turn: Turn<'a>)
    ensures
        turn.stage == next_stage(job, stage, event),
        turn.notice == next_notice(job, stage, event),
{
    let next = match (stage, event) {
        (Stage::Ignition { .. }, Event::Done) => past_ignition(job),
        (Stage::DasdProbe, Event::Dasd { dasd }) => if job.s390x && dasd {
            Stage::DasdSectorSize
        } else {
            Stage::SectorSize
        },
        (Stage::DasdSectorSize, Event::DasdSectorSize { known }) => match known {
            None => Stage::SectorSize,
            Some(sector_size) => {
                return turn_to_image(job, sector_size);
            },
        },
        (Stage::SectorSize, Event::SectorSize { sector_size }) => {
            return turn_to_image(job, sector_size);
        },
        (Stage::Osmet { sector_size }, Event::Osmet { found }) => if found {
            Stage::Sources {
                location: Location::Osmet { architecture: &job.config.architecture, sector_size },
            }
        } else if job.config.offline {
            Stage::Over { outcome: Err(InstallError::OfflineMetadataMissing) }
        } else {
            return turn_to_stream(job, sector_size);
        },
        (Stage::Stream { sector_size }, Event::Done) => Stage::Sources {
            location: Location::Stream { request: make_stream_request(job.config, sector_size) },
        },
        (Stage::Sources { .. }, Event::Offers { sources }) => match check_sources(
            job.config,
            sources,
        ) {
            Some(error) => Stage::Over { outcome: Err(error) },
            None => {
                let notice = if !sources.signed && sources.require_signature {
                    Some(Notice::SignatureSkipped)
                } else {
                    None
                };
                let stage = if job.s390x {
                    Stage::DasdRecheck
                } else {
                    Stage::Open
                };
                return Turn { stage, notice };
            },
        },
        (Stage::DasdRecheck, Event::Dasd { dasd }) => if !dasd {
            Stage::Open
        } else if job.filters.len() > 0 {
            Stage::Over { outcome: Err(InstallError::DasdPartitions) }
        } else {
            Stage::DasdPrepare
        },
        (Stage::DasdPrepare, Event::Done) => Stage::Open,
        (Stage::Open, Event::Done) => Stage::Metadata,
        (Stage::Metadata, Event::BlockDevice { block }) => if block {
            Stage::Claim
        } else {
            Stage::Over { outcome: Err(InstallError::NotBlockDevice { device: job.device }) }
        },
        (Stage::Claim, Event::Done) => Stage::Save,
        (Stage::Save, Event::Saved { saved }) => Stage::Disk { saved },
        (Stage::Disk { saved }, Event::Done) => Stage::Table { saved },
        (Stage::Table { saved }, Event::Done) => Stage::Rewind { saved },
        (Stage::Rewind { saved }, Event::Done) => Stage::Write { saved },
        (Stage::Write { .. }, Event::Done) => Stage::BootFilesystems,
        (Stage::Stash, Event::Done) => Stage::Over { outcome: Err(InstallError::WriteFailed) },
        (Stage::Reset, Event::Done) => Stage::Over { outcome: Err(InstallError::WriteFailed) },
        _ => {
            return turn_after_failure(job, stage);
        },
    };
    Turn { stage: next, notice: None }
}

} // verus!
