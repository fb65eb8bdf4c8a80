//! What holds of every run of an installation, whatever comes of its calls.

use vstd::prelude::*;

use crate::call::Call;
use crate::config::InstallConfig;
use crate::error::InstallError;
use crate::filters::{filter_results, filter_views, gather, gathered, glob_errors, FilterFault};
use crate::ignition::{known_protocol, law_config_comes_from_where_asked, unprotected};
use crate::install::{awaited, first_stage, is_job_for, next_notice, next_stage, Event, Job, Stage};
use crate::location::{
    asks_for_image, lacks_signature, law_image_is_looked_for_in_order, law_image_may_be_installed,
    law_request_is_the_users, Location, Sources,
};
use crate::notice::Notice;
use crate::text::contents;

verus! {

/// How far an installation has come once its calls had `events` come of them.
pub open spec fn stage_after<'a>(job: &'a Job<'a>, events: Seq<Event>) -> Stage<'a>
    decreases events.len(),
{
    if events.len() == 0 {
        first_stage(job)
    } else {
        next_stage(job, stage_after(job, events.drop_last()), events.last())
    }
}

/// The call that event number `k` came of.
pub open spec fn call_at<'a>(job: &'a Job<'a>, events: Seq<Event>, k: int) -> Option<Call<'a>> {
    awaited(job, stage_after(job, events.take(k)))
}

/// The installation waits for the disk to be written.
pub open spec fn about_to_write<'a>(job: &'a Job<'a>, events: Seq<Event>) -> bool {
    awaited(job, stage_after(job, events)) matches Some(Call::WriteDisk { .. })
}

/// The installation ended well.
pub open spec fn completed<'a>(stage: Stage<'a>) -> bool {
    stage matches Stage::Over { outcome: Ok(_) }
}

proof fn lemma_next<'a>(job: &'a Job<'a>, events: Seq<Event>, k: int)
    requires
        0 <= k < events.len(),
    ensures
        stage_after(job, events.take(k + 1)) == next_stage(
            job,
            stage_after(job, events.take(k)),
            events[k],
        ),
{
    assert(events.take(k + 1).drop_last() =~= events.take(k));
}

/// The image was found to be one that may be installed.
pub open spec fn accepted(config: &InstallConfig, sources: Sources) -> bool {
    sources.count == 1 && (!lacks_signature(sources) || config.insecure)
}

/// At event number `k` the image was found to be one that may be installed.
pub open spec fn accepted_at<'a>(job: &'a Job<'a>, events: Seq<Event>, k: int) -> bool {
    &&& 0 <= k < events.len()
    &&& call_at(job, events, k) matches Some(Call::ListSources { .. })
    &&& events[k] matches Event::Offers { sources }
    &&& accepted(job.config, sources)
}

spec fn past_sources<'a>(stage: Stage<'a>) -> bool {
    match stage {
        Stage::Ignition { .. } => false,
        Stage::DasdProbe => false,
        Stage::DasdSectorSize => false,
        Stage::SectorSize => false,
        Stage::Osmet { .. } => false,
        Stage::Stream { .. } => false,
        Stage::Sources { .. } => false,
        Stage::Over { outcome } => outcome is Ok,
        _ => true,
    }
}

proof fn lemma_accepted<'a>(job: &'a Job<'a>, events: Seq<Event>)
    requires
        past_sources(stage_after(job, events)),
    ensures
        exists|k: int| accepted_at(job, events, k),
    decreases events.len(),
{
    assert(events.len() > 0);
    let before = events.drop_last();
    if past_sources(stage_after(job, before)) {
        lemma_accepted(job, before);
        let k = choose|k: int| accepted_at(job, before, k);
        assert(before.take(k) =~= events.take(k));
        assert(accepted_at(job, events, k));
    } else {
        let k = events.len() - 1;
        assert(events.take(k) =~= before);
        assert(accepted_at(job, events, k));
    }
}

/// A disk is written only with a single image, which is signed where it has to be unless the
/// user does without.
pub proof fn law_written_image_is_accepted<'a>(job: &'a Job<'a>, events: Seq<Event>)
    requires
        about_to_write(job, events),
    ensures
        exists|k: int| accepted_at(job, events, k),
{
    lemma_accepted(job, events);
}

/// At events number `k` and `k + 1` the device was found to be a block device, and one that
/// nothing uses.
pub open spec fn claimed_at<'a>(job: &'a Job<'a>, events: Seq<Event>, k: int) -> bool {
    &&& 0 <= k
    &&& k + 1 < events.len()
    &&& call_at(job, events, k) == Some(Call::ReadMetadata { device: job.device })
    &&& events[k] == Event::BlockDevice { block: true }
    &&& call_at(job, events, k + 1) == Some(Call::ClaimDevice { device: job.device })
    &&& events[k + 1] == Event::Done
}

/// A disk is written only when it was found to be a block device, and then to be in use by
/// nothing.
pub proof fn law_written_device_is_claimed<'a>(job: &'a Job<'a>, events: Seq<Event>)
    requires
        about_to_write(job, events),
    ensures
        exists|k: int| claimed_at(job, events, k),
{
    let n = events.len() as int;
    assert(events.take(n) =~= events);
    assert(stage_after(job, events.take(n)) is Write);
    assert(n > 0);
    lemma_next(job, events, n - 1);
    assert(stage_after(job, events.take(n - 1)) is Rewind);
    assert(n > 1) by {
        assert(n == 1 ==> events.take(n - 1).len() == 0);
    }
    lemma_next(job, events, n - 2);
    assert(stage_after(job, events.take(n - 2)) is Table);
    assert(n > 2) by {
        assert(n == 2 ==> events.take(n - 2).len() == 0);
    }
    lemma_next(job, events, n - 3);
    assert(stage_after(job, events.take(n - 3)) is Disk);
    assert(n > 3) by {
        assert(n == 3 ==> events.take(n - 3).len() == 0);
    }
    lemma_next(job, events, n - 4);
    assert(stage_after(job, events.take(n - 4)) is Save);
    assert(n > 4) by {
        assert(n == 4 ==> events.take(n - 4).len() == 0);
    }
    lemma_next(job, events, n - 5);
    assert(stage_after(job, events.take(n - 5)) is Claim);
    assert(n > 5) by {
        assert(n == 5 ==> events.take(n - 5).len() == 0);
    }
    lemma_next(job, events, n - 6);
    assert(stage_after(job, events.take(n - 6)) is Metadata);
    assert(claimed_at(job, events, n - 6));
}

/// At event number `k` it came out whether the disk could be written.
pub open spec fn wrote_at<'a>(job: &'a Job<'a>, events: Seq<Event>, k: int) -> bool {
    0 <= k < events.len() && call_at(job, events, k) matches Some(Call::WriteDisk { .. })
}

/// An installation that ends well has written the disk.
pub proof fn law_completed_has_written<'a>(job: &'a Job<'a>, events: Seq<Event>)
    requires
        completed(stage_after(job, events)),
    ensures
        exists|k: int| wrote_at(job, events, k) && events[k] == Event::Done,
{
    lemma_written(job, events);
}

proof fn lemma_written<'a>(job: &'a Job<'a>, events: Seq<Event>)
    requires
        completed(stage_after(job, events)) || stage_after(job, events) is BootFilesystems,
    ensures
        exists|k: int| wrote_at(job, events, k) && events[k] == Event::Done,
    decreases events.len(),
{
    assert(events.len() > 0);
    let before = events.drop_last();
    if stage_after(job, before) is Write {
        let k = events.len() - 1;
        assert(events.take(k) =~= before);
        assert(wrote_at(job, events, k) && events[k] == Event::Done);
    } else {
        lemma_written(job, before);
        let k = choose|k: int| wrote_at(job, before, k) && before[k] == Event::Done;
        assert(before.take(k) =~= events.take(k));
        assert(wrote_at(job, events, k) && events[k] == Event::Done);
    }
}

/// What an installation does right after it failed to write the disk. The partition table is
/// reset, so that nobody boots from a disk that was written in part, unless the user asked to
/// keep it as it is. Then the kept partitions are put aside, if there are any.
pub proof fn law_failed_write_is_cleaned_up<'a>(job: &'a Job<'a>, saved: bool, event: Event)
    requires
        event != Event::Done,
    ensures
        ({
            let next = next_stage(job, Stage::Write { saved }, event);
            &&& !job.config.preserve_on_error ==> awaited(job, next) == Some(
                Call::ResetPartitionTable { device: job.device },
            )
            &&& job.config.preserve_on_error && saved ==> awaited(job, next) == Some(
                Call::StashSavedPartitions,
            )
            &&& job.config.preserve_on_error && !saved ==> next == (Stage::Over {
                outcome: Err(InstallError::WriteFailed),
            })
        }),
{
}

/// After a failure to write the disk an installation does nothing but clean up, and it never
/// ends well.
pub proof fn law_failed_write_never_completes<'a>(job: &'a Job<'a>, events: Seq<Event>, k: int)
    requires
        wrote_at(job, events, k),
        events[k] != Event::Done,
    ensures
        match stage_after(job, events) {
            Stage::Reset => true,
            Stage::Stash => true,
            Stage::Over { outcome } => outcome is Err,
            _ => false,
        },
    decreases events.len(),
{
    let before = events.drop_last();
    if k == events.len() - 1 {
        assert(events.take(k) =~= before);
    } else {
        assert(before.take(k) =~= events.take(k));
        law_failed_write_never_completes(job, before, k);
    }
}

/// The partition table is never reset where the user asked to keep it, and kept partitions are
/// never put aside where it is reset.
pub proof fn law_cleanup_follows_request<'a>(job: &'a Job<'a>, events: Seq<Event>)
    ensures
        awaited(job, stage_after(job, events)) matches Some(Call::ResetPartitionTable { .. })
            ==> !job.config.preserve_on_error,
        awaited(job, stage_after(job, events)) matches Some(Call::StashSavedPartitions)
            ==> job.config.preserve_on_error,
{
    if events.len() > 0 {
        let before = stage_after(job, events.drop_last());
        assert(stage_after(job, events) == next_stage(job, before, events.last()));
    }
}

/// A call that fails ends the installation with an error that names the call, except that a
/// disk that could not be written is cleaned up first, and that filesystems that could not be
/// listed do no harm.
pub proof fn law_failed_call_ends_run<'a>(job: &'a Job<'a>, stage: Stage<'a>)
    requires
        !(stage is Over),
        !(stage is Write),
        !(stage is BootFilesystems),
    ensures
        awaited(job, stage) is Some,
        next_stage(job, stage, Event::Failed) == (Stage::Over {
            outcome: Err(InstallError::CallFailed { call: awaited(job, stage)->0 }),
        }),
{
}

/// How many calls at most an installation has behind it.
spec fn rank<'a>(stage: Stage<'a>) -> nat {
    match stage {
        Stage::Ignition { .. } => 0,
        Stage::DasdProbe => 1,
        Stage::DasdSectorSize => 2,
        Stage::SectorSize => 3,
        Stage::Osmet { .. } => 4,
        Stage::Stream { .. } => 5,
        Stage::Sources { .. } => 6,
        Stage::DasdRecheck => 7,
        Stage::DasdPrepare => 8,
        Stage::Open => 9,
        Stage::Metadata => 10,
        Stage::Claim => 11,
        Stage::Save => 12,
        Stage::Disk { .. } => 13,
        Stage::Table { .. } => 14,
        Stage::Rewind { .. } => 15,
        Stage::Write { .. } => 16,
        Stage::Stash => 17,
        Stage::Reset => 17,
        Stage::BootFilesystems => 17,
        Stage::Over { .. } => 18,
    }
}

proof fn lemma_rank<'a>(job: &'a Job<'a>, events: Seq<Event>)
    ensures
        rank(stage_after(job, events)) >= events.len() || stage_after(job, events) is Over,
    decreases events.len(),
{
    if events.len() > 0 {
        lemma_rank(job, events.drop_last());
    }
}

/// Every installation comes to its end, after 18 calls at most.
pub proof fn law_runs_end<'a>(job: &'a Job<'a>, events: Seq<Event>)
    requires
        events.len() >= 18,
    ensures
        stage_after(job, events) is Over,
{
    lemma_rank(job, events);
}

/// What an installation came to stays what it came to.
pub proof fn law_outcome_stays<'a>(job: &'a Job<'a>, stage: Stage<'a>, event: Event)
    requires
        stage is Over,
    ensures
        next_stage(job, stage, event) == stage,
        awaited(job, stage) is None,
{
}

/// An Ignition config is fetched only from the URL that the user gave, by a known protocol,
/// and over plain HTTP only where a digest or the user vouches for it.
pub proof fn law_download_is_protected<'a>(job: &'a Job<'a>, events: Seq<Event>)
    ensures
        awaited(job, stage_after(job, events)) matches Some(Call::DownloadIgnition { url, retries })
            ==> job.config.ignition_file is None && job.config.ignition_url == Some(*url) && retries
            == job.config.fetch_retries && known_protocol(url) && !unprotected(job.config, url),
    decreases events.len(),
{
    if events.len() > 0 {
        let before = stage_after(job, events.drop_last());
        assert(stage_after(job, events) == next_stage(job, before, events.last()));
    }
}

spec fn past_filters<'a>(stage: Stage<'a>) -> bool {
    match stage {
        Stage::Ignition { .. } => false,
        Stage::Over { outcome } => outcome is Ok,
        _ => true,
    }
}

proof fn lemma_filters<'a>(job: &'a Job<'a>, events: Seq<Event>)
    ensures
        past_filters(stage_after(job, events)) ==> job.filter_error is None,
    decreases events.len(),
{
    if events.len() > 0 {
        lemma_filters(job, events.drop_last());
    }
}

/// The partitions that are saved are those that the configuration names, all of them named
/// right.
pub proof fn law_saved_partitions_are_requested<'a>(
    job: &'a Job<'a>,
    config: &InstallConfig,
    s390x: bool,
    events: Seq<Event>,
)
    requires
        is_job_for(*job, config, s390x),
    ensures
        awaited(job, stage_after(job, events)) matches Some(Call::SavePartitions { filters, .. })
            ==> ({
            let labels = contents(config.save_partlabel@);
            let indexes = contents(config.save_partindex@);
            gathered(Ok(*filters), filter_results(labels, glob_errors(labels), indexes))
        }),
{
    lemma_filters(job, events);
}

/// A DASD is formatted only on an s390x, and only where no partitions of it are kept.
pub proof fn law_formatted_dasd_keeps_nothing<'a>(job: &'a Job<'a>, events: Seq<Event>)
    requires
        awaited(job, stage_after(job, events)) matches Some(Call::PrepareDasd { .. }),
    ensures
        job.s390x,
        job.filters@.len() == 0,
{
    assert(events.len() > 0);
    let before = events.drop_last();
    assert(stage_after(job, before) is DasdRecheck);
    assert(before.len() > 0);
    assert(stage_after(job, before.drop_last()) is Sources);
}

/// At event number `k` it came out that there are partitions to keep.
pub open spec fn saved_at<'a>(job: &'a Job<'a>, events: Seq<Event>, k: int) -> bool {
    &&& 0 <= k < events.len()
    &&& call_at(job, events, k) == Some(
        Call::SavePartitions { device: job.device, filters: &job.filters },
    )
    &&& events[k] == Event::Saved { saved: true }
}

spec fn remembers_saved<'a>(stage: Stage<'a>) -> bool {
    match stage {
        Stage::Disk { saved } => saved,
        Stage::Table { saved } => saved,
        Stage::Rewind { saved } => saved,
        Stage::Write { saved } => saved,
        Stage::Stash => true,
        _ => false,
    }
}

proof fn lemma_saved<'a>(job: &'a Job<'a>, events: Seq<Event>)
    requires
        remembers_saved(stage_after(job, events)),
    ensures
        exists|k: int| saved_at(job, events, k),
    decreases events.len(),
{
    assert(events.len() > 0);
    let before = events.drop_last();
    if remembers_saved(stage_after(job, before)) {
        lemma_saved(job, before);
        let k = choose|k: int| saved_at(job, before, k);
        assert(before.take(k) =~= events.take(k));
        assert(saved_at(job, events, k));
    } else {
        let k = events.len() - 1;
        assert(events.take(k) =~= before);
        assert(saved_at(job, events, k));
    }
}

/// Partitions are put aside only where there are some to keep.
pub proof fn law_stashed_partitions_were_saved<'a>(job: &'a Job<'a>, events: Seq<Event>)
    requires
        awaited(job, stage_after(job, events)) == Some(Call::StashSavedPartitions),
    ensures
        exists|k: int| saved_at(job, events, k),
{
    lemma_saved(job, events);
}

proof fn lemma_rank_grows<'a>(job: &'a Job<'a>, events: Seq<Event>, k: int)
    requires
        0 <= k < events.len(),
    ensures
        rank(stage_after(job, events)) > rank(stage_after(job, events.take(k))) || stage_after(
            job,
            events,
        ) is Over,
    decreases events.len(),
{
    let before = events.drop_last();
    if k == events.len() - 1 {
        assert(events.take(k) =~= before);
    } else {
        assert(before.take(k) =~= events.take(k));
        lemma_rank_grows(job, before, k);
    }
}

/// The disk is written once at most.
pub proof fn law_disk_is_written_once<'a>(job: &'a Job<'a>, events: Seq<Event>, k: int, l: int)
    requires
        wrote_at(job, events, k),
        wrote_at(job, events, l),
    ensures
        k == l,
{
    if k < l {
        assert(events.take(l).take(k) =~= events.take(k));
        lemma_rank_grows(job, events.take(l), k);
    } else if l < k {
        assert(events.take(k).take(l) =~= events.take(l));
        lemma_rank_grows(job, events.take(k), l);
    }
}

/// The installation is over, with the error.
pub open spec fn ended_with<'a>(stage: Stage<'a>, error: InstallError<'a>) -> bool {
    stage == (Stage::Over { outcome: Err(error) })
}

/// An installation starts with the Ignition config, from the file before the URL. Where none is
/// asked for it starts with the device, unless the partitions to keep are named wrong.
pub proof fn law_run_starts_with_ignition<'a>(job: &'a Job<'a>)
    ensures
        ({
            let config = job.config;
            let first = first_stage(job);
            let vouched = config.ignition_hash is Some || config.insecure_ignition;
            &&& config.ignition_file matches Some(path) ==> awaited(job, first) == Some(
                Call::OpenIgnition { path: &path },
            )
            &&& config.ignition_file is None ==> (config.ignition_url matches Some(url) ==> {
                &&& url.scheme@ == "https"@ || (url.scheme@ == "http"@ && vouched) ==> awaited(
                    job,
                    first,
                ) == Some(Call::DownloadIgnition { url: &url, retries: config.fetch_retries })
                &&& url.scheme@ == "http"@ && !vouched ==> ended_with(
                    first,
                    InstallError::UnprotectedIgnition,
                )
                &&& url.scheme@ != "http"@ && url.scheme@ != "https"@ ==> ended_with(
                    first,
                    InstallError::UnknownProtocol { url: &url },
                )
            })
            &&& config.ignition_file is None && config.ignition_url is None ==> {
                &&& job.filter_error is None ==> awaited(job, first) == Some(
                    Call::ProbeDasd { device: job.device },
                )
                &&& job.filter_error matches Some(error) ==> ended_with(
                    first,
                    InstallError::Filter { error: &error },
                )
            }
        }),
{
    law_config_comes_from_where_asked(job.config);
}

/// Once the Ignition config is there, the device is looked at, unless the partitions to keep are
/// named wrong.
pub proof fn law_device_follows_ignition<'a>(job: &'a Job<'a>, stage: Stage<'a>)
    requires
        awaited(job, stage) is Some,
        awaited(job, stage)->0 is OpenIgnition || awaited(job, stage)->0 is DownloadIgnition,
    ensures
        ({
            let next = next_stage(job, stage, Event::Done);
            &&& job.filter_error is None ==> awaited(job, next) == Some(
                Call::ProbeDasd { device: job.device },
            )
            &&& job.filter_error matches Some(error) ==> ended_with(
                next,
                InstallError::Filter { error: &error },
            )
        }),
{
}

/// An s390x asks a DASD for its sector size first, and the device in the usual way only where the
/// DASD does not know. Any other disk is asked in the usual way.
pub proof fn law_sector_size_is_asked_for<'a>(job: &'a Job<'a>, stage: Stage<'a>, dasd: bool)
    requires
        awaited(job, stage) is Some,
    ensures
        awaited(job, stage)->0 is ProbeDasd ==> awaited(
            job,
            next_stage(job, stage, Event::Dasd { dasd }),
        ) == Some(
            if job.s390x && dasd {
                Call::ReadDasdSectorSize { device: job.device }
            } else {
                Call::ReadSectorSize { device: job.device }
            },
        ),
        awaited(job, stage)->0 is ReadDasdSectorSize ==> awaited(
            job,
            next_stage(job, stage, Event::DasdSectorSize { known: None }),
        ) == Some(Call::ReadSectorSize { device: job.device }),
{
}

/// The image is looked for where the user wants it from, for a disk with such sectors: in the
/// file, else at the URL, else in the stream if one is named and the network may be used, and
/// else in the running system.
pub open spec fn looks_for_image<'a>(job: &'a Job<'a>, sector_size: u32, stage: Stage<'a>) -> bool {
    let config = job.config;
    let call = awaited(job, stage);
    &&& config.image_file matches Some(path) ==> call == Some(
        Call::ListSources { location: Location::File { path: &path } },
    )
    &&& config.image_file is None ==> (config.image_url matches Some(url) ==> call == Some(
        Call::ListSources {
            location: Location::Url { url: &url, retries: config.fetch_retries },
        },
    ))
    &&& config.image_file is None && config.image_url is None ==> {
        &&& config.stream is Some && !config.offline ==> asks_stream(job, sector_size, stage)
        &&& config.stream is None || config.offline ==> call == Some(
            Call::FindOsmet { architecture: &config.architecture, sector_size },
        )
    }
}

/// A stream is asked for the image that the user asked for, for a disk with such sectors.
pub open spec fn asks_stream<'a>(job: &'a Job<'a>, sector_size: u32, stage: Stage<'a>) -> bool {
    awaited(job, stage) matches Some(Call::OpenStream { request }) && asks_for_image(
        job.config,
        sector_size,
        request,
    )
}

/// The image is looked for once the sector size is known, whoever told it.
pub proof fn law_image_is_looked_for<'a>(job: &'a Job<'a>, stage: Stage<'a>, sector_size: u32)
    requires
        awaited(job, stage) is Some,
    ensures
        awaited(job, stage)->0 is ReadSectorSize ==> looks_for_image(
            job,
            sector_size,
            next_stage(job, stage, Event::SectorSize { sector_size }),
        ),
        awaited(job, stage)->0 is ReadDasdSectorSize ==> looks_for_image(
            job,
            sector_size,
            next_stage(job, stage, Event::DasdSectorSize { known: Some(sector_size) }),
        ),
{
    law_image_is_looked_for_in_order(job.config);
    law_request_is_the_users(job.config, sector_size);
}

/// Where the running system cannot rebuild the image, a stream is asked for one that is made for
/// the same sectors, unless the network is ruled out.
pub proof fn law_stream_follows_osmet<'a>(
    job: &'a Job<'a>,
    stage: Stage<'a>,
    architecture: &'a String,
    sector_size: u32,
)
    requires
        awaited(job, stage) == Some(Call::FindOsmet { architecture, sector_size }),
    ensures
        awaited(job, next_stage(job, stage, Event::Osmet { found: true })) == Some(
            Call::ListSources { location: Location::Osmet { architecture, sector_size } },
        ),
        architecture@ == job.config.architecture@,
        job.config.offline ==> ended_with(
            next_stage(job, stage, Event::Osmet { found: false }),
            InstallError::OfflineMetadataMissing,
        ),
        !job.config.offline ==> asks_stream(
            job,
            sector_size,
            next_stage(job, stage, Event::Osmet { found: false }),
        ),
{
    law_request_is_the_users(job.config, sector_size);
}

/// What a stream was asked for is what is listed then.
pub proof fn law_stream_is_listed<'a>(job: &'a Job<'a>, stage: Stage<'a>)
    requires
        awaited(job, stage) is Some,
        awaited(job, stage)->0 is OpenStream,
    ensures
        awaited(job, stage) matches Some(Call::OpenStream { request }) && awaited(
            job,
            next_stage(job, stage, Event::Done),
        ) == Some(Call::ListSources { location: Location::Stream { request } }),
{
}

/// The device is not touched before there is a single image, signed where it has to be unless the
/// user does without. An s390x then looks once more whether the disk is a DASD.
pub proof fn law_device_follows_image<'a>(job: &'a Job<'a>, stage: Stage<'a>, sources: Sources)
    requires
        awaited(job, stage) is Some,
        awaited(job, stage)->0 is ListSources,
    ensures
        ({
            let next = next_stage(job, stage, Event::Offers { sources });
            let unsigned = !sources.signed && sources.require_signature;
            &&& sources.count == 0 ==> ended_with(next, InstallError::NoArtifacts)
            &&& sources.count >= 2 ==> ended_with(next, InstallError::MultipleArtifacts)
            &&& sources.count == 1 && unsigned && !job.config.insecure ==> ended_with(
                next,
                InstallError::SignatureMissing,
            )
            &&& sources.count == 1 && (!unsigned || job.config.insecure) ==> awaited(job, next)
                == Some(
                if job.s390x {
                    Call::RecheckDasd { device: job.device }
                } else {
                    Call::OpenDevice { device: job.device }
                },
            )
        }),
{
    law_image_may_be_installed(job.config, sources);
}

/// A DASD is formatted before it is opened, but not where partitions of it are to be kept. Any
/// other disk is opened as it is.
pub proof fn law_dasd_is_formatted_first<'a>(job: &'a Job<'a>, stage: Stage<'a>, dasd: bool)
    requires
        awaited(job, stage) is Some,
    ensures
        awaited(job, stage)->0 is RecheckDasd ==> ({
            let next = next_stage(job, stage, Event::Dasd { dasd });
            &&& !dasd ==> awaited(job, next) == Some(Call::OpenDevice { device: job.device })
            &&& dasd && job.filters@.len() > 0 ==> ended_with(next, InstallError::DasdPartitions)
            &&& dasd && job.filters@.len() == 0 ==> awaited(job, next) == Some(
                Call::PrepareDasd { device: job.device },
            )
        }),
        awaited(job, stage)->0 is PrepareDasd ==> awaited(job, next_stage(job, stage, Event::Done))
            == Some(Call::OpenDevice { device: job.device }),
{
}

/// The device is opened, found to be a block device, claimed, searched for the partitions to
/// keep, and rewound, one after the other, and then it is written.
pub proof fn law_device_is_readied_in_order<'a>(job: &'a Job<'a>, stage: Stage<'a>, saved: bool)
    requires
        awaited(job, stage) is Some,
    ensures
        ({
            let call = awaited(job, stage)->0;
            let device = job.device;
            let done = next_stage(job, stage, Event::Done);
            &&& call is OpenDevice ==> awaited(job, done) == Some(Call::ReadMetadata { device })
            &&& call is ReadMetadata ==> awaited(
                job,
                next_stage(job, stage, Event::BlockDevice { block: true }),
            ) == Some(Call::ClaimDevice { device })
            &&& call is ReadMetadata ==> ended_with(
                next_stage(job, stage, Event::BlockDevice { block: false }),
                InstallError::NotBlockDevice { device },
            )
            &&& call is ClaimDevice ==> awaited(job, done) == Some(
                Call::SavePartitions { device, filters: &job.filters },
            )
            &&& call is SavePartitions ==> awaited(
                job,
                next_stage(job, stage, Event::Saved { saved }),
            ) == Some(Call::OpenDisk { device })
            &&& call is OpenDisk ==> awaited(job, done) == Some(Call::ReadTable { device })
            &&& call is ReadTable ==> awaited(job, done) == Some(Call::SeekStart { device })
            &&& call is SeekStart ==> awaited(job, done) is Some && awaited(job, done)->0
                is WriteDisk
        }),
{
}

/// A disk that was written is followed by a look at other boot filesystems, and that ends the
/// installation well whatever comes of it. Cleaning up ends it with the error that the disk could
/// not be written.
pub proof fn law_run_ends_after_writing<'a>(job: &'a Job<'a>, stage: Stage<'a>, event: Event)
    requires
        awaited(job, stage) is Some,
    ensures
        ({
            let call = awaited(job, stage)->0;
            let done = next_stage(job, stage, Event::Done);
            &&& call is WriteDisk ==> awaited(job, done) == Some(Call::<'a>::ListBootFilesystems)
            &&& call is ListBootFilesystems ==> next_stage(job, stage, event) == (Stage::Over {
                outcome: Ok(()),
            })
            &&& call is StashSavedPartitions ==> ended_with(done, InstallError::WriteFailed)
            &&& call is ResetPartitionTable ==> ended_with(done, InstallError::WriteFailed)
        }),
{
}

/// The event is one that the call was made for, and no failure.
pub open spec fn answers<'a>(call: Call<'a>, event: Event) -> bool {
    match call {
        Call::ProbeDasd { .. } => event is Dasd,
        Call::RecheckDasd { .. } => event is Dasd,
        Call::ReadDasdSectorSize { .. } => event is DasdSectorSize,
        Call::ReadSectorSize { .. } => event is SectorSize,
        Call::FindOsmet { .. } => event is Osmet,
        Call::ListSources { .. } => event is Offers,
        Call::ReadMetadata { .. } => event is BlockDevice,
        Call::SavePartitions { .. } => event is Saved,
        _ => event is Done,
    }
}

/// What does not answer a call counts as its failure.
pub proof fn law_wrong_answer_is_a_failure<'a>(job: &'a Job<'a>, stage: Stage<'a>, event: Event)
    requires
        awaited(job, stage) is Some,
        !answers(awaited(job, stage)->0, event),
    ensures
        next_stage(job, stage, event) == next_stage(job, stage, Event::Failed),
        next_notice(job, stage, event) == next_notice(job, stage, Event::Failed),
{
}

/// All calls that concern a device concern the one that is installed to.
pub proof fn law_calls_concern_the_device<'a>(job: &'a Job<'a>, stage: Stage<'a>)
    requires
        awaited(job, stage) is Some,
    ensures
        match awaited(job, stage)->0 {
            Call::ProbeDasd { device } => device == job.device,
            Call::ReadDasdSectorSize { device } => device == job.device,
            Call::ReadSectorSize { device } => device == job.device,
            Call::RecheckDasd { device } => device == job.device,
            Call::PrepareDasd { device } => device == job.device,
            Call::OpenDevice { device } => device == job.device,
            Call::ReadMetadata { device } => device == job.device,
            Call::ClaimDevice { device } => device == job.device,
            Call::SavePartitions { device, filters } => device == job.device && filters@
                == job.filters@,
            Call::OpenDisk { device } => device == job.device,
            Call::ReadTable { device } => device == job.device,
            Call::SeekStart { device } => device == job.device,
            Call::WriteDisk { device, .. } => device == job.device,
            Call::ResetPartitionTable { device } => device == job.device,
            _ => true,
        },
{
}

/// A disk is written with an Ignition config exactly if one is asked for, from a file or from a
/// URL, and with the network configuration of the directory that was named exactly if it is to be
/// copied.
pub proof fn law_disk_is_written_as_asked<'a>(job: &'a Job<'a>, stage: Stage<'a>)
    ensures
        awaited(job, stage) matches Some(Call::WriteDisk { device, ignition, network_config }) ==> {
            &&& device == job.device
            &&& ignition <==> job.config.ignition_file is Some || job.config.ignition_url is Some
            &&& network_config is Some <==> job.config.copy_network
            &&& network_config is Some ==> network_config->0@ == job.config.network_dir@
        },
{
}

/// At event number `k` the Ignition config was there.
pub open spec fn fetched_at<'a>(job: &'a Job<'a>, events: Seq<Event>, k: int) -> bool {
    &&& 0 <= k < events.len()
    &&& call_at(job, events, k) is Some
    &&& call_at(job, events, k)->0 is OpenIgnition || call_at(job, events, k)->0 is DownloadIgnition
    &&& events[k] == Event::Done
}

spec fn past_ignition<'a>(stage: Stage<'a>) -> bool {
    !(stage is Ignition) && !(stage is Over)
}

proof fn lemma_fetched<'a>(job: &'a Job<'a>, events: Seq<Event>)
    requires
        past_ignition(stage_after(job, events)),
        job.config.ignition_file is Some || job.config.ignition_url is Some,
    ensures
        exists|k: int| #[trigger] fetched_at(job, events, k),
    decreases events.len(),
{
    assert(events.len() > 0);
    let before = events.drop_last();
    if past_ignition(stage_after(job, before)) {
        lemma_fetched(job, before);
        let k = choose|k: int| #[trigger] fetched_at(job, before, k);
        assert(before.take(k) =~= events.take(k));
        assert(fetched_at(job, events, k));
    } else {
        let k = events.len() - 1;
        assert(events.take(k) =~= before);
        assert(fetched_at(job, events, k));
    }
}

proof fn lemma_ignition_is_asked_for<'a>(job: &'a Job<'a>, events: Seq<Event>)
    requires
        stage_after(job, events) is Ignition,
    ensures
        job.config.ignition_file is Some || job.config.ignition_url is Some,
{
    if events.len() > 0 {
        let before = stage_after(job, events.drop_last());
        assert(stage_after(job, events) == next_stage(job, before, events.last()));
    }
}

/// An Ignition config that was fetched is embedded: the disk is written with one exactly if a
/// call for one was made before, and succeeded.
pub proof fn law_fetched_config_is_embedded<'a>(job: &'a Job<'a>, events: Seq<Event>)
    ensures
        awaited(job, stage_after(job, events)) matches Some(Call::WriteDisk { ignition, .. }) ==> (
        ignition <==> exists|k: int| #[trigger] fetched_at(job, events, k)),
{
    let stage = stage_after(job, events);
    law_disk_is_written_as_asked(job, stage);
    if stage is Write {
        if job.config.ignition_file is Some || job.config.ignition_url is Some {
            lemma_fetched(job, events);
        } else if exists|k: int| #[trigger] fetched_at(job, events, k) {
            let k = choose|k: int| #[trigger] fetched_at(job, events, k);
            lemma_ignition_is_asked_for(job, events.take(k));
        }
    }
}

/// At event number `k` it came out whether there are partitions to keep.
pub open spec fn searched_at<'a>(
    job: &'a Job<'a>,
    events: Seq<Event>,
    k: int,
    saved: bool,
) -> bool {
    &&& 0 <= k < events.len()
    &&& call_at(job, events, k) is Some
    &&& call_at(job, events, k)->0 is SavePartitions
    &&& events[k] == Event::Saved { saved }
}

spec fn remembered<'a>(stage: Stage<'a>) -> Option<bool> {
    match stage {
        Stage::Disk { saved } => Some(saved),
        Stage::Table { saved } => Some(saved),
        Stage::Rewind { saved } => Some(saved),
        Stage::Write { saved } => Some(saved),
        _ => None,
    }
}

proof fn lemma_remembered<'a>(job: &'a Job<'a>, events: Seq<Event>, saved: bool)
    requires
        remembered(stage_after(job, events)) == Some(saved),
    ensures
        exists|k: int| #[trigger] searched_at(job, events, k, saved),
    decreases events.len(),
{
    assert(events.len() > 0);
    let before = events.drop_last();
    if remembered(stage_after(job, before)) is Some {
        lemma_remembered(job, before, saved);
        let k = choose|k: int| #[trigger] searched_at(job, before, k, saved);
        assert(before.take(k) =~= events.take(k));
        assert(searched_at(job, events, k, saved));
    } else {
        let k = events.len() - 1;
        assert(events.take(k) =~= before);
        assert(searched_at(job, events, k, saved));
    }
}

/// What is done after a failure to write the disk goes by what was found on the disk before: kept
/// partitions are put aside exactly if there were any, and the user wants the table left alone.
pub proof fn law_cleanup_goes_by_what_was_saved<'a>(
    job: &'a Job<'a>,
    events: Seq<Event>,
    event: Event,
)
    requires
        about_to_write(job, events),
        event != Event::Done,
    ensures
        exists|k: int, saved: bool| #[trigger]
            searched_at(job, events, k, saved) && {
                let next = next_stage(job, stage_after(job, events), event);
                &&& !job.config.preserve_on_error ==> awaited(job, next) == Some(
                    Call::ResetPartitionTable { device: job.device },
                )
                &&& job.config.preserve_on_error && saved ==> awaited(job, next) == Some(
                    Call::<'a>::StashSavedPartitions,
                )
                &&& job.config.preserve_on_error && !saved ==> ended_with(
                    next,
                    InstallError::WriteFailed,
                )
            },
{
    let stage = stage_after(job, events);
    let saved = stage->Write_saved;
    assert(remembered(stage) == Some(saved));
    lemma_remembered(job, events, saved);
    let k = choose|k: int| #[trigger] searched_at(job, events, k, saved);
    assert(searched_at(job, events, k, saved));
}

/// The user is told that a signature is not checked exactly where one is owed, missing and done
/// without, that the table is preserved exactly where the disk could not be written and that was
/// asked for, and that the installation is complete exactly where it ends well.
pub proof fn law_user_is_told<'a>(job: &'a Job<'a>, stage: Stage<'a>, event: Event)
    requires
        awaited(job, stage) is Some,
    ensures
        next_notice(job, stage, event) == Some(Notice::<'a>::SignatureSkipped) <==> (awaited(
            job,
            stage,
        )->0 is ListSources && (event matches Event::Offers { sources } && sources.count == 1
            && !sources.signed && sources.require_signature && job.config.insecure)),
        next_notice(job, stage, event) == Some(Notice::<'a>::TablePreserved) <==> (awaited(
            job,
            stage,
        )->0 is WriteDisk && event != Event::Done && job.config.preserve_on_error),
        next_notice(job, stage, event) == Some(Notice::<'a>::Complete) <==> next_stage(
            job,
            stage,
            event,
        ) == (Stage::Over { outcome: Ok(()) }),
{
}

/// The user is told of a sector size exactly where a stream is asked for an image and the size is
/// neither 512 nor 4096.
pub proof fn law_user_is_told_of_odd_sectors<'a>(
    job: &'a Job<'a>,
    stage: Stage<'a>,
    event: Event,
    sector_size: u32,
)
    requires
        awaited(job, stage) is Some,
        event == (Event::SectorSize { sector_size }) || event == (Event::DasdSectorSize {
            known: Some(sector_size),
        }) || (awaited(job, stage) matches Some(Call::FindOsmet { sector_size: n, .. }) && n
            == sector_size),
    ensures
        ({
            let call = awaited(job, next_stage(job, stage, event));
            let odd = sector_size != 512 && sector_size != 4096;
            let asked = call is Some && call->0 is OpenStream;
            &&& asked && odd ==> next_notice(job, stage, event) == Some(
                Notice::OddSectorSize { sector_size, device: job.device },
            )
            &&& !(asked && odd) ==> !(next_notice(job, stage, event) is Some && next_notice(
                job,
                stage,
                event,
            )->0 is OddSectorSize)
        }),
{
}

/// Nothing is said of sector sizes where no stream is asked next.
pub proof fn law_user_is_told_of_sectors_only_for_streams<'a>(
    job: &'a Job<'a>,
    stage: Stage<'a>,
    event: Event,
)
    requires
        awaited(job, stage) is Some,
        next_notice(job, stage, event) is Some,
        next_notice(job, stage, event)->0 is OddSectorSize,
    ensures
        awaited(job, next_stage(job, stage, event)) is Some,
        awaited(job, next_stage(job, stage, event))->0 is OpenStream,
{
}

/// The installation that is taken on is the one that was asked for: for the device and the
/// machine, with the partitions to keep that the configuration names, or with what is wrong with
/// them.
pub proof fn law_job_is_what_was_asked_for(job: Job, config: &InstallConfig, s390x: bool)
    requires
        is_job_for(job, config, s390x),
    ensures
        ({
            let labels = contents(config.save_partlabel@);
            let indexes = contents(config.save_partindex@);
            let wanted = gather(filter_results(labels, glob_errors(labels), indexes));
            &&& job.config == config
            &&& config.dest_device == Some(*job.device)
            &&& job.s390x == s390x
            &&& job.filter_error is None ==> wanted == Ok::<_, FilterFault>(
                filter_views(job.filters@),
            )
            &&& job.filter_error matches Some(error) ==> wanted == Err::<
                Seq<crate::filters::Filter>,
                _,
            >(error@) && job.filters@.len() == 0
        }),
{
}

} // verus!
