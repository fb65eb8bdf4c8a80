use coreos_install::call::Call;
use coreos_install::config::{FetchRetries, InstallConfig, Url};
use coreos_install::error::InstallError;
use coreos_install::filters::FilterError;
use coreos_install::ignition::{find_ignition, IgnitionSource};
use coreos_install::install::{begin, install, pending, step, Event, Job, Stage};
use coreos_install::location::{
    begin_search, check_sources, choose_format, make_stream_request, ImageFormat, Location,
    Search, Sources, StreamName,
};
use coreos_install::notice::Notice;

fn config() -> InstallConfig {
    InstallConfig {
        dest_device: Some("/dev/sda".to_string()),
        ignition_file: None,
        ignition_url: None,
        ignition_hash: None,
        insecure_ignition: false,
        fetch_retries: FetchRetries::Times(3),
        copy_network: false,
        network_dir: "/net".to_string(),
        save_partlabel: vec![],
        save_partindex: vec![],
        image_file: Some("image.raw".to_string()),
        image_url: None,
        offline: false,
        architecture: "x86_64".to_string(),
        stream: None,
        stream_base_url: None,
        insecure: false,
        preserve_on_error: false,
        firstboot_args: None,
        append_karg: vec![],
        delete_karg: vec![],
        platform: None,
    }
}

fn url(scheme: &str) -> Url {
    Url {
        scheme: scheme.to_string(),
        text: format!("{}://example.com/x", scheme),
    }
}

fn offers(count: usize, signed: bool, require_signature: bool) -> Event {
    Event::Offers {
        sources: Sources {
            count,
            signed,
            require_signature,
        },
    }
}

/// Runs through `events` and gives the calls that were made, the notices, and the last stage.
fn run<'a>(
    job: &'a Job<'a>,
    events: &[Event],
) -> (Vec<Call<'a>>, Vec<Notice<'a>>, Stage<'a>) {
    let mut stage = begin(job);
    let mut calls = vec![];
    let mut notices = vec![];
    for event in events {
        calls.extend(pending(job, stage));
        let turn = step(job, stage, *event);
        notices.extend(turn.notice);
        stage = turn.stage;
    }
    (calls, notices, stage)
}

fn refused<'a>(error: InstallError<'a>) -> Stage<'a> {
    Stage::Over { outcome: Err(error) }
}

/// The events of an installation from a file that works, up to where the disk is written.
fn until_write(saved: bool) -> Vec<Event> {
    vec![
        Event::Dasd { dasd: false },
        Event::SectorSize { sector_size: 512 },
        offers(1, true, true),
        Event::Done,
        Event::BlockDevice { block: true },
        Event::Done,
        Event::Saved { saved },
        Event::Done,
        Event::Done,
        Event::Done,
    ]
}

#[test]
fn device_is_needed() {
    let mut config = config();
    config.dest_device = None;
    let error = install(&config, false).unwrap_err();
    assert_eq!(error, InstallError::DeviceMissing);
    assert_eq!(
        error.message().unwrap(),
        "destination device must be specified"
    );
}

#[test]
fn whole_installation_from_a_file() {
    let config = config();
    let job = install(&config, false).unwrap();
    let device = job.device;
    let mut events = until_write(false);
    events.extend([Event::Done, Event::Done]);
    let (calls, notices, stage) = run(&job, &events);
    assert_eq!(
        calls,
        vec![
            Call::ProbeDasd { device },
            Call::ReadSectorSize { device },
            Call::ListSources {
                location: Location::File {
                    path: config.image_file.as_ref().unwrap()
                }
            },
            Call::OpenDevice { device },
            Call::ReadMetadata { device },
            Call::ClaimDevice { device },
            Call::SavePartitions {
                device,
                filters: &job.filters
            },
            Call::OpenDisk { device },
            Call::ReadTable { device },
            Call::SeekStart { device },
            Call::WriteDisk {
                device,
                ignition: false,
                network_config: None
            },
            Call::ListBootFilesystems,
        ]
    );
    assert_eq!(notices, vec![Notice::Complete]);
    assert_eq!(stage, Stage::Over { outcome: Ok(()) });
    assert_eq!(pending(&job, stage), None);
    assert_eq!(step(&job, stage, Event::Failed).stage, stage);
}

#[test]
fn boot_filesystems_that_cannot_be_listed_do_no_harm() {
    let config = config();
    let job = install(&config, false).unwrap();
    let mut events = until_write(false);
    events.extend([Event::Done, Event::Failed]);
    assert_eq!(run(&job, &events).2, Stage::Over { outcome: Ok(()) });
}

#[test]
fn failed_write_resets_the_table() {
    let config = config();
    let job = install(&config, false).unwrap();
    let device = job.device;
    let mut events = until_write(true);
    events.push(Event::Failed);
    let (_, notices, stage) = run(&job, &events);
    assert_eq!(notices, vec![]);
    let call = Call::ResetPartitionTable { device };
    assert_eq!(pending(&job, stage), Some(call));
    assert_eq!(
        step(&job, stage, Event::Done).stage,
        refused(InstallError::WriteFailed)
    );
    assert_eq!(
        step(&job, stage, Event::Failed).stage,
        refused(InstallError::CallFailed { call })
    );
    assert_eq!(call.context(), None);
    assert_eq!(
        InstallError::WriteFailed.message().unwrap(),
        "install failed"
    );
}

#[test]
fn failed_write_keeps_the_table_on_request() {
    let mut config = config();
    config.preserve_on_error = true;
    let job = install(&config, false).unwrap();
    let mut events = until_write(true);
    events.push(Event::Failed);
    let (_, notices, stage) = run(&job, &events);
    assert_eq!(notices, vec![Notice::TablePreserved]);
    assert_eq!(pending(&job, stage), Some(Call::StashSavedPartitions));
    assert_eq!(
        step(&job, stage, Event::Done).stage,
        refused(InstallError::WriteFailed)
    );
    let mut events = until_write(false);
    events.push(Event::Failed);
    assert_eq!(run(&job, &events).2, refused(InstallError::WriteFailed));
    assert_eq!(
        Notice::TablePreserved.text(),
        "Preserving partition table as requested"
    );
}

#[test]
fn failed_calls_are_named() {
    let config = config();
    let job = install(&config, false).unwrap();
    let device = job.device;
    let expected = [
        (
            Call::ProbeDasd { device },
            Some("checking whether /dev/sda is an IBM DASD disk"),
        ),
        (
            Call::ReadSectorSize { device },
            Some("getting sector size of /dev/sda"),
        ),
        (
            Call::ListSources {
                location: Location::File {
                    path: config.image_file.as_ref().unwrap(),
                },
            },
            None,
        ),
        (Call::OpenDevice { device }, Some("opening /dev/sda")),
        (
            Call::ReadMetadata { device },
            Some("getting metadata for /dev/sda"),
        ),
        (
            Call::ClaimDevice { device },
            Some("checking for exclusive access to /dev/sda"),
        ),
        (
            Call::SavePartitions {
                device,
                filters: &job.filters,
            },
            Some("saving partitions from /dev/sda"),
        ),
        (Call::OpenDisk { device }, None),
        (
            Call::ReadTable { device },
            Some("getting partition table for /dev/sda"),
        ),
        (Call::SeekStart { device }, Some("seeking /dev/sda")),
    ];
    let events = until_write(false);
    for (k, (call, context)) in expected.iter().enumerate() {
        let mut events = events[..k].to_vec();
        events.push(Event::Failed);
        let error = InstallError::CallFailed { call: *call };
        assert_eq!(run(&job, &events).2, refused(error));
        assert_eq!(error.message().as_deref(), *context);
    }
}

#[test]
fn wrong_answer_counts_as_failure() {
    let config = config();
    let job = install(&config, false).unwrap();
    let device = job.device;
    assert_eq!(
        step(&job, Stage::Claim, Event::Osmet { found: true }).stage,
        refused(InstallError::CallFailed {
            call: Call::ClaimDevice { device }
        })
    );
}

#[test]
fn device_must_be_a_block_device() {
    let config = config();
    let job = install(&config, false).unwrap();
    let mut events = until_write(false)[..4].to_vec();
    events.push(Event::BlockDevice { block: false });
    let error = InstallError::NotBlockDevice { device: job.device };
    assert_eq!(run(&job, &events).2, refused(error));
    assert_eq!(error.message().unwrap(), "/dev/sda is not a block device");
}

#[test]
fn ignition_file_goes_first() {
    let mut config = config();
    config.ignition_file = Some("a.ign".to_string());
    config.ignition_url = Some(url("ftp"));
    let path = config.ignition_file.as_ref().unwrap();
    assert_eq!(
        find_ignition(&config),
        Ok(Some(IgnitionSource::File { path }))
    );
    let job = install(&config, false).unwrap();
    let call = Call::OpenIgnition { path };
    assert_eq!(pending(&job, begin(&job)), Some(call));
    assert_eq!(
        call.context().unwrap(),
        "opening source Ignition config a.ign"
    );
    let mut events = vec![Event::Done];
    events.extend(until_write(false));
    let stage = run(&job, &events).2;
    assert!(matches!(
        pending(&job, stage),
        Some(Call::WriteDisk { ignition: true, .. })
    ));
}

#[test]
fn plain_http_needs_a_digest_or_permission() {
    let mut config = config();
    config.ignition_url = Some(url("http"));
    assert_eq!(
        find_ignition(&config),
        Err(InstallError::UnprotectedIgnition)
    );
    assert_eq!(
        InstallError::UnprotectedIgnition.message().unwrap(),
        "refusing to fetch Ignition config over HTTP without --ignition-hash or --insecure-ignition"
    );
    let job = install(&config, false).unwrap();
    assert_eq!(begin(&job), refused(InstallError::UnprotectedIgnition));

    let mut with_hash = config.clone();
    with_hash.ignition_hash = Some("sha256-0".to_string());
    let mut permitted = config.clone();
    permitted.insecure_ignition = true;
    let mut protected = config.clone();
    protected.ignition_url = Some(url("https"));
    for config in [with_hash, permitted, protected] {
        let url = config.ignition_url.as_ref().unwrap();
        let call = Call::DownloadIgnition {
            url,
            retries: FetchRetries::Times(3),
        };
        let job = install(&config, false).unwrap();
        assert_eq!(pending(&job, begin(&job)), Some(call));
        assert_eq!(
            call.context().unwrap(),
            format!("downloading source Ignition config {}", url.text)
        );
    }
}

#[test]
fn unknown_protocols_are_refused() {
    let mut config = config();
    config.ignition_url = Some(url("ftp"));
    config.insecure_ignition = true;
    let error = find_ignition(&config).unwrap_err();
    assert_eq!(
        error.message().unwrap(),
        "unknown protocol for URL 'ftp://example.com/x'"
    );
}

#[test]
fn bad_filters_come_up_after_the_ignition_config() {
    let mut config = config();
    config.ignition_file = Some("a.ign".to_string());
    config.save_partindex = vec!["0".to_string()];
    let job = install(&config, false).unwrap();
    assert_eq!(job.filter_error, Some(FilterError::ZeroIndex));
    assert!(job.filters.is_empty());
    let stage = begin(&job);
    assert!(matches!(stage, Stage::Ignition { .. }));
    let error = InstallError::Filter {
        error: &FilterError::ZeroIndex,
    };
    assert_eq!(step(&job, stage, Event::Done).stage, refused(error));
    assert_eq!(error.message().unwrap(), "partition index cannot be zero");
}

#[test]
fn errors_carry_their_cause() {
    let mut config = config();
    config.save_partindex = vec!["23q".to_string()];
    let job = install(&config, false).unwrap();
    let error = InstallError::Filter {
        error: job.filter_error.as_ref().unwrap(),
    };
    assert_eq!(
        error.message().unwrap(),
        "couldn't parse partition index '23q'"
    );
    assert_eq!(error.cause().unwrap(), "invalid digit found in string");
    assert_eq!(InstallError::NoArtifacts.cause(), None);
}

#[test]
fn failures_without_a_message_are_reported() {
    let device = "/dev/sda".to_string();
    let write = Call::WriteDisk {
        device: &device,
        ignition: false,
        network_config: None,
    };
    assert_eq!(write.report("broken").unwrap(), "\nError: broken\n");
    assert_eq!(
        Call::ListBootFilesystems.report("broken").unwrap(),
        "checking filesystems labeled 'boot': broken"
    );
    assert_eq!(Call::OpenDisk { device: &device }.report("broken"), None);
}

#[test]
fn filters_are_saved() {
    let mut config = config();
    config.save_partlabel = vec!["data*".to_string()];
    config.save_partindex = vec!["5-".to_string()];
    let job = install(&config, false).unwrap();
    assert_eq!(job.filters.len(), 2);
    assert_eq!(job.filter_error, None);
}

#[test]
fn network_configuration_is_handed_on() {
    let mut config = config();
    config.copy_network = true;
    let job = install(&config, false).unwrap();
    assert_eq!(
        pending(&job, Stage::Write { saved: false }),
        Some(Call::WriteDisk {
            device: job.device,
            ignition: false,
            network_config: Some(&config.network_dir)
        })
    );
}

#[test]
fn image_sources_in_order() {
    let mut config = config();
    config.image_url = Some(url("https"));
    let path = config.image_file.as_ref().unwrap();
    assert_eq!(
        begin_search(&config),
        Search::At {
            location: Location::File { path }
        }
    );
    config.image_file = None;
    config.offline = true;
    assert_eq!(
        begin_search(&config),
        Search::At {
            location: Location::Url {
                url: config.image_url.as_ref().unwrap(),
                retries: FetchRetries::Times(3)
            }
        }
    );
    config.image_url = None;
    config.stream = Some("testing".to_string());
    assert_eq!(begin_search(&config), Search::AskOsmet);
    config.offline = false;
    assert_eq!(begin_search(&config), Search::AskStream);
    config.stream = None;
    assert_eq!(begin_search(&config), Search::AskOsmet);
}

#[test]
fn osmet_or_else_the_stream() {
    let mut config = config();
    config.image_file = None;
    let job = install(&config, false).unwrap();
    let until_osmet = [
        Event::Dasd { dasd: false },
        Event::SectorSize { sector_size: 4096 },
    ];
    let (_, _, stage) = run(&job, &until_osmet);
    assert_eq!(
        pending(&job, stage),
        Some(Call::FindOsmet {
            architecture: &config.architecture,
            sector_size: 4096
        })
    );
    let found = step(&job, stage, Event::Osmet { found: true }).stage;
    assert_eq!(
        found,
        Stage::Sources {
            location: Location::Osmet {
                architecture: &config.architecture,
                sector_size: 4096
            }
        }
    );
    let missing = step(&job, stage, Event::Osmet { found: false });
    let request = make_stream_request(&config, 4096);
    assert_eq!(missing.notice, None);
    assert_eq!(
        pending(&job, missing.stage),
        Some(Call::OpenStream { request })
    );
    assert_eq!(request.stream.name(), "stable");
    assert_eq!(request.platform(), "metal");
    assert_eq!(request.format.name(), "4k.raw.xz");
    assert_eq!(
        step(&job, missing.stage, Event::Done).stage,
        Stage::Sources {
            location: Location::Stream { request }
        }
    );
}

#[test]
fn offline_needs_osmet() {
    let mut config = config();
    config.image_file = None;
    config.offline = true;
    let job = install(&config, false).unwrap();
    let stage = Stage::Osmet { sector_size: 512 };
    assert_eq!(
        step(&job, stage, Event::Osmet { found: false }).stage,
        refused(InstallError::OfflineMetadataMissing)
    );
    assert_eq!(
        InstallError::OfflineMetadataMissing.message().unwrap(),
        "cannot perform offline install; metadata missing"
    );
}

#[test]
fn odd_sector_sizes_get_a_word() {
    let mut config = config();
    config.image_file = None;
    config.stream = Some("next".to_string());
    config.stream_base_url = Some(url("https"));
    let job = install(&config, false).unwrap();
    let turn = step(&job, Stage::SectorSize, Event::SectorSize { sector_size: 2048 });
    assert_eq!(turn.stage, Stage::Stream { sector_size: 2048 });
    assert_eq!(
        turn.notice.unwrap().text(),
        "Found non-standard sector size 2048 for /dev/sda, assuming 512b-compatible"
    );
    let turn = step(&job, Stage::SectorSize, Event::SectorSize { sector_size: 512 });
    assert_eq!(turn.notice, None);
    let request = make_stream_request(&config, 2048);
    assert_eq!(
        request.stream,
        StreamName::Named(config.stream.as_ref().unwrap())
    );
    assert_eq!(request.stream.name(), "next");
    assert_eq!(request.base_url, config.stream_base_url.as_ref());
    assert_eq!(request.format.name(), "raw.xz");
    assert_eq!(choose_format(4096), ImageFormat::Sectors4096);
    assert_eq!(choose_format(520), ImageFormat::Sectors512);
}

#[test]
fn sources_are_checked() {
    let mut config = config();
    let check = |config: &InstallConfig, count, signed, require_signature| {
        check_sources(
            config,
            Sources {
                count,
                signed,
                require_signature,
            },
        )
        .map(|error| error.message().unwrap())
    };
    assert_eq!(
        check(&config, 0, false, false).unwrap(),
        "no artifacts found"
    );
    assert_eq!(
        check(&config, 2, true, true).unwrap(),
        "found multiple artifacts"
    );
    assert_eq!(
        check(&config, 1, false, true).unwrap(),
        "--insecure not specified and signature not found"
    );
    assert_eq!(check(&config, 1, true, true), None);
    assert_eq!(check(&config, 1, false, false), None);
    config.insecure = true;
    assert_eq!(check(&config, 1, false, true), None);
    let job = install(&config, false).unwrap();
    let stage = run(&job, &until_write(false)[..2]).2;
    let turn = step(&job, stage, offers(1, false, true));
    assert_eq!(turn.stage, Stage::Open);
    assert_eq!(
        turn.notice.unwrap().text(),
        "Signature not found; skipping verification as requested"
    );
    assert_eq!(step(&job, stage, offers(1, true, true)).notice, None);
    assert_eq!(
        step(&job, stage, offers(2, true, true)).stage,
        refused(InstallError::MultipleArtifacts)
    );
}

#[test]
fn dasd_on_s390x() {
    let config = config();
    let job = install(&config, true).unwrap();
    let device = job.device;
    let (calls, _, stage) = run(
        &job,
        &[
            Event::Dasd { dasd: true },
            Event::DasdSectorSize { known: None },
            Event::SectorSize { sector_size: 4096 },
            offers(1, true, true),
            Event::Dasd { dasd: true },
            Event::Done,
        ],
    );
    assert_eq!(calls[1], Call::ReadDasdSectorSize { device });
    assert_eq!(
        calls[1].context().unwrap(),
        "getting sector size of /dev/sda"
    );
    assert_eq!(calls[2], Call::ReadSectorSize { device });
    assert_eq!(calls[4], Call::RecheckDasd { device });
    assert_eq!(calls[4].context(), None);
    assert_eq!(calls[5], Call::PrepareDasd { device });
    assert_eq!(stage, Stage::Open);
    assert!(matches!(
        step(
            &job,
            Stage::DasdSectorSize,
            Event::DasdSectorSize { known: Some(4096) }
        )
        .stage,
        Stage::Sources { .. }
    ));
    assert_eq!(
        step(&job, Stage::DasdRecheck, Event::Dasd { dasd: false }).stage,
        Stage::Open
    );
}

#[test]
fn dasd_partitions_cannot_be_kept() {
    let mut config = config();
    config.save_partlabel = vec!["data".to_string()];
    let job = install(&config, true).unwrap();
    assert_eq!(
        step(&job, Stage::DasdRecheck, Event::Dasd { dasd: true }).stage,
        refused(InstallError::DasdPartitions)
    );
    assert_eq!(
        InstallError::DasdPartitions.message().unwrap(),
        "saving DASD partitions is not supported"
    );
}

#[test]
fn runs_end() {
    let mut config = config();
    config.image_file = None;
    config.ignition_file = Some("a.ign".to_string());
    let job = install(&config, true).unwrap();
    let mut events = vec![
        Event::Done,
        Event::Dasd { dasd: true },
        Event::DasdSectorSize { known: None },
        Event::SectorSize { sector_size: 4096 },
        Event::Osmet { found: false },
        Event::Done,
        offers(1, true, true),
        Event::Dasd { dasd: true },
        Event::Done,
    ];
    events.extend(&until_write(true)[3..]);
    events.push(Event::Failed);
    events.push(Event::Done);
    assert_eq!(events.len(), 18);
    assert_eq!(run(&job, &events[..17]).2, Stage::Reset);
    assert_eq!(run(&job, &events).2, refused(InstallError::WriteFailed));
}

#[test]
fn completion_is_announced() {
    assert_eq!(Notice::Complete.text(), "Install complete.");
}
