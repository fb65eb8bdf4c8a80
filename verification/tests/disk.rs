use coreos_install::bootfs::{warn_of_boot_filesystems, ADVICE, HEADING};
use coreos_install::busy::{
    announce_busy_device, busy_message, ensure_exclusive_access, report_busy_device, BusyPartition,
};
use coreos_install::config::{FetchRetries, InstallConfig};
use coreos_install::disk::{
    announce_stash, choose_image_copy, clean_up, plan_image_write, reset_partition_table,
    stash_saved_partitions, write_disk, DiskStep, DiskWalk, ImageCopy, ImageWrite, ResetStep,
    StashStep, VerifyKeys, RESET_NOTICE,
};
use coreos_install::firstboot::{plan_firstboot, write_firstboot_kargs, FirstbootStep};
use coreos_install::ignition::{write_ignition, IgnitionStep};
use coreos_install::network::{
    announce_network_config, copy_network_config, copy_network_entry, follow_network_entry,
    NetworkStep,
};
use coreos_install::plan::Walk;

fn config() -> InstallConfig {
    InstallConfig {
        dest_device: Some("/dev/sda".to_string()),
        ignition_file: None,
        ignition_url: None,
        ignition_hash: None,
        insecure_ignition: false,
        fetch_retries: FetchRetries::Never,
        copy_network: false,
        network_dir: "/net".to_string(),
        save_partlabel: vec![],
        save_partindex: vec![],
        image_file: None,
        image_url: None,
        offline: false,
        architecture: "x86_64".to_string(),
        stream: None,
        stream_base_url: None,
        insecure: false,
        preserve_on_error: false,
        firstboot_args: None,
        append_karg: vec![],
        delete_karg: vec![],
        platform: None,
    }
}

#[test]
fn plain_image_leaves_boot_alone() {
    let config = config();
    let device = "/dev/sda".to_string();
    assert_eq!(
        write_disk(&config, &device, false, None, false),
        vec![
            DiskStep::ReadSectorSize,
            DiskStep::CheckDasd { device: &device },
            DiskStep::CopyImage { device: &device },
            DiskStep::RereadTable,
            DiskStep::Sync,
        ]
    );
}

#[test]
fn everything_is_adapted_in_order() {
    let mut config = config();
    config.ignition_hash = Some("sha256-0".to_string());
    config.firstboot_args = Some("ip=dhcp".to_string());
    config.append_karg = vec!["a".to_string()];
    config.platform = Some("qemu".to_string());
    let device = "/dev/dasda".to_string();
    let network = "/net".to_string();
    assert_eq!(
        write_disk(&config, &device, true, Some(&network), true),
        vec![
            DiskStep::ReadSectorSize,
            DiskStep::CheckDasd { device: &device },
            DiskStep::CopyImage { device: &device },
            DiskStep::RereadTable,
            DiskStep::MountBoot { device: &device },
            DiskStep::WriteIgnition {
                digest: config.ignition_hash.as_ref()
            },
            DiskStep::WriteFirstbootKargs {
                args: config.firstboot_args.as_ref().unwrap()
            },
            DiskStep::EditKargs {
                append: &config.append_karg,
                delete: &config.delete_karg
            },
            DiskStep::WritePlatform {
                platform: config.platform.as_ref().unwrap()
            },
            DiskStep::CopyNetworkConfig { source: &network },
            DiskStep::WriteBootloader,
            DiskStep::SelectBootDevice { device: &device },
            DiskStep::UnmountBoot,
            DiskStep::Sync,
        ]
    );
}

#[test]
fn deleting_arguments_alone_mounts_boot() {
    let mut config = config();
    config.delete_karg = vec!["quiet".to_string()];
    let device = "/dev/sda".to_string();
    let steps = write_disk(&config, &device, false, None, false);
    assert_eq!(steps.len(), 8);
    assert_eq!(steps[4], DiskStep::MountBoot { device: &device });
    assert!(matches!(steps[5], DiskStep::EditKargs { .. }));
    assert_eq!(steps[6], DiskStep::UnmountBoot);
}

#[test]
fn disk_step_contexts() {
    let text = "x".to_string();
    let list = vec![];
    let said = |step: DiskStep| step.context().unwrap_or_default();
    assert_eq!(
        said(DiskStep::WriteIgnition { digest: None }),
        "writing Ignition configuration"
    );
    assert_eq!(
        said(DiskStep::WriteFirstbootKargs { args: &text }),
        "writing firstboot kargs"
    );
    assert_eq!(
        said(DiskStep::EditKargs {
            append: &list,
            delete: &list
        }),
        "deleting and appending kargs"
    );
    assert_eq!(
        said(DiskStep::WritePlatform { platform: &text }),
        "writing platform ID"
    );
    assert_eq!(said(DiskStep::Sync), "syncing data to disk");
    assert_eq!(DiskStep::RereadTable.context(), None);
    assert_eq!(DiskStep::CopyNetworkConfig { source: &text }.context(), None);
}

#[test]
fn image_copies() {
    assert_eq!(choose_image_copy(true, true), ImageCopy::Dasd);
    assert_eq!(choose_image_copy(true, false), ImageCopy::Plain);
    assert_eq!(choose_image_copy(false, true), ImageCopy::Plain);
}

#[test]
fn images_are_verified_and_spare_kept_partitions() {
    let device = "/dev/dasda".to_string();
    assert_eq!(
        plan_image_write(&device, true, true, 4096),
        ImageWrite {
            device: &device,
            copy: ImageCopy::Dasd,
            decompress: true,
            keep_saved: true,
            sector_size: Some(4096),
            keys: VerifyKeys::Production,
        }
    );
    assert_eq!(
        plan_image_write(&device, false, true, 512).copy,
        ImageCopy::Plain
    );
}

/// Takes the steps to write a disk, where the step at `failing` fails.
fn take_disk(steps: Vec<DiskStep>, failing: usize) -> (Vec<DiskStep>, Option<DiskStep>) {
    let mut walk = DiskWalk::new(steps);
    let mut taken = vec![];
    while let Some(step) = walk.next() {
        walk.record(taken.len() != failing);
        taken.push(step);
    }
    (taken, walk.failed())
}

/// Takes the steps of a plan, where the step at `failing` fails.
fn take<T: Copy>(steps: Vec<T>, failing: usize) -> (Vec<T>, Option<T>) {
    let mut walk = Walk::new(steps);
    let mut taken = vec![];
    while let Some(step) = walk.next() {
        walk.record(taken.len() != failing);
        taken.push(step);
    }
    (taken, walk.failed())
}

#[test]
fn failed_image_ends_writing() {
    let mut config = config();
    config.platform = Some("qemu".to_string());
    let device = "/dev/sda".to_string();
    let plan = write_disk(&config, &device, true, None, true);
    let copy = DiskStep::CopyImage { device: &device };
    assert_eq!(plan.iter().filter(|step| **step == copy).count(), 1);
    let (taken, failed) = take_disk(plan, 2);
    assert_eq!(
        taken,
        vec![
            DiskStep::ReadSectorSize,
            DiskStep::CheckDasd { device: &device },
            copy
        ]
    );
    assert_eq!(failed, Some(copy));
    assert_eq!(copy.context(), None);
    assert_eq!(clean_up(failed), None);
}

#[test]
fn boot_does_not_stay_mounted() {
    let mut config = config();
    config.firstboot_args = Some("ip=dhcp".to_string());
    config.delete_karg = vec!["quiet".to_string()];
    config.platform = Some("qemu".to_string());
    let device = "/dev/sda".to_string();
    let network = "/net".to_string();
    let plan = write_disk(&config, &device, true, Some(&network), true);
    for failing in 0..=plan.len() {
        let (taken, failed) = take_disk(plan.clone(), failing);
        if plan.get(failing) == Some(&DiskStep::UnmountBoot) {
            assert_eq!((&taken, failed), (&plan, None));
        } else {
            assert_eq!(taken, plan[..plan.len().min(failing + 1)]);
            assert_eq!(failed, plan.get(failing).copied());
        }
        let mounted = failing > 4;
        let unmounted = taken.contains(&DiskStep::UnmountBoot)
            || clean_up(failed) == Some(DiskStep::UnmountBoot);
        assert_eq!(mounted, unmounted);
    }
}

#[test]
fn unmounting_counts_as_done() {
    let mut config = config();
    config.platform = Some("qemu".to_string());
    let device = "/dev/sda".to_string();
    let plan = write_disk(&config, &device, false, None, false);
    assert_eq!(plan[6], DiskStep::UnmountBoot);
    let (taken, failed) = take_disk(plan.clone(), 6);
    assert_eq!(taken, plan);
    assert_eq!(taken.last(), Some(&DiskStep::Sync));
    assert_eq!(failed, None);
    let (_, failed) = take_disk(plan, 7);
    assert_eq!(failed, Some(DiskStep::Sync));
}

#[test]
fn existing_ignition_config_is_left_alone() {
    let digest = "sha256-0".to_string();
    for (digest, exists, create) in [
        (None, true, 0),
        (None, false, 2),
        (Some(&digest), true, 2),
        (Some(&digest), false, 4),
    ] {
        let plan = write_ignition(digest, exists);
        assert_eq!(plan[create], IgnitionStep::CreateFile);
        let (taken, failed) = take(plan.clone(), create);
        assert_eq!(taken, plan[..=create]);
        assert_eq!(failed, Some(IgnitionStep::CreateFile));
    }
}

#[test]
fn firstboot_lines_add_up() {
    let mut file = "# first boot\n".to_string();
    for args in ["ip=dhcp", "quiet"] {
        for step in take(plan_firstboot(), 2).0 {
            if step == FirstbootStep::Write {
                file += &write_firstboot_kargs(args);
            }
        }
    }
    assert_eq!(
        file,
        "# first boot\nset ignition_network_kcmdline=\"ip=dhcp\"\nset ignition_network_kcmdline=\"quiet\"\n"
    );
    assert_eq!(
        take(plan_firstboot(), 0),
        (vec![FirstbootStep::Open], Some(FirstbootStep::Open))
    );
}

#[test]
fn walks_stop_at_the_first_failure() {
    assert_eq!(take(vec![1, 2, 3], 3), (vec![1, 2, 3], None));
    assert_eq!(take(vec![1, 2, 3], 1), (vec![1, 2], Some(2)));
    assert_eq!(take(Vec::<u8>::new(), 0), (vec![], None));
    let mut walk = Walk::new(vec![1]);
    walk.record(true);
    assert_eq!(walk.next(), None);
    let mut walk = walk.followed_by(vec![2, 3]);
    assert_eq!(walk.next(), Some(2));
    walk.record(false);
    walk.record(true);
    assert_eq!(walk.next(), None);
    assert_eq!(walk.failed(), Some(2));
}

#[test]
fn incomplete_work_is_not_finished() {
    for failing in 0..4 {
        let (taken, _) = take(stash_saved_partitions(), failing);
        assert!(!taken.contains(&StashStep::Keep));
    }
    for dasd in [false, true] {
        let plan = reset_partition_table(dasd);
        for failing in 0..plan.len() - 1 {
            let (taken, _) = take(plan.clone(), failing);
            assert!(!taken.contains(&ResetStep::RereadTable));
        }
    }
    let digest = "sha256-0".to_string();
    let plan = write_ignition(Some(&digest), false);
    let check = IgnitionStep::CheckDigest { digest: &digest };
    assert_eq!(take(plan.clone(), 0), (vec![check], Some(check)));
    for failing in 0..plan.len() - 1 {
        let (taken, _) = take(plan.clone(), failing);
        assert!(!taken.contains(&IgnitionStep::CopyConfig));
    }
}

#[test]
fn steps_are_announced() {
    let text = "x".to_string();
    let list = vec![];
    let said = |step: DiskStep| step.notice().unwrap_or_default();
    assert_eq!(
        said(DiskStep::WriteIgnition { digest: None }),
        "Writing Ignition config"
    );
    assert_eq!(
        said(DiskStep::WriteFirstbootKargs { args: &text }),
        "Writing first-boot kernel arguments"
    );
    assert_eq!(
        said(DiskStep::EditKargs {
            append: &list,
            delete: &list
        }),
        "Modifying kernel arguments"
    );
    assert_eq!(DiskStep::Sync.notice(), None);
    assert_eq!(RESET_NOTICE, "Resetting partition table");
    assert_eq!(
        announce_stash("/tmp/x"),
        "Storing saved partition entries to /tmp/x"
    );
}

#[test]
fn resetting_a_table() {
    assert_eq!(
        reset_partition_table(false),
        vec![
            ResetStep::WriteSavedPartitions,
            ResetStep::Sync,
            ResetStep::RereadTable
        ]
    );
    assert_eq!(
        reset_partition_table(true),
        vec![
            ResetStep::SeekStart,
            ResetStep::WriteZeroes {
                length: 1024 * 1024
            },
            ResetStep::Sync,
            ResetStep::RereadTable
        ]
    );
    assert_eq!(
        ResetStep::WriteZeroes { length: 1 }.context().unwrap(),
        "clearing primary partition table"
    );
    assert_eq!(
        ResetStep::SeekStart.context().unwrap(),
        "seeking to start of disk"
    );
    assert_eq!(
        ResetStep::WriteSavedPartitions.context().unwrap(),
        "restoring saved partitions"
    );
    assert_eq!(
        ResetStep::Sync.context().unwrap(),
        "syncing partition table to disk"
    );
    assert_eq!(ResetStep::RereadTable.context(), None);
}

#[test]
fn stashing_partitions() {
    assert_eq!(
        stash_saved_partitions(),
        vec![
            StashStep::Create,
            StashStep::MeasureDisk,
            StashStep::Extend,
            StashStep::WriteSavedPartitions,
            StashStep::Keep
        ]
    );
    assert_eq!(
        StashStep::Create.context("/tmp/x"),
        "creating partition stash file"
    );
    assert_eq!(StashStep::MeasureDisk.context("/tmp/x"), "seeking disk");
    assert_eq!(
        StashStep::Extend.context("/tmp/x"),
        "extending partition stash file /tmp/x"
    );
    assert_eq!(
        StashStep::WriteSavedPartitions.context("/tmp/x"),
        "stashing saved partitions to /tmp/x"
    );
    assert_eq!(
        StashStep::Keep.context("/tmp/x"),
        "retaining saved partition stash in /tmp/x"
    );
}

#[test]
fn ignition_config_is_restricted_before_it_is_copied() {
    let digest = "sha256-0".to_string();
    let check = vec![
        IgnitionStep::CheckDigest { digest: &digest },
        IgnitionStep::Rewind,
    ];
    let directory = vec![
        IgnitionStep::CreateDirectory,
        IgnitionStep::RestrictDirectory { mode: 0o700 },
    ];
    let file = vec![
        IgnitionStep::CreateFile,
        IgnitionStep::RestrictFile { mode: 0o600 },
        IgnitionStep::CopyConfig,
    ];
    assert_eq!(write_ignition(None, true), file);
    assert_eq!(
        write_ignition(None, false),
        [directory.clone(), file.clone()].concat()
    );
    assert_eq!(
        write_ignition(Some(&digest), true),
        [check.clone(), file.clone()].concat()
    );
    assert_eq!(
        write_ignition(Some(&digest), false),
        [check, directory, file].concat()
    );
    assert_eq!(
        IgnitionStep::CheckDigest { digest: &digest }.context("p"),
        "failed to validate Ignition configuration digest"
    );
    assert_eq!(
        IgnitionStep::Rewind.context("p"),
        "rewinding Ignition configuration file"
    );
    assert_eq!(
        IgnitionStep::CreateDirectory.context("p"),
        "creating Ignition config directory p"
    );
    assert_eq!(
        IgnitionStep::RestrictDirectory { mode: 0 }.context("p"),
        "setting file mode for Ignition directory p"
    );
    assert_eq!(
        IgnitionStep::CreateFile.context("p"),
        "opening destination Ignition config p"
    );
    assert_eq!(
        IgnitionStep::RestrictFile { mode: 0 }.context("p"),
        "setting file mode for destination Ignition config p"
    );
    assert_eq!(
        IgnitionStep::CopyConfig.context("p"),
        "writing Ignition config"
    );
}

#[test]
fn firstboot_arguments() {
    assert_eq!(
        plan_firstboot(),
        vec![FirstbootStep::Open, FirstbootStep::Write]
    );
    assert_eq!(
        write_firstboot_kargs("ip=dhcp rd.neednet=1"),
        "set ignition_network_kcmdline=\"ip=dhcp rd.neednet=1\"\n"
    );
    assert_eq!(
        FirstbootStep::Open.context("/b/ignition.firstboot"),
        "opening first-boot file /b/ignition.firstboot"
    );
    assert_eq!(
        FirstbootStep::Write.context("/b/ignition.firstboot"),
        "writing first-boot kernel arguments"
    );
}

#[test]
fn network_files_are_copied() {
    assert_eq!(
        announce_network_config("/net"),
        "Copying networking configuration from /net"
    );
    let source = "/net".to_string();
    let create = NetworkStep::CreateDirectory;
    let list = NetworkStep::ReadDirectory { source: &source };
    let read = NetworkStep::ReadEntry { source: &source };
    assert_eq!(copy_network_config(&source), vec![create, list, read]);
    assert_eq!(
        follow_network_entry(&source, true),
        vec![NetworkStep::CopyFile, read]
    );
    assert_eq!(follow_network_entry(&source, false), vec![read]);
    let copy = copy_network_entry(b"eth0\xff", "/net/eth0?");
    assert_eq!(copy.notice, "Copying /net/eth0? to installed system");
    assert_eq!(copy.destination, b"coreos-firstboot-network/eth0\xff");
    assert_eq!(
        create.context("d"),
        "creating destination networking config directory d"
    );
    assert_eq!(list.context("d"), "reading directory /net");
    assert_eq!(read.context("d"), "reading directory /net");
    assert_eq!(
        NetworkStep::CopyFile.context("d"),
        "Copying networking config"
    );
}

#[test]
fn unreadable_network_directory() {
    let source = "/net".to_string();
    let list = NetworkStep::ReadDirectory { source: &source };
    assert_eq!(
        take(copy_network_config(&source), 1),
        (vec![NetworkStep::CreateDirectory, list], Some(list))
    );
}

#[test]
fn every_network_file_is_copied() {
    let source = "/net".to_string();
    let read = NetworkStep::ReadEntry { source: &source };
    let files = [true, false, true];
    let mut walk = Walk::new(copy_network_config(&source));
    let mut seen = 0;
    let mut copied = vec![];
    while let Some(step) = walk.next() {
        walk.record(true);
        if step == read && seen < files.len() {
            walk = walk.followed_by(follow_network_entry(&source, files[seen]));
            seen += 1;
        } else if step == NetworkStep::CopyFile {
            copied.push(seen - 1);
        }
    }
    assert_eq!(copied, vec![0, 2]);
}

fn busy(path: &str, mountpoint: Option<&str>, swap: bool) -> BusyPartition {
    BusyPartition {
        path: path.to_string(),
        mountpoint: mountpoint.map(|m| m.to_string()),
        swap,
    }
}

#[test]
fn unused_device_is_granted() {
    assert_eq!(ensure_exclusive_access(vec![]), Ok(()));
}

#[test]
fn busy_partitions_come_in_the_order_of_their_paths() {
    let paths = ["/dev/sda2", "/dev/sda10", "/dev/sda1", "/dev/\u{e9}", "/dev/sda", "/dev/sda1"];
    let found = ensure_exclusive_access(paths.iter().map(|p| busy(p, None, false)).collect());
    let found: Vec<String> = found.unwrap_err().into_iter().map(|p| p.path).collect();
    let mut sorted = paths.to_vec();
    sorted.sort();
    assert_eq!(found, sorted);
    assert_eq!(found[0], "/dev/sda");
}

#[test]
fn busy_partitions_are_described() {
    assert_eq!(
        announce_busy_device("/dev/sda"),
        "Partitions in use on /dev/sda:"
    );
    assert_eq!(busy_message(), "found busy partitions");
    let both = busy("/dev/sda1", Some("/boot"), true);
    assert_eq!(
        both.describe_usage(),
        vec![
            "    /dev/sda1 mounted on /boot",
            "    /dev/sda1 is swap device"
        ]
    );
    assert_eq!(
        both.describe_holder("/dev/dm-0"),
        "    /dev/sda1 in use by /dev/dm-0"
    );
    assert_eq!(
        busy("/dev/sda1", None, false).describe_usage(),
        Vec::<String>::new()
    );
}

#[test]
fn busy_devices_are_reported() {
    let list = |names: &[&str]| names.iter().map(|n| n.to_string()).collect::<Vec<_>>();
    let partitions = vec![
        busy("/dev/sda1", Some("/boot"), true),
        busy("/dev/sda2", None, false),
        busy("/dev/sda3", None, true),
    ];
    let holders = vec![list(&[]), list(&["/dev/dm-0", "/dev/dm-1"]), list(&["/dev/dm-0"])];
    let lines = [
        "Partitions in use on /dev/sda:",
        "    /dev/sda1 mounted on /boot",
        "    /dev/sda1 is swap device",
        "    /dev/sda2 in use by /dev/dm-0",
        "    /dev/sda2 in use by /dev/dm-1",
        "    /dev/sda3 is swap device",
        "    /dev/sda3 in use by /dev/dm-0",
    ];
    assert_eq!(report_busy_device("/dev/sda", &partitions, &holders), lines);
    // the holders of the last partition, or of all of them, could not be listed
    assert_eq!(
        report_busy_device("/dev/sda", &partitions, &holders[..2].to_vec()),
        lines[..6]
    );
    assert_eq!(
        report_busy_device("/dev/sda", &partitions, &vec![]),
        lines[..3]
    );
    assert_eq!(
        partitions[1].describe_holders(&holders[1]),
        lines[3..5]
    );
}

#[test]
fn other_boot_filesystems_are_reported() {
    let list = |names: &[&str]| names.iter().map(|n| n.to_string()).collect::<Vec<_>>();
    assert_eq!(
        warn_of_boot_filesystems(&list(&["/dev/sda3"]), "/dev/sdb"),
        Vec::<String>::new()
    );
    assert_eq!(
        warn_of_boot_filesystems(&list(&["/dev/sdb1", "/dev/sda3", "/dev/sdc1"]), "/dev/sda"),
        vec![HEADING, "  - /dev/sdb1", "  - /dev/sdc1", ADVICE]
    );
    assert_eq!(
        warn_of_boot_filesystems(&list(&["/dev/sda1", "/dev/sda3"]), "/dev/sda"),
        vec![HEADING, ADVICE]
    );
    assert!(HEADING.starts_with("\nNote: detected other devices"));
    assert!(ADVICE.ends_with("wiping them with `wipefs -a`.\n"));
}
