use vstd::prelude::*;

use crate::call::said;
use crate::config::InstallConfig;
use crate::plan::{
    failed_step, in_order, law_failure_ends_plan, law_plan_runs_to_first_failure,
    law_success_takes_all, law_walk_follows_outcomes, next_step, successes, trace, Progress, Trace, Walk,
};

verus! {

/// The label of the boot filesystem of an image.
pub const BOOT_LABEL: &'static str = "boot";

/// The number of bytes at the start of a DASD that are cleared to clear its partition table.
pub const CLEARED_BYTES: usize = 1048576;

/// The name that a file with kept partitions starts with.
pub const STASH_PREFIX: &'static str = "coreos-installer-partitions.";

/// One thing to do to write a disk. The steps are taken in order, up to the first that fails,
/// as [`disk_trace`] says. [`clean_up`] says what a failure leaves to do.
#[derive(Debug, Clone, Copy, PartialEq, Eq)]
pub enum DiskStep<'a> {
    /// Ask for the sector size of the disk, which the image has to match.
    ReadSectorSize,
    /// Find out whether the disk is a DASD.
    CheckDasd { device: &'a String },
    /// Write the image, in the way that [`plan_image_write`] says.
    CopyImage { device: &'a String },
    /// Have the partition table read again.
    RereadTable,
    /// Mount the boot filesystem of the copy.
    MountBoot { device: &'a String },
    /// Embed the Ignition config, which must have the digest where one is given.
    WriteIgnition { digest: Option<&'a String> },
    /// Set the kernel arguments of the first boot.
    WriteFirstbootKargs { args: &'a String },
    /// Add and take away kernel arguments.
    EditKargs { append: &'a Vec<String>, delete: &'a Vec<String> },
    /// Set the platform.
    WritePlatform { platform: &'a String },
    /// Copy the network configuration.
    CopyNetworkConfig { source: &'a String },
    /// Write the bootloader of an s390x.
    WriteBootloader,
    /// Boot an s390x from the disk the next time.
    SelectBootDevice { device: &'a String },
    /// Unmount the boot filesystem. This counts as done, whatever came of it.
    UnmountBoot,
    /// Wait until the disk has everything, which shows any error that was not seen yet.
    Sync,
}

/// `step` alone, if there is one.
pub open spec fn optional<T>(step: Option<T>) -> Seq<T> {
    match step {
        Some(step) => seq![step],
        None => Seq::empty(),
    }
}

/// Embedding the Ignition config.
pub open spec fn ignition_step<'a>(config: &'a InstallConfig, ignition: bool) -> Option<
    DiskStep<'a>,
> {
    if !ignition {
        None
    } else {
        match &config.ignition_hash {
            Some(digest) => Some(DiskStep::WriteIgnition { digest: Some(digest) }),
            None => Some(DiskStep::WriteIgnition { digest: None }),
        }
    }
}

/// Setting the kernel arguments of the first boot.
pub open spec fn firstboot_step<'a>(config: &'a InstallConfig) -> Option<DiskStep<'a>> {
    match &config.firstboot_args {
        Some(args) => Some(DiskStep::WriteFirstbootKargs { args }),
        None => None,
    }
}

/// Adding and taking away kernel arguments.
pub open spec fn kargs_step<'a>(config: &'a InstallConfig) -> Option<DiskStep<'a>> {
    if config.append_karg@.len() > 0 || config.delete_karg@.len() > 0 {
        Some(DiskStep::EditKargs { append: &config.append_karg, delete: &config.delete_karg })
    } else {
        None
    }
}

/// Setting the platform.
pub open spec fn platform_step<'a>(config: &'a InstallConfig) -> Option<DiskStep<'a>> {
    match &config.platform {
        Some(platform) => Some(DiskStep::WritePlatform { platform }),
        None => None,
    }
}

/// Copying the network configuration.
pub open spec fn network_step<'a>(network_config: Option<&'a String>) -> Option<DiskStep<'a>> {
    match network_config {
        Some(source) => Some(DiskStep::CopyNetworkConfig { source }),
        None => None,
    }
}

/// Making an s390x boot from the disk.
pub open spec fn bootloader_steps<'a>(device: &'a String, s390x: bool) -> Seq<DiskStep<'a>> {
    if s390x {
        seq![DiskStep::WriteBootloader, DiskStep::SelectBootDevice { device }]
    } else {
        Seq::empty()
    }
}

/// What is done in the mounted boot filesystem.
pub open spec fn boot_steps<'a>(
    config: &'a InstallConfig,
    device: &'a String,
    ignition: bool,
    network_config: Option<&'a String>,
    s390x: bool,
) -> Seq<DiskStep<'a>> {
    optional(ignition_step(config, ignition)) + optional(firstboot_step(config)) + optional(
        kargs_step(config),
    ) + optional(platform_step(config)) + optional(network_step(network_config))
        + bootloader_steps(device, s390x)
}

/// What is done to get the image on the disk.
pub open spec fn copy_steps<'a>(device: &'a String) -> Seq<DiskStep<'a>> {
    seq![
        DiskStep::ReadSectorSize,
        DiskStep::CheckDasd { device },
        DiskStep::CopyImage { device },
        DiskStep::RereadTable,
    ]
}

/// What is done to write a disk. The boot filesystem is mounted only where there is something
/// to do in it.
pub open spec fn disk_steps<'a>(
    config: &'a InstallConfig,
    device: &'a String,
    ignition: bool,
    network_config: Option<&'a String>,
    s390x: bool,
) -> Seq<DiskStep<'a>> {
    let inside = boot_steps(config, device, ignition, network_config, s390x);
    let adapt = if inside.len() > 0 {
        seq![DiskStep::MountBoot { device }] + inside + seq![DiskStep::UnmountBoot]
    } else {
        Seq::empty()
    };
    copy_steps(device) + adapt + seq![DiskStep::Sync]
}

fn add_step<'a>(steps: &mut Vec<DiskStep<'a>>, step: Option<DiskStep<'a>>)
    ensures
        final(steps)@ == old(steps)@ + optional(step),
{
    if let Some(step) = step {
        steps.push(step);
    }
    assert(steps@ =~= old(steps)@ + optional(step));
}

/// Says what to do in the mounted boot filesystem.
fn plan_boot<'a>(
    config: &'a InstallConfig,
    device: &'a String,
    ignition: bool,
    network_config: Option<&'a String>,
    s390x: bool,
) -> (steps: Vec<DiskStep<'a>>)
    ensures
        steps@ == boot_steps(config, device, ignition, network_config, s390x),
{
    let mut steps: Vec<DiskStep<'a>> = Vec::new();
    let embed = if ignition {
        let digest = match &config.ignition_hash {
            Some(digest) => Some(digest),
            None => None,
        };
        Some(DiskStep::WriteIgnition { digest })
    } else {
        None
    };
    add_step(&mut steps, embed);
    assert(steps@ =~= optional(ignition_step(config, ignition)));
    let firstboot = match &config.firstboot_args {
        Some(args) => Some(DiskStep::WriteFirstbootKargs { args }),
        None => None,
    };
    add_step(&mut steps, firstboot);
    let kargs = if config.append_karg.len() > 0 || config.delete_karg.len() > 0 {
        Some(DiskStep::EditKargs { append: &config.append_karg, delete: &config.delete_karg })
    } else {
        None
    };
    add_step(&mut steps, kargs);
    let platform = match &config.platform {
        Some(platform) => Some(DiskStep::WritePlatform { platform }),
        None => None,
    };
    add_step(&mut steps, platform);
    let network = match network_config {
        Some(source) => Some(DiskStep::CopyNetworkConfig { source }),
        None => None,
    };
    add_step(&mut steps, network);
    let ghost planned = steps@;
    if s390x {
        steps.push(DiskStep::WriteBootloader);
        steps.push(DiskStep::SelectBootDevice { device });
    }
    assert(steps@ =~= planned + bootloader_steps(device, s390x));
    steps
}

/// Says how to write a disk: copy the image, adapt the copy to what the user asked for, and
/// make sure that the disk has it all.
pub fn write_disk<'a>(
    config: &'a InstallConfig,
    device: &'a String,
    ignition: bool,
    network_config: Option<&'a String>,
    s390x: bool,
) -> (steps: Vec<DiskStep<'a>>)
    ensures
        steps@ == disk_steps(config, device, ignition, network_config, s390x),
{
    let mut steps: Vec<DiskStep<'a>> = Vec::new();
    steps.push(DiskStep::ReadSectorSize);
    steps.push(DiskStep::CheckDasd { device });
    steps.push(DiskStep::CopyImage { device });
    steps.push(DiskStep::RereadTable);
    let mut inside = plan_boot(config, device, ignition, network_config, s390x);
    let ghost copy = steps@;
    let ghost boot = inside@;
    if inside.len() > 0 {
        steps.push(DiskStep::MountBoot { device });
        steps.append(&mut inside);
        steps.push(DiskStep::UnmountBoot);
        assert(steps@ =~= copy + (seq![DiskStep::MountBoot { device }] + boot
            + seq![DiskStep::UnmountBoot]));
    } else {
        assert(steps@ =~= copy + Seq::<DiskStep<'a>>::empty());
    }
    let ghost adapted = steps@;
    steps.push(DiskStep::Sync);
    proof {
        assert(copy =~= copy_steps(device));
        assert(steps@ =~= adapted + seq![DiskStep::Sync]);
    }
    steps
}

/// What is said of a step that failed, where its own error does not say enough.
pub open spec fn step_context(step: DiskStep) -> Option<Seq<char>> {
    match step {
        DiskStep::WriteIgnition { .. } => Some("writing Ignition configuration"@),
        DiskStep::WriteFirstbootKargs { .. } => Some("writing firstboot kargs"@),
        DiskStep::EditKargs { .. } => Some("deleting and appending kargs"@),
        DiskStep::WritePlatform { .. } => Some("writing platform ID"@),
        DiskStep::Sync => Some("syncing data to disk"@),
        _ => None,
    }
}

/// What the user is told before a step is taken, where it says nothing more itself.
pub open spec fn step_notice(step: DiskStep) -> Option<Seq<char>> {
    match step {
        DiskStep::WriteIgnition { .. } => Some("Writing Ignition config"@),
        DiskStep::WriteFirstbootKargs { .. } => Some("Writing first-boot kernel arguments"@),
        DiskStep::EditKargs { .. } => Some("Modifying kernel arguments"@),
        _ => None,
    }
}

/// The step is one of those that need the boot filesystem mounted.
pub open spec fn is_inside_boot(step: DiskStep) -> bool {
    match step {
        DiskStep::WriteIgnition { .. }
        | DiskStep::WriteFirstbootKargs { .. }
        | DiskStep::EditKargs { .. }
        | DiskStep::WritePlatform { .. }
        | DiskStep::CopyNetworkConfig { .. }
        | DiskStep::WriteBootloader
        | DiskStep::SelectBootDevice { .. } => true,
        _ => false,
    }
}

/// What is left to do after a step failed: a filesystem that is mounted does not stay so.
pub open spec fn cleanup_step<'a>(failed: Option<DiskStep<'a>>) -> Option<DiskStep<'a>> {
    match failed {
        Some(step) => if is_inside_boot(step) {
            Some(DiskStep::UnmountBoot)
        } else {
            None
        },
        None => None,
    }
}

/// Whether a step counts as done, given whether it succeeded.
pub open spec fn settled(step: DiskStep, succeeded: bool) -> bool {
    succeeded || step is UnmountBoot
}

/// Which of the steps count as done, given which of them succeed.
pub open spec fn settled_outcomes<'a>(steps: Seq<DiskStep<'a>>, outcomes: Seq<bool>) -> Seq<bool> {
    Seq::new(outcomes.len(), |i: int| settled(steps[i], outcomes[i]))
}

/// What comes of writing a disk, given which of the steps succeed if they are taken. They are
/// taken in order, and the first that does not count as done is the last.
pub open spec fn disk_trace<'a>(steps: Seq<DiskStep<'a>>, outcomes: Seq<bool>) -> Trace<
    DiskStep<'a>,
> {
    trace(steps, settled_outcomes(steps, outcomes))
}

/// Writes a disk, step by step, up to the first that does not count as done.
#[derive(Debug)]
pub struct DiskWalk<'a> {
    walk: Walk<DiskStep<'a>>,
}

impl<'a> View for DiskWalk<'a> {
    type V = Progress<DiskStep<'a>>;

    closed spec fn view(&self) -> Progress<DiskStep<'a>> {
        self.walk@
    }
}

impl<'a> DiskWalk<'a> {
    /// Nothing of the plan was done yet.
    pub fn new(steps: Vec<DiskStep<'a>>) -> (walk: Self)
        ensures
            walk@.steps == steps@,
            walk@.outcomes == Seq::<bool>::empty(),
            in_order(walk@),
    {
        DiskWalk { walk: Walk::new(steps) }
    }

    /// The step to take now. There is none once a step failed, or when all were taken.
    pub fn next(&self) -> (step: Option<DiskStep<'a>>)
        ensures
            step == next_step(self@),
    {
        self.walk.next()
    }

    /// The step that failed, if one did.
    pub fn failed(&self) -> (step: Option<DiskStep<'a>>)
        ensures
            step == failed_step(self@),
    {
        self.walk.failed()
    }

    /// Takes in whether the step that was to be taken now succeeded. Where there was none,
    /// nothing changes.
    pub fn record(&mut self, succeeded: bool)
        ensures
            final(self)@.steps == old(self)@.steps,
            final(self)@.outcomes == match next_step(old(self)@) {
                Some(step) => old(self)@.outcomes.push(settled(step, succeeded)),
                None => old(self)@.outcomes,
            },
            in_order(old(self)@) ==> in_order(final(self)@),
    {
        let done = match self.walk.next() {
            Some(DiskStep::UnmountBoot) => true,
            _ => succeeded,
        };
        self.walk.record(done);
    }
}

/// Says what to do at the end, given the step that failed, if one did.
pub fn clean_up<'a>(failed: Option<DiskStep<'a>>) -> (step: Option<DiskStep<'a>>)
    ensures
        step == cleanup_step(failed),
{
    match failed {
        Some(DiskStep::WriteIgnition { .. })
        | Some(DiskStep::WriteFirstbootKargs { .. })
        | Some(DiskStep::EditKargs { .. })
        | Some(DiskStep::WritePlatform { .. })
        | Some(DiskStep::CopyNetworkConfig { .. })
        | Some(DiskStep::WriteBootloader)
        | Some(DiskStep::SelectBootDevice { .. }) => Some(DiskStep::UnmountBoot),
        _ => None,
    }
}

impl<'a> DiskStep<'a> {
    /// What to tell the user before the step is taken. Setting the platform and copying the
    /// network configuration have notices of their own.
    pub fn notice(&self) -> (notice: Option<String>)
        ensures
            said(notice) == step_notice(*self),
    {
        match self {
            DiskStep::WriteIgnition { .. } => Some("Writing Ignition config".to_owned()),
            DiskStep::WriteFirstbootKargs { .. } => Some(
                "Writing first-boot kernel arguments".to_owned(),
            ),
            DiskStep::EditKargs { .. } => Some("Modifying kernel arguments".to_owned()),
            _ => None,
        }
    }

    /// What to say of the step if it fails, in front of its own error.
    pub fn context(&self) -> (context: Option<String>)
        ensures
            said(context) == step_context(*self),
    {
        match self {
            DiskStep::WriteIgnition { .. } => Some("writing Ignition configuration".to_owned()),
            DiskStep::WriteFirstbootKargs { .. } => Some("writing firstboot kargs".to_owned()),
            DiskStep::EditKargs { .. } => Some("deleting and appending kargs".to_owned()),
            DiskStep::WritePlatform { .. } => Some("writing platform ID".to_owned()),
            DiskStep::Sync => Some("syncing data to disk".to_owned()),
            _ => None,
        }
    }
}

/// How an image is copied.
#[derive(Debug, Clone, Copy, PartialEq, Eq, Structural)]
pub enum ImageCopy {
    /// As it is.
    Plain,
    /// Partition by partition, as a DASD needs it.
    Dasd,
}

/// How the image is copied. Only an s390x can write a DASD.
pub open spec fn image_copy(s390x: bool, dasd: bool) -> ImageCopy {
    if s390x && dasd {
        ImageCopy::Dasd
    } else {
        ImageCopy::Plain
    }
}

/// Says how to copy the image.
pub fn choose_image_copy(s390x: bool, dasd: bool) -> (copy: ImageCopy)
    ensures
        copy == image_copy(s390x, dasd),
        copy is Dasd <==> s390x && dasd,
{
    if s390x && dasd {
        ImageCopy::Dasd
    } else {
        ImageCopy::Plain
    }
}

/// The keys that an image may be signed with.
#[derive(Debug, Clone, Copy, PartialEq, Eq, Structural)]
pub enum VerifyKeys {
    /// Those that releases are signed with.
    Production,
}

/// How an image is written.
#[derive(Debug, Clone, Copy, PartialEq, Eq)]
pub struct ImageWrite<'a> {
    pub device: &'a String,
    pub copy: ImageCopy,
    /// Whether the image is decompressed.
    pub decompress: bool,
    /// Whether the kept partitions stay.
    pub keep_saved: bool,
    /// The sector size that the image must be made for, if it matters.
    pub sector_size: Option<u32>,
    /// The keys that the signature of the image is verified with.
    pub keys: VerifyKeys,
}

/// Says how to write the image to a disk with sectors of `sector_size` bytes: decompressed,
/// verified with the production keys, next to the kept partitions, and only if it was made for
/// such sectors.
pub fn plan_image_write<'a>(
    device: &'a String,
    s390x: bool,
    dasd: bool,
    sector_size: u32,
) -> (write: ImageWrite<'a>)
    ensures
        write.device == device,
        write.copy == image_copy(s390x, dasd),
        write.copy is Dasd <==> s390x && dasd,
        write.decompress,
        write.keep_saved,
        write.sector_size == Some(sector_size),
        write.keys == VerifyKeys::Production,
{
    ImageWrite {
        device,
        copy: choose_image_copy(s390x, dasd),
        decompress: true,
        keep_saved: true,
        sector_size: Some(sector_size),
        keys: VerifyKeys::Production,
    }
}

/// What the user is told before a partition table is reset.
pub const RESET_NOTICE: &'static str = "Resetting partition table";

/// One thing to do to reset a partition table. The steps are taken in order, up to the first
/// that fails, as [`crate::plan::trace`] says.
#[derive(Debug, Clone, Copy, PartialEq, Eq, Structural)]
pub enum ResetStep {
    /// Go to the start of the disk.
    SeekStart,
    /// Write that many zero bytes.
    WriteZeroes { length: usize },
    /// Write a new GPT that has the kept partitions and no others.
    WriteSavedPartitions,
    /// Wait until the disk has everything.
    Sync,
    /// Have the partition table read again.
    RereadTable,
}

/// What is done to reset the partition table. A DASD gets no GPT, whose backup might overwrite
/// something that has to stay.
pub open spec fn reset_steps(dasd: bool) -> Seq<ResetStep> {
    (if dasd {
        seq![ResetStep::SeekStart, ResetStep::WriteZeroes { length: CLEARED_BYTES }]
    } else {
        seq![ResetStep::WriteSavedPartitions]
    }) + seq![ResetStep::Sync, ResetStep::RereadTable]
}

/// Says how to clear the partition table of a disk after a failure, and to put the kept
/// partitions back.
pub fn reset_partition_table(dasd: bool) -> (steps: Vec<ResetStep>)
    ensures
        steps@ == reset_steps(dasd),
{
    let mut steps: Vec<ResetStep> = Vec::new();
    if dasd {
        steps.push(ResetStep::SeekStart);
        steps.push(ResetStep::WriteZeroes { length: CLEARED_BYTES });
    } else {
        steps.push(ResetStep::WriteSavedPartitions);
    }
    steps.push(ResetStep::Sync);
    steps.push(ResetStep::RereadTable);
    assert(steps@ =~= reset_steps(dasd));
    steps
}

/// What is said of a step that failed, where its own error does not say enough.
pub open spec fn reset_context(step: ResetStep) -> Option<Seq<char>> {
    match step {
        ResetStep::SeekStart => Some("seeking to start of disk"@),
        ResetStep::WriteZeroes { .. } => Some("clearing primary partition table"@),
        ResetStep::WriteSavedPartitions => Some("restoring saved partitions"@),
        ResetStep::Sync => Some("syncing partition table to disk"@),
        ResetStep::RereadTable => None,
    }
}

impl ResetStep {
    /// What to say of the step if it fails, in front of its own error.
    pub fn context(&self) -> (context: Option<String>)
        ensures
            said(context) == reset_context(*self),
    {
        match self {
            ResetStep::SeekStart => Some("seeking to start of disk".to_owned()),
            ResetStep::WriteZeroes { .. } => Some("clearing primary partition table".to_owned()),
            ResetStep::WriteSavedPartitions => Some("restoring saved partitions".to_owned()),
            ResetStep::Sync => Some("syncing partition table to disk".to_owned()),
            ResetStep::RereadTable => None,
        }
    }
}

/// One thing to do to put kept partitions in a file. The steps are taken in order, up to the
/// first that fails, as [`crate::plan::trace`] says.
#[derive(Debug, Clone, Copy, PartialEq, Eq, Structural)]
pub enum StashStep {
    /// Make a temporary file whose name starts with [`STASH_PREFIX`].
    Create,
    /// Find out how large the disk is, by going to its end.
    MeasureDisk,
    /// Make the file as large as the disk.
    Extend,
    /// Write a GPT with the kept partitions to the file.
    WriteSavedPartitions,
    /// Make the file stay.
    Keep,
}

/// What is done to put kept partitions in a file.
pub open spec fn stash_steps() -> Seq<StashStep> {
    seq![
        StashStep::Create,
        StashStep::MeasureDisk,
        StashStep::Extend,
        StashStep::WriteSavedPartitions,
        StashStep::Keep,
    ]
}

/// Says how to preserve kept partitions in a temporary file.
pub fn stash_saved_partitions() -> (steps: Vec<StashStep>)
    ensures
        steps@ == stash_steps(),
{
    let mut steps: Vec<StashStep> = Vec::new();
    steps.push(StashStep::Create);
    steps.push(StashStep::MeasureDisk);
    steps.push(StashStep::Extend);
    steps.push(StashStep::WriteSavedPartitions);
    steps.push(StashStep::Keep);
    assert(steps@ =~= stash_steps());
    steps
}

/// What is said of a step that failed, where `path` is the file.
pub open spec fn stash_context(step: StashStep, path: Seq<char>) -> Seq<char> {
    match step {
        StashStep::Create => "creating partition stash file"@,
        StashStep::MeasureDisk => "seeking disk"@,
        StashStep::Extend => "extending partition stash file "@ + path,
        StashStep::WriteSavedPartitions => "stashing saved partitions to "@ + path,
        StashStep::Keep => "retaining saved partition stash in "@ + path,
    }
}

/// What to tell the user once the file is there, where `path` is the file.
pub fn announce_stash(path: &str) -> (notice: String)
    ensures
        notice@ == "Storing saved partition entries to "@ + path@,
{
    "Storing saved partition entries to ".to_owned().concat(path)
}

impl StashStep {
    /// What to say of the step if it fails, in front of its own error, where `path` is the file.
    pub fn context(&self, path: &str) -> (context: String)
        ensures
            context@ == stash_context(*self, path@),
    {
        match self {
            StashStep::Create => "creating partition stash file".to_owned(),
            StashStep::MeasureDisk => "seeking disk".to_owned(),
            StashStep::Extend => "extending partition stash file ".to_owned().concat(path),
            StashStep::WriteSavedPartitions => "stashing saved partitions to ".to_owned().concat(
                path,
            ),
            StashStep::Keep => "retaining saved partition stash in ".to_owned().concat(path),
        }
    }
}

/// The image is copied before anything else is done to the disk, and waiting for the disk comes
/// last.
pub proof fn law_image_first_sync_last<'a>(
    config: &'a InstallConfig,
    device: &'a String,
    ignition: bool,
    network_config: Option<&'a String>,
    s390x: bool,
)
    ensures
        ({
            let steps = disk_steps(config, device, ignition, network_config, s390x);
            &&& steps[2] == (DiskStep::CopyImage { device })
            &&& steps[3] == DiskStep::RereadTable
            &&& steps.last() == DiskStep::Sync
            &&& forall|i: int|
                0 <= i < 2 ==> (#[trigger] steps[i]) is ReadSectorSize || steps[i] is CheckDasd
        }),
{
}

/// The boot filesystem is mounted exactly where the user asked for something that changes it,
/// or where the machine needs a bootloader written. Then all that is done in it comes between
/// mounting and unmounting it.
pub proof fn law_boot_is_mounted_if_needed<'a>(
    config: &'a InstallConfig,
    device: &'a String,
    ignition: bool,
    network_config: Option<&'a String>,
    s390x: bool,
)
    ensures
        ({
            let steps = disk_steps(config, device, ignition, network_config, s390x);
            let inside = boot_steps(config, device, ignition, network_config, s390x);
            let needed = ignition || config.firstboot_args is Some || config.append_karg@.len() > 0
                || config.delete_karg@.len() > 0 || config.platform is Some || network_config is Some
                || s390x;
            let end = 5 + inside.len() as int;
            &&& needed <==> inside.len() > 0
            &&& needed ==> steps.len() == inside.len() + 7 && steps[4] == (DiskStep::MountBoot {
                device,
            }) && steps.subrange(5, end) == inside && steps[end] == DiskStep::UnmountBoot
            &&& !needed ==> steps.len() == 5
        }),
{
    let steps = disk_steps(config, device, ignition, network_config, s390x);
    let inside = boot_steps(config, device, ignition, network_config, s390x);
    if inside.len() > 0 {
        assert(steps.subrange(5, 5 + inside.len() as int) =~= inside);
    }
}

proof fn lemma_inside_boot<'a>(
    config: &'a InstallConfig,
    device: &'a String,
    ignition: bool,
    network_config: Option<&'a String>,
    s390x: bool,
)
    ensures
        ({
            let inside = boot_steps(config, device, ignition, network_config, s390x);
            forall|i: int| 0 <= i < inside.len() ==> is_inside_boot(#[trigger] inside[i])
        }),
{
    let first = optional(ignition_step(config, ignition)) + optional(firstboot_step(config));
    let second = first + optional(kargs_step(config));
    let third = second + optional(platform_step(config));
    let fourth = third + optional(network_step(network_config));
    assert(forall|i: int| 0 <= i < first.len() ==> is_inside_boot(#[trigger] first[i]));
    assert(forall|i: int| 0 <= i < second.len() ==> is_inside_boot(#[trigger] second[i]));
    assert(forall|i: int| 0 <= i < third.len() ==> is_inside_boot(#[trigger] third[i]));
    assert(forall|i: int| 0 <= i < fourth.len() ==> is_inside_boot(#[trigger] fourth[i]));
}

/// The image is written exactly once.
pub proof fn law_image_is_written_once<'a>(
    config: &'a InstallConfig,
    device: &'a String,
    ignition: bool,
    network_config: Option<&'a String>,
    s390x: bool,
)
    ensures
        ({
            let steps = disk_steps(config, device, ignition, network_config, s390x);
            forall|i: int|
                0 <= i < steps.len() ==> ((#[trigger] steps[i]) is CopyImage <==> i == 2)
        }),
{
    let steps = disk_steps(config, device, ignition, network_config, s390x);
    let inside = boot_steps(config, device, ignition, network_config, s390x);
    lemma_inside_boot(config, device, ignition, network_config, s390x);
    assert forall|i: int| 0 <= i < steps.len() implies ((#[trigger] steps[i]) is CopyImage <==> i
        == 2) by {
        if 5 <= i < 5 + inside.len() {
            assert(steps[i] == inside[i - 5]);
            assert(is_inside_boot(inside[i - 5]));
        }
    }
}

/// Where writing the image fails, its error is that of writing the disk. The partition table is
/// not read again, the boot filesystem is not mounted, and nothing else is done either.
pub proof fn law_failed_image_ends_writing<'a>(
    config: &'a InstallConfig,
    device: &'a String,
    ignition: bool,
    network_config: Option<&'a String>,
    s390x: bool,
    outcomes: Seq<bool>,
)
    requires
        outcomes.len() == disk_steps(config, device, ignition, network_config, s390x).len(),
        outcomes[0] && outcomes[1] && !outcomes[2],
    ensures
        ({
            let done = disk_trace(
                disk_steps(config, device, ignition, network_config, s390x),
                outcomes,
            );
            &&& done.taken == seq![
                DiskStep::ReadSectorSize,
                DiskStep::CheckDasd { device },
                DiskStep::CopyImage { device },
            ]
            &&& done.failed == Some(DiskStep::CopyImage { device })
            &&& step_context(DiskStep::CopyImage { device }) is None
            &&& cleanup_step(done.failed) is None
        }),
{
    let steps = disk_steps(config, device, ignition, network_config, s390x);
    law_failure_ends_plan(steps, settled_outcomes(steps, outcomes), 2);
    assert(steps.take(3) =~= seq![
        DiskStep::ReadSectorSize,
        DiskStep::CheckDasd { device },
        DiskStep::CopyImage { device },
    ]);
}

/// Where everything else that is done to a disk succeeds, all of it is done and writing the disk
/// succeeds, whatever came of unmounting the boot filesystem. Waiting for the disk comes after
/// that in any case.
pub proof fn law_unmounting_cannot_fail<'a>(
    config: &'a InstallConfig,
    device: &'a String,
    ignition: bool,
    network_config: Option<&'a String>,
    s390x: bool,
    outcomes: Seq<bool>,
)
    requires
        ({
            let steps = disk_steps(config, device, ignition, network_config, s390x);
            &&& outcomes.len() == steps.len()
            &&& forall|i: int|
                0 <= i < steps.len() && !((#[trigger] steps[i]) is UnmountBoot) ==> outcomes[i]
        }),
    ensures
        ({
            let steps = disk_steps(config, device, ignition, network_config, s390x);
            let done = disk_trace(steps, outcomes);
            &&& done.taken == steps
            &&& done.failed is None
            &&& done.taken.last() == DiskStep::Sync
        }),
{
    let steps = disk_steps(config, device, ignition, network_config, s390x);
    let settled = settled_outcomes(steps, outcomes);
    assert forall|i: int| 0 <= i < steps.len() implies #[trigger] settled[i] by {
        assert(steps[i] is UnmountBoot || outcomes[i]);
    }
    law_success_takes_all(steps, settled);
}

/// Whatever fails, the error of writing a disk is not that of unmounting the boot filesystem,
/// and once that was unmounted, waiting for the disk follows.
pub proof fn law_sync_follows_unmounting<'a>(
    config: &'a InstallConfig,
    device: &'a String,
    ignition: bool,
    network_config: Option<&'a String>,
    s390x: bool,
    outcomes: Seq<bool>,
)
    requires
        outcomes.len() == disk_steps(config, device, ignition, network_config, s390x).len(),
    ensures
        ({
            let done = disk_trace(
                disk_steps(config, device, ignition, network_config, s390x),
                outcomes,
            );
            &&& done.failed != Some(DiskStep::<'a>::UnmountBoot)
            &&& done.taken.contains(DiskStep::UnmountBoot) ==> done.taken.last() == DiskStep::Sync
        }),
{
    let steps = disk_steps(config, device, ignition, network_config, s390x);
    let settled = settled_outcomes(steps, outcomes);
    let inside = boot_steps(config, device, ignition, network_config, s390x);
    let end = 5 + inside.len() as int;
    lemma_inside_boot(config, device, ignition, network_config, s390x);
    law_plan_runs_to_first_failure(steps, settled);
    let taken = trace(steps, settled).taken;
    assert forall|i: int| 0 <= i < steps.len() implies ((#[trigger] steps[i]) is UnmountBoot <==> i
        == end && inside.len() > 0) by {
        if 5 <= i < end {
            assert(steps[i] == inside[i - 5]);
            assert(is_inside_boot(inside[i - 5]));
        }
    }
    if taken.contains(DiskStep::UnmountBoot) {
        let i = choose|i: int| 0 <= i < taken.len() && taken[i] == DiskStep::<'a>::UnmountBoot;
        assert(steps[i] is UnmountBoot);
        assert(settled[i]);
        assert(taken.len() == steps.len());
        assert(taken =~= steps);
    }
}

/// Whichever step fails, the boot filesystem does not stay mounted: where mounting it
/// succeeded, unmounting it is among the steps taken or is what is left to do.
pub proof fn law_boot_does_not_stay_mounted<'a>(
    config: &'a InstallConfig,
    device: &'a String,
    ignition: bool,
    network_config: Option<&'a String>,
    s390x: bool,
    outcomes: Seq<bool>,
)
    requires
        outcomes.len() == disk_steps(config, device, ignition, network_config, s390x).len(),
    ensures
        ({
            let steps = disk_steps(config, device, ignition, network_config, s390x);
            let done = disk_trace(steps, outcomes);
            let mount = DiskStep::MountBoot { device };
            done.taken.contains(mount) && done.failed != Some(mount) ==> done.taken.contains(
                DiskStep::UnmountBoot,
            ) || cleanup_step(done.failed) == Some(DiskStep::UnmountBoot)
        }),
{
    let steps = disk_steps(config, device, ignition, network_config, s390x);
    let settled = settled_outcomes(steps, outcomes);
    let inside = boot_steps(config, device, ignition, network_config, s390x);
    let end = 5 + inside.len() as int;
    lemma_inside_boot(config, device, ignition, network_config, s390x);
    law_plan_runs_to_first_failure(steps, settled);
    let k = successes(settled, steps.len()) as int;
    let taken = trace(steps, settled).taken;
    if inside.len() == 0 {
        assert(forall|i: int| 0 <= i < steps.len() ==> !((#[trigger] steps[i]) is MountBoot));
    } else if k < 4 {
        assert(forall|i: int| 0 <= i < taken.len() ==> !((#[trigger] taken[i]) is MountBoot));
    } else if 5 <= k < end {
        assert(steps[k] == inside[k - 5]);
        assert(is_inside_boot(inside[k - 5]));
    } else if end <= k {
        assert(taken[end] == DiskStep::UnmountBoot);
    }
}

/// A walk that has nothing left to do took the steps, and met the failure, that the outcomes of
/// the steps call for.
pub proof fn law_disk_walk_follows_outcomes<'a>(
    progress: Progress<DiskStep<'a>>,
    outcomes: Seq<bool>,
)
    requires
        in_order(progress),
        next_step(progress) is None,
        outcomes.len() == progress.steps.len(),
        forall|i: int|
            0 <= i < progress.outcomes.len() ==> #[trigger] progress.outcomes[i] == settled(
                progress.steps[i],
                outcomes[i],
            ),
    ensures
        disk_trace(progress.steps, outcomes).taken == progress.steps.take(
            progress.outcomes.len() as int,
        ),
        disk_trace(progress.steps, outcomes).failed == failed_step(progress),
{
    let settled = settled_outcomes(progress.steps, outcomes);
    assert(progress.outcomes =~= settled.take(progress.outcomes.len() as int));
    law_walk_follows_outcomes(progress, settled);
}

/// A partition table is read again only after it was written and has reached the disk.
pub proof fn law_failed_reset_is_not_reread(dasd: bool, outcomes: Seq<bool>, k: int)
    requires
        outcomes.len() == reset_steps(dasd).len(),
        0 <= k < reset_steps(dasd).len() - 1,
        !outcomes[k],
    ensures
        !trace(reset_steps(dasd), outcomes).taken.contains(ResetStep::RereadTable),
        trace(reset_steps(dasd), outcomes).failed is Some,
{
    law_plan_runs_to_first_failure(reset_steps(dasd), outcomes);
}

/// A file for kept partitions stays only once they were written to it.
pub proof fn law_incomplete_stash_is_not_kept(outcomes: Seq<bool>, k: int)
    requires
        outcomes.len() == stash_steps().len(),
        0 <= k < stash_steps().len() - 1,
        !outcomes[k],
    ensures
        !trace(stash_steps(), outcomes).taken.contains(StashStep::Keep),
        trace(stash_steps(), outcomes).failed is Some,
{
    law_plan_runs_to_first_failure(stash_steps(), outcomes);
}

/// Either way of resetting clears the table first, then waits for the disk, and has the table
/// read again last. No GPT is written to a DASD.
pub proof fn law_reset_clears_first(dasd: bool)
    ensures
        ({
            let steps = reset_steps(dasd);
            let n = steps.len() as int;
            &&& !dasd ==> n == 3 && steps[0] == ResetStep::WriteSavedPartitions
            &&& dasd ==> n == 4 && steps[0] == ResetStep::SeekStart && steps[1] == (
            ResetStep::WriteZeroes { length: CLEARED_BYTES })
            &&& dasd ==> !steps.contains(ResetStep::WriteSavedPartitions)
            &&& steps[n - 2] == ResetStep::Sync
            &&& steps[n - 1] == ResetStep::RereadTable
        }),
{
}

/// The place of a step among those that are taken to write a disk.
pub open spec fn place(step: DiskStep) -> int {
    match step {
        DiskStep::ReadSectorSize => 0,
        DiskStep::CheckDasd { .. } => 1,
        DiskStep::CopyImage { .. } => 2,
        DiskStep::RereadTable => 3,
        DiskStep::MountBoot { .. } => 4,
        DiskStep::WriteIgnition { .. } => 5,
        DiskStep::WriteFirstbootKargs { .. } => 6,
        DiskStep::EditKargs { .. } => 7,
        DiskStep::WritePlatform { .. } => 8,
        DiskStep::CopyNetworkConfig { .. } => 9,
        DiskStep::WriteBootloader => 10,
        DiskStep::SelectBootDevice { .. } => 11,
        DiskStep::UnmountBoot => 12,
        DiskStep::Sync => 13,
    }
}

/// The step is asked for, and carries what it is asked for with: the value of the configuration
/// that it is about, and the device that is installed to.
pub open spec fn is_asked_for<'a>(
    step: DiskStep<'a>,
    config: &'a InstallConfig,
    device: &'a String,
    ignition: bool,
    network_config: Option<&'a String>,
    s390x: bool,
) -> bool {
    match step {
        DiskStep::ReadSectorSize => true,
        DiskStep::CheckDasd { device: disk } => disk == device,
        DiskStep::CopyImage { device: disk } => disk == device,
        DiskStep::RereadTable => true,
        DiskStep::MountBoot { device: disk } => disk == device,
        DiskStep::WriteIgnition { digest } => {
            &&& ignition
            &&& digest is Some <==> config.ignition_hash is Some
            &&& digest is Some ==> *digest->0 == config.ignition_hash->0
        },
        DiskStep::WriteFirstbootKargs { args } => config.firstboot_args == Some(*args),
        DiskStep::EditKargs { append, delete } => {
            &&& append@ == config.append_karg@
            &&& delete@ == config.delete_karg@
            &&& append@.len() > 0 || delete@.len() > 0
        },
        DiskStep::WritePlatform { platform } => config.platform == Some(*platform),
        DiskStep::CopyNetworkConfig { source } => network_config == Some(source),
        DiskStep::WriteBootloader => s390x,
        DiskStep::SelectBootDevice { device: disk } => s390x && disk == device,
        DiskStep::UnmountBoot => true,
        DiskStep::Sync => true,
    }
}

/// Some of the steps has the place.
pub open spec fn is_taken(steps: Seq<DiskStep>, at: int) -> bool {
    exists|i: int| 0 <= i < steps.len() && place(#[trigger] steps[i]) == at
}

/// The steps stand in the order of their places, none of which is taken twice.
pub open spec fn in_their_places(steps: Seq<DiskStep>) -> bool {
    forall|i: int, j: int|
        0 <= i < j < steps.len() ==> place(#[trigger] steps[i]) < place(#[trigger] steps[j])
}

/// Adding steps whose places come later keeps the order.
proof fn lemma_places<'a>(
    before: Seq<DiskStep<'a>>,
    step: Option<DiskStep<'a>>,
    at: int,
)
    requires
        in_their_places(before),
        forall|i: int| 0 <= i < before.len() ==> place(#[trigger] before[i]) < at,
        step is Some ==> place(step->0) == at,
    ensures
        in_their_places(before + optional(step)),
        forall|i: int|
            0 <= i < (before + optional(step)).len() ==> place(
                #[trigger] (before + optional(step))[i],
            ) < at + 1,
        is_taken(before + optional(step), at) <==> step is Some,
        forall|p: int|
            p != at ==> (#[trigger] is_taken(before + optional(step), p) <==> is_taken(before, p)),
{
    let after = before + optional(step);
    let n = before.len() as int;
    assert forall|i: int| 0 <= i < n implies #[trigger] after[i] == before[i] by {}
    if step is Some {
        assert(after.len() == n + 1);
        assert(after[n] == step->0);
    } else {
        assert(after =~= before);
    }
    assert forall|p: int| p != at implies (#[trigger] is_taken(after, p) <==> is_taken(
        before,
        p,
    )) by {
        if is_taken(after, p) {
            let i = choose|i: int| 0 <= i < after.len() && place(#[trigger] after[i]) == p;
            assert(i < n);
            assert(place(before[i]) == p);
        }
        if is_taken(before, p) {
            let i = choose|i: int| 0 <= i < before.len() && place(#[trigger] before[i]) == p;
            assert(place(after[i]) == p);
        }
    }
}

/// The first `n` of some steps that may be left out, without those that are.
spec fn chosen<'a>(choices: Seq<Option<DiskStep<'a>>>, n: nat) -> Seq<DiskStep<'a>>
    decreases n,
{
    if n == 0 {
        Seq::empty()
    } else {
        chosen(choices, (n - 1) as nat) + optional(choices[n - 1])
    }
}

proof fn lemma_chosen<'a>(choices: Seq<Option<DiskStep<'a>>>, n: nat)
    requires
        n <= choices.len(),
        forall|k: int|
            0 <= k < choices.len() ==> ((#[trigger] choices[k]) is Some ==> place(choices[k]->0)
                == k),
    ensures
        in_their_places(chosen(choices, n)),
        forall|i: int|
            0 <= i < chosen(choices, n).len() ==> 0 <= place(#[trigger] chosen(choices, n)[i]) < n
                && choices[place(chosen(choices, n)[i])] == Some(chosen(choices, n)[i]),
        forall|k: int|
            0 <= k < n ==> (#[trigger] is_taken(chosen(choices, n), k) <==> choices[k] is Some),
    decreases n,
{
    if n > 0 {
        let m = (n - 1) as nat;
        let before = chosen(choices, m);
        let last = choices[m as int];
        let after = before + optional(last);
        lemma_chosen(choices, m);
        lemma_places(before, last, m as int);
        assert forall|i: int| 0 <= i < after.len() implies 0 <= place(#[trigger] after[i]) < n
            && choices[place(after[i])] == Some(after[i]) by {
            if i < before.len() {
                assert(after[i] == before[i]);
            } else {
                assert(after[i] == last->0);
            }
        }
    }
}

/// The steps to write a disk by their places, where those are left out that are not needed.
spec fn choices<'a>(
    config: &'a InstallConfig,
    device: &'a String,
    ignition: bool,
    network_config: Option<&'a String>,
    s390x: bool,
) -> Seq<Option<DiskStep<'a>>> {
    let adapted = boot_steps(config, device, ignition, network_config, s390x).len() > 0;
    seq![
        Some(DiskStep::ReadSectorSize),
        Some(DiskStep::CheckDasd { device }),
        Some(DiskStep::CopyImage { device }),
        Some(DiskStep::RereadTable),
        if adapted {
            Some(DiskStep::MountBoot { device })
        } else {
            None
        },
        ignition_step(config, ignition),
        firstboot_step(config),
        kargs_step(config),
        platform_step(config),
        network_step(network_config),
        if s390x {
            Some(DiskStep::WriteBootloader)
        } else {
            None
        },
        if s390x {
            Some(DiskStep::SelectBootDevice { device })
        } else {
            None
        },
        if adapted {
            Some(DiskStep::UnmountBoot)
        } else {
            None
        },
        Some(DiskStep::Sync),
    ]
}

proof fn lemma_copy_is_chosen<'a>(all: Seq<Option<DiskStep<'a>>>, device: &'a String)
    requires
        all.len() == 14,
        all[0] == Some(DiskStep::<'a>::ReadSectorSize),
        all[1] == Some(DiskStep::CheckDasd { device }),
        all[2] == Some(DiskStep::CopyImage { device }),
        all[3] == Some(DiskStep::<'a>::RereadTable),
    ensures
        chosen(all, 4) == copy_steps(device),
{
    assert(chosen(all, 0) =~= Seq::empty());
    assert(chosen(all, 1) == chosen(all, 0) + optional(all[0]));
    assert(chosen(all, 2) == chosen(all, 1) + optional(all[1]));
    assert(chosen(all, 3) == chosen(all, 2) + optional(all[2]));
    assert(chosen(all, 4) == chosen(all, 3) + optional(all[3]));
    assert(chosen(all, 4) =~= copy_steps(device));
}

proof fn lemma_one_more<'a>(
    all: Seq<Option<DiskStep<'a>>>,
    n: nat,
    start: Seq<DiskStep<'a>>,
    part: Seq<DiskStep<'a>>,
)
    requires
        chosen(all, n) == start + part,
    ensures
        chosen(all, n + 1) == start + (part + optional(all[n as int])),
{
    let last = optional(all[n as int]);
    assert(chosen(all, n + 1) == chosen(all, n) + last);
    assert(start + part + last =~= start + (part + last));
}

proof fn lemma_seven_more<'a>(all: Seq<Option<DiskStep<'a>>>)
    ensures
        chosen(all, 12) == chosen(all, 5) + (optional(all[5]) + optional(all[6]) + optional(all[7])
            + optional(all[8]) + optional(all[9]) + optional(all[10]) + optional(all[11])),
{
    let start = chosen(all, 5);
    let p6 = optional(all[5]);
    let p7 = p6 + optional(all[6]);
    let p8 = p7 + optional(all[7]);
    let p9 = p8 + optional(all[8]);
    let p10 = p9 + optional(all[9]);
    let p11 = p10 + optional(all[10]);
    assert(chosen(all, 6) == start + p6);
    lemma_one_more(all, 6, start, p6);
    lemma_one_more(all, 7, start, p7);
    lemma_one_more(all, 8, start, p8);
    lemma_one_more(all, 9, start, p9);
    lemma_one_more(all, 10, start, p10);
    lemma_one_more(all, 11, start, p11);
}

proof fn lemma_bootloader_is_chosen<'a>(
    before: Seq<DiskStep<'a>>,
    device: &'a String,
    s390x: bool,
    first: Option<DiskStep<'a>>,
    second: Option<DiskStep<'a>>,
)
    requires
        s390x ==> first == Some(DiskStep::<'a>::WriteBootloader),
        s390x ==> second == Some(DiskStep::SelectBootDevice { device }),
        !s390x ==> first is None && second is None,
    ensures
        before + optional(first) + optional(second) == before + bootloader_steps(device, s390x),
{
    assert(optional(first) + optional(second) =~= bootloader_steps(device, s390x));
    assert(before + optional(first) + optional(second) =~= before + (optional(first) + optional(
        second,
    )));
}

proof fn lemma_boot_is_chosen<'a>(
    config: &'a InstallConfig,
    device: &'a String,
    ignition: bool,
    network_config: Option<&'a String>,
    s390x: bool,
)
    ensures
        ({
            let all = choices(config, device, ignition, network_config, s390x);
            chosen(all, 12) == chosen(all, 5) + boot_steps(
                config,
                device,
                ignition,
                network_config,
                s390x,
            )
        }),
{
    let all = choices(config, device, ignition, network_config, s390x);
    let before = optional(ignition_step(config, ignition)) + optional(firstboot_step(config))
        + optional(kargs_step(config)) + optional(platform_step(config)) + optional(
        network_step(network_config),
    );
    lemma_seven_more(all);
    lemma_bootloader_is_chosen(before, device, s390x, all[10], all[11]);
}

proof fn lemma_mounts<'a>(
    copy: Seq<DiskStep<'a>>,
    inside: Seq<DiskStep<'a>>,
    mount: DiskStep<'a>,
    unmount: DiskStep<'a>,
)
    ensures
        copy + optional(Some(mount)) + inside + optional(Some(unmount)) == copy + (seq![mount]
            + inside + seq![unmount]),
        copy + optional(None) + Seq::empty() + optional(None) == copy + Seq::<
            DiskStep<'a>,
        >::empty(),
{
    assert(copy + optional(Some(mount)) + inside + optional(Some(unmount)) =~= copy + (seq![mount]
        + inside + seq![unmount]));
    assert(copy + optional(None) + Seq::empty() + optional(None) =~= copy + Seq::<
        DiskStep<'a>,
    >::empty());
}

proof fn lemma_steps_are_chosen<'a>(
    config: &'a InstallConfig,
    device: &'a String,
    ignition: bool,
    network_config: Option<&'a String>,
    s390x: bool,
)
    ensures
        chosen(choices(config, device, ignition, network_config, s390x), 14) == disk_steps(
            config,
            device,
            ignition,
            network_config,
            s390x,
        ),
{
    let all = choices(config, device, ignition, network_config, s390x);
    let inside = boot_steps(config, device, ignition, network_config, s390x);
    let copy = copy_steps(device);
    lemma_copy_is_chosen(all, device);
    lemma_boot_is_chosen(config, device, ignition, network_config, s390x);
    assert(chosen(all, 5) == copy + optional(all[4]));
    assert(chosen(all, 13) == chosen(all, 12) + optional(all[12]));
    assert(chosen(all, 14) == chosen(all, 13) + optional(all[13]));
    lemma_mounts(copy, inside, DiskStep::MountBoot { device }, DiskStep::UnmountBoot);
    if inside.len() == 0 {
        assert(inside =~= Seq::empty());
    }
}

/// What is done to a disk is what the user asked for, all of it and nothing else: every step
/// carries the value of the configuration that it is for, and stands in its place. The boot
/// filesystem is mounted and unmounted around what is done in it, if there is anything.
pub proof fn law_disk_gets_what_was_asked_for<'a>(
    config: &'a InstallConfig,
    device: &'a String,
    ignition: bool,
    network_config: Option<&'a String>,
    s390x: bool,
)
    ensures
        ({
            let steps = disk_steps(config, device, ignition, network_config, s390x);
            let kargs = config.append_karg@.len() > 0 || config.delete_karg@.len() > 0;
            let adapted = ignition || config.firstboot_args is Some || kargs || config.platform is Some
                || network_config is Some || s390x;
            &&& forall|i: int|
                0 <= i < steps.len() ==> is_asked_for(
                    #[trigger] steps[i],
                    config,
                    device,
                    ignition,
                    network_config,
                    s390x,
                )
            &&& in_their_places(steps)
            &&& is_taken(steps, 0) && is_taken(steps, 1) && is_taken(steps, 2) && is_taken(steps, 3)
            &&& is_taken(steps, 4) <==> adapted
            &&& is_taken(steps, 5) <==> ignition
            &&& is_taken(steps, 6) <==> config.firstboot_args is Some
            &&& is_taken(steps, 7) <==> kargs
            &&& is_taken(steps, 8) <==> config.platform is Some
            &&& is_taken(steps, 9) <==> network_config is Some
            &&& is_taken(steps, 10) <==> s390x
            &&& is_taken(steps, 11) <==> s390x
            &&& is_taken(steps, 12) <==> adapted
            &&& is_taken(steps, 13)
        }),
{
    let steps = disk_steps(config, device, ignition, network_config, s390x);
    let all = choices(config, device, ignition, network_config, s390x);
    law_boot_is_mounted_if_needed(config, device, ignition, network_config, s390x);
    lemma_steps_are_chosen(config, device, ignition, network_config, s390x);
    assert forall|k: int| 0 <= k < all.len() && (#[trigger] all[k]) is Some implies place(all[k]->0)
        == k && is_asked_for(
        all[k]->0,
        config,
        device,
        ignition,
        network_config,
        s390x,
    ) by {}
    lemma_chosen(all, 14);
    assert forall|i: int| 0 <= i < steps.len() implies is_asked_for(
        #[trigger] steps[i],
        config,
        device,
        ignition,
        network_config,
        s390x,
    ) by {
        assert(all[place(steps[i])] == Some(steps[i]));
    }
}

/// Kernel arguments to add are added and those to take away are taken away: the step that edits
/// them has both lists as they were given, and there is exactly one such step where there is
/// anything in them.
pub proof fn law_kargs_are_edited_as_asked<'a>(
    config: &'a InstallConfig,
    device: &'a String,
    ignition: bool,
    network_config: Option<&'a String>,
    s390x: bool,
)
    ensures
        ({
            let steps = disk_steps(config, device, ignition, network_config, s390x);
            &&& forall|i: int|
                0 <= i < steps.len() ==> ((#[trigger] steps[i]) matches DiskStep::EditKargs {
                    append,
                    delete,
                } ==> append@ == config.append_karg@ && delete@ == config.delete_karg@)
            &&& (exists|i: int| 0 <= i < steps.len() && (#[trigger] steps[i]) is EditKargs) <==> (
            config.append_karg@.len() > 0 || config.delete_karg@.len() > 0)
            &&& forall|i: int, j: int|
                0 <= i < j < steps.len() ==> !((#[trigger] steps[i]) is EditKargs && (
                #[trigger] steps[j]) is EditKargs)
        }),
{
    let steps = disk_steps(config, device, ignition, network_config, s390x);
    law_disk_gets_what_was_asked_for(config, device, ignition, network_config, s390x);
    assert forall|i: int| 0 <= i < steps.len() implies ((#[trigger] steps[i]) is EditKargs <==> place(
        steps[i],
    ) == 7) by {}
    assert(is_taken(steps, 7) <==> exists|i: int|
        0 <= i < steps.len() && (#[trigger] steps[i]) is EditKargs);
}

/// A DASD is copied to in its own way exactly on an s390x, which alone has such disks.
pub proof fn law_dasd_is_copied_to_on_s390x(s390x: bool, dasd: bool)
    ensures
        image_copy(s390x, dasd) is Dasd <==> s390x && dasd,
{
}

/// Only unmounting counts as done though it failed.
pub proof fn law_only_unmounting_is_settled<'a>(
    steps: Seq<DiskStep<'a>>,
    outcomes: Seq<bool>,
    i: int,
)
    requires
        0 <= i < outcomes.len(),
        steps.len() == outcomes.len(),
    ensures
        settled_outcomes(steps, outcomes).len() == outcomes.len(),
        settled_outcomes(steps, outcomes)[i] <==> outcomes[i] || steps[i]
            == DiskStep::<'a>::UnmountBoot,
        settled(steps[i], outcomes[i]) <==> outcomes[i] || steps[i] == DiskStep::<'a>::UnmountBoot,
        disk_trace(steps, outcomes) == trace(steps, settled_outcomes(steps, outcomes)),
{
}

/// A failure leaves the boot filesystem to be unmounted exactly if it came between mounting and
/// unmounting it.
pub proof fn law_failure_between_mounts_is_cleaned_up<'a>(failed: DiskStep<'a>)
    ensures
        cleanup_step(Some(failed)) == Some(DiskStep::<'a>::UnmountBoot) <==> 4 < place(failed) < 12,
        cleanup_step(Some(failed)) is None <==> !(4 < place(failed) < 12),
        cleanup_step(None) is None,
{
}

/// What is said of steps that fail, and before steps that are taken.
pub proof fn law_disk_steps_have_their_words<'a>(step: DiskStep<'a>)
    ensures
        step is WriteIgnition ==> step_context(step) == Some("writing Ignition configuration"@)
            && step_notice(step) == Some("Writing Ignition config"@),
        step is WriteFirstbootKargs ==> step_context(step) == Some("writing firstboot kargs"@)
            && step_notice(step) == Some("Writing first-boot kernel arguments"@),
        step is EditKargs ==> step_context(step) == Some("deleting and appending kargs"@)
            && step_notice(step) == Some("Modifying kernel arguments"@),
        step is WritePlatform ==> step_context(step) == Some("writing platform ID"@),
        step is Sync ==> step_context(step) == Some("syncing data to disk"@),
        step_context(step) is Some <==> 5 <= place(step) <= 8 || step is Sync,
        step_notice(step) is Some <==> 5 <= place(step) <= 7,
{
}

/// The first mebibyte of a DASD is cleared, and any other disk gets its kept partitions back,
/// before the disk is waited for and its table read again.
pub proof fn law_reset_takes_these_steps(dasd: bool)
    ensures
        dasd ==> reset_steps(dasd) == seq![
            ResetStep::SeekStart,
            ResetStep::WriteZeroes { length: 1048576 },
            ResetStep::Sync,
            ResetStep::RereadTable,
        ],
        !dasd ==> reset_steps(dasd) == seq![
            ResetStep::WriteSavedPartitions,
            ResetStep::Sync,
            ResetStep::RereadTable,
        ],
        reset_context(ResetStep::SeekStart) == Some("seeking to start of disk"@),
        reset_context(ResetStep::WriteZeroes { length: 1048576 }) == Some(
            "clearing primary partition table"@,
        ),
        reset_context(ResetStep::WriteSavedPartitions) == Some("restoring saved partitions"@),
        reset_context(ResetStep::Sync) == Some("syncing partition table to disk"@),
        reset_context(ResetStep::RereadTable) is None,
{
    if dasd {
        assert(reset_steps(dasd) =~= seq![
            ResetStep::SeekStart,
            ResetStep::WriteZeroes { length: 1048576 },
            ResetStep::Sync,
            ResetStep::RereadTable,
        ]);
    } else {
        assert(reset_steps(dasd) =~= seq![
            ResetStep::WriteSavedPartitions,
            ResetStep::Sync,
            ResetStep::RereadTable,
        ]);
    }
}

/// A file for kept partitions is made as large as the disk before they are written to it, and is
/// kept after that. Errors name the file.
pub proof fn law_stash_takes_these_steps(path: Seq<char>)
    ensures
        stash_steps().len() == 5,
        stash_steps()[0] == StashStep::Create,
        stash_steps()[1] == StashStep::MeasureDisk,
        stash_steps()[2] == StashStep::Extend,
        stash_steps()[3] == StashStep::WriteSavedPartitions,
        stash_steps()[4] == StashStep::Keep,
        stash_context(StashStep::Create, path) == "creating partition stash file"@,
        stash_context(StashStep::MeasureDisk, path) == "seeking disk"@,
        stash_context(StashStep::Extend, path) == "extending partition stash file "@ + path,
        stash_context(StashStep::WriteSavedPartitions, path) == "stashing saved partitions to "@
            + path,
        stash_context(StashStep::Keep, path) == "retaining saved partition stash in "@ + path,
{
}

/// The names that others know things by.
pub proof fn law_names_are_fixed()
    ensures
        BOOT_LABEL@ == "boot"@,
        STASH_PREFIX@ == "coreos-installer-partitions."@,
        RESET_NOTICE@ == "Resetting partition table"@,
        CLEARED_BYTES == 1024 * 1024,
{
}

} // verus!
