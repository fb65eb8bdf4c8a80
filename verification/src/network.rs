use vstd::prelude::*;
use vstd::utf8::encode_utf8;

use crate::plan::{law_failure_ends_plan, trace};
use crate::text::enclose;

verus! {

/// The directory in the boot filesystem that network configuration is copied to.
pub const NETWORK_DIRECTORY: &'static str = "coreos-firstboot-network";

/// What to tell the user before network configuration is copied from a directory.
pub fn announce_network_config(source: &str) -> (notice: String)
    ensures
        notice@ == "Copying networking configuration from "@ + source@,
{
    "Copying networking configuration from ".to_owned().concat(source)
}

/// One thing to do to copy network configuration. The steps are taken in order, up to the first
/// that fails, as [`crate::plan::trace`] says.
#[derive(Debug, Clone, Copy, PartialEq, Eq)]
pub enum NetworkStep<'a> {
    /// Make [`NETWORK_DIRECTORY`], unless it is there.
    CreateDirectory,
    /// Begin to read the directory to copy from.
    ReadDirectory { source: &'a String },
    /// Read the next entry of that directory, or find that there is none.
    ReadEntry { source: &'a String },
    /// Copy the file that was read last, to where [`copy_network_entry`] says.
    CopyFile,
}

/// What follows an entry: a file is copied, anything else is passed over, and the next entry is
/// read.
pub open spec fn entry_steps<'a>(source: &'a String, is_file: bool) -> Seq<NetworkStep<'a>> {
    if is_file {
        seq![NetworkStep::CopyFile, NetworkStep::ReadEntry { source }]
    } else {
        seq![NetworkStep::ReadEntry { source }]
    }
}

/// What is done to copy the network configuration of a directory, given which of its entries
/// are files. The directory to copy to is made before anything is read.
pub open spec fn network_steps<'a>(source: &'a String, files: Seq<bool>) -> Seq<NetworkStep<'a>>
    decreases files.len(),
{
    if files.len() == 0 {
        seq![
            NetworkStep::CreateDirectory,
            NetworkStep::ReadDirectory { source },
            NetworkStep::ReadEntry { source },
        ]
    } else {
        network_steps(source, files.drop_last()) + entry_steps(source, files.last())
    }
}

/// Says how to begin to copy network configuration. [`follow_network_entry`] says how to go on
/// after each entry.
pub fn copy_network_config<'a>(source: &'a String) -> (steps: Vec<NetworkStep<'a>>)
    ensures
        steps@ == network_steps(source, Seq::empty()),
{
    let mut steps: Vec<NetworkStep<'a>> = Vec::new();
    steps.push(NetworkStep::CreateDirectory);
    steps.push(NetworkStep::ReadDirectory { source });
    steps.push(NetworkStep::ReadEntry { source });
    assert(steps@ =~= network_steps(source, Seq::empty()));
    steps
}

/// Says how to go on after an entry was read.
pub fn follow_network_entry<'a>(source: &'a String, is_file: bool) -> (steps: Vec<NetworkStep<'a>>)
    ensures
        steps@ == entry_steps(source, is_file),
{
    let mut steps: Vec<NetworkStep<'a>> = Vec::new();
    if is_file {
        steps.push(NetworkStep::CopyFile);
    }
    steps.push(NetworkStep::ReadEntry { source });
    assert(steps@ =~= entry_steps(source, is_file));
    steps
}

/// Where a file goes, in the boot filesystem: to [`NETWORK_DIRECTORY`], under its name.
pub open spec fn network_destination(name: Seq<u8>) -> Seq<u8> {
    encode_utf8(NETWORK_DIRECTORY@) + seq![0x2fu8] + name
}

/// How a file is copied.
#[derive(Debug, Clone, PartialEq, Eq)]
pub struct NetworkCopy {
    /// What to tell the user before.
    pub notice: String,
    /// The path of the copy in the boot filesystem.
    pub destination: Vec<u8>,
}

/// Says how to copy the file with the name `name`, where `path` is how the user is told of it.
/// File names need not be text.
pub fn copy_network_entry(name: &[u8], path: &str) -> (copy: NetworkCopy)
    ensures
        copy.notice@ == "Copying "@ + path@ + " to installed system"@,
        copy.destination@ == network_destination(name@),
{
    let mut destination: Vec<u8> = Vec::new();
    destination.extend_from_slice(NETWORK_DIRECTORY.as_bytes());
    assert(destination@ =~= encode_utf8(NETWORK_DIRECTORY@));
    destination.push(0x2f);
    let ghost directory = destination@;
    destination.extend_from_slice(name);
    assert(destination@ =~= directory + name@);
    assert(destination@ =~= network_destination(name@));
    NetworkCopy { notice: enclose("Copying ", path, " to installed system"), destination }
}

/// What is said of a step that failed, where `path` is the directory to copy to.
pub open spec fn network_context(step: NetworkStep, path: Seq<char>) -> Seq<char> {
    match step {
        NetworkStep::CreateDirectory => "creating destination networking config directory "@ + path,
        NetworkStep::ReadDirectory { source } => "reading directory "@ + source@,
        NetworkStep::ReadEntry { source } => "reading directory "@ + source@,
        NetworkStep::CopyFile => "Copying networking config"@,
    }
}

impl<'a> NetworkStep<'a> {
    /// What to say of the step if it fails, in front of its own error, where `path` is the
    /// directory to copy to.
    pub fn context(&self, path: &str) -> (context: String)
        ensures
            context@ == network_context(*self, path@),
    {
        match self {
            NetworkStep::CreateDirectory => {
                "creating destination networking config directory ".to_owned().concat(path)
            },
            NetworkStep::ReadDirectory { source } => {
                "reading directory ".to_owned().concat(source.as_str())
            },
            NetworkStep::ReadEntry { source } => {
                "reading directory ".to_owned().concat(source.as_str())
            },
            NetworkStep::CopyFile => "Copying networking config".to_owned(),
        }
    }
}

proof fn lemma_network_steps_begin<'a>(source: &'a String, files: Seq<bool>)
    ensures
        network_steps(source, files).len() >= 3,
        network_steps(source, files)[0] == (NetworkStep::<'a>::CreateDirectory),
        network_steps(source, files)[1] == (NetworkStep::ReadDirectory { source }),
    decreases files.len(),
{
    if files.len() > 0 {
        lemma_network_steps_begin(source, files.drop_last());
    }
}

/// Where the directory to copy from cannot be read, the error says so, and no file is copied.
/// The directory to copy to was made all the same.
pub proof fn law_unreadable_source_copies_nothing<'a>(
    source: &'a String,
    files: Seq<bool>,
    outcomes: Seq<bool>,
    path: Seq<char>,
)
    requires
        outcomes.len() == network_steps(source, files).len(),
        outcomes[0] && !outcomes[1],
    ensures
        ({
            let done = trace(network_steps(source, files), outcomes);
            let read = NetworkStep::ReadDirectory { source };
            &&& done.taken == seq![NetworkStep::CreateDirectory, read]
            &&& done.failed == Some(read)
            &&& network_context(read, path) == "reading directory "@ + source@
        }),
{
    let steps = network_steps(source, files);
    lemma_network_steps_begin(source, files);
    law_failure_ends_plan(steps, outcomes, 1);
    assert(steps.take(2) =~= seq![
        NetworkStep::CreateDirectory,
        NetworkStep::ReadDirectory { source },
    ]);
}

/// How many of the entries are files.
pub open spec fn file_count(files: Seq<bool>) -> nat
    decreases files.len(),
{
    if files.len() == 0 {
        0
    } else {
        file_count(files.drop_last()) + if files.last() {
            1nat
        } else {
            0nat
        }
    }
}

/// Where the entry with the number `k` is read, among the steps.
pub open spec fn entry_at(files: Seq<bool>, k: int) -> int {
    2 + k + file_count(files.take(k))
}

/// The entry with the number `k` is read, and is copied next exactly if it is a file. If it is
/// not, the next entry is read next.
pub open spec fn entry_is_handled<'a>(source: &'a String, files: Seq<bool>, k: int) -> bool {
    let steps = network_steps(source, files);
    let at = entry_at(files, k);
    &&& 2 <= at < steps.len() - 1
    &&& steps[at] == (NetworkStep::ReadEntry { source })
    &&& steps[at + 1] is CopyFile <==> files[k]
    &&& !files[k] ==> steps[at + 1] is ReadEntry
}

/// The step with the number `i` copies the file that was read right before.
pub open spec fn copies_file_read_last<'a>(source: &'a String, files: Seq<bool>, i: int) -> bool {
    network_steps(source, files)[i] is CopyFile ==> exists|k: int|
        0 <= k < files.len() && files[k] && i == #[trigger] entry_at(files, k) + 1
}

/// Every file of a directory is copied, right after it is read, and nothing else of the
/// directory is. The last step is to find that there are no more entries.
pub proof fn law_every_file_is_copied<'a>(source: &'a String, files: Seq<bool>)
    ensures
        network_steps(source, files).len() == 3 + files.len() + file_count(files),
        network_steps(source, files).last() == (NetworkStep::ReadEntry { source }),
        forall|k: int| 0 <= k < files.len() ==> #[trigger] entry_is_handled(source, files, k),
        forall|i: int|
            0 <= i < network_steps(source, files).len() ==> #[trigger] copies_file_read_last(
                source,
                files,
                i,
            ),
    decreases files.len(),
{
    if files.len() > 0 {
        let steps = network_steps(source, files);
        let rest = files.drop_last();
        let before = network_steps(source, rest);
        let m = rest.len() as int;
        law_every_file_is_copied(source, rest);
        assert(files.take(m) =~= rest);
        assert(steps[m + 2 + file_count(rest)] == before.last());
        assert forall|k: int| 0 <= k < files.len() implies #[trigger] entry_is_handled(
            source,
            files,
            k,
        ) by {
            if k < m {
                assert(entry_is_handled(source, rest, k));
                assert(files.take(k) =~= rest.take(k));
            }
        }
        assert forall|i: int| 0 <= i < steps.len() implies #[trigger] copies_file_read_last(
            source,
            files,
            i,
        ) by {
            if steps[i] is CopyFile {
                if i < before.len() {
                    assert(copies_file_read_last(source, rest, i));
                    let k = choose|k: int|
                        0 <= k < rest.len() && rest[k] && i == #[trigger] entry_at(rest, k) + 1;
                    assert(files.take(k) =~= rest.take(k));
                    assert(i == entry_at(files, k) + 1);
                } else {
                    assert(i == entry_at(files, m) + 1);
                }
            }
        }
    }
}

/// Two files of a directory do not go to the same place.
pub proof fn law_destinations_differ(first: Seq<u8>, second: Seq<u8>)
    requires
        first != second,
    ensures
        network_destination(first) != network_destination(second),
{
    let directory = encode_utf8(NETWORK_DIRECTORY@) + seq![0x2fu8];
    let at = directory.len() as int;
    assert(network_destination(first).skip(at) =~= first);
    assert(network_destination(second).skip(at) =~= second);
}

/// The directory to copy to is made first, and then the directory to copy from is read, entry by
/// entry.
pub proof fn law_destination_is_made_first<'a>(source: &'a String, files: Seq<bool>)
    ensures
        network_steps(source, files).len() >= 3,
        network_steps(source, files)[0] == NetworkStep::<'a>::CreateDirectory,
        network_steps(source, files)[1] == (NetworkStep::ReadDirectory { source }),
        network_steps(source, files)[2] == (NetworkStep::ReadEntry { source }),
    decreases files.len(),
{
    if files.len() > 0 {
        law_destination_is_made_first(source, files.drop_last());
    }
}

/// Each entry adds to what is done so far, without changing any of it: its copy, if it is a file,
/// and the reading of the next entry.
pub proof fn law_entry_is_followed<'a>(source: &'a String, files: Seq<bool>, is_file: bool)
    ensures
        network_steps(source, files.push(is_file)) == network_steps(source, files) + entry_steps(
            source,
            is_file,
        ),
        is_file ==> entry_steps(source, is_file).len() == 2 && entry_steps(source, is_file)[0]
            == NetworkStep::<'a>::CopyFile,
        !is_file ==> entry_steps(source, is_file).len() == 1,
        entry_steps(source, is_file).last() == (NetworkStep::ReadEntry { source }),
{
    assert(files.push(is_file).drop_last() =~= files);
}

/// A file is copied to `coreos-firstboot-network` under its own name, byte by byte. Errors name
/// the directory that they are about.
pub proof fn law_files_keep_their_names<'a>(name: Seq<u8>, source: &'a String, path: Seq<char>)
    ensures
        network_destination(name) == encode_utf8("coreos-firstboot-network"@) + seq![0x2fu8] + name,
        NETWORK_DIRECTORY@ == "coreos-firstboot-network"@,
        network_context(NetworkStep::CreateDirectory, path)
            == "creating destination networking config directory "@ + path,
        network_context(NetworkStep::ReadDirectory { source }, path) == "reading directory "@
            + source@,
        network_context(NetworkStep::ReadEntry { source }, path) == "reading directory "@
            + source@,
        network_context(NetworkStep::CopyFile, path) == "Copying networking config"@,
{
}

/// How many entries are files is counted one by one.
pub proof fn law_files_are_counted(files: Seq<bool>, is_file: bool)
    ensures
        file_count(Seq::empty()) == 0,
        file_count(files.push(is_file)) == file_count(files) + if is_file {
            1int
        } else {
            0int
        },
{
    assert(files.push(is_file).drop_last() =~= files);
}

} // verus!
