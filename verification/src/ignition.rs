use vstd::prelude::*;

use crate::config::{FetchRetries, InstallConfig, Url};
use crate::error::InstallError;
use crate::plan::{law_failure_ends_plan, law_plan_runs_to_first_failure, succeeded, trace};
use crate::text::same_text;

verus! {

/// Where the Ignition config comes from.
#[derive(Debug, Clone, Copy, PartialEq, Eq)]
pub enum IgnitionSource<'a> {
    File { path: &'a String },
    Download { url: &'a Url, retries: FetchRetries },
}

/// The Ignition config would come over plain HTTP, and neither a digest nor the user vouches
/// for it.
pub open spec fn unprotected(config: &InstallConfig, url: &Url) -> bool {
    url.scheme@ == "http"@ && config.ignition_hash is None && !config.insecure_ignition
}

/// The URL can be fetched from.
pub open spec fn known_protocol(url: &Url) -> bool {
    url.scheme@ == "http"@ || url.scheme@ == "https"@
}

/// Where the Ignition config comes from, if one is asked for. A file goes before a URL.
pub open spec fn ignition_source<'a>(config: &'a InstallConfig) -> Result<
    Option<IgnitionSource<'a>>,
    InstallError<'a>,
> {
    match (&config.ignition_file, &config.ignition_url) {
        (Some(path), _) => Ok(Some(IgnitionSource::File { path })),
        (None, Some(url)) => if unprotected(config, url) {
            Err(InstallError::UnprotectedIgnition)
        } else if !known_protocol(url) {
            Err(InstallError::UnknownProtocol { url })
        } else {
            Ok(Some(IgnitionSource::Download { url, retries: config.fetch_retries }))
        },
        (None, None) => Ok(None),
    }
}

/// Finds out where the Ignition config comes from.
pub fn find_ignition<'a>(config: &'a InstallConfig) -> (found: Result<
    Option<IgnitionSource<'a>>,
    InstallError<'a>,
>)
    ensures
        found == ignition_source(config),
{
    if let Some(path) = &config.ignition_file {
        return Ok(Some(IgnitionSource::File { path }));
    }
    if let Some(url) = &config.ignition_url {
        proof {
            reveal_strlit("http");
            reveal_strlit("https");
        }
        if same_text(url.scheme.as_str(), "http") {
            if config.ignition_hash.is_none() && !config.insecure_ignition {
                return Err(InstallError::UnprotectedIgnition);
            }
        } else if !same_text(url.scheme.as_str(), "https") {
            return Err(InstallError::UnknownProtocol { url });
        }
        return Ok(Some(IgnitionSource::Download { url, retries: config.fetch_retries }));
    }
    Ok(None)
}

/// The directory of the Ignition config in the boot filesystem.
pub const IGNITION_DIRECTORY: &'static str = "ignition";

/// The Ignition config in the boot filesystem.
pub const IGNITION_FILE: &'static str = "ignition/config.ign";

/// The mode of the directory. Ignition data may hold secrets: only root may look.
pub const DIRECTORY_MODE: u32 = 0o700;

/// The mode of the config, which may hold secrets too.
pub const FILE_MODE: u32 = 0o600;

/// One thing to do to embed the Ignition config. The steps are taken in order, up to the
/// first that fails, as [`crate::plan::trace`] says.
#[derive(Debug, Clone, Copy, PartialEq, Eq)]
pub enum IgnitionStep<'a> {
    /// Read the config and compare its digest.
    CheckDigest { digest: &'a String },
    /// Go back to the start of the config.
    Rewind,
    /// Make [`IGNITION_DIRECTORY`].
    CreateDirectory,
    /// Set its mode.
    RestrictDirectory { mode: u32 },
    /// Make [`IGNITION_FILE`], which must not be there yet.
    CreateFile,
    /// Set its mode.
    RestrictFile { mode: u32 },
    /// Copy the config into it.
    CopyConfig,
}

/// What is done to make sure of the digest of the config.
pub open spec fn check_steps<'a>(digest: Option<&'a String>) -> Seq<IgnitionStep<'a>> {
    match digest {
        Some(digest) => seq![IgnitionStep::CheckDigest { digest }, IgnitionStep::Rewind],
        None => Seq::empty(),
    }
}

/// What is done to put the config in its place.
pub open spec fn place_steps<'a>(directory_exists: bool) -> Seq<IgnitionStep<'a>> {
    (if directory_exists {
        Seq::empty()
    } else {
        seq![
            IgnitionStep::CreateDirectory,
            IgnitionStep::RestrictDirectory { mode: DIRECTORY_MODE },
        ]
    }) + seq![
        IgnitionStep::CreateFile,
        IgnitionStep::RestrictFile { mode: FILE_MODE },
        IgnitionStep::CopyConfig,
    ]
}

/// What is done to embed the config. Its digest is checked before anything is made.
pub open spec fn ignition_steps<'a>(digest: Option<&'a String>, directory_exists: bool) -> Seq<
    IgnitionStep<'a>,
> {
    check_steps(digest) + place_steps(directory_exists)
}

/// Says how to embed an Ignition config, given the digest that it must have, if any, and whether
/// [`IGNITION_DIRECTORY`] is there.
pub fn write_ignition<'a>(digest: Option<&'a String>, directory_exists: bool) -> (steps: Vec<
    IgnitionStep<'a>,
>)
    ensures
        steps@ == ignition_steps(digest, directory_exists),
{
    let mut steps: Vec<IgnitionStep<'a>> = Vec::new();
    if let Some(digest) = digest {
        steps.push(IgnitionStep::CheckDigest { digest });
        steps.push(IgnitionStep::Rewind);
    }
    assert(steps@ =~= check_steps(digest));
    if !directory_exists {
        steps.push(IgnitionStep::CreateDirectory);
        steps.push(IgnitionStep::RestrictDirectory { mode: DIRECTORY_MODE });
    }
    steps.push(IgnitionStep::CreateFile);
    steps.push(IgnitionStep::RestrictFile { mode: FILE_MODE });
    steps.push(IgnitionStep::CopyConfig);
    assert(steps@ =~= ignition_steps(digest, directory_exists));
    steps
}

/// What is said of a step that failed, where `path` is what the step works on.
pub open spec fn ignition_context(step: IgnitionStep, path: Seq<char>) -> Seq<char> {
    match step {
        IgnitionStep::CheckDigest { .. } => "failed to validate Ignition configuration digest"@,
        IgnitionStep::Rewind => "rewinding Ignition configuration file"@,
        IgnitionStep::CreateDirectory => "creating Ignition config directory "@ + path,
        IgnitionStep::RestrictDirectory { .. } => "setting file mode for Ignition directory "@
            + path,
        IgnitionStep::CreateFile => "opening destination Ignition config "@ + path,
        IgnitionStep::RestrictFile { .. } => "setting file mode for destination Ignition config "@
            + path,
        IgnitionStep::CopyConfig => "writing Ignition config"@,
    }
}

impl<'a> IgnitionStep<'a> {
    /// What to say of the step if it fails, in front of its own error, where `path` is what the
    /// step works on.
    pub fn context(&self, path: &str) -> (context: String)
        ensures
            context@ == ignition_context(*self, path@),
    {
        match self {
            IgnitionStep::CheckDigest { .. } => {
                "failed to validate Ignition configuration digest".to_owned()
            },
            IgnitionStep::Rewind => "rewinding Ignition configuration file".to_owned(),
            IgnitionStep::CreateDirectory => {
                "creating Ignition config directory ".to_owned().concat(path)
            },
            IgnitionStep::RestrictDirectory { .. } => {
                "setting file mode for Ignition directory ".to_owned().concat(path)
            },
            IgnitionStep::CreateFile => {
                "opening destination Ignition config ".to_owned().concat(path)
            },
            IgnitionStep::RestrictFile { .. } => {
                "setting file mode for destination Ignition config ".to_owned().concat(path)
            },
            IgnitionStep::CopyConfig => "writing Ignition config".to_owned(),
        }
    }
}

/// The secrets of an Ignition config are safe: the config is copied last, right after its file
/// was made afresh and closed to others, and a directory that had to be made is closed to
/// others too. A digest is checked before anything is made, and the config is read from its
/// start again after that.
pub proof fn law_config_is_checked_and_restricted<'a>(
    digest: Option<&'a String>,
    directory_exists: bool,
)
    ensures
        ({
            let steps = ignition_steps(digest, directory_exists);
            let n = steps.len() as int;
            let made: int = if digest is Some {
                2
            } else {
                0
            };
            &&& n >= made + 3
            &&& steps[n - 1] == IgnitionStep::CopyConfig
            &&& steps[n - 2] == (IgnitionStep::RestrictFile { mode: FILE_MODE })
            &&& steps[n - 3] == IgnitionStep::CreateFile
            &&& digest is Some ==> steps[0] == (IgnitionStep::CheckDigest { digest: digest->0 })
                && steps[1] == IgnitionStep::Rewind
            &&& !directory_exists ==> n == made + 5 && steps[made] == IgnitionStep::CreateDirectory
                && steps[made + 1] == (IgnitionStep::RestrictDirectory { mode: DIRECTORY_MODE })
            &&& directory_exists ==> n == made + 3
        }),
{
}

/// Where the digest of the config is wrong, that is the error, and nothing is made.
pub proof fn law_wrong_digest_makes_nothing<'a>(
    digest: &'a String,
    directory_exists: bool,
    outcomes: Seq<bool>,
)
    requires
        outcomes.len() == ignition_steps(Some(digest), directory_exists).len(),
        !outcomes[0],
    ensures
        ({
            let done = trace(ignition_steps(Some(digest), directory_exists), outcomes);
            let check = IgnitionStep::CheckDigest { digest };
            done.taken == seq![check] && done.failed == Some(check)
        }),
{
    let steps = ignition_steps(Some(digest), directory_exists);
    law_failure_ends_plan(steps, outcomes, 0);
    assert(steps.take(1) =~= seq![IgnitionStep::CheckDigest { digest }]);
}

/// Whichever step before it fails, the config is not copied: not before its digest is known to
/// be right, nor to a file that others may read.
pub proof fn law_failure_copies_no_config<'a>(
    digest: Option<&'a String>,
    directory_exists: bool,
    outcomes: Seq<bool>,
    k: int,
)
    requires
        outcomes.len() == ignition_steps(digest, directory_exists).len(),
        0 <= k < outcomes.len() - 1,
        !outcomes[k],
    ensures
        ({
            let done = trace(ignition_steps(digest, directory_exists), outcomes);
            &&& !done.taken.contains(IgnitionStep::CopyConfig)
            &&& done.failed is Some
        }),
{
    let steps = ignition_steps(digest, directory_exists);
    law_plan_runs_to_first_failure(steps, outcomes);
    assert(forall|i: int|
        0 <= i < steps.len() - 1 ==> #[trigger] steps[i] != IgnitionStep::<'a>::CopyConfig);
}

/// What [`IGNITION_FILE`] holds after some steps succeeded, given what it held before, if it was
/// there, and the config. Nothing else that is done to embed a config touches what it holds.
pub open spec fn config_file<'a>(
    before: Option<Seq<u8>>,
    steps: Seq<IgnitionStep<'a>>,
    config: Seq<u8>,
) -> Option<Seq<u8>>
    decreases steps.len(),
{
    if steps.len() == 0 {
        before
    } else {
        let file = config_file(before, steps.drop_last(), config);
        match steps.last() {
            IgnitionStep::CreateFile => Some(Seq::empty()),
            IgnitionStep::CopyConfig => match file {
                Some(held) => Some(held + config),
                None => None,
            },
            _ => file,
        }
    }
}

/// A file that is there cannot be made: making [`IGNITION_FILE`] only succeeds where it was not.
pub open spec fn makes_only_new_files<'a>(
    before: Option<Seq<u8>>,
    steps: Seq<IgnitionStep<'a>>,
    outcomes: Seq<bool>,
) -> bool {
    before is Some ==> forall|i: int|
        0 <= i < steps.len() && (#[trigger] steps[i]) is CreateFile ==> !outcomes[i]
}

proof fn lemma_untouched<'a>(
    before: Option<Seq<u8>>,
    steps: Seq<IgnitionStep<'a>>,
    config: Seq<u8>,
)
    requires
        forall|i: int|
            0 <= i < steps.len() ==> !((#[trigger] steps[i]) is CreateFile || steps[i] is CopyConfig),
    ensures
        config_file(before, steps, config) == before,
    decreases steps.len(),
{
    if steps.len() > 0 {
        lemma_untouched(before, steps.drop_last(), config);
        let last = steps[steps.len() - 1];
        assert(!(last is CreateFile || last is CopyConfig));
    }
}

/// Where no step fails, [`IGNITION_FILE`] holds the config and nothing else.
pub proof fn law_config_is_written<'a>(
    digest: Option<&'a String>,
    directory_exists: bool,
    outcomes: Seq<bool>,
    before: Option<Seq<u8>>,
    config: Seq<u8>,
)
    requires
        outcomes.len() == ignition_steps(digest, directory_exists).len(),
        trace(ignition_steps(digest, directory_exists), outcomes).failed is None,
    ensures
        ({
            let done = trace(ignition_steps(digest, directory_exists), outcomes);
            config_file(before, succeeded(done), config) == Some(config)
        }),
{
    let steps = ignition_steps(digest, directory_exists);
    law_plan_runs_to_first_failure(steps, outcomes);
    let restricted = steps.drop_last();
    let created = restricted.drop_last();
    assert(steps.last() == IgnitionStep::<'a>::CopyConfig);
    assert(restricted.last() == (IgnitionStep::RestrictFile { mode: FILE_MODE }));
    assert(created.last() == IgnitionStep::<'a>::CreateFile);
    assert(config_file(before, created, config) == Some(Seq::<u8>::empty()));
    assert(config_file(before, restricted, config) == Some(Seq::<u8>::empty()));
    assert(Seq::<u8>::empty() + config =~= config);
}

/// Where [`IGNITION_FILE`] cannot be made, embedding the config fails. Neither the
/// mode of the file is set nor the config copied to it, whatever the digest and the directory.
pub proof fn law_file_must_be_new<'a>(
    digest: Option<&'a String>,
    directory_exists: bool,
    outcomes: Seq<bool>,
)
    requires
        outcomes.len() == ignition_steps(digest, directory_exists).len(),
        !outcomes[outcomes.len() - 3],
    ensures
        ({
            let steps = ignition_steps(digest, directory_exists);
            let done = trace(steps, outcomes);
            &&& steps[steps.len() - 3] == IgnitionStep::<'a>::CreateFile
            &&& done.failed is Some
            &&& forall|i: int|
                0 <= i < done.taken.len() ==> !((#[trigger] done.taken[i]) is RestrictFile
                    || done.taken[i] is CopyConfig)
            &&& forall|i: int|
                0 <= i < succeeded(done).len() ==> !((#[trigger] succeeded(done)[i]) is CreateFile)
        }),
{
    let steps = ignition_steps(digest, directory_exists);
    let done = trace(steps, outcomes);
    let n = steps.len() as int;
    law_plan_runs_to_first_failure(steps, outcomes);
    assert forall|i: int| 0 <= i < done.taken.len() implies !((#[trigger] done.taken[i]) is RestrictFile
        || done.taken[i] is CopyConfig) by {
        assert(i <= n - 3);
        assert(done.taken[i] == steps[i]);
    }
    assert forall|i: int| 0 <= i < succeeded(done).len() implies !((#[trigger] succeeded(
        done,
    )[i]) is CreateFile) by {
        assert(i < n - 3);
        assert(succeeded(done)[i] == steps[i]);
    }
}

/// A config that is there stays as it is: embedding another one fails.
pub proof fn law_existing_config_stays<'a>(
    digest: Option<&'a String>,
    directory_exists: bool,
    outcomes: Seq<bool>,
    before: Option<Seq<u8>>,
    config: Seq<u8>,
)
    requires
        before is Some,
        outcomes.len() == ignition_steps(digest, directory_exists).len(),
        makes_only_new_files(before, ignition_steps(digest, directory_exists), outcomes),
    ensures
        ({
            let done = trace(ignition_steps(digest, directory_exists), outcomes);
            &&& done.failed is Some
            &&& config_file(before, succeeded(done), config) == before
        }),
{
    let steps = ignition_steps(digest, directory_exists);
    let done = trace(steps, outcomes);
    assert(steps[steps.len() - 3] is CreateFile);
    law_file_must_be_new(digest, directory_exists, outcomes);
    assert forall|i: int| 0 <= i < succeeded(done).len() implies !((#[trigger] succeeded(
        done,
    )[i]) is CreateFile || succeeded(done)[i] is CopyConfig) by {
        assert(succeeded(done)[i] == done.taken[i]);
    }
    lemma_untouched(before, succeeded(done), config);
}

/// A config that was embedded stays: a second one is refused, whatever its digest, and the file
/// holds the first.
pub proof fn law_second_config_is_refused<'a>(
    first_digest: Option<&'a String>,
    first_directory: bool,
    first_outcomes: Seq<bool>,
    before: Option<Seq<u8>>,
    first: Seq<u8>,
    second_digest: Option<&'a String>,
    second_directory: bool,
    second_outcomes: Seq<bool>,
    second: Seq<u8>,
)
    requires
        first_outcomes.len() == ignition_steps(first_digest, first_directory).len(),
        trace(ignition_steps(first_digest, first_directory), first_outcomes).failed is None,
        second_outcomes.len() == ignition_steps(second_digest, second_directory).len(),
        makes_only_new_files(
            config_file(
                before,
                succeeded(
                    trace(ignition_steps(first_digest, first_directory), first_outcomes),
                ),
                first,
            ),
            ignition_steps(second_digest, second_directory),
            second_outcomes,
        ),
    ensures
        ({
            let done = trace(ignition_steps(second_digest, second_directory), second_outcomes);
            &&& done.failed is Some
            &&& config_file(
                config_file(
                    before,
                    succeeded(
                        trace(ignition_steps(first_digest, first_directory), first_outcomes),
                    ),
                    first,
                ),
                succeeded(done),
                second,
            ) == Some(first)
        }),
{
    law_config_is_written(first_digest, first_directory, first_outcomes, before, first);
    law_existing_config_stays(
        second_digest,
        second_directory,
        second_outcomes,
        Some(first),
        second,
    );
}

/// Where the config comes from: from the file where one is given, whatever else is. From a URL
/// only by `https`, or by `http` where a digest or the user vouches for it.
pub proof fn law_config_comes_from_where_asked<'a>(config: &'a InstallConfig)
    ensures
        config.ignition_file matches Some(path) ==> ignition_source(config) == Ok::<
            _,
            InstallError<'a>,
        >(Some(IgnitionSource::File { path: &path })),
        config.ignition_file is None && config.ignition_url is None ==> ignition_source(config)
            == Ok::<Option<IgnitionSource<'a>>, InstallError<'a>>(None),
        config.ignition_file is None ==> (config.ignition_url matches Some(url) ==> {
            let vouched = config.ignition_hash is Some || config.insecure_ignition;
            let download = Ok::<_, InstallError<'a>>(
                Some(IgnitionSource::Download { url: &url, retries: config.fetch_retries }),
            );
            &&& url.scheme@ == "https"@ ==> ignition_source(config) == download
            &&& url.scheme@ == "http"@ && vouched ==> ignition_source(config) == download
            &&& url.scheme@ == "http"@ && !vouched ==> ignition_source(config) == Err::<
                Option<IgnitionSource<'a>>,
                _,
            >(InstallError::UnprotectedIgnition)
            &&& url.scheme@ != "http"@ && url.scheme@ != "https"@ ==> ignition_source(config)
                == Err::<Option<IgnitionSource<'a>>, _>(InstallError::UnknownProtocol { url: &url })
        }),
{
    reveal_strlit("http");
    reveal_strlit("https");
    assert("http"@.len() != "https"@.len());
}

/// The config lies in a directory and a file that only root may look into.
pub proof fn law_config_is_for_root_only()
    ensures
        IGNITION_DIRECTORY@ == "ignition"@,
        IGNITION_FILE@ == "ignition/config.ign"@,
        DIRECTORY_MODE == 0o700,
        FILE_MODE == 0o600,
{
}

/// Every step is taken once at most. The digest that is checked is the one that was given, and
/// it is checked exactly if one was given.
pub proof fn law_config_is_embedded_in_order<'a>(digest: Option<&'a String>, directory_exists: bool)
    ensures
        ({
            let steps = ignition_steps(digest, directory_exists);
            let checked: int = if digest is Some {
                2
            } else {
                0
            };
            let made: int = if directory_exists {
                checked
            } else {
                checked + 2
            };
            &&& steps.len() == made + 3
            &&& digest is Some ==> steps[0] == (IgnitionStep::CheckDigest { digest: digest->0 })
            &&& digest is Some ==> steps[1] == IgnitionStep::<'a>::Rewind
            &&& !directory_exists ==> steps[checked] == IgnitionStep::<'a>::CreateDirectory
            &&& !directory_exists ==> steps[checked + 1] == (IgnitionStep::RestrictDirectory {
                mode: 0o700,
            })
            &&& steps[made] == IgnitionStep::<'a>::CreateFile
            &&& steps[made + 1] == (IgnitionStep::RestrictFile { mode: 0o600 })
            &&& steps[made + 2] == IgnitionStep::<'a>::CopyConfig
        }),
{
}

/// What is said of a step that failed names what the step works on, whole.
pub proof fn law_ignition_errors_name_their_path<'a>(
    digest: &'a String,
    mode: u32,
    path: Seq<char>,
)
    ensures
        ignition_context(IgnitionStep::CheckDigest { digest }, path)
            == "failed to validate Ignition configuration digest"@,
        ignition_context(IgnitionStep::Rewind, path) == "rewinding Ignition configuration file"@,
        ignition_context(IgnitionStep::CreateDirectory, path)
            == "creating Ignition config directory "@ + path,
        ignition_context(IgnitionStep::RestrictDirectory { mode }, path)
            == "setting file mode for Ignition directory "@ + path,
        ignition_context(IgnitionStep::CreateFile, path)
            == "opening destination Ignition config "@ + path,
        ignition_context(IgnitionStep::RestrictFile { mode }, path)
            == "setting file mode for destination Ignition config "@ + path,
        ignition_context(IgnitionStep::CopyConfig, path) == "writing Ignition config"@,
{
}

} // verus!
