use vstd::prelude::*;

use crate::text::{
    is_between, is_leftmost, join, law_occurs, law_replace_leftmost, law_replace_nothing,
    lemma_join_split, lemma_replace_unchanged, occurs, replace, replace_text, same_text, split,
};

verus! {

/// The platform that an installation image is made for.
pub const IMAGE_PLATFORM: &'static str = "metal";

/// Why the platform of a bootloader entry could not be set.
#[derive(Debug, Clone, Copy, PartialEq, Eq)]
pub enum PlatformError {
    /// The entry holds no platform ID that could be set to another one.
    NotFound,
}

impl PlatformError {
    /// How the error is put to the user.
    pub fn message(&self) -> (message: String)
        ensures
            message@ == "Couldn't locate platform ID"@,
    {
        "Couldn't locate platform ID".to_owned()
    }
}

/// The kernel argument that names a platform.
pub open spec fn platform_option(platform: Seq<char>) -> Seq<char> {
    "ignition.platform.id="@ + platform
}

/// The kernel arguments `options` of an entry for the image's own platform, made those of
/// an entry for `platform`.
pub open spec fn with_platform(options: Seq<char>, platform: Seq<char>) -> Seq<char> {
    replace(options, platform_option(IMAGE_PLATFORM@), platform_option(platform))
}

/// The kernel arguments `options` name the image's own platform.
pub open spec fn names_image_platform(options: Seq<char>) -> bool {
    occurs(options, platform_option(IMAGE_PLATFORM@))
}

/// Setting the platform changes the arguments exactly where they name the platform of the
/// image and another one is asked for.
pub proof fn law_platform_changes(options: Seq<char>, platform: Seq<char>)
    ensures
        with_platform(options, platform) != options <==> names_image_platform(options) && platform
            != IMAGE_PLATFORM@,
{
    reveal_strlit("metal");
    let from = platform_option(IMAGE_PLATFORM@);
    let to = platform_option(platform);
    lemma_replace_unchanged(options, from, to);
    let shared = "ignition.platform.id="@.len() as int;
    assert(from.skip(shared) =~= IMAGE_PLATFORM@);
    assert(to.skip(shared) =~= platform);
}

fn option_text(platform: &str) -> (option: String)
    ensures
        option@ == platform_option(platform@),
{
    "ignition.platform.id=".to_owned().concat(platform)
}

/// Changes the platform ID in the kernel arguments of a bootloader entry, and nothing else
/// of them. Entries of an image always name the platform of the image: one that does not is
/// an error.
pub fn bls_entry_options_write_platform(orig_options: &str, platform: &str) -> (written: Result<
    Option<String>,
    PlatformError,
>)
    ensures
        written is Ok <==> names_image_platform(orig_options@) && platform@ != IMAGE_PLATFORM@,
        written matches Ok(options) ==> options is Some && options->0@ == with_platform(
            orig_options@,
            platform@,
        ),
{
    let from = option_text(IMAGE_PLATFORM);
    let to = option_text(platform);
    proof {
        reveal_strlit("metal");
        law_platform_changes(orig_options@, platform@);
    }
    let new_options = replace_text(orig_options, from.as_str(), to.as_str());
    if same_text(orig_options, new_options.as_str()) {
        return Err(PlatformError::NotFound);
    }
    Ok(Some(new_options))
}

/// One thing to do to set the platform. The steps are taken in order, up to the first that fails,
/// as [`crate::plan::trace`] says.
#[derive(Debug, Clone, Copy, PartialEq, Eq)]
pub enum PlatformStep<'a> {
    /// Rewrite the kernel arguments of every bootloader entry, as
    /// [`bls_entry_options_write_platform`] says.
    RewriteEntries { platform: &'a String },
}

/// What is done to set the platform. There is nothing to do for the platform that the image has:
/// setting it would look like a failure.
pub open spec fn platform_steps<'a>(platform: &'a String) -> Seq<PlatformStep<'a>> {
    if platform@ == IMAGE_PLATFORM@ {
        Seq::empty()
    } else {
        seq![PlatformStep::RewriteEntries { platform }]
    }
}

/// Says how to set the platform.
pub fn write_platform<'a>(platform: &'a String) -> (steps: Vec<PlatformStep<'a>>)
    ensures
        steps@ == platform_steps(platform),
{
    let mut steps: Vec<PlatformStep<'a>> = Vec::new();
    if !same_text(platform.as_str(), IMAGE_PLATFORM) {
        steps.push(PlatformStep::RewriteEntries { platform });
    }
    assert(steps@ =~= platform_steps(platform));
    steps
}

/// What the user is told before a step is taken.
pub open spec fn platform_notice(step: PlatformStep) -> Seq<char> {
    match step {
        PlatformStep::RewriteEntries { platform } => "Setting platform to "@ + platform@,
    }
}

impl<'a> PlatformStep<'a> {
    /// What to tell the user before the step is taken.
    pub fn notice(&self) -> (notice: String)
        ensures
            notice@ == platform_notice(*self),
    {
        match self {
            PlatformStep::RewriteEntries { platform } => {
                "Setting platform to ".to_owned().concat(platform.as_str())
            },
        }
    }
}

/// Where there is anything to do to set a platform, the arguments of an entry that names the
/// platform of the image change, so that setting it does not look like a failure.
pub proof fn law_image_entries_can_be_set<'a>(platform: &'a String, options: Seq<char>)
    requires
        platform_steps(platform).len() > 0,
        names_image_platform(options),
    ensures
        with_platform(options, platform@) != options,
{
    law_platform_changes(options, platform@);
}

/// Setting the platform changes nothing but platform IDs: the arguments stay what they were
/// before, between and after them.
pub proof fn law_rest_of_options_stays(options: Seq<char>, platform: Seq<char>)
    ensures
        options == join(
            split(options, platform_option(IMAGE_PLATFORM@)),
            platform_option(IMAGE_PLATFORM@),
        ),
        with_platform(options, platform) == join(
            split(options, platform_option(IMAGE_PLATFORM@)),
            platform_option(platform),
        ),
{
    reveal_strlit("metal");
    lemma_join_split(options, platform_option(IMAGE_PLATFORM@));
}

/// Kernel arguments name the platform of the image exactly where they hold
/// `ignition.platform.id=metal`.
pub proof fn law_image_platform_is_named(options: Seq<char>)
    ensures
        names_image_platform(options) <==> exists|before: Seq<char>, after: Seq<char>| #[trigger]
            is_between(options, before, "ignition.platform.id=metal"@, after),
{
    lemma_image_option();
    law_occurs(options, platform_option(IMAGE_PLATFORM@));
}

proof fn lemma_image_option()
    ensures
        platform_option(IMAGE_PLATFORM@) == "ignition.platform.id=metal"@,
        "ignition.platform.id=metal"@.len() > 0,
{
    reveal_strlit("metal");
    reveal_strlit("ignition.platform.id=");
    reveal_strlit("ignition.platform.id=metal");
    assert(platform_option(IMAGE_PLATFORM@) =~= "ignition.platform.id=metal"@);
}

/// The leftmost platform ID becomes the one that is asked for, all of it. What stands in front of
/// it stays, and so it goes on behind it.
pub proof fn law_platform_is_written(before: Seq<char>, rest: Seq<char>, platform: Seq<char>)
    requires
        is_leftmost(before, "ignition.platform.id=metal"@),
    ensures
        with_platform(before + "ignition.platform.id=metal"@ + rest, platform) == before
            + "ignition.platform.id="@ + platform + with_platform(rest, platform),
{
    let from = "ignition.platform.id=metal"@;
    lemma_image_option();
    law_replace_leftmost(before, from, rest, platform_option(platform));
    assert(before + ("ignition.platform.id="@ + platform) + with_platform(rest, platform) =~= before
        + "ignition.platform.id="@ + platform + with_platform(rest, platform));
}

/// Arguments that hold no platform ID of the image stay as they are.
pub proof fn law_other_options_stay(options: Seq<char>, platform: Seq<char>)
    requires
        forall|before: Seq<char>, after: Seq<char>| !#[trigger]
            is_between(options, before, "ignition.platform.id=metal"@, after),
    ensures
        with_platform(options, platform) == options,
{
    lemma_image_option();
    law_replace_nothing(options, "ignition.platform.id=metal"@, platform_option(platform));
}

/// Where `ignition.platform.id=metal` stands only once in the arguments, the platform that is
/// asked for takes the place of `metal`, and nothing else changes.
pub proof fn law_single_platform_is_written(
    before: Seq<char>,
    after: Seq<char>,
    platform: Seq<char>,
)
    requires
        forall|left: Seq<char>, right: Seq<char>| #[trigger]
            is_between(
                before + "ignition.platform.id=metal"@ + after,
                left,
                "ignition.platform.id=metal"@,
                right,
            ) ==> left.len() == before.len(),
    ensures
        with_platform(before + "ignition.platform.id=metal"@ + after, platform) == before
            + "ignition.platform.id="@ + platform + after,
{
    let id = "ignition.platform.id=metal"@;
    let options = before + id + after;
    lemma_image_option();
    assert forall|left: Seq<char>, right: Seq<char>| #[trigger]
        is_between(before + id, left, id, right) implies right.len() == 0 by {
        assert(options =~= left + id + (right + after));
        assert(is_between(options, left, id, right + after));
        assert((before + id).len() == (left + id + right).len());
    }
    assert forall|left: Seq<char>, right: Seq<char>| !#[trigger]
        is_between(after, left, id, right) by {
        if is_between(after, left, id, right) {
            assert(options =~= (before + id + left) + id + right);
            assert(is_between(options, before + id + left, id, right));
        }
    }
    law_platform_is_written(before, after, platform);
    law_other_options_stay(after, platform);
}

/// Setting the platform is left out for `metal` and for nothing else. The user is told the whole
/// name.
pub proof fn law_platform_of_image_is_left<'a>(platform: &'a String)
    ensures
        platform@ == "metal"@ ==> platform_steps(platform).len() == 0,
        platform@ != "metal"@ ==> platform_steps(platform) == seq![
            PlatformStep::RewriteEntries { platform },
        ],
        platform_notice(PlatformStep::RewriteEntries { platform }) == "Setting platform to "@
            + platform@,
{
}

} // verus!
