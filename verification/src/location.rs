use vstd::prelude::*;

use crate::config::{FetchRetries, InstallConfig, Url};
use crate::error::InstallError;
use crate::platform::IMAGE_PLATFORM;

verus! {

/// A stream to install from.
#[derive(Debug, Clone, Copy, PartialEq, Eq)]
pub enum StreamName<'a> {
    /// The one that the user named.
    Named(&'a String),
    /// The one to take where the user named none.
    Stable,
}

impl<'a> StreamName<'a> {
    pub open spec fn view(self) -> Seq<char> {
        match self {
            StreamName::Named(name) => name@,
            StreamName::Stable => "stable"@,
        }
    }

    pub fn name(self) -> (name: &'a str)
        ensures
            name@ == self@,
    {
        match self {
            StreamName::Named(name) => name.as_str(),
            StreamName::Stable => "stable",
        }
    }
}

/// The format of a disk image, by the sector size that it is made for.
#[derive(Debug, Clone, Copy, PartialEq, Eq, Structural)]
pub enum ImageFormat {
    Sectors4096,
    Sectors512,
}

impl ImageFormat {
    pub open spec fn view(self) -> Seq<char> {
        match self {
            ImageFormat::Sectors4096 => "4k.raw.xz"@,
            ImageFormat::Sectors512 => "raw.xz"@,
        }
    }

    /// The name of the format in the metadata of a stream.
    pub fn name(self) -> (name: &'static str)
        ensures
            name@ == self@,
    {
        match self {
            ImageFormat::Sectors4096 => "4k.raw.xz",
            ImageFormat::Sectors512 => "raw.xz",
        }
    }
}

/// An image of a stream.
#[derive(Debug, Clone, Copy, PartialEq, Eq)]
pub struct StreamRequest<'a> {
    pub stream: StreamName<'a>,
    pub architecture: &'a String,
    pub format: ImageFormat,
    pub base_url: Option<&'a Url>,
    pub retries: FetchRetries,
}

impl<'a> StreamRequest<'a> {
    /// The platform of the image that is looked up.
    pub fn platform(&self) -> (platform: &'static str)
        ensures
            platform@ == IMAGE_PLATFORM@,
            platform@ == "metal"@,
    {
        IMAGE_PLATFORM
    }
}

/// Where the image comes from.
#[derive(Debug, Clone, Copy, PartialEq, Eq)]
pub enum Location<'a> {
    File { path: &'a String },
    Url { url: &'a Url, retries: FetchRetries },
    /// The image that the running system can rebuild from itself.
    Osmet { architecture: &'a String, sector_size: u32 },
    Stream { request: StreamRequest<'a> },
}

/// How to go on looking for the image.
#[derive(Debug, Clone, Copy, PartialEq, Eq)]
pub enum Search<'a> {
    /// The image is there.
    At { location: Location<'a> },
    /// Ask whether the running system can rebuild the image.
    AskOsmet,
    /// Look the image up in a stream.
    AskStream,
}

/// The sector sizes that images are made for.
pub open spec fn standard_sector_size(sector_size: u32) -> bool {
    sector_size == 512 || sector_size == 4096
}

/// The format for a disk. One with an unusual sector size gets the image for 512 bytes.
pub open spec fn image_format(sector_size: u32) -> ImageFormat {
    if sector_size == 4096 {
        ImageFormat::Sectors4096
    } else {
        ImageFormat::Sectors512
    }
}

/// The image of the stream that the user chose, or of the default one.
pub open spec fn stream_request<'a>(config: &'a InstallConfig, sector_size: u32) -> StreamRequest<
    'a,
> {
    StreamRequest {
        stream: match &config.stream {
            Some(name) => StreamName::Named(name),
            None => StreamName::Stable,
        },
        architecture: &config.architecture,
        format: image_format(sector_size),
        base_url: match &config.stream_base_url {
            Some(url) => Some(url),
            None => None,
        },
        retries: config.fetch_retries,
    }
}

/// `request` asks for the image that the configuration asks for: of the stream, or of `stable`
/// where no stream is named, for the architecture, and made for the sector size.
pub open spec fn asks_for_image<'a>(
    config: &'a InstallConfig,
    sector_size: u32,
    request: StreamRequest<'a>,
) -> bool {
    &&& config.stream is Some ==> request.stream@ == config.stream->0@
    &&& config.stream is None ==> request.stream@ == "stable"@
    &&& request.architecture@ == config.architecture@
    &&& sector_size == 4096 ==> request.format@ == "4k.raw.xz"@
    &&& sector_size != 4096 ==> request.format@ == "raw.xz"@
    &&& request.base_url is Some <==> config.stream_base_url is Some
    &&& request.base_url is Some ==> *request.base_url->0 == config.stream_base_url->0
    &&& request.retries == config.fetch_retries
}

/// Where to look for the image first: a file goes before a URL, and either before anything
/// that the installer finds itself. Naming a stream means to download from it, unless the
/// network is ruled out.
pub open spec fn search<'a>(config: &'a InstallConfig) -> Search<'a> {
    match (&config.image_file, &config.image_url) {
        (Some(path), _) => Search::At { location: Location::File { path } },
        (None, Some(url)) => Search::At {
            location: Location::Url { url, retries: config.fetch_retries },
        },
        (None, None) => if config.stream is Some && !config.offline {
            Search::AskStream
        } else {
            Search::AskOsmet
        },
    }
}

/// What the location of the image offers.
#[derive(Debug, Clone, Copy, PartialEq, Eq, Structural)]
pub struct Sources {
    /// The number of artifacts.
    pub count: usize,
    /// The last of them comes with a signature.
    pub signed: bool,
    /// Images of this location have to be signed.
    pub require_signature: bool,
}

/// A signature is owed and missing.
pub open spec fn lacks_signature(sources: Sources) -> bool {
    !sources.signed && sources.require_signature
}

/// Why the image cannot be installed, if so.
pub open spec fn sources_error<'a>(config: &'a InstallConfig, sources: Sources) -> Option<
    InstallError<'a>,
> {
    if sources.count == 0 {
        Some(InstallError::NoArtifacts)
    } else if sources.count > 1 {
        Some(InstallError::MultipleArtifacts)
    } else if lacks_signature(sources) && !config.insecure {
        Some(InstallError::SignatureMissing)
    } else {
        None
    }
}

/// Chooses the format for a disk.
pub fn choose_format(sector_size: u32) -> (format: ImageFormat)
    ensures
        format == image_format(sector_size),
        format@ == "4k.raw.xz"@ <==> sector_size == 4096,
        format@ == "raw.xz"@ <==> sector_size != 4096,
{
    proof {
        reveal_strlit("4k.raw.xz");
        reveal_strlit("raw.xz");
        assert("4k.raw.xz"@.len() != "raw.xz"@.len());
    }
    match sector_size {
        4096 => ImageFormat::Sectors4096,
        _ => ImageFormat::Sectors512,
    }
}

/// Says which image of which stream to install.
pub fn make_stream_request<'a>(config: &'a InstallConfig, sector_size: u32) -> (request:
    StreamRequest<'a>)
    ensures
        request == stream_request(config, sector_size),
        request.format@ == "4k.raw.xz"@ <==> sector_size == 4096,
        request.format@ == "raw.xz"@ <==> sector_size != 4096,
        asks_for_image(config, sector_size, request),
{
    StreamRequest {
        stream: match &config.stream {
            Some(name) => StreamName::Named(name),
            None => StreamName::Stable,
        },
        architecture: &config.architecture,
        format: choose_format(sector_size),
        base_url: match &config.stream_base_url {
            Some(url) => Some(url),
            None => None,
        },
        retries: config.fetch_retries,
    }
}

/// Says where to look for the image first.
pub fn begin_search<'a>(config: &'a InstallConfig) -> (begun: Search<'a>)
    ensures
        begun == search(config),
{
    if let Some(path) = &config.image_file {
        return Search::At { location: Location::File { path } };
    }
    if let Some(url) = &config.image_url {
        return Search::At { location: Location::Url { url, retries: config.fetch_retries } };
    }
    if config.offline {
        return Search::AskOsmet;
    }
    match config.stream {
        Some(_) => Search::AskStream,
        None => Search::AskOsmet,
    }
}

/// Says whether the image can be installed. Only a single artifact is supported, and it has
/// to be signed where its location asks for that, unless the user does without.
pub fn check_sources<'a>(config: &'a InstallConfig, sources: Sources) -> (error: Option<
    InstallError<'a>,
>)
    ensures
        error == sources_error(config, sources),
{
    if sources.count == 0 {
        return Some(InstallError::NoArtifacts);
    }
    if sources.count > 1 {
        return Some(InstallError::MultipleArtifacts);
    }
    if !sources.signed && sources.require_signature {
        if !config.insecure {
            return Some(InstallError::SignatureMissing);
        }
    }
    None
}

/// The image for sectors of 4096 bytes is asked for exactly where the disk has such sectors. Any
/// other disk gets the one for 512 bytes.
pub proof fn law_format_fits_sectors(sector_size: u32)
    ensures
        image_format(sector_size)@ == "4k.raw.xz"@ <==> sector_size == 4096,
        image_format(sector_size)@ == "raw.xz"@ <==> sector_size != 4096,
        standard_sector_size(sector_size) <==> sector_size == 512 || sector_size == 4096,
{
    reveal_strlit("4k.raw.xz");
    reveal_strlit("raw.xz");
    assert("4k.raw.xz"@.len() != "raw.xz"@.len());
}

/// A stream is asked for what the user asked for.
pub proof fn law_request_is_the_users<'a>(config: &'a InstallConfig, sector_size: u32)
    ensures
        asks_for_image(config, sector_size, stream_request(config, sector_size)),
        stream_request(config, sector_size).format@ == "4k.raw.xz"@ <==> sector_size == 4096,
{
    law_format_fits_sectors(sector_size);
}

/// The name of a stream is the one that was given, whole, and the default one is `stable`.
pub proof fn law_stream_names<'a>(name: &'a String)
    ensures
        StreamName::Named(name)@ == name@,
        StreamName::Stable@ == "stable"@,
{
}

/// A file goes before a URL, and either before anything else. A stream is asked at once where it
/// is named and the network may be used. Otherwise the running system is asked first.
pub proof fn law_image_is_looked_for_in_order<'a>(config: &'a InstallConfig)
    ensures
        config.image_file matches Some(path) ==> search(config) == (Search::At {
            location: Location::File { path: &path },
        }),
        config.image_file is None ==> (config.image_url matches Some(url) ==> search(config) == (
        Search::At { location: Location::Url { url: &url, retries: config.fetch_retries } })),
        config.image_file is None && config.image_url is None ==> (search(config)
            == Search::<'a>::AskStream <==> config.stream is Some && !config.offline) && (search(
            config,
        ) == Search::<'a>::AskOsmet <==> config.stream is None || config.offline),
{
}

/// An image may be installed exactly if it is the only one, and signed where it has to be unless
/// the user does without. Otherwise the number of images counts before the signature.
pub proof fn law_image_may_be_installed<'a>(config: &'a InstallConfig, sources: Sources)
    ensures
        sources_error(config, sources) is None <==> sources.count == 1 && (sources.signed
            || !sources.require_signature || config.insecure),
        sources.count == 0 <==> sources_error(config, sources) == Some(
            InstallError::<'a>::NoArtifacts,
        ),
        sources.count >= 2 <==> sources_error(config, sources) == Some(
            InstallError::<'a>::MultipleArtifacts,
        ),
        sources.count == 1 && !sources.signed && sources.require_signature && !config.insecure
            <==> sources_error(config, sources) == Some(InstallError::<'a>::SignatureMissing),
        lacks_signature(sources) <==> !sources.signed && sources.require_signature,
{
}

} // verus!
