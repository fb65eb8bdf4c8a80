use vstd::prelude::*;

verus! {

/// A URL, with its scheme picked out.
#[derive(Debug, Clone, PartialEq, Eq)]
pub struct Url {
    pub scheme: String,
    pub text: String,
}

/// How often a failed download is tried again.
#[derive(Debug, Clone, Copy, PartialEq, Eq, Structural)]
pub enum FetchRetries {
    Never,
    Times(u32),
    Forever,
}

/// What the user asked for, once the configuration files are merged in.
#[derive(Debug, Clone, PartialEq, Eq)]
pub struct InstallConfig {
    /// The disk to install to.
    pub dest_device: Option<String>,
    /// A file with the Ignition config to embed.
    pub ignition_file: Option<String>,
    /// Where to fetch the Ignition config to embed.
    pub ignition_url: Option<Url>,
    /// The digest that the Ignition config must have.
    pub ignition_hash: Option<String>,
    /// Fetch the Ignition config without HTTPS and without a digest.
    pub insecure_ignition: bool,
    pub fetch_retries: FetchRetries,
    /// Copy the network configuration of the running system.
    pub copy_network: bool,
    /// Where that network configuration lies.
    pub network_dir: String,
    /// Labels of the partitions to keep.
    pub save_partlabel: Vec<String>,
    /// Index ranges of the partitions to keep.
    pub save_partindex: Vec<String>,
    /// An image to install from.
    pub image_file: Option<String>,
    /// Where to fetch an image to install from.
    pub image_url: Option<Url>,
    /// Install without the network.
    pub offline: bool,
    pub architecture: String,
    /// The stream to install from.
    pub stream: Option<String>,
    pub stream_base_url: Option<Url>,
    /// Install an image that has no signature.
    pub insecure: bool,
    /// Leave the partition table as it is when the installation fails.
    pub preserve_on_error: bool,
    /// Kernel arguments for the first boot.
    pub firstboot_args: Option<String>,
    /// Kernel arguments to add.
    pub append_karg: Vec<String>,
    /// Kernel arguments to take away.
    pub delete_karg: Vec<String>,
    /// The platform to install for.
    pub platform: Option<String>,
}

} // verus!
