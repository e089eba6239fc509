use vstd::prelude::*;

verus! {

/// Settings of the mirror as a whole.
#[derive(Debug, Clone)]
pub struct ConfigMirror {
    pub retries: usize,
    pub contact: Option<String>,
}

/// Settings of the toolchain channel.
#[derive(Debug, Clone)]
pub struct ConfigRustup {
    pub sync: bool,
    pub download_threads: usize,
    pub source: String,
    pub download_dev: Option<bool>,
    pub download_gz: Option<bool>,
    pub download_xz: Option<bool>,
    pub platforms_unix: Option<Vec<String>>,
    pub platforms_windows: Option<Vec<String>>,
    pub keep_latest_stables: Option<usize>,
    pub keep_latest_betas: Option<usize>,
    pub keep_latest_nightlies: Option<usize>,
    pub pinned_rust_versions: Option<Vec<String>>,
}

/// Settings of the crate channel.
#[derive(Debug, Clone)]
pub struct ConfigCrates {
    pub sync: bool,
    pub download_threads: usize,
    pub source: String,
    pub source_index: String,
    pub use_new_crates_format: Option<bool>,
    pub base_url: Option<String>,
}

/// The whole configuration document; a missing section skips its channel.
#[derive(Debug, Clone)]
pub struct Config {
    pub mirror: ConfigMirror,
    pub rustup: Option<ConfigRustup>,
    pub crates: Option<ConfigCrates>,
}

} // verus!
