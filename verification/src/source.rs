//! Where the bytes of a tile come from.
//!
//! A service has exactly one source, fixed when it starts: a volume on the
//! local disk, or a remote origin reached over HTTP. For a tile, this
//! module decides what is to be fetched, or that there is nothing to fetch;
//! the fetching itself is the caller's.

use crate::index::ExistenceIndex;
use crate::recolor::MAX_REMOTE_FILE_SIZE;
use url::Url;
use vstd::prelude::*;
use vstd::string::StrSliceExecFns;
use vstd::string::StringExecFns;

verus! {

/// The error of the `url` crate, carried from its calls to where it is
/// turned into "not found".
#[verifier::external_type_specification]
#[verifier::external_body]
pub struct ExParseError(url::ParseError);

/// The URL, as text, that the `url` crate gives for `input` taken as a
/// reference relative to the URL that `base` writes; `None` where `base`
/// is no URL or the reference cannot be resolved.
pub uninterp spec fn url_joined(base: Seq<char>, input: Seq<char>) -> Option<Seq<char>>;

/// `Url::join` of `input` on the URL that `Url::parse` reads from `base`,
/// written out as text with `String::from`. Believed of it: the outcome
/// depends on the two texts alone.
#[verifier::external_body]
fn join_url(base: &str, input: &str) -> (r: Result<String, url::ParseError>)
    ensures
        match r {
            Ok(url) => url_joined(base@, input@) == Some(url@),
            Err(_) => url_joined(base@, input@) is None,
        },
{
    let joined = Url::parse(base)?.join(input)?;
    Ok(String::from(joined))
}

/// How long a request to the remote origin may take, in seconds.
pub const REMOTE_TIMEOUT_SECS: u64 = 30;

/// The source of a service.
#[derive(Debug)]
pub enum SourceConfig {
    /// Tiles are files under `root`.
    LocalVolume { root: String },
    /// Tiles are fetched from under the URL `base`.
    RemoteOrigin { base: String },
}

/// Why no source could be chosen.
#[derive(Debug, Clone, Copy, PartialEq, Eq, Structural)]
pub enum ConfigError {
    /// Neither a volume nor a base URL was given.
    NoSource,
    /// Both a volume and a base URL were given.
    TwoSources,
}

/// What is to be done to get the bytes of a tile.
#[derive(Debug)]
pub enum Resolution {
    /// There is no such tile.
    NotFound,
    /// The file at `path` is to be read.
    ReadFile { path: String },
    /// `url` is to be fetched with one GET that is given up after
    /// `timeout_secs` seconds; of the body, no more than `max_bytes` bytes
    /// are to be kept.
    HttpGet { url: String, timeout_secs: u64, max_bytes: u64 },
}

/// The name of the file or resource that holds the tile `tile_id`.
pub open spec fn tile_file(tile_id: Seq<char>) -> Seq<char> {
    tile_id + seq!['.', 'p', 'n', 'g']
}

/// The path `rel` taken from the directory `root`. A `rel` that starts at
/// the root of the file system stands for itself.
pub open spec fn joined_path(root: Seq<char>, rel: Seq<char>) -> Seq<char> {
    if rel.len() > 0 && rel.first() == '/' {
        rel
    } else if root.len() == 0 || root.last() == '/' {
        root + rel
    } else {
        root + seq!['/'] + rel
    }
}

/// What a local volume does for a tile whose file would be at `path`:
/// the file is read where the index knows the path, and is not looked for
/// where it does not.
pub open spec fn local_outcome(path: Seq<char>, present: bool, r: Resolution) -> bool {
    if present {
        r matches Resolution::ReadFile { path: p } && p@ == path
    } else {
        r is NotFound
    }
}

/// What a remote origin does for a tile: its URL is fetched within the
/// fixed bounds, and a tile without a URL is not found.
pub open spec fn remote_outcome(joined: Option<Seq<char>>, r: Resolution) -> bool {
    match joined {
        Some(text) => r matches Resolution::HttpGet { url, timeout_secs, max_bytes } && url@
            == text && timeout_secs == 30 && max_bytes == 10_485_760,
        None => r is NotFound,
    }
}

/// What `config` does for the tile `tile_id`, given the paths that the
/// index answers "present" for.
pub open spec fn resolves_to(
    config: SourceConfig,
    known: Set<Seq<char>>,
    tile_id: Seq<char>,
    r: Resolution,
) -> bool {
    match config {
        SourceConfig::LocalVolume { root } => {
            let path = joined_path(root@, tile_file(tile_id));
            local_outcome(path, known.contains(path), r)
        },
        SourceConfig::RemoteOrigin { base } => remote_outcome(
            url_joined(base@, tile_file(tile_id)),
            r,
        ),
    }
}

impl ConfigError {
    /// The error in words.
    pub fn message(&self) -> (text: String)
        ensures
            text@ == (match self {
                ConfigError::NoSource => "One of --base-url or --volume must be provided"@,
                ConfigError::TwoSources => "Only one of --base-url or --volume must be provided"@,
            }),
    {
        match self {
            ConfigError::NoSource => "One of --base-url or --volume must be provided".to_owned(),
            ConfigError::TwoSources => "Only one of --base-url or --volume must be provided".to_owned(),
        }
    }
}

impl SourceConfig {
    /// The source that the two options of a service name: exactly one of
    /// them must be given.
    pub fn from_options(volume: Option<String>, base_url: Option<String>) -> (r: Result<
        SourceConfig,
        ConfigError,
    >)
        ensures
            r == (match (volume, base_url) {
                (None, None) => Err::<SourceConfig, ConfigError>(ConfigError::NoSource),
                (Some(_), Some(_)) => Err(ConfigError::TwoSources),
                (Some(root), None) => Ok(SourceConfig::LocalVolume { root }),
                (None, Some(base)) => Ok(SourceConfig::RemoteOrigin { base }),
            }),
    {
        match (volume, base_url) {
            (None, None) => Err(ConfigError::NoSource),
            (Some(_), Some(_)) => Err(ConfigError::TwoSources),
            (Some(root), None) => Ok(SourceConfig::LocalVolume { root }),
            (None, Some(base)) => Ok(SourceConfig::RemoteOrigin { base }),
        }
    }
}

/// The name of the file or resource that holds the tile `tile_id`.
pub fn tile_file_name(tile_id: &str) -> (name: String)
    ensures
        name@ == tile_file(tile_id@),
{
    proof {
        reveal_strlit(".png");
    }
    let mut name = tile_id.to_owned();
    name.append(".png");
    assert(name@ =~= tile_file(tile_id@));
    name
}

/// The path `rel` taken from the directory `root`.
pub fn join_path(root: &str, rel: &str) -> (path: String)
    ensures
        path@ == joined_path(root@, rel@),
{
    if rel.unicode_len() > 0 && rel.get_char(0) == '/' {
        return rel.to_owned();
    }
    let n = root.unicode_len();
    let mut path = root.to_owned();
    if n > 0 && root.get_char(n - 1) != '/' {
        proof {
            reveal_strlit("/");
        }
        path.append("/");
        assert(path@ =~= root@ + seq!['/']);
    }
    path.append(rel);
    path
}

/// What a local volume does for the tile whose file would be at `path`,
/// once the index has answered.
pub fn local_resolution(path: String, present: bool) -> (r: Resolution)
    ensures
        local_outcome(path@, present, r),
{
    if present {
        Resolution::ReadFile { path }
    } else {
        Resolution::NotFound
    }
}

/// What a remote origin does for a tile, once its URL has been worked
/// out: `joined` is the URL, or `None` where there is none.
pub fn remote_resolution(joined: Option<String>) -> (r: Resolution)
    ensures
        remote_outcome(
            match joined {
                Some(url) => Some(url@),
                None => None,
            },
            r,
        ),
{
    match joined {
        Some(url) => Resolution::HttpGet {
            url,
            timeout_secs: REMOTE_TIMEOUT_SECS,
            max_bytes: MAX_REMOTE_FILE_SIZE,
        },
        None => Resolution::NotFound,
    }
}

/// What is to be done to get the bytes of the tile `tile_id`.
///
/// On a local volume the tile is the file `tile_id` with `.png` added,
/// under the root; it is read only where `index` knows its path. On a
/// remote origin the tile is at the URL that `tile_id` with `.png` added
/// gives when resolved against the base; where there is no such URL the
/// tile is not found.
pub fn resolve(config: &SourceConfig, index: &ExistenceIndex, tile_id: &str) -> (r: Resolution)
    requires
        index.wf(),
    ensures
        resolves_to(*config, index@, tile_id@, r),
{
    let name = tile_file_name(tile_id);
    match config {
        SourceConfig::LocalVolume { root } => {
            let path = join_path(root.as_str(), name.as_str());
            let present = index.contains(path.as_str());
            local_resolution(path, present)
        },
        SourceConfig::RemoteOrigin { base } => {
            match join_url(base.as_str(), name.as_str()) {
                Ok(url) => remote_resolution(Some(url)),
                Err(_) => remote_resolution(None),
            }
        },
    }
}

} // verus!
