//! The configuration an agent is built from and saved to.
use vstd::prelude::*;
use super::{labeler_entries, pair_views, parse_labelers_header, parse_proxy_header, proxy_target};
use crate::text::{copy_string, str_eq};

verus! {

/// What an agent is built from: the XRPC endpoint and the stored header
/// values. (The session, an outside value, travels beside it.)
#[derive(Debug, Clone)]
pub struct Config {
    /// The base URL for the XRPC endpoint.
    pub endpoint: String,
    /// The labelers header values.
    pub labelers_header: Option<Vec<String>>,
    /// The proxy header for service proxying.
    pub proxy_header: Option<String>,
}

impl Default for Config {
    /// The endpoint `https://bsky.social` and no headers.
    fn default() -> (r: Self)
        ensures
            r.endpoint@ == "https://bsky.social"@,
            r.labelers_header is None,
            r.proxy_header is None,
    {
        Config { endpoint: String::from_str("https://bsky.social"), labelers_header: None, proxy_header: None }
    }
}

/// What building an agent from a configuration sets up.
#[derive(Debug, Clone)]
pub struct AgentSetup {
    pub endpoint: String,
    /// The labelers to name in requests, when the configuration has any.
    pub labelers: Option<Vec<(String, bool)>>,
    /// The service to proxy to, when the configuration names a valid one.
    pub proxy: Option<(String, String)>,
}

impl Config {
    /// What building an agent from this configuration sets up: the
    /// endpoint, the labelers its header names (see `labeler_entries`),
    /// and the proxy target its header names (see `proxy_target`).
    pub fn agent_setup(&self) -> (r: AgentSetup)
        ensures
            r.endpoint@ == self.endpoint@,
            match self.labelers_header {
                Some(v) => r.labelers matches Some(l) && pair_views(l@) == labeler_entries(v@),
                None => r.labelers is None,
            },
            match self.proxy_header {
                Some(p) => match proxy_target(p@) {
                    Some((d, s)) => r.proxy matches Some((rd, rs)) && rd@ == d && rs@ == s,
                    None => r.proxy is None,
                },
                None => r.proxy is None,
            },
    {
        let labelers = match &self.labelers_header {
            Some(v) => Some(parse_labelers_header(v)),
            None => None,
        };
        let proxy = match &self.proxy_header {
            Some(p) => parse_proxy_header(p.as_str()),
            None => None,
        };
        AgentSetup { endpoint: copy_string(&self.endpoint), labelers, proxy }
    }
}

/// The file formats a configuration can be stored in.
#[derive(Debug, Clone, Copy, PartialEq, Eq, Structural)]
pub enum ConfigFormat {
    Json,
}

/// What `std::path::Path::extension` gives for a path, as UTF-8 text.
pub uninterp spec fn path_extension(path: Seq<char>) -> Option<Seq<char>>;

/// Calls `std::path::Path::extension`; the result is named `path_extension`.
#[verifier::external_body]
fn extension_of(path: &str) -> (r: Option<String>)
    ensures
        match r {
            Some(e) => path_extension(path@) == Some(e@),
            None => path_extension(path@) is None,
        },
{
    std::path::Path::new(path).extension().and_then(|e| e.to_str()).map(|e| e.to_string())
}

/// A configuration file, read and written in the format its extension names.
#[derive(Debug, Clone)]
pub struct FileStore {
    pub path: String,
}

impl FileStore {
    /// A store for the file at the given path.
    pub fn new(path: &str) -> (r: Self)
        ensures
            r.path@ == path@,
    {
        FileStore { path: path.to_owned() }
    }

    /// The format of the file: JSON for `.json`, none (not supported) for
    /// any other extension.
    pub fn format(&self) -> (r: Option<ConfigFormat>)
        ensures
            r == match path_extension(self.path@) {
                Some(e) => if e == "json"@ {
                    Some(ConfigFormat::Json)
                } else {
                    None
                },
                None => None,
            },
    {
        match extension_of(self.path.as_str()) {
            Some(e) => {
                if str_eq(e.as_str(), "json") {
                    Some(ConfigFormat::Json)
                } else {
                    None
                }
            },
            None => None,
        }
    }
}

} // verus!
