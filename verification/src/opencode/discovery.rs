//! Agent server discovery: candidate endpoints and probe classification.
//!
//! The caller performs the health probes; this module decides which
//! endpoints to try, in which order, and what each probe outcome means.

use vstd::prelude::*;

use crate::text::{chars_of, spec_trim_end_matches_char, string_of, trim_end_matches_char};

verus! {

/// The health of a probed server.
#[derive(Debug, Clone, PartialEq, Eq, Structural)]
pub enum ServerStatus {
    /// The server answered the probe successfully.
    Available,
    /// The server answered, but not successfully.
    Unavailable,
    /// The probe could not be made or got no answer.
    Unknown,
}

/// The result of probing for an agent server.
#[derive(Debug, Clone)]
pub struct OpenCodeStatus {
    /// Whether a server answered the probe successfully.
    pub running: bool,
    /// The probed URL, when one was probed.
    pub url: Option<String>,
    /// The classified health.
    pub status: ServerStatus,
}

/// Chooses and classifies discovery probes around a default server URL.
#[derive(Debug, Clone)]
pub struct OpenCodeDiscovery {
    pub default_server_url: String,
}

/// The health-probe URL of a server: the base with trailing slashes
/// removed, then `/health`.
pub open spec fn spec_health_url(server_url: Seq<char>) -> Seq<char> {
    spec_trim_end_matches_char(server_url, '/') + "/health"@
}

impl OpenCodeDiscovery {
    /// A discovery service with the given default URL.
    pub fn new(default_server_url: String) -> (r: OpenCodeDiscovery)
        ensures
            r.default_server_url == default_server_url,
    {
        OpenCodeDiscovery { default_server_url }
    }

    /// The URL to probe for the health of `server_url`.
    pub fn health_url(&self, server_url: &str) -> (r: String)
        ensures
            r@ == spec_health_url(server_url@),
    {
        let trimmed = trim_end_matches_char(chars_of(server_url), '/');
        let mut v = trimmed;
        crate::text::append_str(&mut v, "/health");
        string_of(&v)
    }

    /// Classifies one probe of `server_url`: an empty URL yields an
    /// unknown status without a URL; an unreachable server an unknown
    /// status with the URL; a reachable one is available exactly when the
    /// probe succeeded.
    pub fn probe_status(&self, server_url: &str, reachable: bool, success: bool) -> (r:
        OpenCodeStatus)
        ensures
            server_url@.len() == 0 ==> !r.running && r.url is None && r.status is Unknown,
            server_url@.len() > 0 && !reachable ==> !r.running && (r.url matches Some(u) && u@
                == server_url@) && r.status is Unknown,
            server_url@.len() > 0 && reachable && success ==> r.running && (r.url matches Some(u)
                && u@ == server_url@) && r.status is Available,
            server_url@.len() > 0 && reachable && !success ==> !r.running && (
            r.url matches Some(u) && u@ == server_url@) && r.status is Unavailable,
    {
        if server_url.is_empty() {
            OpenCodeStatus { running: false, url: None, status: ServerStatus::Unknown }
        } else if !reachable {
            OpenCodeStatus {
                running: false,
                url: Some(String::from_str(server_url)),
                status: ServerStatus::Unknown,
            }
        } else if success {
            OpenCodeStatus {
                running: true,
                url: Some(String::from_str(server_url)),
                status: ServerStatus::Available,
            }
        } else {
            OpenCodeStatus {
                running: false,
                url: Some(String::from_str(server_url)),
                status: ServerStatus::Unavailable,
            }
        }
    }

    /// The endpoints automatic discovery probes, in order: the configured
    /// default URL, the environment-supplied URL when one is set and
    /// non-empty, then the fixed local ports. The first to answer a
    /// health probe is adopted; the caller stops at the first success.
    pub fn discovery_candidates(&self, env_url: &Option<String>) -> (r: Vec<String>)
        ensures
            ({
                let env_part: Seq<Seq<char>> = match env_url {
                    Some(u) => if u@.len() > 0 {
                        seq![u@]
                    } else {
                        Seq::empty()
                    },
                    None => Seq::empty(),
                };
                crate::tmux::cli::arg_views(r@) == seq![self.default_server_url@] + env_part
                    + seq![
                    "http://127.0.0.1:4096"@,
                    "http://127.0.0.1:4097"@,
                    "http://127.0.0.1:4098"@,
                    "http://127.0.0.1:4099"@,
                ]
            }),
    {
        let mut r: Vec<String> = Vec::new();
        r.push(self.default_server_url.clone());
        match env_url {
            Some(u) => {
                if !u.as_str().is_empty() {
                    r.push(u.clone());
                }
            },
            None => {},
        }
        r.push(String::from_str("http://127.0.0.1:4096"));
        r.push(String::from_str("http://127.0.0.1:4097"));
        r.push(String::from_str("http://127.0.0.1:4098"));
        r.push(String::from_str("http://127.0.0.1:4099"));
        proof {
            let env_part: Seq<Seq<char>> = match env_url {
                Some(u) => if u@.len() > 0 {
                    seq![u@]
                } else {
                    Seq::<Seq<char>>::empty()
                },
                None => Seq::<Seq<char>>::empty(),
            };
            assert(crate::tmux::cli::arg_views(r@) =~= seq![self.default_server_url@] + env_part
                + seq![
                "http://127.0.0.1:4096"@,
                "http://127.0.0.1:4097"@,
                "http://127.0.0.1:4098"@,
                "http://127.0.0.1:4099"@,
            ]);
        }
        r
    }
}

impl Default for OpenCodeDiscovery {
    /// The conventional local default endpoint.
    fn default() -> (r: OpenCodeDiscovery)
        ensures
            r.default_server_url@ == "http://127.0.0.1:4096"@,
    {
        OpenCodeDiscovery { default_server_url: String::from_str("http://127.0.0.1:4096") }
    }
}

} // verus!
