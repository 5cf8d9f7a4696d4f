//! The builder.

pub mod auth;
pub mod builds;
pub mod connection;
pub mod output_cache;
pub mod queued;
pub mod status;

use vstd::prelude::*;

use crate::access;
use crate::access::AccessPolicy;
use crate::config;
use crate::config::{
    ServerConfig, DEFAULT_MAX_CONCURRENT_BUILDS, DEFAULT_RECENT_BUILDS_LIMIT, MAX_AUTO_CACHE_FILLS,
};
use crate::endpoint::EndpointId;
use crate::error::Error;
use crate::keys::server_key_path;
use crate::paths;
use crate::protocol::path_chunks::ReadLimits;

verus! {

/// How long the other side may take to answer, in seconds.
pub const CONTROL_TIMEOUT_SECS: u64 = 30;

/// How long the client's Nix may take, in seconds.
pub const CLIENT_NIX_TIMEOUT_SECS: u64 = 600;

/// How long an upload may take, in seconds.
pub const UPLOAD_TIMEOUT_SECS: u64 = 1800;

/// How long the client may take to close the connection, in seconds.
pub const CLOSE_TIMEOUT_SECS: u64 = 5;

pub const MAX_PATH_LIST_CHUNKS: usize = 512;

pub const MAX_PATH_LIST_PATHS: usize = 100_000;

pub const MAX_PATH_LIST_BYTES: usize = 16_777_216;

/// How much is read of a list of paths.
pub fn path_list_limits() -> (r: ReadLimits)
    ensures
        r == (ReadLimits { chunks: 512, paths: 100_000, bytes: 16_777_216 }),
{
    ReadLimits {
        chunks: MAX_PATH_LIST_CHUNKS,
        paths: MAX_PATH_LIST_PATHS,
        bytes: MAX_PATH_LIST_BYTES,
    }
}

/// How a builder is set up: by a data directory and the endpoints that it
/// trusts, or by a configuration file.
pub enum ServeMode {
    DataDir { data_dir: String, trusted_clients: Vec<EndpointId> },
    Config(String),
}

/// What a builder works with.
pub struct ResolvedServeMode {
    pub data_dir: String,
    pub secret_key_file: Option<String>,
    pub access_policy: AccessPolicy,
    pub max_concurrent_builds: usize,
    pub output_cache_max_parallel_fills: Option<usize>,
    pub recent_builds_limit: usize,
}

impl ResolvedServeMode {
    /// A builder that is set up by its data directory has the defaults.
    pub fn from_data_dir(data_dir: String, trusted_clients: Vec<EndpointId>) -> (mode: Self)
        ensures
            mode.data_dir == data_dir,
            mode.secret_key_file is None,
            mode.access_policy@ == Seq::new(
                trusted_clients@.len(),
                |i: int| access::unnamed_endpoint(trusted_clients@[i]@),
            ),
            mode.max_concurrent_builds == 1,
            mode.output_cache_max_parallel_fills is None,
            mode.recent_builds_limit == 20,
    {
        ResolvedServeMode {
            data_dir,
            secret_key_file: None,
            access_policy: AccessPolicy::from_endpoint_ids(trusted_clients),
            max_concurrent_builds: DEFAULT_MAX_CONCURRENT_BUILDS,
            output_cache_max_parallel_fills: None,
            recent_builds_limit: DEFAULT_RECENT_BUILDS_LIMIT,
        }
    }

    /// A builder that is set up by a configuration, where that is one.
    pub fn from_config(config: ServerConfig) -> (r: Result<Self, Error>)
        ensures
            match r {
                Ok(mode) => {
                    &&& config::config_fault(config) is None
                    &&& access::configured_endpoints(
                        config.trusted_clients.keys(),
                        config.trusted_clients@,
                    ) == Ok::<Seq<access::TrustedEndpointView>, Seq<Seq<char>>>(
                        mode.access_policy@,
                    )
                    &&& mode.data_dir == config.data_dir
                    &&& mode.secret_key_file == config.secret_key_file
                    &&& mode.max_concurrent_builds == config.max_concurrent_builds
                    &&& mode.output_cache_max_parallel_fills
                        == config.output_cache_max_parallel_fills
                    &&& mode.recent_builds_limit == config.recent_builds_limit
                },
                Err(e) => match config::config_fault(config) {
                    Some(fault) => e@ == seq![fault],
                    None => access::configured_endpoints(
                        config.trusted_clients.keys(),
                        config.trusted_clients@,
                    ) == Err::<Seq<access::TrustedEndpointView>, Seq<Seq<char>>>(e@),
                },
            },
    {
        match config.check() {
            Ok(()) => {},
            Err(e) => {
                return Err(e);
            },
        }
        let access_policy: AccessPolicy = match AccessPolicy::from_config(&config) {
            Ok(policy) => policy,
            Err(e) => {
                return Err(e);
            },
        };
        Ok(
            ResolvedServeMode {
                data_dir: config.data_dir,
                secret_key_file: config.secret_key_file,
                access_policy,
                max_concurrent_builds: config.max_concurrent_builds,
                output_cache_max_parallel_fills: config.output_cache_max_parallel_fills,
                recent_builds_limit: config.recent_builds_limit,
            },
        )
    }

    /// How many cache entries are made at once.
    pub fn cache_fills(&self, available: Option<usize>) -> (n: usize)
        ensures
            n == (match self.output_cache_max_parallel_fills {
                Some(fills) => fills,
                None => default_fills(available),
            }),
    {
        match self.output_cache_max_parallel_fills {
            Some(fills) => fills,
            None => default_output_cache_max_parallel_fills(available),
        }
    }

    /// Where the builder has its key.
    pub fn key_path(&self) -> (r: String)
        ensures
            r@ == (match self.secret_key_file {
                Some(path) => path@,
                None => paths::joined(self.data_dir@, "secret.key"@),
            }),
    {
        match &self.secret_key_file {
            Some(path) => path.as_str().to_string(),
            None => server_key_path(self.data_dir.as_str()),
        }
    }
}

/// How many cache entries are made at once on a machine that can do so much:
/// as many as that, within bounds.
pub open spec fn default_fills(available: Option<usize>) -> usize {
    match available {
        None => 4,
        Some(available) => if available < 1 {
            1
        } else if available > 16 {
            16
        } else {
            available
        },
    }
}

/// How many cache entries are made at once where nothing is configured: as
/// many as the machine can run at once, within bounds.
pub fn default_output_cache_max_parallel_fills(available: Option<usize>) -> (n: usize)
    ensures
        n == default_fills(available),
{
    let available: usize = match available {
        Some(available) => available,
        None => 4,
    };
    if available < 1 {
        1
    } else if available > MAX_AUTO_CACHE_FILLS {
        MAX_AUTO_CACHE_FILLS
    } else {
        available
    }
}

// ---------------------------------------------------------------------------
// Laws
// ---------------------------------------------------------------------------

/// What is waited for, and for how long: half a minute for an answer, ten minutes for
/// what the client's Nix does, half an hour for an upload, and five seconds for a
/// client to leave.
pub proof fn law_how_long_the_builder_waits()
    ensures
        CONTROL_TIMEOUT_SECS == 30,
        CLIENT_NIX_TIMEOUT_SECS == 10 * 60,
        UPLOAD_TIMEOUT_SECS == 30 * 60,
        CLOSE_TIMEOUT_SECS == 5,
{
}

/// On any machine from one to sixteen cache entries are made at once: as many as it
/// can run where that is between these, and four where nobody knows.
pub proof fn law_cache_fills_follow_the_machine(available: usize)
    ensures
        1 <= default_fills(Some(available)) <= 16,
        1 <= available <= 16 ==> default_fills(Some(available)) == available,
        available > 16 ==> default_fills(Some(available)) == 16,
        default_fills(None) == 4,
{
}

} // verus!
