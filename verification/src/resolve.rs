//! Resolving a project's Biome setup: the decisions between the file-system lookups,
//! the cache and the version probe, as a step function from state and event to the
//! next state and the action to perform.
use vstd::prelude::*;
use crate::cache::{
    accept_cached, cache_key, copy_key, copy_setup, spec_accept_cached, CacheKey, CachedDetection,
    FileStamp, SCHEMA_VERSION,
};
use crate::detect::BiomeSetup;
use crate::hooks::config_dir_of;
use crate::paths::std_parent;

verus! {

/// Where the resolution stands.
pub enum ResolveState {
    /// Looking for the Biome config; `lockfile` is the package manager's lockfile, if any.
    FindingConfig { lockfile: Option<String> },
    /// Stamping the config and the lockfile.
    Stamping { config_path: String, lockfile: Option<String> },
    /// Asking the cache about `key`.
    CheckingCache { key: CacheKey },
    /// Looking for a Biome binary for the config of `key`.
    FindingBinary { key: CacheKey },
    /// Asking the binary at `binary_path` for its version.
    Probing { key: CacheKey, binary_path: String },
    /// Storing the fresh detection `biome`.
    Storing { biome: BiomeSetup },
    /// Finished.
    Done,
}

/// What performing the last action gave.
pub enum ResolveEvent {
    /// The nearest Biome config (what `find_biome_config` returned).
    Config(Option<String>),
    /// The stamps of the config and of the lockfile (when there is one), or why
    /// stamping failed.
    Stamps(Result<(FileStamp, Option<FileStamp>), String>),
    /// What the cache holds for the key, and whether the binary and config it names
    /// still exist.
    Cached { hit: Option<CachedDetection>, binary_exists: bool, config_exists: bool },
    /// The Biome binary (what `find_biome_binary` returned).
    Binary(Result<Option<String>, String>),
    /// The binary's version (what `probe_version` returned).
    Version(Result<String, String>),
    /// Whether storing the detection succeeded.
    Stored(Result<(), String>),
}

/// What to do next.
pub enum ResolveAction {
    /// Look for the nearest Biome config.
    FindConfig,
    /// Stamp the config and, if there is one, the lockfile.
    Stamp { config_path: String, lockfile: Option<String> },
    /// Look `key` up in the cache and check that what it names still exists.
    CheckCache(CacheKey),
    /// Look for a Biome binary from the config's directory.
    FindBinary { config_dir: String },
    /// Ask the binary for its version.
    ProbeVersion { binary_path: String },
    /// Store this detection in the cache.
    Store(CachedDetection),
    /// The resolution is over: the setup, none, or an error.
    Finish(Result<Option<BiomeSetup>, String>),
}

pub open spec fn finish(r: Result<Option<BiomeSetup>, String>) -> (ResolveState, ResolveAction) {
    (ResolveState::Done, ResolveAction::Finish(r))
}

/// The text of the error for a config path without a parent directory.
pub open spec fn no_parent_error() -> Seq<char> {
    "biome config has no parent directory"@
}

/// The text of the error for an event that does not answer the last action.
pub open spec fn unexpected_error() -> Seq<char> {
    "unexpected event while resolving biome"@
}

pub open spec fn lockfile_pair(lockfile: Option<String>, stamp: Option<FileStamp>) -> Option<(String, FileStamp)> {
    match (lockfile, stamp) {
        (Some(p), Some(s)) => Some((p, s)),
        _ => None,
    }
}

/// The key of a detection: the config and the lockfile with their stamps (a lockfile
/// is keyed only together with its stamp).
pub open spec fn spec_key(
    config_path: String,
    config_stamp: FileStamp,
    lockfile: Option<String>,
    lockfile_stamp: Option<FileStamp>,
) -> CacheKey {
    let l = lockfile_pair(lockfile, lockfile_stamp);
    CacheKey {
        biome_config_path: config_path,
        biome_config_stamp: config_stamp,
        lockfile_path: match l {
            Some((p, _)) => Some(p),
            None => None,
        },
        lockfile_stamp: match l {
            Some((_, s)) => Some(s),
            None => None,
        },
    }
}

/// `r` finishes the resolution with an error whose text is `text`.
pub open spec fn finishes_with_error(r: (ResolveState, ResolveAction), text: Seq<char>) -> bool {
    &&& r.0 is Done
    &&& r.1 matches ResolveAction::Finish(Err(e)) && e@ == text
}

/// The decisions of the resolution, as what `r` (next state and action) must be:
/// - no config: no Biome;
/// - a config: stamp it and the lockfile, and ask the cache under their key;
/// - a cached detection with the current schema whose binary and config still exist
///   is the answer;
/// - otherwise look for a binary from the config's directory (an error when the
///   config has no parent); none found: no Biome;
/// - a binary: probe its version, then store the detection and answer with it.
/// Every error that an event reports ends the resolution with that error; an event
/// that does not answer the last action ends it with `unexpected_error()`.
pub open spec fn spec_resolve_step(state: ResolveState, event: ResolveEvent, r: (ResolveState, ResolveAction)) -> bool {
    match (state, event) {
        (ResolveState::FindingConfig { lockfile }, ResolveEvent::Config(found)) => match found {
            None => r == finish(Ok(None)),
            Some(c) => r == (
                ResolveState::Stamping { config_path: c, lockfile },
                ResolveAction::Stamp { config_path: c, lockfile },
            ),
        },
        (ResolveState::Stamping { config_path, lockfile }, ResolveEvent::Stamps(stamps)) => match stamps {
            Err(e) => r == finish(Err(e)),
            Ok((cs, ls)) => {
                let key = spec_key(config_path, cs, lockfile, ls);
                r == (ResolveState::CheckingCache { key }, ResolveAction::CheckCache(key))
            },
        },
        (ResolveState::CheckingCache { key }, ResolveEvent::Cached { hit, binary_exists, config_exists }) => {
            if hit is Some && spec_accept_cached(hit->0, binary_exists, config_exists) {
                r == finish(Ok(Some(hit->0.biome)))
            } else {
                match std_parent(key.biome_config_path@) {
                    None => finishes_with_error(r, no_parent_error()),
                    Some(d) => {
                        &&& r.0 == ResolveState::FindingBinary { key }
                        &&& r.1 matches ResolveAction::FindBinary { config_dir } && config_dir@ == d
                    },
                }
            }
        },
        (ResolveState::FindingBinary { key }, ResolveEvent::Binary(found)) => match found {
            Err(e) => r == finish(Err(e)),
            Ok(None) => r == finish(Ok(None)),
            Ok(Some(b)) => r == (
                ResolveState::Probing { key, binary_path: b },
                ResolveAction::ProbeVersion { binary_path: b },
            ),
        },
        (ResolveState::Probing { key, binary_path }, ResolveEvent::Version(v)) => match v {
            Err(e) => r == finish(Err(e)),
            Ok(version) => {
                let biome = BiomeSetup { config_path: key.biome_config_path, binary_path, version };
                r == (
                    ResolveState::Storing { biome },
                    ResolveAction::Store(CachedDetection { schema_version: SCHEMA_VERSION, key, biome }),
                )
            },
        },
        (ResolveState::Storing { biome }, ResolveEvent::Stored(stored)) => match stored {
            Err(e) => r == finish(Err(e)),
            Ok(()) => r == finish(Ok(Some(biome))),
        },
        _ => finishes_with_error(r, unexpected_error()),
    }
}

/// The first step: look for the config, remembering the lockfile.
pub fn resolve_begin(lockfile: Option<String>) -> (r: (ResolveState, ResolveAction))
    ensures
        r == (ResolveState::FindingConfig { lockfile }, ResolveAction::FindConfig),
{
    (ResolveState::FindingConfig { lockfile }, ResolveAction::FindConfig)
}

fn copy_opt(o: &Option<String>) -> (r: Option<String>)
    ensures
        r == *o,
{
    match o {
        Some(s) => Some(s.clone()),
        None => None,
    }
}

/// One step of the resolution: from where it stands and what the last action gave,
/// the next state and the next action.
pub fn resolve_step(state: ResolveState, event: ResolveEvent) -> (r: (ResolveState, ResolveAction))
    ensures
        spec_resolve_step(state, event, r),
{
    match (state, event) {
        (ResolveState::FindingConfig { lockfile }, ResolveEvent::Config(found)) => match found {
            None => (ResolveState::Done, ResolveAction::Finish(Ok(None))),
            Some(c) => {
                let c2 = c.clone();
                let l2 = copy_opt(&lockfile);
                (
                    ResolveState::Stamping { config_path: c, lockfile },
                    ResolveAction::Stamp { config_path: c2, lockfile: l2 },
                )
            },
        },
        (ResolveState::Stamping { config_path, lockfile }, ResolveEvent::Stamps(stamps)) => match stamps {
            Err(e) => (ResolveState::Done, ResolveAction::Finish(Err(e))),
            Ok((cs, ls)) => {
                let pair = match (lockfile, ls) {
                    (Some(p), Some(s)) => Some((p, s)),
                    _ => None,
                };
                let key = cache_key(config_path, cs, pair);
                let key2 = copy_key(&key);
                (ResolveState::CheckingCache { key }, ResolveAction::CheckCache(key2))
            },
        },
        (ResolveState::CheckingCache { key }, ResolveEvent::Cached { hit, binary_exists, config_exists }) => {
            let accepted = match &hit {
                Some(h) => accept_cached(h, binary_exists, config_exists),
                None => false,
            };
            if accepted {
                match hit {
                    Some(h) => (ResolveState::Done, ResolveAction::Finish(Ok(Some(h.biome)))),
                    None => (ResolveState::Done, ResolveAction::Finish(Ok(None))),
                }
            } else {
                match config_dir_of(key.biome_config_path.as_str()) {
                    None => {
                        let e = "biome config has no parent directory".to_string();
                        proof {
                            reveal_strlit("biome config has no parent directory");
                        }
                        (ResolveState::Done, ResolveAction::Finish(Err(e)))
                    },
                    Some(d) => (ResolveState::FindingBinary { key }, ResolveAction::FindBinary { config_dir: d }),
                }
            }
        },
        (ResolveState::FindingBinary { key }, ResolveEvent::Binary(found)) => match found {
            Err(e) => (ResolveState::Done, ResolveAction::Finish(Err(e))),
            Ok(None) => (ResolveState::Done, ResolveAction::Finish(Ok(None))),
            Ok(Some(b)) => {
                let b2 = b.clone();
                (ResolveState::Probing { key, binary_path: b }, ResolveAction::ProbeVersion { binary_path: b2 })
            },
        },
        (ResolveState::Probing { key, binary_path }, ResolveEvent::Version(v)) => match v {
            Err(e) => (ResolveState::Done, ResolveAction::Finish(Err(e))),
            Ok(version) => {
                let biome = BiomeSetup { config_path: key.biome_config_path.clone(), binary_path, version };
                let stored = copy_setup(&biome);
                (
                    ResolveState::Storing { biome },
                    ResolveAction::Store(CachedDetection { schema_version: SCHEMA_VERSION, key, biome: stored }),
                )
            },
        },
        (ResolveState::Storing { biome }, ResolveEvent::Stored(stored)) => match stored {
            Err(e) => (ResolveState::Done, ResolveAction::Finish(Err(e))),
            Ok(()) => (ResolveState::Done, ResolveAction::Finish(Ok(Some(biome)))),
        },
        _ => {
            let e = "unexpected event while resolving biome".to_string();
            proof {
                reveal_strlit("unexpected event while resolving biome");
            }
            (ResolveState::Done, ResolveAction::Finish(Err(e)))
        },
    }
}

} // verus!
