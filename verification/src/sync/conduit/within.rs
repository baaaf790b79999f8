//! Within-conduit environment handling: how a launched conduit reads the
//! configuration it was handed.
//!
//! The launcher passes everything as environment variables. The caller
//! reads the raw variables and hands their values in; the decisions —
//! which variable missing means which error, how the mode string is
//! parsed, and which variables belong to the conduit's own configuration
//! — are made here.

use vstd::prelude::*;

use crate::sync::conduit::ConduitRequirements;
use crate::sync::{SyncMode, spec_sync_mode_of};
use crate::text::{
    chars_start_with, spec_pair_views, spec_starts_with, str_chars, string_from_chars,
};

verus! {

/// Why a conduit could not assemble its configuration from the
/// environment it was handed.
#[derive(Debug, Copy, Clone, PartialEq, Eq, Structural)]
pub enum ConduitEnvError {
    /// The sync-mode variable was absent.
    ModeNotSet,
    /// The sync-mode variable did not name a mode.
    ModeInvalid,
    /// The local data directory variable was absent.
    LocalNotSet,
    /// The device data directory variable was absent.
    DeviceNotSet,
    /// The configuration-prefix variable was absent.
    PrefixNotSet,
}

/// The configuration keys of a conduit: the environment entries whose
/// names carry the prefix, with the prefix stripped, in their given
/// order.
pub open spec fn spec_filter_env(
    env: Seq<(Seq<char>, Seq<char>)>,
    prefix: Seq<char>,
) -> Seq<(Seq<char>, Seq<char>)>
    decreases env.len(),
{
    if env.len() == 0 {
        Seq::empty()
    } else {
        let rest = spec_filter_env(env.drop_first(), prefix);
        if spec_starts_with(env[0].0, prefix) {
            seq![(env[0].0.skip(prefix.len() as int), env[0].1)] + rest
        } else {
            rest
        }
    }
}

/// A conduit's own view of the configuration it was launched with.
#[derive(Debug, Clone, PartialEq)]
pub struct WithinConduitConfig {
    pub sync_mode: SyncMode,
    pub path_local: String,
    pub path_device: String,
    /// The conduit-specific configuration, with the prefix stripped from
    /// each key.
    pub environment: Vec<(String, String)>,
}

impl WithinConduitConfig {
    /// Fill the configuration from the values of the launcher-set
    /// variables, in the order the launcher documents them: the sync
    /// mode, the two data directories, then the prefixed configuration
    /// keys. The first absent or invalid value stops the work with its
    /// error, leaving the fields before it already updated.
    pub fn from_values(
        &mut self,
        sync_mode: Option<&str>,
        data_local: Option<&str>,
        data_device: Option<&str>,
        config_prefix: Option<&str>,
        environ: &Vec<(String, String)>,
    ) -> (r: Result<(), ConduitEnvError>)
        ensures
            ({
                let old_c = *old(self);
                let new_c = *final(self);
                match sync_mode {
                    None => r == Err::<(), ConduitEnvError>(ConduitEnvError::ModeNotSet) && new_c
                        == old_c,
                    Some(ms) => match spec_sync_mode_of(ms@) {
                        None => r == Err::<(), ConduitEnvError>(ConduitEnvError::ModeInvalid)
                            && new_c == old_c,
                        Some(mode) => {
                            &&& new_c.sync_mode == mode
                            &&& match data_local {
                                None => r == Err::<(), ConduitEnvError>(
                                    ConduitEnvError::LocalNotSet,
                                ) && new_c.path_local == old_c.path_local && new_c.path_device
                                    == old_c.path_device && new_c.environment
                                    == old_c.environment,
                                Some(lp) => {
                                    &&& new_c.path_local@ == lp@
                                    &&& match data_device {
                                        None => r == Err::<(), ConduitEnvError>(
                                            ConduitEnvError::DeviceNotSet,
                                        ) && new_c.path_device == old_c.path_device
                                            && new_c.environment == old_c.environment,
                                        Some(dp) => {
                                            &&& new_c.path_device@ == dp@
                                            &&& match config_prefix {
                                                None => r == Err::<(), ConduitEnvError>(
                                                    ConduitEnvError::PrefixNotSet,
                                                ) && new_c.environment == old_c.environment,
                                                Some(pfx) => r == Ok::<(), ConduitEnvError>(())
                                                    && spec_pair_views(new_c.environment@)
                                                    == spec_filter_env(
                                                    spec_pair_views(environ@),
                                                    pfx@,
                                                ),
                                            }
                                        },
                                    }
                                },
                            }
                        },
                    },
                }
            }),
    {
        let mode_str = match sync_mode {
            Some(s) => s,
            None => {
                return Err(ConduitEnvError::ModeNotSet);
            },
        };
        self.sync_mode = match SyncMode::from_str(mode_str) {
            Ok(mode) => mode,
            Err(_) => {
                return Err(ConduitEnvError::ModeInvalid);
            },
        };
        self.path_local = match data_local {
            Some(p) => p.to_owned(),
            None => {
                return Err(ConduitEnvError::LocalNotSet);
            },
        };
        self.path_device = match data_device {
            Some(p) => p.to_owned(),
            None => {
                return Err(ConduitEnvError::DeviceNotSet);
            },
        };
        let prefix = match config_prefix {
            Some(p) => p,
            None => {
                return Err(ConduitEnvError::PrefixNotSet);
            },
        };
        let prefix_chars = str_chars(prefix);
        let mut filtered: Vec<(String, String)> = Vec::new();
        let n = environ.len();
        let mut i: usize = 0;
        while i < n
            invariant
                i <= n,
                n == environ@.len(),
                prefix_chars@ == prefix@,
                spec_pair_views(filtered@) =~~= spec_filter_env(
                    spec_pair_views(environ@.subrange(0, i as int)),
                    prefix@,
                ),
            decreases n - i,
        {
            let key_chars = str_chars(environ[i].0.as_str());
            if chars_start_with(&key_chars, &prefix_chars) {
                let mut stripped: Vec<char> = Vec::new();
                let mut k: usize = prefix_chars.len();
                while k < key_chars.len()
                    invariant
                        prefix_chars@.len() <= k <= key_chars@.len(),
                        stripped@ =~= key_chars@.subrange(prefix_chars@.len() as int, k as int),
                    decreases key_chars@.len() - k,
                {
                    stripped.push(key_chars[k]);
                    k = k + 1;
                    proof {
                        assert(key_chars@.subrange(prefix_chars@.len() as int, k as int)
                            =~= key_chars@.subrange(prefix_chars@.len() as int, k - 1).push(
                            key_chars@[k - 1],
                        ));
                    }
                }
                proof {
                    assert(stripped@ =~= key_chars@.skip(prefix_chars@.len() as int));
                }
                filtered.push((string_from_chars(&stripped), environ[i].1.clone()));
            }
            i = i + 1;
            proof {
                lemma_filter_env_push(
                    spec_pair_views(environ@.subrange(0, i - 1)),
                    (environ@[i - 1].0@, environ@[i - 1].1@),
                    prefix@,
                );
                assert(environ@.subrange(0, i as int) =~= environ@.subrange(0, i - 1).push(
                    environ@[i - 1],
                ));
                assert(spec_pair_views(environ@.subrange(0, i as int)) =~~= spec_pair_views(
                    environ@.subrange(0, i - 1),
                ).push((environ@[i - 1].0@, environ@[i - 1].1@)));
            }
        }
        proof {
            assert(environ@.subrange(0, n as int) =~= environ@);
        }
        self.environment = filtered;
        Ok(())
    }
}

/// Filtering one more entry keeps the filtered prefix and appends the
/// entry exactly when its key carries the prefix.
pub proof fn lemma_filter_env_push(
    env: Seq<(Seq<char>, Seq<char>)>,
    e: (Seq<char>, Seq<char>),
    prefix: Seq<char>,
)
    ensures
        spec_filter_env(env.push(e), prefix) =~= if spec_starts_with(e.0, prefix) {
            spec_filter_env(env, prefix) + seq![(e.0.skip(prefix.len() as int), e.1)]
        } else {
            spec_filter_env(env, prefix)
        },
    decreases env.len(),
{
    if env.len() == 0 {
        assert(env.push(e)[0] == e);
        assert(env.push(e).drop_first() =~= env);
    } else {
        assert(env.push(e).drop_first() =~= env.drop_first().push(e));
        assert(env.push(e)[0] == env[0]);
        lemma_filter_env_push(env.drop_first(), e, prefix);
    }
}

impl Default for WithinConduitConfig {
    /// Merge mode, empty paths, no configuration.
    fn default() -> (r: Self)
        ensures
            r.sync_mode == SyncMode::Merge,
            r.path_local@ == Seq::<char>::empty(),
            r.path_device@ == Seq::<char>::empty(),
            r.environment@.len() == 0,
    {
        WithinConduitConfig {
            sync_mode: SyncMode::Merge,
            path_local: String::new(),
            path_device: String::new(),
            environment: Vec::new(),
        }
    }
}

/// A conduit's own identity and configuration, as read back inside the
/// launched process.
#[derive(Debug, Clone, PartialEq)]
pub struct WithinConduit {
    pub conduit_name: String,
    pub requirements: ConduitRequirements,
    pub sync_version: String,
    pub config: WithinConduitConfig,
}

impl WithinConduit {
    /// A conduit with the given name and requirements, its version and
    /// configuration still unset.
    pub fn new(conduit_name: &str, requirements: ConduitRequirements) -> (r: WithinConduit)
        ensures
            r.conduit_name@ == conduit_name@,
            r.requirements == requirements,
            r.sync_version@ == "0.0.0"@,
            r.config.sync_mode == SyncMode::Merge,
            r.config.path_local@ == Seq::<char>::empty(),
            r.config.path_device@ == Seq::<char>::empty(),
            r.config.environment@.len() == 0,
    {
        WithinConduit {
            conduit_name: conduit_name.to_owned(),
            requirements,
            sync_version: String::from_str("0.0.0"),
            config: WithinConduitConfig {
                sync_mode: SyncMode::Merge,
                path_local: String::new(),
                path_device: String::new(),
                environment: Vec::new(),
            },
        }
    }
}

impl Default for WithinConduit {
    /// An anonymous conduit with no requirements and version `0.0.0`.
    fn default() -> (r: Self)
        ensures
            r.conduit_name@ == Seq::<char>::empty(),
            r.requirements.databases@.len() == 0,
            r.sync_version@ == "0.0.0"@,
            r.config.sync_mode == SyncMode::Merge,
    {
        WithinConduit {
            conduit_name: String::new(),
            requirements: ConduitRequirements { databases: Vec::new() },
            sync_version: String::from_str("0.0.0"),
            config: WithinConduitConfig {
                sync_mode: SyncMode::Merge,
                path_local: String::new(),
                path_device: String::new(),
                environment: Vec::new(),
            },
        }
    }
}

} // verus!

use vstd::string::StringExecFns;
