//! Sync conduit handling: what a conduit is handed when it is launched.
//!
//! Conduits are external executables. The launcher passes them their
//! configuration as environment variables: the sync mode, the local and
//! device data directories, and a set of conduit-specific keys whose
//! names carry a prefix derived from the conduit's name. This module
//! computes those names and values; the caller performs the launch.

use vstd::prelude::*;

use crate::sync::SyncMode;
use crate::text::{
    push_chars_of, replace_all, spec_pair_views, spec_replace_all, spec_upper, str_chars,
    string_from_chars, upper_chars,
};

pub mod within;

verus! {

/// The databases a conduit declares it needs from the device.
#[derive(Debug, Clone, PartialEq)]
pub struct ConduitRequirements {
    /// Names of the device databases the conduit reads or writes.
    pub databases: Vec<String>,
}

impl ConduitRequirements {
    /// An empty requirement set.
    pub fn new() -> (r: ConduitRequirements)
        ensures
            r.databases@.len() == 0,
    {
        ConduitRequirements { databases: Vec::new() }
    }

    /// Add one required database name.
    pub fn with_database(self, name: &str) -> (r: ConduitRequirements)
        ensures
            r.databases@.len() == self.databases@.len() + 1,
            forall|i: int|
                0 <= i < self.databases@.len() ==> r.databases@[i] == self.databases@[i],
            r.databases@.last()@ == name@,
    {
        let mut databases = self.databases;
        databases.push(name.to_owned());
        ConduitRequirements { databases }
    }

    /// Finish building the requirement set.
    pub fn finish(self) -> (r: ConduitRequirements)
        ensures
            r == self,
    {
        self
    }
}

impl Default for ConduitRequirements {
    /// No required databases.
    fn default() -> (r: Self)
        ensures
            r.databases@.len() == 0,
    {
        ConduitRequirements { databases: Vec::new() }
    }
}

/// The environment-variable prefix derived from a conduit's name: the
/// `palmrs-` tool prefix dropped, dashes turned to underscores, doubled
/// underscores collapsed once, the rest uppercased, and `__` appended.
pub open spec fn spec_config_prefix(name: Seq<char>) -> Seq<char> {
    spec_upper(
        spec_replace_all(
            spec_replace_all(spec_replace_all(name, "palmrs-"@, Seq::empty()), "-"@, "_"@),
            "__"@,
            "_"@,
        ),
    ) + "__"@
}

/// A conduit launch being prepared: everything the launched process will
/// be told, short of the launch itself.
#[derive(Debug, Clone, PartialEq)]
pub struct ConduitHandler {
    pub sync_mode: SyncMode,
    pub conduit_name: String,
    /// Conduit-specific configuration keys and values; the keys are
    /// uppercased and prefixed when the environment is assembled.
    pub conduit_config: Vec<(String, String)>,
    pub path_local: String,
    pub path_device: String,
}

/// The conduit-specific configuration pairs with their keys uppercased
/// and prefixed.
pub open spec fn spec_prefixed_config(
    config: Seq<(Seq<char>, Seq<char>)>,
    prefix: Seq<char>,
) -> Seq<(Seq<char>, Seq<char>)> {
    config.map_values(|e: (Seq<char>, Seq<char>)| ((prefix + spec_upper(e.0)), e.1))
}

/// The environment handed to a conduit, over the handler's fields and the
/// values inherited from the launcher's own environment.
pub open spec fn spec_conduit_environment(
    mode: SyncMode,
    path_local: Seq<char>,
    path_device: Seq<char>,
    config: Seq<(Seq<char>, Seq<char>)>,
    prefix: Seq<char>,
    home: Seq<char>,
    path: Seq<char>,
    rust_log: Option<Seq<char>>,
    rust_backtrace: Option<Seq<char>>,
    sync_version: Seq<char>,
) -> Seq<(Seq<char>, Seq<char>)> {
    seq![("HOME"@, home), ("PATH"@, path)] + (match rust_log {
        Some(v) => seq![("RUST_LOG"@, v)],
        None => Seq::empty(),
    }) + (match rust_backtrace {
        Some(v) => seq![("RUST_BACKTRACE"@, v)],
        None => Seq::empty(),
    }) + seq![
        ("PALMRS_SYNC_VERSION"@, sync_version),
        ("PALMRS_SYNC_MODE"@, mode.spec_str()),
        ("PALMRS_DATA_LOCAL"@, path_local),
        ("PALMRS_DATA_DEVICE"@, path_device),
        ("PALMRS_CONFIG_PREFIX"@, prefix),
    ] + spec_prefixed_config(config, prefix)
}

impl ConduitHandler {
    /// Prepare a launch of the named conduit in the given mode, with no
    /// configuration and empty data paths.
    pub fn new(conduit_name: &str, sync_mode: SyncMode) -> (r: ConduitHandler)
        ensures
            r.sync_mode == sync_mode,
            r.conduit_name@ == conduit_name@,
            r.conduit_config@.len() == 0,
            r.path_local@ == Seq::<char>::empty(),
            r.path_device@ == Seq::<char>::empty(),
    {
        ConduitHandler {
            sync_mode,
            conduit_name: conduit_name.to_owned(),
            conduit_config: Vec::new(),
            path_local: String::new(),
            path_device: String::new(),
        }
    }

    /// The environment-variable prefix for this conduit's configuration
    /// keys.
    pub fn make_config_prefix(&self) -> (r: String)
        ensures
            r@ == spec_config_prefix(self.conduit_name@),
    {
        let name = str_chars(self.conduit_name.as_str());
        let tool_prefix = str_chars("palmrs-");
        let dash = str_chars("-");
        let underscore = str_chars("_");
        let double_underscore = str_chars("__");
        let empty: Vec<char> = Vec::new();
        proof {
            reveal_strlit("palmrs-");
            reveal_strlit("-");
            reveal_strlit("_");
            reveal_strlit("__");
        }
        let step1 = replace_all(&name, &tool_prefix, &empty);
        let step2 = replace_all(&step1, &dash, &underscore);
        let step3 = replace_all(&step2, &double_underscore, &underscore);
        let mut upper = upper_chars(&step3);
        push_chars_of(&mut upper, "__");
        string_from_chars(&upper)
    }

    /// The argument list a conduit is launched with: its own name.
    pub fn make_argv(&self) -> (r: Vec<String>)
        ensures
            r@.len() == 1,
            r@[0]@ == self.conduit_name@,
    {
        let mut v: Vec<String> = Vec::new();
        v.push(self.conduit_name.clone());
        v
    }

    /// Assemble the environment the conduit is launched with. The
    /// inherited values — the launcher's `HOME`, `PATH`, optional Rust
    /// logging settings, and its own version string — are passed in by
    /// the caller, which is the only place they can be read.
    pub fn make_environment(
        &self,
        home: &str,
        path: &str,
        rust_log: Option<&str>,
        rust_backtrace: Option<&str>,
        sync_version: &str,
    ) -> (r: Vec<(String, String)>)
        ensures
            spec_pair_views(r@) == spec_conduit_environment(
                self.sync_mode,
                self.path_local@,
                self.path_device@,
                spec_pair_views(self.conduit_config@),
                spec_config_prefix(self.conduit_name@),
                home@,
                path@,
                match rust_log {
                    Some(v) => Some(v@),
                    None => None,
                },
                match rust_backtrace {
                    Some(v) => Some(v@),
                    None => None,
                },
                sync_version@,
            ),
    {
        let mangled_prefix = self.make_config_prefix();
        let mut env: Vec<(String, String)> = Vec::new();
        env.push((String::from_str("HOME"), home.to_owned()));
        env.push((String::from_str("PATH"), path.to_owned()));
        match rust_log {
            Some(v) => {
                env.push((String::from_str("RUST_LOG"), v.to_owned()));
            },
            None => (),
        }
        match rust_backtrace {
            Some(v) => {
                env.push((String::from_str("RUST_BACKTRACE"), v.to_owned()));
            },
            None => (),
        }
        env.push((String::from_str("PALMRS_SYNC_VERSION"), sync_version.to_owned()));
        env.push((String::from_str("PALMRS_SYNC_MODE"), self.sync_mode.as_str().to_owned()));
        env.push((String::from_str("PALMRS_DATA_LOCAL"), self.path_local.clone()));
        env.push((String::from_str("PALMRS_DATA_DEVICE"), self.path_device.clone()));
        env.push((String::from_str("PALMRS_CONFIG_PREFIX"), mangled_prefix.clone()));
        let ghost fixed = spec_pair_views(env@);
        let n = self.conduit_config.len();
        let mut i: usize = 0;
        while i < n
            invariant
                i <= n,
                n == self.conduit_config@.len(),
                mangled_prefix@ == spec_config_prefix(self.conduit_name@),
                spec_pair_views(env@) =~~= fixed + spec_prefixed_config(
                    spec_pair_views(self.conduit_config@.subrange(0, i as int)),
                    spec_config_prefix(self.conduit_name@),
                ),
            decreases n - i,
        {
            let cfgkey = &self.conduit_config[i].0;
            let cfgval = &self.conduit_config[i].1;
            let mut key_chars = str_chars(mangled_prefix.as_str());
            let upper_key = upper_chars(&str_chars(cfgkey.as_str()));
            let mut k: usize = 0;
            let ghost key0 = key_chars@;
            while k < upper_key.len()
                invariant
                    k <= upper_key@.len(),
                    key_chars@ =~= key0 + upper_key@.subrange(0, k as int),
                decreases upper_key@.len() - k,
            {
                key_chars.push(upper_key[k]);
                k = k + 1;
                proof {
                    assert(upper_key@.subrange(0, k as int) =~= upper_key@.subrange(
                        0,
                        k - 1,
                    ).push(upper_key@[k - 1]));
                }
            }
            proof {
                assert(upper_key@.subrange(0, upper_key@.len() as int) =~= upper_key@);
                assert(key_chars@ =~= spec_config_prefix(self.conduit_name@) + spec_upper(
                    self.conduit_config@[i as int].0@,
                ));
            }
            let ghost envs0 = env@;
            env.push((string_from_chars(&key_chars), cfgval.clone()));
            i = i + 1;
            proof {
                assert(spec_pair_views(env@) =~~= spec_pair_views(envs0).push(
                    (key_chars@, self.conduit_config@[i - 1].1@),
                ));
                let pfx = spec_config_prefix(self.conduit_name@);
                let pre = spec_prefixed_config(
                    spec_pair_views(self.conduit_config@.subrange(0, i - 1)),
                    pfx,
                );
                let cur = spec_prefixed_config(
                    spec_pair_views(self.conduit_config@.subrange(0, i as int)),
                    pfx,
                );
                assert(self.conduit_config@.subrange(0, i as int) =~= self.conduit_config@
                    .subrange(0, i - 1).push(self.conduit_config@[i - 1]));
                assert(cur =~~= pre.push(
                    ((pfx + spec_upper(self.conduit_config@[i - 1].0@)),
                    self.conduit_config@[i - 1].1@),
                ));
            }
        }
        proof {
            assert(self.conduit_config@.subrange(0, n as int) =~= self.conduit_config@);
            assert(spec_pair_views(env@) =~~= spec_conduit_environment(
                self.sync_mode,
                self.path_local@,
                self.path_device@,
                spec_pair_views(self.conduit_config@),
                spec_config_prefix(self.conduit_name@),
                home@,
                path@,
                match rust_log {
                    Some(v) => Some(v@),
                    None => None,
                },
                match rust_backtrace {
                    Some(v) => Some(v@),
                    None => None,
                },
                sync_version@,
            ));
        }
        env
    }
}

} // verus!

use vstd::string::StringExecFns;
