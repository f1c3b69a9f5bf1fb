//! How the application reaches the agent: which server, which binary, which
//! local command-line tool, read from the process environment.

use crate::env_map::{lookup, EnvMap};
use crate::text::{contains, occurs_in, view_of};
use vstd::prelude::*;
use vstd::string::StringExecFns;

verus! {

#[derive(Debug, Clone)]
pub struct AuthStatus {
    pub success: bool,
    pub message: String,
    pub version: Option<String>,
    pub connection_mode: String,
    pub connection_description: String,
}

/// The connection as the environment configures it.
pub struct ResolvedConfig {
    pub server_url: Option<String>,
    pub amp_bin: Option<String>,
    pub amp_cli_path: Option<String>,
    pub amp_token: Option<String>,
    pub auth_cmd: Option<String>,
    pub cwd: String,
    pub env_vars: EnvMap,
    pub explicit_connection_mode: Option<String>,
}

/// `base` with the variables of `extra` set, in order.
pub open spec fn overlaid(
    base: Map<Seq<char>, Seq<char>>,
    extra: Seq<(String, String)>,
) -> Map<Seq<char>, Seq<char>>
    decreases extra.len(),
{
    if extra.len() == 0 {
        base
    } else {
        overlaid(base, extra.drop_last()).insert(extra.last().0@, extra.last().1@)
    }
}

/// The local command-line tool to use: the one that `AMP_CLI_PATH` names;
/// where it names none and `AMP_BIN` is unset or empty, the one that was
/// found in the home directory, if any.
pub open spec fn chosen_cli(
    env: Map<Seq<char>, Seq<char>>,
    found_cli: Option<Seq<char>>,
) -> Option<Seq<char>> {
    if env.contains_key("AMP_BIN"@) && env["AMP_BIN"@].len() != 0 {
        lookup(env, "AMP_CLI_PATH"@)
    } else {
        match lookup(env, "AMP_CLI_PATH"@) {
            Some(path) => Some(path),
            None => found_cli,
        }
    }
}

/// The environment once the tool is chosen: with a local tool and no server
/// named, the local server is named and its certificate is not checked.
pub open spec fn with_local_server(
    env: Map<Seq<char>, Seq<char>>,
    cli: Option<Seq<char>>,
) -> Map<Seq<char>, Seq<char>> {
    if cli is Some && !env.contains_key("AMP_URL"@) {
        env.insert("AMP_URL"@, "https://localhost:7002"@).insert(
            "NODE_TLS_REJECT_UNAUTHORIZED"@,
            "0"@,
        )
    } else {
        env
    }
}

/// The binary to run: the one that `AMP_BIN` names; where it names none,
/// `amp` unless a local tool is used.
pub open spec fn chosen_bin(env: Map<Seq<char>, Seq<char>>, cli: Option<Seq<char>>) -> Option<
    Seq<char>,
> {
    match lookup(env, "AMP_BIN"@) {
        Some(bin) => Some(bin),
        None => if cli is None {
            Some("amp"@)
        } else {
            None
        },
    }
}

/// Whether `config` is what the process environment `vars`, the overrides
/// `overrides`, the tool found in the home directory and the working
/// directory `cwd` resolve to.
pub open spec fn is_resolved(
    config: ResolvedConfig,
    vars: Map<Seq<char>, Seq<char>>,
    overrides: Seq<(String, String)>,
    found_cli: Option<Seq<char>>,
    cwd: Seq<char>,
) -> bool {
    let merged = overlaid(vars, overrides);
    let cli = chosen_cli(merged, found_cli);
    let env = with_local_server(merged, cli);
    &&& config.env_vars.wf()
    &&& config.env_vars@ == env
    &&& view_of(config.amp_cli_path) == cli
    &&& view_of(config.server_url) == lookup(env, "AMP_URL"@)
    &&& view_of(config.amp_bin) == chosen_bin(env, cli)
    &&& view_of(config.amp_token) == lookup(env, "AMP_TOKEN"@)
    &&& view_of(config.auth_cmd) == lookup(env, "AMP_AUTH_CMD"@)
    &&& config.cwd@ == cwd
    &&& config.explicit_connection_mode is None
}

/// The connection mode of `config`: the one it was given, else `local-cli`
/// with a local tool and `production` without.
pub open spec fn mode_of(config: ResolvedConfig) -> Seq<char> {
    match config.explicit_connection_mode {
        Some(mode) => mode@,
        None => if config.amp_cli_path is Some {
            "local-cli"@
        } else {
            "production"@
        },
    }
}

/// The connection of `config` in words.
pub open spec fn description_of(config: ResolvedConfig) -> Seq<char> {
    match config.server_url {
        Some(url) => if occurs_in(url@, "localhost"@) {
            "Development mode"@
        } else {
            "Production mode"@
        },
        None => match config.amp_cli_path {
            Some(cli) => "Using local CLI: "@ + cli@ + " (development)"@,
            None => match config.amp_bin {
                Some(bin) => if bin@ == "amp"@ {
                    "Production mode"@
                } else {
                    "Using system binary: "@ + bin@
                },
                None => "No connection configured"@,
            },
        },
    }
}

impl ResolvedConfig {
    /// Resolves the connection from the process environment `vars`; see
    /// [`is_resolved`]. `found_cli` is the command-line tool in the home
    /// directory, where there is one.
    pub fn from_env(vars: EnvMap, found_cli: Option<String>, cwd: String) -> (config: Self)
        requires
            vars.wf(),
        ensures
            is_resolved(config, vars@, Seq::empty(), view_of(found_cli), cwd@),
    {
        let overrides = EnvMap::new();
        let config = ResolvedConfig::from_env_with_overrides(vars, &overrides, found_cli, cwd);
        proof {
            assert(overrides.listing() =~= Seq::empty());
        }
        config
    }

    /// Resolves the connection from the process environment `vars` with the
    /// variables of `overrides` set over it; see [`is_resolved`].
    pub fn from_env_with_overrides(
        vars: EnvMap,
        overrides: &EnvMap,
        found_cli: Option<String>,
        cwd: String,
    ) -> (config: Self)
        requires
            vars.wf(),
            overrides.wf(),
        ensures
            is_resolved(config, vars@, overrides.listing(), view_of(found_cli), cwd@),
    {
        let mut env_vars = vars;
        let extra = overrides.pairs();
        let mut i: usize = 0;
        while i < extra.len()
            invariant
                i <= extra.len(),
                env_vars.wf(),
                env_vars@ == overlaid(vars@, extra@.take(i as int)),
            decreases extra.len() - i,
        {
            proof {
                assert(extra@.take(i + 1).drop_last() == extra@.take(i as int));
                assert(extra@.take(i + 1).last() == extra@[i as int]);
            }
            env_vars.insert(extra[i].0.clone(), extra[i].1.clone());
            i += 1;
        }
        assert(extra@.take(extra.len() as int) == extra@);
        let bin_set = match env_vars.get("AMP_BIN") {
            Some(bin) => !bin.as_str().is_empty(),
            None => false,
        };
        let named_cli = env_vars.value_of("AMP_CLI_PATH");
        let amp_cli_path = if bin_set {
            named_cli
        } else {
            match named_cli {
                Some(path) => Some(path),
                None => found_cli,
            }
        };
        if amp_cli_path.is_some() && !env_vars.contains_key("AMP_URL") {
            env_vars.insert(String::from_str("AMP_URL"), String::from_str("https://localhost:7002"));
            env_vars.insert(String::from_str("NODE_TLS_REJECT_UNAUTHORIZED"), String::from_str("0"));
        }
        let server_url = env_vars.value_of("AMP_URL");
        let amp_bin = match env_vars.value_of("AMP_BIN") {
            Some(bin) => Some(bin),
            None => if amp_cli_path.is_none() {
                Some(String::from_str("amp"))
            } else {
                None
            },
        };
        let amp_token = env_vars.value_of("AMP_TOKEN");
        let auth_cmd = env_vars.value_of("AMP_AUTH_CMD");
        ResolvedConfig {
            server_url,
            amp_bin,
            amp_cli_path,
            amp_token,
            auth_cmd,
            cwd,
            env_vars,
            explicit_connection_mode: None,
        }
    }

    /// The environment of the connection.
    pub fn env(&self) -> (env: &EnvMap)
        ensures
            *env == self.env_vars,
    {
        &self.env_vars
    }

    /// The connection mode; see [`mode_of`].
    pub fn connection_mode(&self) -> (mode: &str)
        ensures
            mode@ == mode_of(*self),
    {
        match &self.explicit_connection_mode {
            Some(mode) => mode.as_str(),
            None => if self.amp_cli_path.is_some() {
                "local-cli"
            } else {
                "production"
            },
        }
    }

    /// Fixes the connection mode, whatever the configuration says.
    pub fn override_connection_mode(&mut self, mode: String)
        ensures
            final(self).explicit_connection_mode == Some(mode),
            final(self).server_url == old(self).server_url,
            final(self).amp_bin == old(self).amp_bin,
            final(self).amp_cli_path == old(self).amp_cli_path,
            final(self).amp_token == old(self).amp_token,
            final(self).auth_cmd == old(self).auth_cmd,
            final(self).cwd == old(self).cwd,
            final(self).env_vars == old(self).env_vars,
            mode_of(*final(self)) == mode@,
    {
        self.explicit_connection_mode = Some(mode);
    }

    /// The connection in words; see [`description_of`].
    pub fn connection_description(&self) -> (text: String)
        ensures
            text@ == description_of(*self),
    {
        match &self.server_url {
            Some(url) => {
                if contains(url.as_str(), "localhost") {
                    String::from_str("Development mode")
                } else {
                    String::from_str("Production mode")
                }
            },
            None => match &self.amp_cli_path {
                Some(cli) => {
                    let mut text = String::from_str("Using local CLI: ");
                    text.append(cli.as_str());
                    text.append(" (development)");
                    text
                },
                None => match &self.amp_bin {
                    Some(bin) => {
                        if bin.as_str().eq("amp") {
                            String::from_str("Production mode")
                        } else {
                            let mut text = String::from_str("Using system binary: ");
                            text.append(bin.as_str());
                            text
                        }
                    },
                    None => String::from_str("No connection configured"),
                },
            },
        }
    }
}

} // verus!
