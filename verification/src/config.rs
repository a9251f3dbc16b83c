//! Process configuration, read once at startup from environment values and
//! held immutable from then on.
//!
//! The environment itself is read by the front end; what is parsed, which
//! defaults apply, and which values are rejected is decided here.

use vstd::prelude::*;
use vstd::string::StrSliceExecFns;
use vstd::string::StringExecFns;

use crate::text::dec_chars;
use crate::text::dec_value;
use crate::text::digit_part;
use crate::text::parse_bool;
use crate::text::parse_u64_bounded;
use crate::text::parses_to_max;
use crate::text::u64_to_string;

verus! {

/// The engine's configuration.
#[derive(Debug)]
pub struct Config {
    /// Path of the directory where pastes are stored.
    pub output: String,
    /// The host name used to build the URL returned to a client; prefixed
    /// with `http` or `https` when a URL is built.
    pub domain: String,
    /// Whether returned URLs carry the `https` prefix instead of `http`.
    pub https: bool,
    /// The port the app serves on.
    pub port: u16,
    /// How many days to keep files for; zero means forever.
    pub delete_after: u32,
}

impl Default for Config {
    /// The built-in defaults, before any environment value is applied.
    fn default() -> (r: Config)
        ensures
            r.output@ == "default"@,
            r.domain@ == "localhost"@,
            !r.https,
            r.port == 8000,
            r.delete_after == 120,
    {
        Config {
            output: String::from_str("default"),
            domain: String::from_str("localhost"),
            https: false,
            port: 8000,
            delete_after: 120,
        }
    }
}

/// The raw environment values the configuration is read from, each absent
/// when the variable is unset, plus the user's home directory for tilde
/// expansion.
pub struct EnvSettings {
    pub output: Option<String>,
    pub domain: Option<String>,
    pub https: Option<String>,
    pub port: Option<String>,
    pub delete_after: Option<String>,
    pub home: Option<String>,
}

/// Why the configuration could not be read.
#[derive(Clone, Copy, Debug, PartialEq, Eq, Structural)]
pub enum ConfigError {
    /// The store directory variable is not set at all.
    MissingOutput,
    /// The store directory starts with `~` and no home directory is known.
    TildeExpansion,
    /// The `https` toggle is neither `true` nor `false`.
    InvalidHttps,
    /// The port is not a decimal number a port can hold.
    InvalidPort,
    /// The retention age is not a decimal number of days.
    InvalidDeleteAfter,
}

impl ConfigError {
    /// A short description, suitable for startup error reports.
    pub fn message(&self) -> (r: &'static str)
        ensures
            *self is MissingOutput ==> r@ == "`OUTPUT` needs to be set"@,
            *self is TildeExpansion ==> r@
                == "Failed to expand the tilde `~`, please explicitly write your home dir."@,
            *self is InvalidHttps ==> r@ == "`HTTPS` is not a bool"@,
            *self is InvalidPort ==> r@ == "`PORT` is not a valid port"@,
            *self is InvalidDeleteAfter ==> r@ == "`DELETE_AFTER` is not a valid number"@,
    {
        match self {
            ConfigError::MissingOutput => "`OUTPUT` needs to be set",
            ConfigError::TildeExpansion => "Failed to expand the tilde `~`, please explicitly write your home dir.",
            ConfigError::InvalidHttps => "`HTTPS` is not a bool",
            ConfigError::InvalidPort => "`PORT` is not a valid port",
            ConfigError::InvalidDeleteAfter => "`DELETE_AFTER` is not a valid number",
        }
    }
}

/// Tilde expansion of a path, component-wise: a path not beginning with the
/// component `~` is kept; a bare `~` is the home directory itself; `~/rest`
/// is `rest` anchored under the home directory. Without a home directory a
/// leading tilde cannot be expanded.
pub open spec fn expand_tilde_spec(p: Seq<char>, home: Option<Seq<char>>) -> Option<Seq<char>> {
    if !(p == seq!['~'] || (p.len() >= 2 && p[0] == '~' && p[1] == '/')) {
        Some(p)
    } else if p == seq!['~'] {
        home
    } else {
        match home {
            None => None,
            Some(h) => {
                let rest = p.skip(2);
                if h == seq!['/'] || h.len() == 0 {
                    // A root (or empty) home directory: drop the tilde
                    // component rather than stacking separators.
                    Some(rest)
                } else if h.last() == '/' {
                    Some(h + rest)
                } else {
                    Some(h + seq!['/'] + rest)
                }
            },
        }
    }
}

/// Expand a leading tilde in `path` against the given home directory.
pub fn expand_tilde(path: &str, home: Option<&str>) -> (r: Option<String>)
    ensures
        match expand_tilde_spec(
            path@,
            match home {
                Some(h) => Some(h@),
                None => None,
            },
        ) {
            Some(p) => r is Some && r->0@ == p,
            None => r is None,
        },
{
    let n = path.unicode_len();
    let tilde_only = n == 1 && path.get_char(0) == '~';
    let tilde_slash = n >= 2 && path.get_char(0) == '~' && path.get_char(1) == '/';
    proof {
        assert(tilde_only == (path@ =~= seq!['~']));
    }
    if !tilde_only && !tilde_slash {
        return Some(path.to_owned());
    }
    if tilde_only {
        return match home {
            Some(h) => Some(h.to_owned()),
            None => None,
        };
    }
    match home {
        None => None,
        Some(h) => {
            let rest = path.substring_char(2, n);
            proof {
                assert(rest@ =~= path@.skip(2));
            }
            let hn = h.unicode_len();
            if hn == 0 || (hn == 1 && h.get_char(0) == '/') {
                proof {
                    assert(hn == 1 && h@[0] == '/' ==> h@ =~= seq!['/']);
                }
                return Some(rest.to_owned());
            }
            proof {
                assert(!(h@ =~= seq!['/']));
            }
            let mut out = h.to_owned();
            if h.get_char(hn - 1) != '/' {
                out.append("/");
                proof {
                    reveal_strlit("/");
                    assert("/"@ =~= seq!['/']);
                }
            }
            out.append(rest);
            Some(out)
        },
    }
}

/// The home directory's character view, when one is known.
pub open spec fn home_of(env: EnvSettings) -> Option<Seq<char>> {
    match env.home {
        Some(h) => Some(h@),
        None => None,
    }
}

/// The https toggle after parsing: absent means plain http; anything but
/// `true` or `false` is rejected.
pub open spec fn https_of(env: EnvSettings) -> Option<bool> {
    match env.https {
        None => Some(false),
        Some(s) => if s@ == "true"@ {
            Some(true)
        } else if s@ == "false"@ {
            Some(false)
        } else {
            None
        },
    }
}

/// The port after parsing: absent means 8000; anything but a decimal number
/// a port can hold is rejected.
pub open spec fn port_of(env: EnvSettings) -> Option<u16> {
    match env.port {
        None => Some(8000u16),
        Some(s) => if parses_to_max(s@, u16::MAX as int) {
            Some(dec_value(digit_part(s@)) as u16)
        } else {
            None
        },
    }
}

/// The retention age in days after parsing: absent means 120; anything but
/// a decimal number fitting the field is rejected.
pub open spec fn delete_after_of(env: EnvSettings) -> Option<u32> {
    match env.delete_after {
        None => Some(120u32),
        Some(s) => if parses_to_max(s@, u32::MAX as int) {
            Some(dec_value(digit_part(s@)) as u32)
        } else {
            None
        },
    }
}

/// The served domain: the environment value, or `localhost`; a plain
/// `localhost` gets the port appended so returned URLs stay reachable.
pub open spec fn domain_of(env: EnvSettings, port: u16) -> Seq<char> {
    let d = match env.domain {
        Some(s) => s@,
        None => "localhost"@,
    };
    if d == "localhost"@ {
        "localhost"@ + seq![':'] + dec_chars(port as int)
    } else {
        d
    }
}

impl Config {
    /// Read the configuration from environment values. Only the store
    /// directory is required; every other value has a default. The
    /// directory may start with `~`, which is expanded against the home
    /// directory. Each malformed value is rejected with its own error, in
    /// the order the values are read.
    pub fn read_config(env: EnvSettings) -> (r: Result<Config, ConfigError>)
        ensures
            (r == Err::<Config, ConfigError>(ConfigError::MissingOutput) <==> env.output is None),
            (r == Err::<Config, ConfigError>(ConfigError::TildeExpansion) <==> env.output is Some
                && expand_tilde_spec(env.output->0@, home_of(env)) is None),
            (r == Err::<Config, ConfigError>(ConfigError::InvalidHttps) <==> env.output is Some
                && expand_tilde_spec(env.output->0@, home_of(env)) is Some && https_of(
                env,
            ) is None),
            (r == Err::<Config, ConfigError>(ConfigError::InvalidPort) <==> env.output is Some
                && expand_tilde_spec(env.output->0@, home_of(env)) is Some && https_of(env) is Some
                && port_of(env) is None),
            (r == Err::<Config, ConfigError>(ConfigError::InvalidDeleteAfter) <==> env.output
                is Some && expand_tilde_spec(env.output->0@, home_of(env)) is Some && https_of(
                env,
            ) is Some && port_of(env) is Some && delete_after_of(env) is None),
            r is Ok ==> {
                let c = r->Ok_0;
                &&& c.output@ == expand_tilde_spec(env.output->0@, home_of(env))->0
                &&& c.https == https_of(env)->0
                &&& c.port == port_of(env)->0
                &&& c.delete_after == delete_after_of(env)->0
                &&& c.domain@ == domain_of(env, port_of(env)->0)
            },
            (r is Ok <==> env.output is Some && expand_tilde_spec(
                env.output->0@,
                home_of(env),
            ) is Some && https_of(env) is Some && port_of(env) is Some && delete_after_of(
                env,
            ) is Some),
    {
        let output_raw = match &env.output {
            Some(o) => o,
            None => {
                return Err(ConfigError::MissingOutput);
            },
        };
        let home_str: Option<&str> = match &env.home {
            Some(h) => Some(h.as_str()),
            None => None,
        };
        let output = match expand_tilde(output_raw.as_str(), home_str) {
            Some(p) => p,
            None => {
                return Err(ConfigError::TildeExpansion);
            },
        };
        let https = match &env.https {
            None => false,
            Some(s) => match parse_bool(s.as_str()) {
                Some(b) => b,
                None => {
                    return Err(ConfigError::InvalidHttps);
                },
            },
        };
        let port: u16 = match &env.port {
            None => 8000,
            Some(s) => match parse_u64_bounded(s.as_str(), 65535) {
                Some(v) => v as u16,
                None => {
                    return Err(ConfigError::InvalidPort);
                },
            },
        };
        let delete_after: u32 = match &env.delete_after {
            None => 120,
            Some(s) => match parse_u64_bounded(s.as_str(), 0xffff_ffff) {
                Some(v) => v as u32,
                None => {
                    return Err(ConfigError::InvalidDeleteAfter);
                },
            },
        };
        let domain = match env.domain {
            Some(d) => d,
            None => String::from_str("localhost"),
        };
        let domain = if domain == String::from_str("localhost") {
            let mut d = String::from_str("localhost:");
            d.append(u64_to_string(port as u64).as_str());
            proof {
                reveal_strlit("localhost");
                reveal_strlit("localhost:");
                assert("localhost:"@ =~= "localhost"@ + seq![':']);
            }
            d
        } else {
            domain
        };
        Ok(Config { output, domain, https, port, delete_after })
    }
}

} // verus!
