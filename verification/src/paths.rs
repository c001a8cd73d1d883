//! Where gqlup keeps its files, resolved from the process environment.

use vstd::prelude::*;

verus! {

/// Appends `comp` to the path `base` the way `PathBuf::push` does on Unix:
/// an absolute component replaces the base, otherwise a `/` separates the two
/// unless the base is empty or already ends with one.
pub open spec fn join_path(base: Seq<char>, comp: Seq<char>) -> Seq<char> {
    if comp.len() > 0 && comp[0] == '/' {
        comp
    } else if base.len() == 0 || base.last() == '/' {
        base + comp
    } else {
        base + seq!['/'] + comp
    }
}

/// Joins two path strings, see [`join_path`].
pub fn join(base: &str, comp: &str) -> (joined: String)
    ensures
        joined@ == join_path(base@, comp@),
{
    let comp_len = comp.unicode_len();
    if comp_len > 0 && comp.get_char(0) == '/' {
        return String::from_str(comp);
    }
    let base_len = base.unicode_len();
    let mut joined = String::from_str(base);
    if base_len > 0 && base.get_char(base_len - 1) != '/' {
        let sep = "/";
        proof {
            reveal_strlit("/");
        }
        joined.append(sep);
    }
    joined.append(comp);
    joined
}


/// Why an environment variable could not be read, as `std::env::var` reports
/// it. `NotUnicode` carries the debug rendering of the raw value.
#[derive(Debug)]
pub enum VarError {
    NotPresent,
    NotUnicode(String),
}

impl VarError {
    /// An equal copy.
    pub fn duplicate(&self) -> (copy: VarError)
        ensures
            copy == *self,
    {
        match self {
            VarError::NotPresent => VarError::NotPresent,
            VarError::NotUnicode(raw) => VarError::NotUnicode(raw.clone()),
        }
    }

    /// The text `std::env::VarError` displays.
    pub open spec fn spec_message(&self) -> Seq<char> {
        match self {
            VarError::NotPresent => "environment variable not found"@,
            VarError::NotUnicode(raw) => "environment variable was not valid unicode: "@ + raw@,
        }
    }

    pub fn message(&self) -> (text: String)
        ensures
            text@ == self.spec_message(),
    {
        match self {
            VarError::NotPresent => String::from_str("environment variable not found"),
            VarError::NotUnicode(raw) => {
                let mut text = String::from_str("environment variable was not valid unicode: ");
                text.append(raw.as_str());
                text
            },
        }
    }
}

/// The environment variables gqlup reads, each as `std::env::var` returned it.
#[derive(Debug)]
pub struct Environment {
    pub gqlup_gql_bin_path: Result<String, VarError>,
    pub xdg_bin_home: Result<String, VarError>,
    pub gqlup_config_path: Result<String, VarError>,
    pub xdg_config_home: Result<String, VarError>,
    pub gqlup_bin_install_path: Result<String, VarError>,
    pub xdg_state_home: Result<String, VarError>,
}

/// A variable that gqlup cannot do without was missing or unreadable.
#[derive(Debug)]
pub struct EnvError {
    pub name: String,
    pub cause: VarError,
}

impl EnvError {
    pub open spec fn spec_message(&self) -> Seq<char> {
        "Failed to get "@ + self.name@ + " env: "@ + self.cause.spec_message()
    }

    /// The line printed before exiting.
    pub fn message(&self) -> (text: String)
        ensures
            text@ == self.spec_message(),
    {
        let mut text = String::from_str("Failed to get ");
        text.append(self.name.as_str());
        text.append(" env: ");
        let cause = self.cause.message();
        text.append(cause.as_str());
        text
    }
}

/// The value of a variable that must be set, or the error that names it.
pub open spec fn required(name: Seq<char>, value: Result<String, VarError>) -> Result<Seq<char>, (Seq<char>, VarError)> {
    match value {
        Ok(v) => Ok(v@),
        Err(e) => Err((name, e)),
    }
}

/// The path that a required variable holds, with `comp` joined to it.
pub open spec fn required_joined(
    name: Seq<char>,
    value: Result<String, VarError>,
    comp: Seq<char>,
) -> Result<Seq<char>, (Seq<char>, VarError)> {
    match value {
        Ok(v) => Ok(join_path(v@, comp)),
        Err(e) => Err((name, e)),
    }
}

/// Both sides agree: an `Ok` path or an `EnvError` naming the variable.
pub open spec fn outcome_is(r: Result<String, EnvError>, spec: Result<Seq<char>, (Seq<char>, VarError)>) -> bool {
    match (r, spec) {
        (Ok(p), Ok(q)) => p@ == q,
        (Err(e), Err((name, cause))) => e.name@ == name && e.cause == cause,
        _ => false,
    }
}

fn require_env(name: &str, value: &Result<String, VarError>) -> (r: Result<String, EnvError>)
    ensures
        outcome_is(r, required(name@, *value)),
{
    match value {
        Ok(v) => Ok(v.clone()),
        Err(e) => Err(EnvError { name: String::from_str(name), cause: e.duplicate() }),
    }
}

/// `$XDG_BIN_HOME`, which must be set.
pub fn get_xdg_bin_home(env: &Environment) -> (r: Result<String, EnvError>)
    ensures
        outcome_is(r, required("XDG_BIN_HOME"@, env.xdg_bin_home)),
{
    require_env("XDG_BIN_HOME", &env.xdg_bin_home)
}

/// `$XDG_CONFIG_HOME`, which must be set.
pub fn get_xdg_config_home(env: &Environment) -> (r: Result<String, EnvError>)
    ensures
        outcome_is(r, required("XDG_CONFIG_HOME"@, env.xdg_config_home)),
{
    require_env("XDG_CONFIG_HOME", &env.xdg_config_home)
}

/// `$XDG_STATE_HOME`, which must be set.
pub fn get_xdg_state_home(env: &Environment) -> (r: Result<String, EnvError>)
    ensures
        outcome_is(r, required("XDG_STATE_HOME"@, env.xdg_state_home)),
{
    require_env("XDG_STATE_HOME", &env.xdg_state_home)
}

/// Where the `gql` launcher script lives: `$GQLUP_GQL_BIN_PATH` when it can be
/// read, else `$XDG_BIN_HOME/gql`.
pub fn get_gql_binary_path(env: &Environment) -> (r: Result<String, EnvError>)
    ensures
        outcome_is(
            r,
            match env.gqlup_gql_bin_path {
                Ok(p) => Ok(p@),
                Err(_) => required_joined("XDG_BIN_HOME"@, env.xdg_bin_home, "gql"@),
            },
        ),
{
    match &env.gqlup_gql_bin_path {
        Ok(p) => Ok(p.clone()),
        Err(_) => match get_xdg_bin_home(env) {
            Ok(home) => Ok(join(home.as_str(), "gql")),
            Err(e) => Err(e),
        },
    }
}

/// gqlup's configuration file: `$GQLUP_CONFIG_PATH` when it can be read, else
/// `$XDG_CONFIG_HOME/gqlup/config.yaml`.
pub fn get_gqlup_config_path(env: &Environment) -> (r: Result<String, EnvError>)
    ensures
        outcome_is(
            r,
            match env.gqlup_config_path {
                Ok(p) => Ok(p@),
                Err(_) => match env.xdg_config_home {
                    Ok(home) => Ok(join_path(join_path(home@, "gqlup"@), "config.yaml"@)),
                    Err(e) => Err(("XDG_CONFIG_HOME"@, e)),
                },
            },
        ),
{
    match &env.gqlup_config_path {
        Ok(p) => Ok(p.clone()),
        Err(_) => match get_xdg_config_home(env) {
            Ok(home) => {
                let dir = join(home.as_str(), "gqlup");
                Ok(join(dir.as_str(), "config.yaml"))
            },
            Err(e) => Err(e),
        },
    }
}

/// The directory that holds the installed binaries: `$GQLUP_BIN_INSTALL_PATH`
/// when it can be read, else `$XDG_STATE_HOME/gqlup/binaries`.
pub fn get_gqlup_binary_install_path(env: &Environment) -> (r: Result<String, EnvError>)
    ensures
        outcome_is(
            r,
            match env.gqlup_bin_install_path {
                Ok(p) => Ok(p@),
                Err(_) => match env.xdg_state_home {
                    Ok(home) => Ok(join_path(join_path(home@, "gqlup"@), "binaries"@)),
                    Err(e) => Err(("XDG_STATE_HOME"@, e)),
                },
            },
        ),
{
    match &env.gqlup_bin_install_path {
        Ok(p) => Ok(p.clone()),
        Err(_) => match get_xdg_state_home(env) {
            Ok(home) => {
                let dir = join(home.as_str(), "gqlup");
                Ok(join(dir.as_str(), "binaries"))
            },
            Err(e) => Err(e),
        },
    }
}

} // verus!
