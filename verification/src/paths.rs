//! Where the node keeps its state: one base directory, and every file under it.
use vstd::prelude::*;
use vstd::string::*;
use crate::text;

verus! {

/// The vault location that counts as "not set" in a loaded configuration.
pub const DEV_DEFAULT_VAULT_PATH: &'static str = "./sim_vault";

/// The environment variable that moves the whole state directory.
pub const HOME_ENV: &'static str = "PHALANX_HOME";

/// Why the state directory could not be found or made.
#[derive(Debug)]
pub enum PathError {
    NoPlatformDir,
    /// The directory is there, but its name is not text; `shown` is near it.
    NotText { shown: String },
    CreateFailed { path: String, source: String },
}

/// The path of `name` seen from `dir`: inside it, unless `name` is absolute.
pub open spec fn path_of(dir: Seq<char>, name: Seq<char>) -> Seq<char> {
    if dir.len() == 0 || (name.len() > 0 && name[0] == '/') {
        name
    } else if dir.last() == '/' {
        dir + name
    } else {
        dir + "/"@ + name
    }
}

/// A relative name is placed right inside its directory, with one slash between them;
/// an absolute one stays what it is.
pub proof fn law_relative_names_stay_inside(dir: Seq<char>, name: Seq<char>)
    requires
        dir.len() > 0,
    ensures
        name.len() > 0 && name[0] == '/' ==> path_of(dir, name) == name,
        !(name.len() > 0 && name[0] == '/') ==> {
            let path = path_of(dir, name);
            &&& dir.is_prefix_of(path)
            &&& name.is_suffix_of(path)
            &&& path[path.len() - name.len() - 1] == '/'
            &&& path.len() == dir.len() + name.len() + (if dir.last() == '/' {
                0int
            } else {
                1int
            })
        },
{
    reveal_strlit("/");
    if !(name.len() > 0 && name[0] == '/') {
        let path = path_of(dir, name);
        assert(dir =~= path.subrange(0, dir.len() as int));
        assert(name =~= path.subrange(path.len() - name.len(), path.len() as int));
    }
}

/// Joins `dir` and the path `name`.
pub fn join_path(dir: &str, name: &str) -> (path: String)
    ensures
        path@ == path_of(dir@, name@),
{
    let n: usize = dir.unicode_len();
    if n == 0 || (name.unicode_len() > 0 && name.get_char(0) == '/') {
        return name.to_owned();
    }
    if dir.get_char(n - 1) == '/' {
        text::join(dir, name)
    } else {
        let prefix = text::join(dir, "/");
        text::join(prefix.as_str(), name)
    }
}

impl PathError {
    /// What the error says.
    pub open spec fn text(&self) -> Seq<char> {
        match self {
            PathError::NoPlatformDir => "no platform data directory available; set PHALANX_HOME to choose one"@,
            PathError::NotText { shown } => "data directory "@ + shown@
                + " has no name in text; set PHALANX_HOME to choose another"@,
            PathError::CreateFailed { path, source } => "failed to create data directory "@
                + path@ + ": "@ + source@,
        }
    }

    pub fn message(&self) -> (s: String)
        ensures
            s@ == self.text(),
    {
        match self {
            PathError::NoPlatformDir => {
                "no platform data directory available; set PHALANX_HOME to choose one".to_owned()
            },
            PathError::NotText { shown } => {
                let mut s = text::join("data directory ", shown.as_str());
                s.append(" has no name in text; set PHALANX_HOME to choose another");
                s
            },
            PathError::CreateFailed { path, source } => {
                let mut s = text::join("failed to create data directory ", path.as_str());
                s.append(": ");
                s.append(source.as_str());
                s
            },
        }
    }
}

/// The names under which a platform keeps the node's data are these.
pub open spec fn are_the_nodes_names(
    qualifier: Seq<char>,
    organization: Seq<char>,
    application: Seq<char>,
) -> bool {
    &&& qualifier == "app"@
    &&& organization == "Phalanx"@
    &&& application == "phalanx-sentinel"@
}

/// The names under which a platform keeps the node's data: qualifier,
/// organization and application.
pub fn application() -> (names: (String, String, String))
    ensures
        names.0@ == "app"@,
        names.1@ == "Phalanx"@,
        names.2@ == "phalanx-sentinel"@,
{
    ("app".to_owned(), "Phalanx".to_owned(), "phalanx-sentinel".to_owned())
}

/// The local data directory of a project on this platform:
/// `directories::ProjectDirs::from` and `data_local_dir`, or nothing where there
/// is none. A directory whose name is not text comes as `Err`, with its name as
/// it is shown. The answer rests on the platform and the environment of the
/// process, so nothing is claimed of it. It is asked only under the node's own
/// names.
#[verifier::external_body]
fn platform_data_dir(qualifier: &str, organization: &str, application: &str) -> (dir: Option<
    Result<String, String>,
>)
    requires
        are_the_nodes_names(qualifier@, organization@, application@),
{
    let dirs = directories::ProjectDirs::from(qualifier, organization, application)?;
    let name = dirs.data_local_dir().to_path_buf().into_os_string().into_string();
    Some(name.map_err(|garbled| garbled.to_string_lossy().into_owned()))
}

/// The layout of the node's state.
#[derive(Debug)]
pub struct NodePaths {
    pub base: String,
}

impl NodePaths {
    /// `base` is what is chosen of the override and the platform's offer.
    pub open spec fn is_chosen(
        home_env: Option<String>,
        platform: Option<Result<String, String>>,
        base: Result<String, PathError>,
    ) -> bool {
        base == match (home_env, platform) {
            (Some(home), _) => Ok::<String, PathError>(home),
            (None, Some(Ok(dir))) => Ok(dir),
            (None, Some(Err(shown))) => Err(PathError::NotText { shown }),
            (None, None) => Err(PathError::NoPlatformDir),
        }
    }

    /// An override always decides, as it stands; without one the platform does, and there
    /// is no base directory only where the platform has none that can be named.
    pub proof fn law_an_override_decides(
        home_env: Option<String>,
        platform: Option<Result<String, String>>,
        base: Result<String, PathError>,
    )
        requires
            Self::is_chosen(home_env, platform, base),
        ensures
            home_env is Some ==> base is Ok && base->Ok_0 == home_env->0,
            home_env is None && platform is Some && platform->0 is Ok ==> base is Ok && base->Ok_0
                == platform->0->Ok_0,
            base is Err <==> home_env is None && !(platform is Some && platform->0 is Ok),
            base matches Err(PathError::NotText { shown }) ==> platform is Some && platform->0
                == Err::<String, String>(shown),
            base matches Err(PathError::NoPlatformDir) ==> platform is None,
    {
    }

    /// The base directory, from the override and from what the platform offers:
    /// the override, word for word, goes first.
    pub fn choose_base(
        home_env: Option<String>,
        platform: Option<Result<String, String>>,
    ) -> (base: Result<String, PathError>)
        ensures
            Self::is_chosen(home_env, platform, base),
    {
        match home_env {
            Some(home) => Ok(home),
            None => match platform {
                Some(Ok(dir)) => Ok(dir),
                Some(Err(shown)) => Err(PathError::NotText { shown }),
                None => Err(PathError::NoPlatformDir),
            },
        }
    }

    /// Finds the base directory. Only where there is no override is the platform
    /// asked.
    pub fn resolve_base(home_env: Option<String>) -> (base: Result<String, PathError>)
        ensures
            home_env is Some ==> base == Ok::<String, PathError>(home_env->0),
            base is Err ==> base->Err_0 is NoPlatformDir || base->Err_0 is NotText,
    {
        match home_env {
            Some(home) => Self::choose_base(Some(home), None),
            None => {
                let names = application();
                let platform = platform_data_dir(
                    names.0.as_str(),
                    names.1.as_str(),
                    names.2.as_str(),
                );
                Self::choose_base(None, platform)
            },
        }
    }

    /// The directories that must exist before the node starts, in the order in
    /// which they are made.
    pub fn required_dirs(&self) -> (dirs: Vec<String>)
        ensures
            text::views(dirs@) =~= seq![
                self.base@,
                path_of(self.base@, "vault"@),
                path_of(self.base@, "logs"@),
            ],
    {
        let mut dirs: Vec<String> = Vec::new();
        dirs.push(self.base.clone());
        dirs.push(self.vault());
        dirs.push(self.log_dir());
        dirs
    }

    pub fn base(&self) -> (path: &str)
        ensures
            path@ == self.base@,
    {
        self.base.as_str()
    }

    pub fn vault(&self) -> (path: String)
        ensures
            path@ == path_of(self.base@, "vault"@),
    {
        join_path(self.base.as_str(), "vault")
    }

    pub fn identity(&self) -> (path: String)
        ensures
            path@ == path_of(self.base@, "identity.bin"@),
    {
        join_path(self.base.as_str(), "identity.bin")
    }

    pub fn swarm_key(&self) -> (path: String)
        ensures
            path@ == path_of(self.base@, "swarm.key"@),
    {
        join_path(self.base.as_str(), "swarm.key")
    }

    pub fn wal(&self) -> (path: String)
        ensures
            path@ == path_of(self.base@, "sentinel_transient_wal.bin"@),
    {
        join_path(self.base.as_str(), "sentinel_transient_wal.bin")
    }

    pub fn log_dir(&self) -> (path: String)
        ensures
            path@ == path_of(self.base@, "logs"@),
    {
        join_path(self.base.as_str(), "logs")
    }

    pub open spec fn is_vault_location(&self, configured: Seq<char>, path: Seq<char>) -> bool {
        path == if configured == DEV_DEFAULT_VAULT_PATH@ {
            path_of(self.base@, "vault"@)
        } else {
            configured
        }
    }

    /// A location that the operator set is kept as it is, and only the one that stands
    /// for none is moved under the base directory.
    pub proof fn law_a_set_vault_stays_where_it_is(
        &self,
        configured: Seq<char>,
        path: Seq<char>,
    )
        requires
            self.is_vault_location(configured, path),
        ensures
            configured != "./sim_vault"@ ==> path == configured,
            configured == "./sim_vault"@ ==> path == path_of(self.base@, "vault"@),
    {
    }

    /// Where the vault stands, given the configured location: one that was never
    /// set is placed under the base directory.
    pub fn vault_location(&self, configured: &String) -> (path: String)
        ensures
            self.is_vault_location(configured@, path@),
    {
        if *configured == DEV_DEFAULT_VAULT_PATH.to_owned() {
            self.vault()
        } else {
            configured.clone()
        }
    }
}

} // verus!
