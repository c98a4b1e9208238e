//! Profiles and settings.

use vstd::prelude::*;

use crate::text::{same_text, text_in, texts};

verus! {

/// The profiles that a configuration can select.
#[derive(Clone, Copy, Debug, PartialEq, Eq, Structural)]
pub enum ProfileKind {
    Default,
    Gaming,
    LowPower,
    Server,
}

impl Default for ProfileKind {
    fn default() -> (r: ProfileKind)
        ensures
            r == ProfileKind::Default,
    {
        ProfileKind::Default
    }
}

/// A name that is no profile's.
#[derive(Debug)]
pub struct UnknownProfile {
    pub name: String,
}

impl UnknownProfile {
    /// What to tell the user.
    pub fn message(&self) -> (s: String)
        ensures
            s@ == "Unknown profile '"@ + self.name@
                + "'. Valid: default, gaming, lowpower, server"@,
    {
        let mut s = "Unknown profile '".to_owned();
        s.append(self.name.as_str());
        s.append("'. Valid: default, gaming, lowpower, server");
        s
    }
}

impl ProfileKind {
    /// The profile's name.
    pub open spec fn name_of(self) -> Seq<char> {
        match self {
            ProfileKind::Default => "default"@,
            ProfileKind::Gaming => "gaming"@,
            ProfileKind::LowPower => "lowpower"@,
            ProfileKind::Server => "server"@,
        }
    }

    /// The profile's name.
    pub fn display(self) -> (s: String)
        ensures
            s@ == self.name_of(),
    {
        match self {
            ProfileKind::Default => "default".to_owned(),
            ProfileKind::Gaming => "gaming".to_owned(),
            ProfileKind::LowPower => "lowpower".to_owned(),
            ProfileKind::Server => "server".to_owned(),
        }
    }

    /// The profile that a name stands for.
    pub open spec fn named(s: Seq<char>) -> Option<ProfileKind> {
        if s == "default"@ {
            Some(ProfileKind::Default)
        } else if s == "gaming"@ {
            Some(ProfileKind::Gaming)
        } else if s == "lowpower"@ || s == "low-power"@ {
            Some(ProfileKind::LowPower)
        } else if s == "server"@ {
            Some(ProfileKind::Server)
        } else {
            None
        }
    }

    /// The profile that a name stands for.
    pub fn from_str(s: &str) -> (r: Result<ProfileKind, UnknownProfile>)
        ensures
            match r {
                Ok(profile) => ProfileKind::named(s@) == Some(profile),
                Err(e) => ProfileKind::named(s@) is None && e.name@ == s@,
            },
    {
        if same_text(s, "default") {
            Ok(ProfileKind::Default)
        } else if same_text(s, "gaming") {
            Ok(ProfileKind::Gaming)
        } else if same_text(s, "lowpower") || same_text(s, "low-power") {
            Ok(ProfileKind::LowPower)
        } else if same_text(s, "server") {
            Ok(ProfileKind::Server)
        } else {
            Err(UnknownProfile { name: s.to_owned() })
        }
    }
}

/// The name that a profile is shown by selects it again.
pub proof fn law_profile_reads_back(profile: ProfileKind)
    ensures
        ProfileKind::named(profile.name_of()) == Some(profile),
{
    reveal_strlit("default");
    reveal_strlit("gaming");
    reveal_strlit("lowpower");
    reveal_strlit("low-power");
    reveal_strlit("server");
    assert("default"@[0] == 'd' && "gaming"@[0] == 'g' && "lowpower"@[0] == 'l'
        && "low-power"@[0] == 'l' && "server"@[0] == 's');
}

/// The environment variables that settings depend on; `None` where one is not set.
#[derive(Clone, Debug)]
pub struct Environment {
    pub xdg_config_home: Option<String>,
    pub home: Option<String>,
}

/// What an [`Environment`] holds.
pub struct EnvironmentView {
    pub xdg_config_home: Option<Seq<char>>,
    pub home: Option<Seq<char>>,
}

impl View for Environment {
    type V = EnvironmentView;

    open spec fn view(&self) -> EnvironmentView {
        EnvironmentView {
            xdg_config_home: text_in(self.xdg_config_home),
            home: text_in(self.home),
        }
    }
}

/// A relative path below a directory.
pub open spec fn below(dir: Seq<char>, relative: Seq<char>) -> Seq<char> {
    if dir.len() == 0 {
        relative
    } else if dir.last() == '/' {
        dir + relative
    } else {
        dir + "/"@ + relative
    }
}

/// A relative path below a directory.
pub fn join_path(dir: &str, relative: &str) -> (r: String)
    ensures
        r@ == below(dir@, relative@),
{
    let n: usize = dir.unicode_len();
    let mut r = dir.to_owned();
    if n > 0 && dir.get_char(n - 1) != '/' {
        r.append("/");
    }
    r.append(relative);
    assert(n == 0 ==> r@ =~= relative@);
    r
}

/// The directory of the user's settings.
pub open spec fn config_home(env: EnvironmentView) -> Seq<char> {
    match env.xdg_config_home {
        Some(dir) => dir,
        None => below(
            match env.home {
                Some(home) => home,
                None => "/root"@,
            },
            ".config"@,
        ),
    }
}

/// The directory of the user's settings.
pub fn xdg_config_home(env: &Environment) -> (r: String)
    ensures
        r@ == config_home(env@),
{
    match &env.xdg_config_home {
        Some(dir) => dir.clone(),
        None => match &env.home {
            Some(home) => join_path(home.as_str(), ".config"),
            None => join_path("/root", ".config"),
        },
    }
}

/// The rule directories where the settings name none: the system's, then the user's.
pub open spec fn standard_rules_dirs(env: EnvironmentView) -> Seq<Seq<char>> {
    seq!["/etc/arbiter/rules.d"@, below(config_home(env), "arbiter/rules.d"@)]
}

/// The rule directories where the settings name none.
pub fn default_rules_dirs(env: &Environment) -> (r: Vec<String>)
    ensures
        texts(r@) == standard_rules_dirs(env@),
{
    let mut r: Vec<String> = Vec::new();
    r.push("/etc/arbiter/rules.d".to_owned());
    r.push(join_path(xdg_config_home(env).as_str(), "arbiter/rules.d"));
    assert(texts(r@) =~= standard_rules_dirs(env@));
    r
}

/// The log level where the settings name none.
pub fn default_log_level() -> (r: String)
    ensures
        r@ == "info"@,
{
    "info".to_owned()
}

/// How long to wait for a process's data where the settings do not say, in milliseconds.
pub fn default_exec_delay_ms() -> (r: u64)
    ensures
        r == 50,
{
    50
}

/// The settings.
#[derive(Clone, Debug)]
pub struct Config {
    /// Active profile.
    pub profile: ProfileKind,
    /// Directories scanned for *.types and *.rules files.
    pub rules_dirs: Vec<String>,
    /// Minimum log level (trace / debug / info / warn / error).
    pub log_level: String,
    /// Log actions but do not apply them.
    pub dry_run: bool,
    /// Apply nice values.
    pub apply_nice: bool,
    /// Apply ionice class/level.
    pub apply_ionice: bool,
    /// Write /proc/PID/oom_score_adj.
    pub apply_oom: bool,
    /// Move processes to cgroup slices.
    pub apply_cgroup: bool,
    /// If set, a scx_layered-compatible layer JSON is written here. The library tells where and
    /// for which scheduler; what such a file holds is not defined in it, so it writes none.
    pub layered_export_path: Option<String>,
    /// Milliseconds to wait after an exec event before reading /proc.
    /// Allows the process to finish its execve before it is inspected. Where its entries are
    /// still incomplete then, reading is tried again for as long once more.
    pub exec_delay_ms: u64,
}

/// What a [`Config`] holds.
#[verifier::ext_equal]
pub struct ConfigView {
    pub profile: ProfileKind,
    pub rules_dirs: Seq<Seq<char>>,
    pub log_level: Seq<char>,
    pub dry_run: bool,
    pub apply_nice: bool,
    pub apply_ionice: bool,
    pub apply_oom: bool,
    pub apply_cgroup: bool,
    pub layered_export_path: Option<Seq<char>>,
    pub exec_delay_ms: u64,
}

impl View for Config {
    type V = ConfigView;

    open spec fn view(&self) -> ConfigView {
        ConfigView {
            profile: self.profile,
            rules_dirs: texts(self.rules_dirs@),
            log_level: self.log_level@,
            dry_run: self.dry_run,
            apply_nice: self.apply_nice,
            apply_ionice: self.apply_ionice,
            apply_oom: self.apply_oom,
            apply_cgroup: self.apply_cgroup,
            layered_export_path: text_in(self.layered_export_path),
            exec_delay_ms: self.exec_delay_ms,
        }
    }
}

/// The settings where nothing is set: everything is applied.
pub open spec fn standard_config(env: EnvironmentView) -> ConfigView {
    ConfigView {
        profile: ProfileKind::Default,
        rules_dirs: standard_rules_dirs(env),
        log_level: "info"@,
        dry_run: false,
        apply_nice: true,
        apply_ionice: true,
        apply_oom: true,
        apply_cgroup: true,
        layered_export_path: None,
        exec_delay_ms: 50,
    }
}

/// What a configuration file sets; `None` for what it leaves out.
#[derive(Clone, Debug)]
pub struct ConfigFields {
    pub profile: Option<ProfileKind>,
    pub rules_dirs: Option<Vec<String>>,
    pub log_level: Option<String>,
    pub dry_run: Option<bool>,
    pub apply_nice: Option<bool>,
    pub apply_ionice: Option<bool>,
    pub apply_oom: Option<bool>,
    pub apply_cgroup: Option<bool>,
    pub layered_export_path: Option<String>,
    pub exec_delay_ms: Option<u64>,
}

/// The value that is set, or else the standard one.
pub open spec fn set_or<T>(value: Option<T>, standard: T) -> T {
    match value {
        Some(v) => v,
        None => standard,
    }
}

/// The settings that a file makes: what it sets, and the standard for the rest.
pub open spec fn config_from(fields: ConfigFields, env: EnvironmentView) -> ConfigView {
    let standard = standard_config(env);
    ConfigView {
        profile: set_or(fields.profile, standard.profile),
        rules_dirs: match fields.rules_dirs {
            Some(dirs) => texts(dirs@),
            None => standard.rules_dirs,
        },
        log_level: set_or(text_in(fields.log_level), standard.log_level),
        dry_run: set_or(fields.dry_run, standard.dry_run),
        apply_nice: set_or(fields.apply_nice, standard.apply_nice),
        apply_ionice: set_or(fields.apply_ionice, standard.apply_ionice),
        apply_oom: set_or(fields.apply_oom, standard.apply_oom),
        apply_cgroup: set_or(fields.apply_cgroup, standard.apply_cgroup),
        layered_export_path: text_in(fields.layered_export_path),
        exec_delay_ms: set_or(fields.exec_delay_ms, standard.exec_delay_ms),
    }
}

/// The files that settings are read from, in order of preference.
pub open spec fn config_candidates(env: EnvironmentView) -> Seq<Seq<char>> {
    seq!["/etc/arbiter/config.toml"@, below(config_home(env), "arbiter/config.toml"@)]
}

/// The file that settings are read from, where there is one: the one that the command line
/// names, or else the first that exists.
pub open spec fn chosen_file(
    explicit: Option<Seq<char>>,
    env: EnvironmentView,
    system_exists: bool,
    user_exists: bool,
) -> Option<Seq<char>> {
    if explicit is Some {
        explicit
    } else if system_exists {
        Some(config_candidates(env)[0])
    } else if user_exists {
        Some(config_candidates(env)[1])
    } else {
        None
    }
}

/// Where the settings come from.
#[derive(Debug)]
pub enum ConfigSource {
    /// They are to be read from this file.
    File(String),
    /// There is no file: these are the settings.
    Defaults(Config),
}

fn bool_or(value: Option<bool>, standard: bool) -> (r: bool)
    ensures
        r == set_or(value, standard),
{
    match value {
        Some(v) => v,
        None => standard,
    }
}

impl Config {
    /// The settings where nothing is set.
    pub fn standard(env: &Environment) -> (r: Config)
        ensures
            r@ == standard_config(env@),
    {
        Config {
            profile: ProfileKind::Default,
            rules_dirs: default_rules_dirs(env),
            log_level: default_log_level(),
            dry_run: false,
            apply_nice: true,
            apply_ionice: true,
            apply_oom: true,
            apply_cgroup: true,
            layered_export_path: None,
            exec_delay_ms: default_exec_delay_ms(),
        }
    }

    /// The files that settings are read from, in order of preference.
    pub fn candidates(env: &Environment) -> (r: Vec<String>)
        ensures
            texts(r@) == config_candidates(env@),
    {
        let mut r: Vec<String> = Vec::new();
        r.push("/etc/arbiter/config.toml".to_owned());
        r.push(join_path(xdg_config_home(env).as_str(), "arbiter/config.toml"));
        assert(texts(r@) =~= config_candidates(env@));
        r
    }

    /// Load from the first existing config file; fall back to defaults.
    ///
    /// `system_exists` and `user_exists` tell which of [`Config::candidates`] are there.
    pub fn load(env: &Environment, system_exists: bool, user_exists: bool) -> (r: ConfigSource)
        ensures
            match r {
                ConfigSource::File(path) => if system_exists {
                    path@ == config_candidates(env@)[0]
                } else {
                    user_exists && path@ == config_candidates(env@)[1]
                },
                ConfigSource::Defaults(config) => !system_exists && !user_exists && config@
                    == standard_config(env@),
            },
    {
        if system_exists {
            ConfigSource::File("/etc/arbiter/config.toml".to_owned())
        } else if user_exists {
            ConfigSource::File(join_path(xdg_config_home(env).as_str(), "arbiter/config.toml"))
        } else {
            ConfigSource::Defaults(Config::standard(env))
        }
    }

    /// The file that settings are read from, where there is one: the one that the command line
    /// names, or else the first that exists.
    pub fn source(
        explicit: &Option<String>,
        env: &Environment,
        system_exists: bool,
        user_exists: bool,
    ) -> (r: ConfigSource)
        ensures
            match r {
                ConfigSource::File(path) => Some(path@) == chosen_file(
                    text_in(*explicit),
                    env@,
                    system_exists,
                    user_exists,
                ),
                ConfigSource::Defaults(config) => chosen_file(
                    text_in(*explicit),
                    env@,
                    system_exists,
                    user_exists,
                ) is None && config@ == standard_config(env@),
            },
    {
        match explicit {
            Some(path) => ConfigSource::File(path.clone()),
            None => Config::load(env, system_exists, user_exists),
        }
    }

    /// The file that a new profile is written to: the one that settings are read from, or else
    /// the user's own.
    pub fn profile_file(
        explicit: &Option<String>,
        env: &Environment,
        system_exists: bool,
        user_exists: bool,
    ) -> (r: String)
        ensures
            r@ == set_or(
                chosen_file(text_in(*explicit), env@, system_exists, user_exists),
                config_candidates(env@)[1],
            ),
    {
        match Config::source(explicit, env, system_exists, user_exists) {
            ConfigSource::File(path) => path,
            ConfigSource::Defaults(_) => join_path(
                xdg_config_home(env).as_str(),
                "arbiter/config.toml",
            ),
        }
    }

    /// The settings that a configuration file makes.
    pub fn load_from(fields: ConfigFields, env: &Environment) -> (r: Config)
        ensures
            r@ == config_from(fields, env@),
    {
        Config {
            profile: match fields.profile {
                Some(profile) => profile,
                None => ProfileKind::Default,
            },
            rules_dirs: match fields.rules_dirs {
                Some(dirs) => dirs,
                None => default_rules_dirs(env),
            },
            log_level: match fields.log_level {
                Some(level) => level,
                None => default_log_level(),
            },
            dry_run: bool_or(fields.dry_run, false),
            apply_nice: bool_or(fields.apply_nice, true),
            apply_ionice: bool_or(fields.apply_ionice, true),
            apply_oom: bool_or(fields.apply_oom, true),
            apply_cgroup: bool_or(fields.apply_cgroup, true),
            layered_export_path: fields.layered_export_path,
            exec_delay_ms: match fields.exec_delay_ms {
                Some(ms) => ms,
                None => default_exec_delay_ms(),
            },
        }
    }
}

/// A new profile in a configuration file is the active one once the file is loaded, and changes
/// nothing else.
pub proof fn law_profile_update_changes_only_the_profile(
    fields: ConfigFields,
    profile: ProfileKind,
    env: EnvironmentView,
)
    ensures
        config_from((ConfigFields { profile: Some(profile), ..fields }), env) == (ConfigView {
            profile,
            ..config_from(fields, env)
        }),
{
}

/// A file that sets nothing gives the settings that hold without a file.
pub proof fn law_empty_file_is_standard(fields: ConfigFields, env: EnvironmentView)
    requires
        fields.profile is None,
        fields.rules_dirs is None,
        fields.log_level is None,
        fields.dry_run is None,
        fields.apply_nice is None,
        fields.apply_ionice is None,
        fields.apply_oom is None,
        fields.apply_cgroup is None,
        fields.layered_export_path is None,
        fields.exec_delay_ms is None,
    ensures
        config_from(fields, env) == standard_config(env),
{
}

} // verus!
