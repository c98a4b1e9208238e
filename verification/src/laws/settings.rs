//! Settings: where they are looked for, and which value holds.

use vstd::prelude::*;

use crate::config::{
    below, chosen_file, config_candidates, config_from, config_home, standard_config, ConfigFields,
    EnvironmentView, ProfileKind,
};
use crate::text::texts;

verus! {

/// A path is joined to a directory by one separator; a directory that ends with it gets no second
/// one, and below no directory the path stands by itself.
pub proof fn law_paths_join_by_one_separator(dir: Seq<char>, relative: Seq<char>)
    ensures
        below(Seq::empty(), relative) == relative,
        dir.len() > 0 && dir.last() != '/' ==> below(dir, relative) == dir + seq!['/'] + relative,
        dir.len() > 0 && dir.last() == '/' ==> below(dir, relative) == dir + relative,
        dir.len() > 0 && dir.last() != '/' ==> below(dir + seq!['/'], relative) == below(
            dir,
            relative,
        ),
{
    reveal_strlit("/");
    assert("/"@ =~= seq!['/']);
    assert((dir + seq!['/']).last() == '/');
}

/// The variable for settings decides where they are; without it they stand in `.config` of the
/// home directory, and without that in the one of the superuser.
pub proof fn law_home_of_settings(env: EnvironmentView)
    ensures
        env.xdg_config_home is Some ==> config_home(env) == env.xdg_config_home->0,
        env.xdg_config_home is None && env.home is Some ==> config_home(env) == below(
            env.home->0,
            ".config"@,
        ),
        env.xdg_config_home is None && env.home is None ==> config_home(env) == below(
            "/root"@,
            ".config"@,
        ),
{
}

/// The file that the command line names is read whatever exists. Without it the system's comes
/// first, then the user's below the home of the settings, each only where it exists.
pub proof fn law_first_file_there_is_read(
    explicit: Option<Seq<char>>,
    env: EnvironmentView,
    system_exists: bool,
    user_exists: bool,
)
    ensures
        explicit is Some ==> chosen_file(explicit, env, system_exists, user_exists) == explicit,
        chosen_file(None, env, true, user_exists) == Some("/etc/arbiter/config.toml"@),
        chosen_file(None, env, false, true) == Some(
            below(config_home(env), "arbiter/config.toml"@),
        ),
        chosen_file(None, env, false, false) is None,
        config_candidates(env).len() == 2,
        chosen_file(None, env, true, user_exists) == Some(config_candidates(env)[0]),
        chosen_file(None, env, false, true) == Some(config_candidates(env)[1]),
{
}

/// Without a file everything is applied, for real, after fifty milliseconds, by the rules of the
/// system and then those of the user.
pub proof fn law_standard_settings(env: EnvironmentView)
    ensures
        ({
            let c = standard_config(env);
            &&& c.profile == ProfileKind::Default
            &&& c.rules_dirs.len() == 2
            &&& c.rules_dirs[0] == "/etc/arbiter/rules.d"@
            &&& c.rules_dirs[1] == below(config_home(env), "arbiter/rules.d"@)
            &&& c.log_level == "info"@
            &&& !c.dry_run
            &&& c.apply_nice && c.apply_ionice && c.apply_oom && c.apply_cgroup
            &&& c.layered_export_path is None
            &&& c.exec_delay_ms == 50
        }),
{
}

/// What a file sets holds.
pub proof fn law_what_is_set_holds(fields: ConfigFields, env: EnvironmentView)
    ensures
        ({
            let c = config_from(fields, env);
            &&& fields.profile is Some ==> c.profile == fields.profile->0
            &&& fields.rules_dirs is Some ==> c.rules_dirs == texts(fields.rules_dirs->0@)
            &&& fields.log_level is Some ==> c.log_level == fields.log_level->0@
            &&& fields.dry_run is Some ==> c.dry_run == fields.dry_run->0
            &&& fields.apply_nice is Some ==> c.apply_nice == fields.apply_nice->0
            &&& fields.apply_ionice is Some ==> c.apply_ionice == fields.apply_ionice->0
            &&& fields.apply_oom is Some ==> c.apply_oom == fields.apply_oom->0
            &&& fields.apply_cgroup is Some ==> c.apply_cgroup == fields.apply_cgroup->0
            &&& fields.layered_export_path is Some ==> c.layered_export_path == Some(
                fields.layered_export_path->0@,
            )
            &&& fields.exec_delay_ms is Some ==> c.exec_delay_ms == fields.exec_delay_ms->0
        }),
{
}

/// What a file leaves out is as it is without a file, whatever else it sets.
pub proof fn law_what_is_left_out_is_standard(fields: ConfigFields, env: EnvironmentView)
    ensures
        ({
            let c = config_from(fields, env);
            let standard = standard_config(env);
            &&& fields.profile is None ==> c.profile == standard.profile
            &&& fields.rules_dirs is None ==> c.rules_dirs == standard.rules_dirs
            &&& fields.log_level is None ==> c.log_level == standard.log_level
            &&& fields.dry_run is None ==> c.dry_run == standard.dry_run
            &&& fields.apply_nice is None ==> c.apply_nice == standard.apply_nice
            &&& fields.apply_ionice is None ==> c.apply_ionice == standard.apply_ionice
            &&& fields.apply_oom is None ==> c.apply_oom == standard.apply_oom
            &&& fields.apply_cgroup is None ==> c.apply_cgroup == standard.apply_cgroup
            &&& fields.layered_export_path is None ==> c.layered_export_path is None
            &&& fields.exec_delay_ms is None ==> c.exec_delay_ms == standard.exec_delay_ms
        }),
{
}

/// A text selects a profile exactly where it is the profile's name; the one for low power may be
/// written with a hyphen too.
pub proof fn law_profiles_are_selected_by_name(s: Seq<char>)
    ensures
        ProfileKind::named(s) == Some(ProfileKind::Default) <==> s == "default"@,
        ProfileKind::named(s) == Some(ProfileKind::Gaming) <==> s == "gaming"@,
        ProfileKind::named(s) == Some(ProfileKind::LowPower) <==> s == "lowpower"@ || s
            == "low-power"@,
        ProfileKind::named(s) == Some(ProfileKind::Server) <==> s == "server"@,
        ProfileKind::Default.name_of() == "default"@,
        ProfileKind::Gaming.name_of() == "gaming"@,
        ProfileKind::LowPower.name_of() == "lowpower"@,
        ProfileKind::Server.name_of() == "server"@,
{
    reveal_strlit("default");
    reveal_strlit("gaming");
    reveal_strlit("lowpower");
    reveal_strlit("low-power");
    reveal_strlit("server");
    assert("default"@[0] == 'd' && "gaming"@[0] == 'g' && "lowpower"@[0] == 'l'
        && "low-power"@[0] == 'l' && "server"@[0] == 's');
}

} // verus!
