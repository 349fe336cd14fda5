//! How a command is started, and what it means when that fails.

use crate::config::{NetworkMode, SandboxConfig};
use crate::environment;
use crate::environment::EnvTable;
use crate::error::SandboxError;
use crate::executor::MacOSExecutor;
use crate::limits;
use crate::limits::LimitRun;
use crate::profile;
use vstd::prelude::*;

verus! {

/// Where `sandbox-exec` is installed.
pub const SANDBOX_EXEC: &'static str = "/usr/bin/sandbox-exec";

/// Search path of a command without a configured one.
pub const DEFAULT_PATH: &'static str = "/usr/local/bin:/usr/bin:/bin:/usr/sbin:/sbin";

/// Everything that is fixed before a command is started. Output and error
/// output are always piped.
pub struct LaunchPlan {
    pub program: String,
    pub args: Vec<String>,
    /// The bytes of the directory's name.
    pub current_dir: Vec<u8>,
    /// Start from an empty environment.
    pub clear_env: bool,
    /// Variables set on top.
    pub env: EnvTable,
    /// The input is piped; otherwise it is empty.
    pub pipe_stdin: bool,
    /// Limits that the child sets before it runs the command.
    pub limits: LimitRun,
}

/// The variables of the proxy; there is none unless the network is proxied.
pub open spec fn proxy_settings(
    mode: NetworkMode,
    proxy_env: Seq<(String, String)>,
) -> Map<Seq<char>, Seq<char>> {
    match mode {
        NetworkMode::Proxied { allowed_domains } => environment::settings(proxy_env),
        _ => Map::empty(),
    }
}

/// The configured variables, with a search path where they have none.
pub open spec fn with_default_path(env: Map<Seq<char>, Seq<char>>) -> Map<Seq<char>, Seq<char>> {
    if env.dom().contains("PATH"@) {
        env
    } else {
        env.insert("PATH"@, DEFAULT_PATH@)
    }
}

/// The variables set for a command. Those of the proxy replace configured ones.
pub open spec fn launch_env(
    config: SandboxConfig,
    proxy_env: Seq<(String, String)>,
) -> Map<Seq<char>, Seq<char>> {
    with_default_path(config.env@).union_prefer_right(
        proxy_settings(config.network_mode, proxy_env),
    )
}

/// The arguments of `sandbox-exec`: the profile, the command and its arguments.
pub open spec fn launch_args(
    config: SandboxConfig,
    cmd: Seq<char>,
    args: Seq<&str>,
) -> Seq<Seq<char>> {
    seq!["-p"@, profile::profile_text(config), cmd] + args.map_values(|arg: &str| arg@)
}

fn set_all(table: &mut EnvTable, entries: &Vec<(String, String)>)
    ensures
        final(table)@ == old(table)@.union_prefer_right(environment::settings(entries@)),
{
    let mut i: usize = 0;
    assert(table@.union_prefer_right(environment::settings(entries@.take(0))) =~= table@);
    while i < entries.len()
        invariant
            i <= entries.len(),
            table@ == old(table)@.union_prefer_right(
                environment::settings(entries@.take(i as int)),
            ),
        decreases entries.len() - i,
    {
        table.insert(entries[i].0.clone(), entries[i].1.clone());
        proof {
            let next = entries@.take(i + 1);
            assert(next.drop_last() == entries@.take(i as int));
            assert(table@ =~= old(table)@.union_prefer_right(environment::settings(next)));
        }
        i += 1;
    }
    assert(entries@.take(i as int) == entries@);
}

impl MacOSExecutor {
    /// The domains that a proxy has to be set up for, before the launch.
    pub fn proxied_domains(config: &SandboxConfig) -> (domains: Option<&Vec<String>>)
        ensures
            match config.network_mode {
                NetworkMode::Proxied { allowed_domains } => domains == Some(&allowed_domains),
                _ => domains is None,
            },
    {
        match &config.network_mode {
            NetworkMode::Proxied { allowed_domains } => Some(allowed_domains),
            _ => None,
        }
    }

    /// How `cmd` is started: `sandbox-exec -p <profile> <cmd> <args>`.
    pub fn launch_plan(
        &self,
        config: &SandboxConfig,
        cmd: &str,
        args: &[&str],
        has_stdin: bool,
        proxy_env: &Vec<(String, String)>,
    ) -> (plan: LaunchPlan)
        ensures
            plan.program@ == SANDBOX_EXEC@,
            plan.args@.map_values(|arg: String| arg@) == launch_args(*config, cmd@, args@),
            plan.current_dir@ == config.working_dir@,
            plan.clear_env == config.clear_env,
            plan.env@ == launch_env(*config, proxy_env@),
            plan.pipe_stdin == has_stdin,
            plan.limits.remaining() == limits::configured_requests(*config),
            plan.program@ == "/usr/bin/sandbox-exec"@,
            // -p <profile> <cmd> <args>, every argument in its place
            plan.args@.len() == 3 + args@.len(),
            plan.args@[0]@ == "-p"@,
            plan.args@[1]@ == profile::profile_text(*config),
            plan.args@[2]@ == cmd@,
            forall|i: int|
                #![trigger args@[i]]
                0 <= i < args@.len() ==> plan.args@[3 + i]@ == args@[i]@,
            // the proxy's variables before configured ones before the search path
            forall|name: Seq<char>| #[trigger]
                plan.env@.dom().contains(name) <==> {
                    ||| config.network_mode is Proxied && environment::settings(
                        proxy_env@,
                    ).dom().contains(name)
                    ||| config.env@.dom().contains(name)
                    ||| name == "PATH"@
                },
            forall|name: Seq<char>| #[trigger]
                plan.env@.dom().contains(name) ==> plan.env@[name] == (if config.network_mode
                    is Proxied && environment::settings(proxy_env@).dom().contains(name) {
                    environment::settings(proxy_env@)[name]
                } else if config.env@.dom().contains(name) {
                    config.env@[name]
                } else {
                    "/usr/local/bin:/usr/bin:/bin:/usr/sbin:/sbin"@
                }),
    {
        let profile = self.generate_profile(config);

        // Build command: sandbox-exec -p <profile> <cmd> <args>
        let mut words: Vec<String> = Vec::new();
        words.push("-p".to_owned());
        words.push(profile);
        words.push(cmd.to_owned());
        let ghost head = words@.map_values(|arg: String| arg@);
        assert(head == seq!["-p"@, profile::profile_text(*config), cmd@]);
        let mut i: usize = 0;
        while i < args.len()
            invariant
                i <= args.len(),
                words@.map_values(|arg: String| arg@) == head + args@.take(i as int).map_values(
                    |arg: &str| arg@,
                ),
            decreases args.len() - i,
        {
            let ghost before = words@.map_values(|arg: String| arg@);
            let arg: &str = args[i];
            words.push(arg.to_owned());
            assert(words@.map_values(|arg: String| arg@) == before.push(arg@));
            assert(args@.take(i + 1) == args@.take(i as int).push(arg));
            assert(words@.map_values(|arg: String| arg@) == head + args@.take(i + 1).map_values(
                |arg: &str| arg@,
            ));
            i += 1;
        }
        assert(args@.take(i as int) == args@);
        let ghost texts = words@.map_values(|arg: String| arg@);
        assert(texts == launch_args(*config, cmd@, args@));
        assert(words@.len() == texts.len());
        assert forall|k: int| 0 <= k < words@.len() implies #[trigger] words@[k]@ == texts[k] by {}
        proof {
            law_launch_args(*config, cmd@, args@);
            assert forall|k: int| #![trigger args@[k]] 0 <= k < args@.len() implies words@[3 + k]@
                == args@[k]@ by {
                assert(words@[3 + k]@ == texts[3 + k]);
            }
            assert(words@[0]@ == texts[0]);
            assert(words@[1]@ == texts[1]);
            assert(words@[2]@ == texts[2]);
        }

        // Set the environment, with a default PATH if not provided
        let mut env = EnvTable::new();
        set_all(&mut env, config.env.entries());
        assert(env@ =~= config.env@);
        if !config.env.contains_key("PATH") {
            env.insert("PATH".to_owned(), DEFAULT_PATH.to_owned());
        }
        // Set proxy environment variables if proxied network
        match &config.network_mode {
            NetworkMode::Proxied { .. } => {
                set_all(&mut env, proxy_env);
            },
            _ => {},
        }
        assert(env@ =~= launch_env(*config, proxy_env@));

        let current_dir = config.working_dir.clone();
        assert(current_dir@ == config.working_dir@);
        LaunchPlan {
            program: SANDBOX_EXEC.to_owned(),
            args: words,
            current_dir,
            clear_env: config.clear_env,
            env,
            pipe_stdin: has_stdin,
            limits: LimitRun::new(
                config.max_open_files,
                config.max_file_size,
                config.cpu_time_limit,
            ),
        }
    }

    /// The error for a command that could not be started. `report` is what the
    /// child wrote about a rejected limit, `reason` is the system's own.
    pub fn spawn_failure(
        config: &SandboxConfig,
        cmd: &str,
        not_found: bool,
        report: &[u8],
        reason: &str,
    ) -> (error: SandboxError)
        ensures
            not_found ==> (error matches SandboxError::CommandNotFound(name) && name@ == cmd@),
            !not_found ==> (error matches SandboxError::ExecutionFailed(message)
                && match limits::reported_failure(report@, *config) {
                Some(failure) => exists|text: String| #[trigger]
                    limits::system_said(failure.errno, text) && message@ == limits::failure_text(
                        failure,
                        text@,
                    ),
                None => message@ == reason@,
            }),
    {
        if not_found {
            return SandboxError::CommandNotFound(cmd.to_owned());
        }
        match Self::limit_failure(report, config) {
            Some(message) => SandboxError::ExecutionFailed(message),
            None => SandboxError::ExecutionFailed(reason.to_owned()),
        }
    }

    /// The error for a report pipe that could not be created.
    pub fn report_pipe_failure(reason: &str) -> (error: SandboxError)
        ensures
            error matches SandboxError::Internal(message) && message@
                == "create limit report pipe: "@ + reason@,
    {
        SandboxError::Internal("create limit report pipe: ".to_owned().concat(reason))
    }
}

/// The arguments of `sandbox-exec` are `-p`, the profile, the command and then
/// each argument of the command in its place, and no more.
pub proof fn law_launch_args(config: SandboxConfig, cmd: Seq<char>, args: Seq<&str>)
    ensures
        launch_args(config, cmd, args).len() == 3 + args.len(),
        launch_args(config, cmd, args)[0] == "-p"@,
        launch_args(config, cmd, args)[1] == profile::profile_text(config),
        launch_args(config, cmd, args)[2] == cmd,
        forall|i: int|
            #![trigger args[i]]
            0 <= i < args.len() ==> launch_args(config, cmd, args)[3 + i] == args[i]@,
{
}

/// Every command has a search path: the one that the proxy or the configuration
/// sets, or else the usual directories.
pub proof fn law_path_is_set(config: SandboxConfig, proxy_env: Seq<(String, String)>)
    ensures
        launch_env(config, proxy_env).dom().contains("PATH"@),
        !config.env@.dom().contains("PATH"@) && (!(config.network_mode is Proxied)
            || !environment::settings(proxy_env).dom().contains("PATH"@)) ==> launch_env(
            config,
            proxy_env,
        )["PATH"@] == "/usr/local/bin:/usr/bin:/bin:/usr/sbin:/sbin"@,
{
}

/// A configured variable reaches the command unless the proxy sets it, and a
/// variable that neither sets is none, the search path apart.
pub proof fn law_configured_variables_are_kept(
    config: SandboxConfig,
    proxy_env: Seq<(String, String)>,
    name: Seq<char>,
)
    requires
        config.network_mode is Proxied ==> !environment::settings(proxy_env).dom().contains(name),
    ensures
        config.env@.dom().contains(name) ==> launch_env(config, proxy_env).dom().contains(name)
            && launch_env(config, proxy_env)[name] == config.env@[name],
        !config.env@.dom().contains(name) && name != "PATH"@ ==> !launch_env(
            config,
            proxy_env,
        ).dom().contains(name),
{
}

/// The variables of the proxy reach a command whose network is proxied, in
/// place of configured ones, and make no difference to any other command.
pub proof fn law_proxy_variables(
    config: SandboxConfig,
    proxy_env: Seq<(String, String)>,
    other_env: Seq<(String, String)>,
    name: Seq<char>,
)
    ensures
        config.network_mode is Proxied && environment::settings(proxy_env).dom().contains(name)
            ==> launch_env(config, proxy_env).dom().contains(name) && launch_env(
            config,
            proxy_env,
        )[name] == environment::settings(proxy_env)[name],
        !(config.network_mode is Proxied) ==> launch_env(config, proxy_env) == launch_env(
            config,
            other_env,
        ) && launch_env(config, proxy_env) == with_default_path(config.env@),
{
}

} // verus!
