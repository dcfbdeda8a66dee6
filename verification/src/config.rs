//! The launcher's rules: what a worker is started with, and when starting one
//! is refused.
use crate::errors::Error;
use vstd::prelude::*;
use vstd::string::*;

verus! {

/// The environment variable that marks a process as a managed worker. A
/// supervisor that finds it in its own environment does not launch.
pub const MANAGED_WORKER_VAR: &'static str = "EVCXR_IS_RUNTIME";

/// The environment variable that makes the worker print a backtrace when it
/// panics.
pub const BACKTRACE_VAR: &'static str = "RUST_BACKTRACE";

/// The value both variables are set to.
pub const ENABLED: &'static str = "1";

/// One assignment of an environment variable, as characters.
pub type Assignment = (Seq<char>, Seq<char>);

/// How a stream of the worker is connected.
#[derive(Debug, Clone, Copy, PartialEq, Eq, Structural)]
pub enum Stdio {
    /// The worker shares the supervisor's stream.
    Inherited,
    /// The stream is a pipe whose other end the supervisor holds.
    Piped,
}

/// What the caller wants launched.
#[derive(Debug, Clone, PartialEq, Eq)]
pub struct ProcessConfig {
    /// The executable.
    pub program: String,
    /// Its arguments.
    pub args: Vec<String>,
    /// Environment variables to set for it, in the order they are applied: a
    /// later assignment of a name replaces an earlier one.
    pub env: Vec<(String, String)>,
    /// The directory to run it in, where that is not the supervisor's own.
    pub cwd: Option<String>,
}

/// A [`ProcessConfig`] as mathematical values.
pub struct ConfigView {
    pub program: Seq<char>,
    pub args: Seq<Seq<char>>,
    pub env: Seq<Assignment>,
    pub cwd: Option<Seq<char>>,
}

impl View for ProcessConfig {
    type V = ConfigView;

    open spec fn view(&self) -> ConfigView {
        ConfigView {
            program: self.program@,
            args: self.args.deep_view(),
            env: self.env.deep_view(),
            cwd: self.cwd.deep_view(),
        }
    }
}

/// A launch as it is carried out: the caller's configuration with the
/// supervisor's additions. It is made once and used for every start of the
/// worker.
#[derive(Debug)]
pub struct LaunchPlan {
    program: String,
    args: Vec<String>,
    env: Vec<(String, String)>,
    cwd: Option<String>,
    stdin: Stdio,
    stdout: Stdio,
    stderr: Stdio,
}

/// A [`LaunchPlan`] as mathematical values.
pub struct PlanView {
    pub program: Seq<char>,
    pub args: Seq<Seq<char>>,
    pub env: Seq<Assignment>,
    pub cwd: Option<Seq<char>>,
    pub stdin: Stdio,
    pub stdout: Stdio,
    pub stderr: Stdio,
}

impl View for LaunchPlan {
    type V = PlanView;

    closed spec fn view(&self) -> PlanView {
        PlanView {
            program: self.program@,
            args: self.args.deep_view(),
            env: self.env.deep_view(),
            cwd: self.cwd.deep_view(),
            stdin: self.stdin,
            stdout: self.stdout,
            stderr: self.stderr,
        }
    }
}

/// The plan for launching `config`: the marker and the backtrace switch are
/// assigned after everything the caller assigned, and all three streams are
/// pipes.
pub open spec fn launch_plan(config: ConfigView) -> PlanView {
    PlanView {
        program: config.program,
        args: config.args,
        env: config.env.push((MANAGED_WORKER_VAR@, ENABLED@)).push((BACKTRACE_VAR@, ENABLED@)),
        cwd: config.cwd,
        stdin: Stdio::Piped,
        stdout: Stdio::Piped,
        stderr: Stdio::Piped,
    }
}

/// The environment that a list of assignments leaves behind: for each name
/// the value it was last given.
pub open spec fn effective_env(env: Seq<Assignment>) -> Map<Seq<char>, Seq<char>>
    decreases env.len(),
{
    if env.len() == 0 {
        Map::empty()
    } else {
        effective_env(env.drop_last()).insert(env.last().0, env.last().1)
    }
}

/// The command line for messages: the program, then each argument after a
/// space.
pub open spec fn command_text(program: Seq<char>, args: Seq<Seq<char>>) -> Seq<char>
    decreases args.len(),
{
    if args.len() == 0 {
        program
    } else {
        command_text(program, args.drop_last()) + seq![' '] + args.last()
    }
}

/// Whatever the caller configured, the worker finds the marker and the
/// backtrace switch set, and every other variable as the caller left it.
pub proof fn lemma_worker_environment(config: ConfigView)
    ensures
        effective_env(launch_plan(config).env)[MANAGED_WORKER_VAR@] == ENABLED@,
        effective_env(launch_plan(config).env)[BACKTRACE_VAR@] == ENABLED@,
        effective_env(launch_plan(config).env).dom() == effective_env(config.env).dom().insert(
            MANAGED_WORKER_VAR@,
        ).insert(BACKTRACE_VAR@),
        forall|name: Seq<char>|
            name != MANAGED_WORKER_VAR@ && name != BACKTRACE_VAR@ && effective_env(
                config.env,
            ).contains_key(name) ==> #[trigger] effective_env(launch_plan(config).env)[name]
                == effective_env(config.env)[name],
{
    reveal_strlit("EVCXR_IS_RUNTIME");
    reveal_strlit("RUST_BACKTRACE");
    let marked = config.env.push((MANAGED_WORKER_VAR@, ENABLED@));
    let full = marked.push((BACKTRACE_VAR@, ENABLED@));
    assert(MANAGED_WORKER_VAR@.len() != BACKTRACE_VAR@.len());
    assert(full.drop_last() =~= marked);
    assert(marked.drop_last() =~= config.env);
    assert(effective_env(full) == effective_env(marked).insert(BACKTRACE_VAR@, ENABLED@));
    assert(effective_env(marked) == effective_env(config.env).insert(
        MANAGED_WORKER_VAR@,
        ENABLED@,
    ));
    assert(effective_env(full).dom() =~= effective_env(config.env).dom().insert(
        MANAGED_WORKER_VAR@,
    ).insert(BACKTRACE_VAR@));
}

impl LaunchPlan {
    /// Prepares the launch of `config`. `marker_present` says whether
    /// [`MANAGED_WORKER_VAR`] is set in the supervisor's own environment: if
    /// it is, the launch is refused.
    pub fn prepare(config: ProcessConfig, marker_present: bool) -> (plan: Result<LaunchPlan, Error>)
        ensures
            match plan {
                Ok(plan) => !marker_present && plan@ == launch_plan(config@),
                Err(error) => marker_present && error@
                    == crate::errors::ErrorView::RecursiveLaunchRejected,
            },
    {
        if marker_present {
            return Err(Error::RecursiveLaunchRejected);
        }
        let ghost before = config@;
        let ProcessConfig { program, args, mut env, cwd } = config;
        env.push((MANAGED_WORKER_VAR.to_owned(), ENABLED.to_owned()));
        env.push((BACKTRACE_VAR.to_owned(), ENABLED.to_owned()));
        let plan = LaunchPlan {
            program,
            args,
            env,
            cwd,
            stdin: Stdio::Piped,
            stdout: Stdio::Piped,
            stderr: Stdio::Piped,
        };
        assert(plan@.env =~= launch_plan(before).env);
        Ok(plan)
    }

    /// The executable.
    pub fn program(&self) -> (program: &String)
        ensures
            program@ == self@.program,
    {
        &self.program
    }

    /// The arguments.
    pub fn args(&self) -> (args: &Vec<String>)
        ensures
            args.deep_view() == self@.args,
    {
        &self.args
    }

    /// The environment assignments, in the order to apply them.
    pub fn env(&self) -> (env: &Vec<(String, String)>)
        ensures
            env.deep_view() == self@.env,
    {
        &self.env
    }

    /// The working directory, where one was configured.
    pub fn cwd(&self) -> (cwd: &Option<String>)
        ensures
            cwd.deep_view() == self@.cwd,
    {
        &self.cwd
    }

    /// How the worker's standard input is connected.
    pub fn stdin(&self) -> (stdio: Stdio)
        ensures
            stdio == self@.stdin,
    {
        self.stdin
    }

    /// How the worker's standard output is connected.
    pub fn stdout(&self) -> (stdio: Stdio)
        ensures
            stdio == self@.stdout,
    {
        self.stdout
    }

    /// How the worker's error stream is connected.
    pub fn stderr(&self) -> (stdio: Stdio)
        ensures
            stdio == self@.stderr,
    {
        self.stderr
    }

    /// The command line, for messages.
    pub fn command_text(&self) -> (text: String)
        ensures
            text@ == command_text(self@.program, self@.args),
    {
        let mut text = self.program.clone();
        let mut i: usize = 0;
        while i < self.args.len()
            invariant
                0 <= i <= self.args.len(),
                text@ == command_text(self.program@, self.args.deep_view().take(i as int)),
            decreases self.args.len() - i,
        {
            text.append(" ");
            text.append(self.args[i].as_str());
            proof {
                reveal_strlit(" ");
                let upto = self.args.deep_view().take(i + 1);
                assert(upto.drop_last() =~= self.args.deep_view().take(i as int));
                assert(upto.last() == self.args[i as int]@);
                assert(" "@ =~= seq![' ']);
            }
            i += 1;
        }
        assert(self.args.deep_view().take(i as int) =~= self.args.deep_view());
        text
    }
}

} // verus!
