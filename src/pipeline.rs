//! The execution pipeline as a state machine. A host performs each action
//! (locating files, loading a definition, running a command) and hands the
//! outcome back as an event; the machine decides what comes next.
//!
//! A run goes: locate the data root, locate the definition, load it, pass the
//! platform and privilege gates, build the variable store, then run the check
//! commands, the dependency commands and the attack command. Cleanup shares
//! every step up to the store and then runs the cleanup command. The first
//! failure ends the run.

use vstd::prelude::*;
use crate::commands::{
    get_attack_command, get_check_command, get_cleanup_command, get_dependency_command,
    gather_args, phase_commands, run_store,
};
use crate::error::ArrError;
use crate::host::{
    Host, check_superuser_requirement, is_os_supported, needs_elevation, platform_supported,
};
use crate::model::{AtomicReadTeamTechnique, opt_text};
use crate::template::{join, lines, resolve_commands, store_view, substitute_all};

verus! {

/// One request to run a test, or its cleanup.
pub struct Arr {
    /// The technique identifier, which names the definition file.
    pub technique: String,
    /// Variable overrides; a later pair for a name wins.
    pub vars: Vec<(String, String)>,
    /// The index of the test within the technique.
    pub test_num: usize,
    /// Where the search for the data root starts.
    pub art_path: String,
}

/// Which entry point a run came from.
#[derive(Debug, Clone, Copy, PartialEq, Eq, Structural)]
pub enum Mode {
    Run,
    Cleanup,
}

/// The phase whose commands are being run.
#[derive(Debug, Clone, Copy, PartialEq, Eq, Structural)]
pub enum Phase {
    Check,
    Dependency,
    Attack,
    Cleanup,
}

/// A run that is executing the commands of one phase.
pub struct Progress {
    pub phase: Phase,
    pub technique: AtomicReadTeamTechnique,
    pub atomics_dir: String,
    /// The variable store of the run.
    pub args: Vec<(String, String)>,
    /// The commands of the phase, each with its executor.
    pub commands: Vec<(String, String)>,
    /// The index of the command whose outcome is awaited.
    pub pending: usize,
}

/// Where a run stands.
pub enum Stage {
    LocatingRoot { mode: Mode },
    LocatingDefinition { mode: Mode, atomics_dir: String },
    LoadingDefinition { mode: Mode, atomics_dir: String },
    Executing(Progress),
    Finished,
}

/// What the host reports after performing an action.
pub enum Event {
    RootLocated(Result<String, ArrError>),
    DefinitionLocated(Result<String, ArrError>),
    DefinitionLoaded(Result<AtomicReadTeamTechnique, ArrError>),
    CommandFinished(Result<(), ArrError>),
}

/// What the host is to do next.
pub enum Action {
    /// Find the directory that holds the test data, searching from `search_path`.
    LocateRoot { search_path: String },
    /// Find the definition file of `technique` under `atomics_dir`.
    LocateDefinition { technique: String, atomics_dir: String },
    /// Read and parse the definition file.
    LoadDefinition { file: String },
    /// Run `command` with the interpreter `executor`.
    Execute { command: String, executor: String },
    /// The run is over, with this outcome.
    Finish(Result<(), ArrError>),
}

impl Stage {
    /// A stage that executes awaits a command that exists, of a test that exists.
    pub open spec fn wf(&self, test_num: usize) -> bool {
        match self {
            Stage::Executing(p) => p.pending < p.commands@.len() && test_num
                < p.technique.atomic_tests@.len(),
            _ => true,
        }
    }

    /// The event that this stage awaits.
    pub open spec fn accepts_spec(&self, e: &Event) -> bool {
        match (self, e) {
            (Stage::LocatingRoot { .. }, Event::RootLocated(_)) => true,
            (Stage::LocatingDefinition { .. }, Event::DefinitionLocated(_)) => true,
            (Stage::LoadingDefinition { .. }, Event::DefinitionLoaded(_)) => true,
            (Stage::Executing(_), Event::CommandFinished(_)) => true,
            _ => false,
        }
    }

    /// Whether this stage awaits the event `e`.
    pub fn accepts(&self, e: &Event) -> (r: bool)
        ensures
            r == self.accepts_spec(e),
    {
        match (self, e) {
            (Stage::LocatingRoot { .. }, Event::RootLocated(_)) => true,
            (Stage::LocatingDefinition { .. }, Event::DefinitionLocated(_)) => true,
            (Stage::LoadingDefinition { .. }, Event::DefinitionLoaded(_)) => true,
            (Stage::Executing(_), Event::CommandFinished(_)) => true,
            _ => false,
        }
    }
}

/// The run is over with `outcome`.
pub open spec fn finished_with(r: (Stage, Action), outcome: Result<(), ArrError>) -> bool {
    r.0 is Finished && r.1 == Action::Finish(outcome)
}

/// The run is over: the variable `n` has no value.
pub open spec fn fails_naming(r: (Stage, Action), n: Seq<char>) -> bool {
    r.0 is Finished && match r.1 {
        Action::Finish(Err(ArrError::ArgValueNotFound(s))) => s@ == n,
        _ => false,
    }
}

/// The run is over: the test defines no cleanup command.
pub open spec fn fails_without_cleanup(r: (Stage, Action)) -> bool {
    r.0 is Finished && match r.1 {
        Action::Finish(Err(ArrError::Other(s))) => s@ == "No cleanup command"@,
        _ => false,
    }
}

/// The run executes command `pending` of `cmds` in `phase`, and carries the
/// definition, the data root and the variable store on.
pub open spec fn executing(
    r: (Stage, Action),
    phase: Phase,
    cmds: Seq<(Seq<char>, Seq<char>)>,
    pending: int,
    technique: AtomicReadTeamTechnique,
    dir: Seq<char>,
    args: Seq<(Seq<char>, Seq<char>)>,
) -> bool {
    match r {
        (Stage::Executing(p), Action::Execute { command, executor }) => {
            &&& p.phase == phase
            &&& store_view(p.commands@) == cmds
            &&& p.pending == pending
            &&& p.technique == technique
            &&& p.atomics_dir@ == dir
            &&& store_view(p.args@) == args
            &&& 0 <= pending < cmds.len()
            &&& command@ == cmds[pending].0
            &&& executor@ == cmds[pending].1
        },
        _ => false,
    }
}

/// Starting the attack phase: its one command runs, even an empty one.
pub open spec fn starts_attack(
    r: (Stage, Action),
    technique: AtomicReadTeamTechnique,
    test_num: int,
    dir: Seq<char>,
    args: Seq<(Seq<char>, Seq<char>)>,
) -> bool {
    let test = technique.atomic_tests@[test_num];
    match resolve_commands(opt_text(test.executor.command), dir, args) {
        Err(n) => fails_naming(r, n),
        Ok(c) => executing(r, Phase::Attack, seq![(c, test.executor.name@)], 0, technique, dir, args),
    }
}

/// Starting the dependency phase; where it has no command, the attack phase.
pub open spec fn starts_dependency(
    r: (Stage, Action),
    technique: AtomicReadTeamTechnique,
    test_num: int,
    dir: Seq<char>,
    args: Seq<(Seq<char>, Seq<char>)>,
) -> bool {
    match phase_commands(technique.atomic_tests@[test_num], false, dir, args) {
        Err(n) => fails_naming(r, n),
        Ok(cs) => if cs.len() > 0 {
            executing(r, Phase::Dependency, cs, 0, technique, dir, args)
        } else {
            starts_attack(r, technique, test_num, dir, args)
        },
    }
}

/// Starting the check phase; where it has no command, the dependency phase.
pub open spec fn starts_check(
    r: (Stage, Action),
    technique: AtomicReadTeamTechnique,
    test_num: int,
    dir: Seq<char>,
    args: Seq<(Seq<char>, Seq<char>)>,
) -> bool {
    match phase_commands(technique.atomic_tests@[test_num], true, dir, args) {
        Err(n) => fails_naming(r, n),
        Ok(cs) => if cs.len() > 0 {
            executing(r, Phase::Check, cs, 0, technique, dir, args)
        } else {
            starts_dependency(r, technique, test_num, dir, args)
        },
    }
}

/// Starting the cleanup phase: an empty cleanup command is a failure of its own.
pub open spec fn starts_cleanup(
    r: (Stage, Action),
    technique: AtomicReadTeamTechnique,
    test_num: int,
    dir: Seq<char>,
    args: Seq<(Seq<char>, Seq<char>)>,
) -> bool {
    let test = technique.atomic_tests@[test_num];
    match resolve_commands(opt_text(test.executor.cleanup_command), dir, args) {
        Err(n) => fails_naming(r, n),
        Ok(c) => if c.len() == 0 {
            fails_without_cleanup(r)
        } else {
            executing(r, Phase::Cleanup, seq![(c, test.executor.name@)], 0, technique, dir, args)
        },
    }
}

/// What follows the loading of the definition: the two gates, then the first
/// phase of the mode, over the run's variable store.
pub open spec fn begins(
    r: (Stage, Action),
    arr: Arr,
    mode: Mode,
    technique: AtomicReadTeamTechnique,
    dir: Seq<char>,
    host: Host,
) -> bool {
    let test = technique.atomic_tests@[arr.test_num as int];
    if !platform_supported(test, host.os@) {
        finished_with(r, Err(ArrError::OsNotSupported))
    } else if needs_elevation(test) && !host.is_root {
        finished_with(r, Err(ArrError::RootRequired))
    } else {
        let args = run_store(test, store_view(arr.vars@), dir);
        match mode {
            Mode::Run => starts_check(r, technique, arr.test_num as int, dir, args),
            Mode::Cleanup => starts_cleanup(r, technique, arr.test_num as int, dir, args),
        }
    }
}

/// What follows a command that succeeded: the next command of the phase, or
/// the next phase, or the end of the run.
pub open spec fn after_success(r: (Stage, Action), test_num: int, p: Progress) -> bool {
    let dir = p.atomics_dir@;
    let args = store_view(p.args@);
    if p.pending + 1 < p.commands@.len() {
        executing(r, p.phase, store_view(p.commands@), p.pending + 1, p.technique, dir, args)
    } else {
        match p.phase {
            Phase::Check => starts_dependency(r, p.technique, test_num, dir, args),
            Phase::Dependency => starts_attack(r, p.technique, test_num, dir, args),
            _ => finished_with(r, Ok(())),
        }
    }
}

fn one_command(command: String, executor: String) -> (r: (Vec<(String, String)>, Action))
    ensures
        store_view(r.0@) == seq![(command@, executor@)],
        r.1 == (Action::Execute { command, executor }),
{
    let action = Action::Execute { command: command.clone(), executor: executor.clone() };
    let mut commands: Vec<(String, String)> = Vec::new();
    commands.push((command, executor));
    assert(store_view(commands@) =~= seq![(commands@[0].0@, commands@[0].1@)]);
    (commands, action)
}

fn first_of(commands: &Vec<(String, String)>, k: usize) -> (r: Action)
    requires
        k < commands.len(),
    ensures
        match r {
            Action::Execute { command, executor } => command@ == store_view(commands@)[k as int].0
                && executor@ == store_view(commands@)[k as int].1,
            _ => false,
        },
{
    Action::Execute { command: commands[k].0.clone(), executor: commands[k].1.clone() }
}

impl Arr {
    /// A request for test `test_num` of `technique`, with variable
    /// overrides, searching for the test data from `art_path`.
    pub fn new(technique: String, vars: Vec<(String, String)>, test_num: usize, art_path: String) -> (r:
        Arr)
        ensures
            r.technique == technique,
            r.vars == vars,
            r.test_num == test_num,
            r.art_path == art_path,
    {
        Arr { technique, vars, test_num, art_path }
    }

    /// Starts a run of the test: the first action locates the data root.
    pub fn run(&self) -> (r: (Stage, Action))
        ensures
            r.0 == (Stage::LocatingRoot { mode: Mode::Run }),
            match r.1 {
                Action::LocateRoot { search_path } => search_path@ == self.art_path@,
                _ => false,
            },
    {
        (Stage::LocatingRoot { mode: Mode::Run }, Action::LocateRoot { search_path: self.art_path.clone() })
    }

    /// Starts the cleanup of the test: the first action locates the data root.
    pub fn cleanup(&self) -> (r: (Stage, Action))
        ensures
            r.0 == (Stage::LocatingRoot { mode: Mode::Cleanup }),
            match r.1 {
                Action::LocateRoot { search_path } => search_path@ == self.art_path@,
                _ => false,
            },
    {
        (
            Stage::LocatingRoot { mode: Mode::Cleanup },
            Action::LocateRoot { search_path: self.art_path.clone() },
        )
    }

    fn start_attack(&self, technique: AtomicReadTeamTechnique, dir: String, args: Vec<(String, String)>) -> (r: (
        Stage,
        Action,
    ))
        requires
            self.test_num < technique.atomic_tests.len(),
        ensures
            starts_attack(r, technique, self.test_num as int, dir@, store_view(args@)),
            r.0.wf(self.test_num),
    {
        match get_attack_command(&technique, self.test_num, dir.as_str(), &args) {
            Err(e) => (Stage::Finished, Action::Finish(Err(e))),
            Ok((command, executor)) => {
                let (commands, action) = one_command(command, executor);
                let p = Progress {
                    phase: Phase::Attack,
                    technique,
                    atomics_dir: dir,
                    args,
                    commands,
                    pending: 0,
                };
                (Stage::Executing(p), action)
            },
        }
    }

    fn start_dependency(
        &self,
        technique: AtomicReadTeamTechnique,
        dir: String,
        args: Vec<(String, String)>,
    ) -> (r: (Stage, Action))
        requires
            self.test_num < technique.atomic_tests.len(),
        ensures
            starts_dependency(r, technique, self.test_num as int, dir@, store_view(args@)),
            r.0.wf(self.test_num),
    {
        match get_dependency_command(&technique, self.test_num, dir.as_str(), &args) {
            Err(e) => (Stage::Finished, Action::Finish(Err(e))),
            Ok(commands) => {
                if commands.len() > 0 {
                    let action = first_of(&commands, 0);
                    let p = Progress {
                        phase: Phase::Dependency,
                        technique,
                        atomics_dir: dir,
                        args,
                        commands,
                        pending: 0,
                    };
                    (Stage::Executing(p), action)
                } else {
                    self.start_attack(technique, dir, args)
                }
            },
        }
    }

    fn start_check(&self, technique: AtomicReadTeamTechnique, dir: String, args: Vec<(String, String)>) -> (r: (
        Stage,
        Action,
    ))
        requires
            self.test_num < technique.atomic_tests.len(),
        ensures
            starts_check(r, technique, self.test_num as int, dir@, store_view(args@)),
            r.0.wf(self.test_num),
    {
        match get_check_command(&technique, self.test_num, dir.as_str(), &args) {
            Err(e) => (Stage::Finished, Action::Finish(Err(e))),
            Ok(commands) => {
                if commands.len() > 0 {
                    let action = first_of(&commands, 0);
                    let p = Progress {
                        phase: Phase::Check,
                        technique,
                        atomics_dir: dir,
                        args,
                        commands,
                        pending: 0,
                    };
                    (Stage::Executing(p), action)
                } else {
                    self.start_dependency(technique, dir, args)
                }
            },
        }
    }

    fn start_cleanup(&self, technique: AtomicReadTeamTechnique, dir: String, args: Vec<(String, String)>) -> (r: (
        Stage,
        Action,
    ))
        requires
            self.test_num < technique.atomic_tests.len(),
        ensures
            starts_cleanup(r, technique, self.test_num as int, dir@, store_view(args@)),
            r.0.wf(self.test_num),
    {
        match get_cleanup_command(&technique, self.test_num, dir.as_str(), &args) {
            Err(e) => (Stage::Finished, Action::Finish(Err(e))),
            Ok((command, executor)) => {
                if command.unicode_len() == 0 {
                    let reason = String::from_str("No cleanup command");
                    (Stage::Finished, Action::Finish(Err(ArrError::Other(reason))))
                } else {
                    let (commands, action) = one_command(command, executor);
                    let p = Progress {
                        phase: Phase::Cleanup,
                        technique,
                        atomics_dir: dir,
                        args,
                        commands,
                        pending: 0,
                    };
                    (Stage::Executing(p), action)
                }
            },
        }
    }

    fn begin(&self, mode: Mode, technique: AtomicReadTeamTechnique, dir: String, host: &Host) -> (r: (
        Stage,
        Action,
    ))
        requires
            self.test_num < technique.atomic_tests.len(),
        ensures
            begins(r, *self, mode, technique, dir@, *host),
            r.0.wf(self.test_num),
    {
        if let Err(e) = is_os_supported(&technique, self.test_num, host.os.as_str()) {
            return (Stage::Finished, Action::Finish(Err(e)));
        }
        if let Err(e) = check_superuser_requirement(&technique, self.test_num, host.is_root) {
            return (Stage::Finished, Action::Finish(Err(e)));
        }
        let args = gather_args(&technique, &self.vars, self.test_num, dir.as_str());
        match mode {
            Mode::Run => self.start_check(technique, dir, args),
            Mode::Cleanup => self.start_cleanup(technique, dir, args),
        }
    }

    fn advance(&self, p: Progress) -> (r: (Stage, Action))
        requires
            p.pending < p.commands@.len(),
            self.test_num < p.technique.atomic_tests@.len(),
        ensures
            after_success(r, self.test_num as int, p),
            r.0.wf(self.test_num),
    {
        let ghost old_p = p;
        let Progress { phase, technique, atomics_dir, args, commands, pending } = p;
        assert(pending < commands@.len());
        if pending < commands.len() - 1 {
            let action = first_of(&commands, pending + 1);
            let next = Progress { phase, technique, atomics_dir, args, commands, pending: pending + 1 };
            (Stage::Executing(next), action)
        } else {
            match phase {
                Phase::Check => self.start_dependency(technique, atomics_dir, args),
                Phase::Dependency => self.start_attack(technique, atomics_dir, args),
                _ => (Stage::Finished, Action::Finish(Ok(()))),
            }
        }
    }

    /// Takes the outcome of the last action and decides the next one.
    pub fn step(&self, stage: Stage, event: Event, host: &Host) -> (r: (Stage, Action))
        requires
            stage.wf(self.test_num),
            stage.accepts_spec(&event),
            match event {
                Event::DefinitionLoaded(Ok(d)) => self.test_num < d.atomic_tests@.len(),
                _ => true,
            },
        ensures
            r.0.wf(self.test_num),
            match (stage, event) {
                (Stage::LocatingRoot { mode }, Event::RootLocated(Ok(dir))) => {
                    &&& r.0 == (Stage::LocatingDefinition { mode, atomics_dir: dir })
                    &&& match r.1 {
                        Action::LocateDefinition { technique, atomics_dir } => technique@
                            == self.technique@ && atomics_dir@ == dir@,
                        _ => false,
                    }
                },
                (Stage::LocatingDefinition { mode, atomics_dir }, Event::DefinitionLocated(Ok(file))) => {
                    &&& r.0 == (Stage::LoadingDefinition { mode, atomics_dir })
                    &&& r.1 == (Action::LoadDefinition { file })
                },
                (Stage::LoadingDefinition { mode, atomics_dir }, Event::DefinitionLoaded(Ok(d))) => begins(
                    r,
                    *self,
                    mode,
                    d,
                    atomics_dir@,
                    *host,
                ),
                (Stage::Executing(p), Event::CommandFinished(Ok(_))) => after_success(
                    r,
                    self.test_num as int,
                    p,
                ),
                (_, Event::RootLocated(Err(e))) => finished_with(r, Err(e)),
                (_, Event::DefinitionLocated(Err(e))) => finished_with(r, Err(e)),
                (_, Event::DefinitionLoaded(Err(e))) => finished_with(r, Err(e)),
                (_, Event::CommandFinished(Err(e))) => finished_with(r, Err(e)),
                _ => true,
            },
    {
        match (stage, event) {
            (Stage::LocatingRoot { mode }, Event::RootLocated(Ok(dir))) => {
                let action = Action::LocateDefinition {
                    technique: self.technique.clone(),
                    atomics_dir: dir.clone(),
                };
                (Stage::LocatingDefinition { mode, atomics_dir: dir }, action)
            },
            (Stage::LocatingDefinition { mode, atomics_dir }, Event::DefinitionLocated(Ok(file))) => {
                (Stage::LoadingDefinition { mode, atomics_dir }, Action::LoadDefinition { file })
            },
            (Stage::LoadingDefinition { mode, atomics_dir }, Event::DefinitionLoaded(Ok(d))) => {
                self.begin(mode, d, atomics_dir, host)
            },
            (Stage::Executing(p), Event::CommandFinished(Ok(_))) => self.advance(p),
            (_, Event::RootLocated(Err(e))) => (Stage::Finished, Action::Finish(Err(e))),
            (_, Event::DefinitionLocated(Err(e))) => (Stage::Finished, Action::Finish(Err(e))),
            (_, Event::DefinitionLoaded(Err(e))) => (Stage::Finished, Action::Finish(Err(e))),
            (_, Event::CommandFinished(Err(e))) => (Stage::Finished, Action::Finish(Err(e))),
            _ => {
                // A stage never receives an event that it does not await.
                proof {
                    assert(false);
                }
                (Stage::Finished, Action::Finish(Ok(())))
            },
        }
    }
}

/// The platform gate comes first: once the definition is loaded, a test that
/// does not list the host's platform ends the run with the unsupported-OS
/// failure, and no command is handed out.
pub proof fn lemma_platform_gate(
    r: (Stage, Action),
    arr: Arr,
    mode: Mode,
    technique: AtomicReadTeamTechnique,
    dir: Seq<char>,
    host: Host,
)
    requires
        begins(r, arr, mode, technique, dir, host),
        !platform_supported(technique.atomic_tests@[arr.test_num as int], host.os@),
    ensures
        finished_with(r, Err(ArrError::OsNotSupported)),
        !(r.1 is Execute),
{
}

/// The privilege gate: on a supported platform, a test that demands elevation
/// ends a run by a user other than the superuser with the root-required
/// failure, and no command is built or handed out.
pub proof fn lemma_privilege_gate(
    r: (Stage, Action),
    arr: Arr,
    mode: Mode,
    technique: AtomicReadTeamTechnique,
    dir: Seq<char>,
    host: Host,
)
    requires
        begins(r, arr, mode, technique, dir, host),
        platform_supported(technique.atomic_tests@[arr.test_num as int], host.os@),
        needs_elevation(technique.atomic_tests@[arr.test_num as int]),
        !host.is_root,
    ensures
        finished_with(r, Err(ArrError::RootRequired)),
        !(r.1 is Execute),
{
}

/// Cleanup of a test whose cleanup template is absent or empty fails with the
/// no-cleanup failure and hands out no command.
pub proof fn lemma_empty_cleanup_fails(
    r: (Stage, Action),
    technique: AtomicReadTeamTechnique,
    test_num: int,
    dir: Seq<char>,
    args: Seq<(Seq<char>, Seq<char>)>,
)
    requires
        0 <= test_num < technique.atomic_tests@.len(),
        opt_text(technique.atomic_tests@[test_num].executor.cleanup_command).len() == 0,
        starts_cleanup(r, technique, test_num, dir, args),
    ensures
        fails_without_cleanup(r),
        !(r.1 is Execute),
{
    let t = opt_text(technique.atomic_tests@[test_num].executor.cleanup_command);
    assert(lines(t) == Seq::<Seq<char>>::empty());
    assert(substitute_all(Seq::<Seq<char>>::empty(), dir, args) == Ok::<Seq<Seq<char>>, Seq<char>>(
        Seq::empty(),
    ));
    assert(join(Seq::<Seq<char>>::empty(), ';').len() == 0);
}

} // verus!
