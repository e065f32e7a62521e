use zork::command_line::{Argument, Commands, CppCompiler, SourceCommandLine};
use zork::driver::Invocation;
use zork::pipeline::{schedule, Action, BuildRun, Phase, RunError, Target};
use zork::result::CommandExecutionResult;

fn arg(s: &str) -> Argument {
    Argument { value: s.to_string() }
}

fn unit(file: &str, processed: bool, result: CommandExecutionResult) -> SourceCommandLine {
    SourceCommandLine::from_translation_unit(
        "src".to_string(),
        file.to_string(),
        vec![arg("-c"), arg(file)],
        processed,
        result,
    )
}

struct Report {
    outcome: Result<CommandExecutionResult, RunError>,
    saves: usize,
    spawned: Vec<Target>,
    executed: usize,
    succeeded: usize,
}

/// Runs `commands` to the end, with `exit` telling how each spawned process
/// ends (`Ok(true)`: exit code 0, `Ok(false)`: another code, `Err`: no process).
fn drive(
    commands: &mut Commands,
    dev_shell: &Option<String>,
    exit: &dyn Fn(&Target, &Invocation) -> Result<bool, ()>,
) -> Report {
    let mut run = BuildRun::new(commands);
    let mut spawned = Vec::new();
    let mut action = run.next(commands, dev_shell);
    loop {
        match action {
            Action::Execute { target, invocation } => {
                spawned.push(target);
                let r = exit(&target, &invocation);
                let outcome = CommandExecutionResult::from_completion(&r);
                action = match run.record(commands, outcome) {
                    Some(a) => a,
                    None => run.next(commands, dev_shell),
                };
            }
            Action::Finish { save_cache, outcome } => {
                return Report {
                    outcome,
                    saves: if save_cache { 1 } else { 0 },
                    spawned,
                    executed: run.executed,
                    succeeded: run.succeeded,
                };
            }
        }
    }
}

fn scenario_a_commands() -> Commands {
    let mut c = Commands::new(&CppCompiler::CLANG);
    c.insert_system_module("iostream".to_string(), vec![arg("-x"), arg("iostream")]);
    c.insert_system_module("vector".to_string(), vec![arg("-x"), arg("vector")]);
    c.interfaces.push(unit("math.cppm", false, CommandExecutionResult::Unreached));
    c.sources.push(unit("main.cpp", false, CommandExecutionResult::Unreached));
    c
}

fn t(phase: Phase, index: usize) -> Target {
    Target { phase, index }
}

#[test]
fn scenario_a_all_succeed() {
    let mut c = scenario_a_commands();
    let r = drive(&mut c, &None, &|_, _| Ok(true));
    assert!(matches!(r.outcome, Ok(CommandExecutionResult::Success)));
    assert_eq!(r.executed, 4);
    assert_eq!(r.succeeded, 4);
    assert_eq!(r.saves, 1);
    assert_eq!(
        r.spawned,
        vec![
            t(Phase::SystemModules, 0),
            t(Phase::SystemModules, 1),
            t(Phase::Interfaces, 0),
            t(Phase::Sources, 0)
        ]
    );
    assert_eq!(c.interfaces[0].execution_result, CommandExecutionResult::Success);
    assert_eq!(c.sources[0].execution_result, CommandExecutionResult::Success);
    assert_eq!(c.main.execution_result, CommandExecutionResult::Unreached);
}

#[test]
fn scenario_b_interface_fails() {
    let mut c = scenario_a_commands();
    let r = drive(&mut c, &None, &|t, _| Ok(t.phase != Phase::Interfaces));
    match r.outcome {
        Err(RunError::Unsuccessful { file }) => assert_eq!(file, "math.cppm"),
        other => panic!("unexpected outcome {:?}", other),
    }
    assert_eq!(r.executed, 3);
    assert_eq!(r.succeeded, 2);
    assert_eq!(r.saves, 1);
    assert!(!r.spawned.contains(&t(Phase::Sources, 0)));
    assert_eq!(c.interfaces[0].execution_result, CommandExecutionResult::Failed);
    assert_eq!(c.sources[0].execution_result, CommandExecutionResult::Unreached);
}

#[test]
fn scenario_c_processed_unit_is_skipped() {
    let mut c = Commands::new(&CppCompiler::GCC);
    c.sources.push(unit("done.cpp", true, CommandExecutionResult::Success));
    c.sources.push(unit("new.cpp", false, CommandExecutionResult::Unreached));
    let r = drive(&mut c, &None, &|_, _| Ok(true));
    assert!(matches!(r.outcome, Ok(CommandExecutionResult::Success)));
    assert_eq!(r.spawned, vec![t(Phase::Sources, 1)]);
    assert_eq!(r.executed, 1);
    assert_eq!(c.sources[0].execution_result, CommandExecutionResult::Success);
    assert_eq!(c.sources[1].execution_result, CommandExecutionResult::Success);
}

#[test]
fn scenario_d_missing_dev_shell() {
    let mut c = scenario_a_commands();
    c.compiler = CppCompiler::MSVC;
    let r = drive(&mut c, &None, &|_, _| panic!("nothing may be spawned"));
    assert!(matches!(r.outcome, Err(RunError::MissingDevShell)));
    assert!(r.spawned.is_empty());
    assert_eq!(r.saves, 0);
    assert_eq!(r.executed, 0);
}

#[test]
fn shell_wrapped_run_spawns_the_shell() {
    let mut c = scenario_a_commands();
    c.compiler = CppCompiler::MSVC;
    let shell = Some("devshell.bat".to_string());
    let r = drive(&mut c, &shell, &|_, inv| {
        Ok(inv.program == "devshell.bat" && inv.args[0] == "&&" && inv.args[1] == "cl")
    });
    assert!(matches!(r.outcome, Ok(CommandExecutionResult::Success)));
    assert_eq!(r.executed, 4);
}

#[test]
fn interfaces_run_before_implementations_and_sources() {
    let mut c = Commands::new(&CppCompiler::CLANG);
    c.sources.push(unit("s.cpp", false, CommandExecutionResult::Unreached));
    c.implementations.push(unit("i.cpp", false, CommandExecutionResult::Unreached));
    c.interfaces.push(unit("a.cppm", false, CommandExecutionResult::Unreached));
    c.interfaces.push(unit("b.cppm", true, CommandExecutionResult::Cached));
    c.interfaces.push(unit("c.cppm", false, CommandExecutionResult::Unreached));
    c.main.args.push(arg("-o"));
    let plan = schedule(&c);
    assert_eq!(
        plan,
        vec![
            t(Phase::Interfaces, 0),
            t(Phase::Interfaces, 2),
            t(Phase::Implementations, 0),
            t(Phase::Sources, 0),
            t(Phase::Main, 0)
        ]
    );
    let r = drive(&mut c, &None, &|_, _| Ok(true));
    assert_eq!(r.spawned, plan);
    assert_eq!(r.executed, 5);
    assert_eq!(c.interfaces[1].execution_result, CommandExecutionResult::Cached);
    assert_eq!(c.main.execution_result, CommandExecutionResult::Success);
}

#[test]
fn implementation_failure_stops_before_sources_without_save() {
    let mut c = scenario_a_commands();
    c.implementations.push(unit("impl.cpp", false, CommandExecutionResult::Unreached));
    c.main.args.push(arg("-o"));
    let r = drive(&mut c, &None, &|t, _| Ok(t.phase != Phase::Implementations));
    match r.outcome {
        Err(RunError::Unsuccessful { file }) => assert_eq!(file, "impl.cpp"),
        other => panic!("unexpected outcome {:?}", other),
    }
    assert_eq!(r.saves, 0);
    assert_eq!(r.executed, 4);
    assert_eq!(r.succeeded, 3);
    assert!(!r.spawned.contains(&t(Phase::Sources, 0)));
    assert!(!r.spawned.contains(&t(Phase::Main, 0)));
}

#[test]
fn source_spawn_error_stops_without_save() {
    let mut c = scenario_a_commands();
    let r = drive(&mut c, &None, &|t, _| if t.phase == Phase::Sources { Err(()) } else { Ok(true) });
    assert!(matches!(
        r.outcome,
        Err(RunError::Process { target: Target { phase: Phase::Sources, index: 0 } })
    ));
    assert_eq!(r.saves, 0);
    assert_eq!(c.sources[0].execution_result, CommandExecutionResult::Error);
}

#[test]
fn interface_spawn_error_saves_once() {
    let mut c = scenario_a_commands();
    let r = drive(&mut c, &None, &|t, _| if t.phase == Phase::Interfaces { Err(()) } else { Ok(true) });
    assert!(matches!(
        r.outcome,
        Err(RunError::Process { target: Target { phase: Phase::Interfaces, index: 0 } })
    ));
    assert_eq!(r.saves, 1);
    assert_eq!(r.executed, 3);
    assert_eq!(c.interfaces[0].execution_result, CommandExecutionResult::Error);
}

#[test]
fn main_failure_saves_and_stops() {
    let mut c = scenario_a_commands();
    c.main.args.push(arg("-o"));
    let r = drive(&mut c, &None, &|t, _| Ok(t.phase != Phase::Main));
    assert!(matches!(r.outcome, Err(RunError::MainUnsuccessful)));
    assert_eq!(r.saves, 1);
    assert_eq!(r.executed, 5);
    assert_eq!(r.succeeded, 4);
    assert_eq!(c.main.execution_result, CommandExecutionResult::Failed);
}

#[test]
fn failed_system_module_does_not_stop_the_run() {
    let mut c = scenario_a_commands();
    let r = drive(&mut c, &None, &|t, _| Ok(t.phase != Phase::SystemModules));
    assert!(matches!(r.outcome, Ok(CommandExecutionResult::Success)));
    assert_eq!(r.executed, 4);
    assert_eq!(r.succeeded, 2);
}

#[test]
fn unspawnable_system_module_stops_without_save() {
    let mut c = scenario_a_commands();
    let r = drive(&mut c, &None, &|t, _| if t.phase == Phase::SystemModules { Err(()) } else { Ok(true) });
    assert!(matches!(
        r.outcome,
        Err(RunError::Process { target: Target { phase: Phase::SystemModules, index: 0 } })
    ));
    assert_eq!(r.saves, 0);
    assert_eq!(r.executed, 1);
    assert_eq!(r.spawned.len(), 1);
}

#[test]
fn empty_run_succeeds_and_saves() {
    let mut c = Commands::new(&CppCompiler::GCC);
    let r = drive(&mut c, &None, &|_, _| Ok(true));
    assert!(matches!(r.outcome, Ok(CommandExecutionResult::Success)));
    assert_eq!(r.saves, 1);
    assert_eq!(r.executed, 0);
}
