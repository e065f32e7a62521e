use vstd::prelude::*;

use crate::command_line::{arg_words, Argument, Commands, SourceCommandLine};
use crate::driver::{invocation_spec, opt_text, resolve_invocation, Invocation};
use crate::result::{is_terminal, CommandExecutionResult};

verus! {

/// The phases of a build, in the order in which they run.
#[derive(Clone, Copy, Debug, PartialEq, Eq, Structural)]
pub enum Phase {
    SystemModules,
    Interfaces,
    Implementations,
    Sources,
    Main,
}

/// The position of a phase in the build order.
pub open spec fn rank(p: Phase) -> int {
    match p {
        Phase::SystemModules => 0,
        Phase::Interfaces => 1,
        Phase::Implementations => 2,
        Phase::Sources => 3,
        Phase::Main => 4,
    }
}

/// One command line of a run: its phase and its index within that phase.
#[derive(Clone, Copy, Debug, PartialEq, Eq, Structural)]
pub struct Target {
    pub phase: Phase,
    pub index: usize,
}

/// Why a run stopped before its end.
#[derive(Debug)]
pub enum RunError {
    /// The compiler must run in a developer shell, and none is known.
    MissingDevShell,
    /// The process of this command could not be spawned or awaited.
    Process { target: Target },
    /// The build of this translation unit's file did not end successfully.
    Unsuccessful { file: String },
    /// The link of the final binary did not end successfully.
    MainUnsuccessful,
}

/// The per-unit command lines of a phase that has them.
pub open spec fn units_of(c: Commands, p: Phase) -> Seq<SourceCommandLine> {
    match p {
        Phase::Interfaces => c.interfaces@,
        Phase::Implementations => c.implementations@,
        Phase::Sources => c.sources@,
        _ => Seq::empty(),
    }
}

pub open spec fn is_unit_phase(p: Phase) -> bool {
    p is Interfaces || p is Implementations || p is Sources
}

/// The arguments of a target's command line.
pub open spec fn target_args(c: Commands, t: Target) -> Seq<Argument> {
    match t.phase {
        Phase::SystemModules => c.system_modules@[t.index as int].args@,
        Phase::Main => c.main.args@,
        _ => units_of(c, t.phase)[t.index as int].args@,
    }
}

/// The units of `units` that still have to be built, in order.
pub open spec fn pending_units(phase: Phase, units: Seq<SourceCommandLine>) -> Seq<Target>
    decreases units.len(),
{
    if units.len() == 0 {
        Seq::empty()
    } else {
        let rest = pending_units(phase, units.drop_last());
        if units.last().processed {
            rest
        } else {
            rest.push(Target { phase, index: (units.len() - 1) as usize })
        }
    }
}

pub open spec fn system_targets(n: nat) -> Seq<Target> {
    Seq::new(n, |i: int| Target { phase: Phase::SystemModules, index: i as usize })
}

pub open spec fn main_targets(c: Commands) -> Seq<Target> {
    if c.main.args@.len() > 0 {
        seq![Target { phase: Phase::Main, index: 0 }]
    } else {
        Seq::empty()
    }
}

/// Every command line that a run executes, in execution order: all system
/// modules, then the interfaces, implementations and sources that no earlier
/// run has built, then the link of the binary when it has arguments.
pub open spec fn schedule_of(c: Commands) -> Seq<Target> {
    system_targets(c.system_modules@.len()) + pending_units(Phase::Interfaces, c.interfaces@)
        + pending_units(Phase::Implementations, c.implementations@) + pending_units(
        Phase::Sources,
        c.sources@,
    ) + main_targets(c)
}

/// What the pending units of a phase are: units of that phase, in increasing
/// order, never one that an earlier run built, and every other one.
pub proof fn lemma_pending_units(phase: Phase, units: Seq<SourceCommandLine>)
    requires
        units.len() <= usize::MAX,
    ensures
        forall|k: int|
            0 <= k < pending_units(phase, units).len() ==> {
                let t = #[trigger] pending_units(phase, units)[k];
                t.phase == phase && t.index < units.len() && !units[t.index as int].processed
            },
        forall|i: int, j: int|
            #![trigger pending_units(phase, units)[i], pending_units(phase, units)[j]]
            0 <= i < j < pending_units(phase, units).len() ==> pending_units(phase, units)[i].index
                < pending_units(phase, units)[j].index,
        forall|i: int|
            0 <= i < units.len() && !(#[trigger] units[i]).processed ==> pending_units(
                phase,
                units,
            ).contains(Target { phase, index: i as usize }),
    decreases units.len(),
{
    if units.len() > 0 {
        let init = units.drop_last();
        lemma_pending_units(phase, init);
        let rest = pending_units(phase, init);
        let all = pending_units(phase, units);
        assert forall|i: int| 0 <= i < units.len() && !(#[trigger] units[i]).processed implies all.contains(
            Target { phase, index: i as usize },
        ) by {
            if i < units.len() - 1 {
                assert(init[i] == units[i]);
                let k = choose|k: int| 0 <= k < rest.len() && rest[k] == Target { phase, index: i as usize };
                assert(all[k] == rest[k]);
            } else {
                assert(all[all.len() - 1] == Target { phase, index: i as usize });
            }
        }
    }
}

/// The phases of a run's schedule never go backwards, and within one phase
/// the units come in the order of their sequence.
pub proof fn lemma_schedule_ordered(c: Commands, i: int, j: int)
    requires
        fits(c),
        0 <= i < j < schedule_of(c).len(),
    ensures
        rank(schedule_of(c)[i].phase) <= rank(schedule_of(c)[j].phase),
        schedule_of(c)[i].phase == schedule_of(c)[j].phase ==> schedule_of(c)[i].index
            < schedule_of(c)[j].index,
{
    lemma_pending_units(Phase::Interfaces, c.interfaces@);
    lemma_pending_units(Phase::Implementations, c.implementations@);
    lemma_pending_units(Phase::Sources, c.sources@);
    let s0 = system_targets(c.system_modules@.len());
    let s1 = pending_units(Phase::Interfaces, c.interfaces@);
    let s2 = pending_units(Phase::Implementations, c.implementations@);
    let s3 = pending_units(Phase::Sources, c.sources@);
    let s4 = main_targets(c);
    let s = schedule_of(c);
    let n0 = s0.len() as int;
    let n1 = n0 + s1.len();
    let n2 = n1 + s2.len();
    let n3 = n2 + s3.len();
    assert forall|k: int| 0 <= k < s.len() implies {
        &&& (k < n0 ==> s[k] == s0[k])
        &&& (n0 <= k < n1 ==> s[k] == s1[k - n0])
        &&& (n1 <= k < n2 ==> s[k] == s2[k - n1])
        &&& (n2 <= k < n3 ==> s[k] == s3[k - n2])
        &&& (n3 <= k ==> s[k] == s4[k - n3])
    } by {}
    if j < n0 {
        assert(s[i].index == i && s[j].index == j);
    } else if j < n1 {
        if i >= n0 {
            assert(s1[i - n0] == s[i] && s1[j - n0] == s[j]);
        }
    } else if j < n2 {
        if i >= n1 {
            assert(s2[i - n1] == s[i] && s2[j - n1] == s[j]);
        } else if i >= n0 {
            assert(s1[i - n0] == s[i]);
        }
    } else if j < n3 {
        if i >= n2 {
            assert(s3[i - n2] == s[i] && s3[j - n2] == s[j]);
        } else if i >= n1 {
            assert(s2[i - n1] == s[i]);
        } else if i >= n0 {
            assert(s1[i - n0] == s[i]);
        }
    } else {
        if i >= n2 && i < n3 {
            assert(s3[i - n2] == s[i]);
        } else if i >= n1 && i < n2 {
            assert(s2[i - n1] == s[i]);
        } else if i >= n0 && i < n1 {
            assert(s1[i - n0] == s[i]);
        }
    }
}

/// A unit that an earlier run built is never in a run's schedule, and every
/// other unit is.
pub proof fn lemma_schedule_units(c: Commands, t: Target)
    requires
        fits(c),
        is_unit_phase(t.phase),
        t.index < units_of(c, t.phase).len(),
    ensures
        schedule_of(c).contains(t) <==> !units_of(c, t.phase)[t.index as int].processed,
{
    lemma_pending_units(Phase::Interfaces, c.interfaces@);
    lemma_pending_units(Phase::Implementations, c.implementations@);
    lemma_pending_units(Phase::Sources, c.sources@);
    let s0 = system_targets(c.system_modules@.len());
    let s1 = pending_units(Phase::Interfaces, c.interfaces@);
    let s2 = pending_units(Phase::Implementations, c.implementations@);
    let s3 = pending_units(Phase::Sources, c.sources@);
    let s4 = main_targets(c);
    let s = schedule_of(c);
    let n0 = s0.len() as int;
    let n1 = n0 + s1.len();
    let n2 = n1 + s2.len();
    let n3 = n2 + s3.len();
    let u = units_of(c, t.phase);
    if s.contains(t) {
        let k = choose|k: int| 0 <= k < s.len() && s[k] == t;
        if k < n0 {
            assert(s[k] == s0[k]);
        } else if k < n1 {
            assert(s[k] == s1[k - n0]);
        } else if k < n2 {
            assert(s[k] == s2[k - n1]);
        } else if k < n3 {
            assert(s[k] == s3[k - n2]);
        } else {
            assert(s[k] == s4[k - n3]);
        }
    }
    if !u[t.index as int].processed {
        let seg = pending_units(t.phase, u);
        let k = choose|k: int| 0 <= k < seg.len() && seg[k] == t;
        if t.phase is Interfaces {
            assert(s[n0 + k] == t);
        } else if t.phase is Implementations {
            assert(s[n1 + k] == t);
        } else {
            assert(s[n2 + k] == t);
        }
    }
}

/// In a run's schedule, every interface that an earlier run has not built
/// comes before each implementation and each source.
pub proof fn lemma_interfaces_first(c: Commands, i: int, k: int)
    requires
        fits(c),
        0 <= i < c.interfaces@.len(),
        !c.interfaces@[i].processed,
        0 <= k < schedule_of(c).len(),
        (schedule_of(c)[k].phase is Implementations || schedule_of(c)[k].phase is Sources),
    ensures
        (exists|j: int|
            0 <= j < k && schedule_of(c)[j] == (Target { phase: Phase::Interfaces, index: i as usize })),
{
    let t = Target { phase: Phase::Interfaces, index: i as usize };
    lemma_schedule_units(c, t);
    let j = choose|j: int| 0 <= j < schedule_of(c).len() && schedule_of(c)[j] == t;
    if j >= k {
        if j > k {
            lemma_schedule_ordered(c, k, j);
        }
    }
}

/// The sequences of a set of commands are as long as a `Vec` can be.
pub open spec fn fits(c: Commands) -> bool {
    &&& c.system_modules@.len() <= usize::MAX
    &&& c.interfaces@.len() <= usize::MAX
    &&& c.implementations@.len() <= usize::MAX
    &&& c.sources@.len() <= usize::MAX
}

/// Appends the pending units of `units` to `out`.
fn push_pending(out: &mut Vec<Target>, phase: Phase, units: &Vec<SourceCommandLine>)
    ensures
        final(out)@ == old(out)@ + pending_units(phase, units@),
{
    let ghost start = out@;
    let mut i: usize = 0;
    assert(units@.take(0) =~= Seq::<SourceCommandLine>::empty());
    assert(start + pending_units(phase, units@.take(0)) =~= start);
    while i < units.len()
        invariant
            i <= units@.len(),
            out@ == start + pending_units(phase, units@.take(i as int)),
        decreases units@.len() - i,
    {
        assert(units@.take(i + 1).drop_last() =~= units@.take(i as int));
        if !units[i].processed {
            out.push(Target { phase, index: i });
            assert(out@ =~= start + pending_units(phase, units@.take(i + 1)));
        }
        i = i + 1;
    }
    assert(units@.take(i as int) =~= units@);
}

/// The command lines that a run of `c` executes, in order.
pub fn schedule(c: &Commands) -> (r: Vec<Target>)
    ensures
        r@ == schedule_of(*c),
{
    let mut out: Vec<Target> = Vec::new();
    let mut i: usize = 0;
    while i < c.system_modules.len()
        invariant
            i <= c.system_modules@.len(),
            out@ == system_targets(i as nat),
        decreases c.system_modules@.len() - i,
    {
        out.push(Target { phase: Phase::SystemModules, index: i });
        assert(out@ =~= system_targets((i + 1) as nat));
        i = i + 1;
    }
    push_pending(&mut out, Phase::Interfaces, &c.interfaces);
    push_pending(&mut out, Phase::Implementations, &c.implementations);
    push_pending(&mut out, Phase::Sources, &c.sources);
    if c.main.args.len() > 0 {
        out.push(Target { phase: Phase::Main, index: 0 });
    }
    assert(out@ =~= schedule_of(*c));
    out
}

/// Whether a target names a command line of `c`.
pub open spec fn valid_target(c: Commands, t: Target) -> bool {
    match t.phase {
        Phase::SystemModules => t.index < c.system_modules@.len(),
        Phase::Main => t.index == 0,
        _ => t.index < units_of(c, t.phase).len(),
    }
}

/// Every target of a run's schedule names a command line of it.
pub proof fn lemma_schedule_valid(c: Commands)
    requires
        fits(c),
    ensures
        forall|k: int| 0 <= k < schedule_of(c).len() ==> valid_target(c, #[trigger] schedule_of(c)[k]),
{
    lemma_pending_units(Phase::Interfaces, c.interfaces@);
    lemma_pending_units(Phase::Implementations, c.implementations@);
    lemma_pending_units(Phase::Sources, c.sources@);
    let s0 = system_targets(c.system_modules@.len());
    let s1 = pending_units(Phase::Interfaces, c.interfaces@);
    let s2 = pending_units(Phase::Implementations, c.implementations@);
    let s3 = pending_units(Phase::Sources, c.sources@);
    let s4 = main_targets(c);
    let s = schedule_of(c);
    let n0 = s0.len() as int;
    let n1 = n0 + s1.len();
    let n2 = n1 + s2.len();
    let n3 = n2 + s3.len();
    assert forall|k: int| 0 <= k < s.len() implies valid_target(c, #[trigger] s[k]) by {
        if k < n0 {
            assert(s[k] == s0[k]);
        } else if k < n1 {
            assert(s[k] == s1[k - n0]);
        } else if k < n2 {
            assert(s[k] == s2[k - n1]);
        } else if k < n3 {
            assert(s[k] == s3[k - n2]);
        } else {
            assert(s[k] == s4[k - n3]);
        }
    }
}

/// The pending units of a phase depend on which units were built before,
/// not on the outcomes recorded for them.
proof fn lemma_pending_same(phase: Phase, a: Seq<SourceCommandLine>, b: Seq<SourceCommandLine>)
    requires
        a.len() == b.len(),
        forall|i: int| 0 <= i < a.len() ==> (#[trigger] a[i]).processed == b[i].processed,
    ensures
        pending_units(phase, a) == pending_units(phase, b),
    decreases a.len(),
{
    if a.len() > 0 {
        lemma_pending_same(phase, a.drop_last(), b.drop_last());
    }
}

/// A unit's command line with another outcome recorded.
pub open spec fn with_result(u: SourceCommandLine, r: CommandExecutionResult) -> SourceCommandLine {
    SourceCommandLine {
        directory: u.directory,
        file: u.file,
        args: u.args,
        processed: u.processed,
        execution_result: r,
    }
}

/// The units of phase `p` after `r` is recorded for target `t`.
pub open spec fn updated(
    units: Seq<SourceCommandLine>,
    p: Phase,
    t: Target,
    r: CommandExecutionResult,
) -> Seq<SourceCommandLine> {
    if t.phase == p {
        units.update(t.index as int, with_result(units[t.index as int], r))
    } else {
        units
    }
}

/// `post` is `pre` with outcome `r` recorded for target `t`, and nothing else
/// changed. System modules keep no outcome.
pub open spec fn recorded(pre: Commands, post: Commands, t: Target, r: CommandExecutionResult) -> bool {
    &&& post.compiler == pre.compiler
    &&& post.system_modules == pre.system_modules
    &&& post.generated_files_paths == pre.generated_files_paths
    &&& post.main.main == pre.main.main
    &&& post.main.sources_paths == pre.main.sources_paths
    &&& post.main.args == pre.main.args
    &&& post.main.execution_result == (if t.phase is Main {
        r
    } else {
        pre.main.execution_result
    })
    &&& post.interfaces@ == updated(pre.interfaces@, Phase::Interfaces, t, r)
    &&& post.implementations@ == updated(pre.implementations@, Phase::Implementations, t, r)
    &&& post.sources@ == updated(pre.sources@, Phase::Sources, t, r)
}

/// Recording the outcome of a scheduled command line leaves each unit that
/// an earlier run built exactly as it was, its outcome included.
pub proof fn lemma_record_keeps_built_units(
    pre: Commands,
    post: Commands,
    t: Target,
    r: CommandExecutionResult,
    p: Phase,
    i: int,
)
    requires
        fits(pre),
        schedule_of(pre).contains(t),
        recorded(pre, post, t, r),
        is_unit_phase(p),
        0 <= i < units_of(pre, p).len(),
        units_of(pre, p)[i].processed,
    ensures
        units_of(post, p).len() == units_of(pre, p).len(),
        units_of(post, p)[i] == units_of(pre, p)[i],
{
    lemma_schedule_valid(pre);
    if t.phase == p {
        lemma_schedule_units(pre, t);
    }
}

/// Whether outcome `r` of target `t` stops the run. A system module stops it
/// only when its process could not run; any other command line also when its
/// process reported a failure.
pub open spec fn stops(t: Target, r: CommandExecutionResult) -> bool {
    if t.phase is SystemModules {
        r is Error
    } else {
        r is Failed || r is Error
    }
}

/// Whether a run that stops in phase `p` saves the cache before it ends.
pub open spec fn saves_on_abort(p: Phase) -> bool {
    p is Interfaces || p is Main
}

/// The error with which a run stops on outcome `r` of target `t`.
pub open spec fn stop_error(e: RunError, c: Commands, t: Target, r: CommandExecutionResult) -> bool {
    if r is Error {
        e == RunError::Process { target: t }
    } else if t.phase is Main {
        e == RunError::MainUnsuccessful
    } else {
        e matches RunError::Unsuccessful { file } && file@ == units_of(c, t.phase)[t.index as int].file@
    }
}

/// The next step of a run.
#[derive(Debug)]
pub enum Action {
    /// Spawn this process for this command line, and report how it ended.
    Execute { target: Target, invocation: Invocation },
    /// The run is over: save the cache first when asked, then end with the outcome.
    Finish { save_cache: bool, outcome: Result<CommandExecutionResult, RunError> },
}

/// The state of one run over a set of commands: the planned command lines,
/// the position of the next one, how many processes were spawned and how
/// many of them succeeded.
#[derive(Debug)]
pub struct BuildRun {
    pub plan: Vec<Target>,
    /// The position in `plan` of the command line to run next.
    pub pos: usize,
    /// The processes spawned (or tried) so far, a failing one included.
    pub executed: usize,
    /// The processes that ended successfully.
    pub succeeded: usize,
    /// No step is left: the run ended, with success or with an error.
    pub finished: bool,
}

/// Sets the outcome of unit `i`.
fn set_unit_result(units: &mut Vec<SourceCommandLine>, i: usize, r: CommandExecutionResult)
    requires
        i < old(units)@.len(),
    ensures
        final(units)@ == old(units)@.update(i as int, with_result(old(units)@[i as int], r)),
{
    units[i].execution_result = r;
    assert(units@ =~= old(units)@.update(i as int, with_result(old(units)@[i as int], r)));
}

/// The arguments of a target's command line.
fn args_of(c: &Commands, t: Target) -> (r: &Vec<Argument>)
    requires
        valid_target(*c, t),
    ensures
        r@ == target_args(*c, t),
{
    match t.phase {
        Phase::SystemModules => &c.system_modules[t.index].args,
        Phase::Interfaces => &c.interfaces[t.index].args,
        Phase::Implementations => &c.implementations[t.index].args,
        Phase::Sources => &c.sources[t.index].args,
        Phase::Main => &c.main.args,
    }
}

impl BuildRun {
    /// The run follows the schedule of `c`, and has spawned one process for
    /// each command line before its position while it goes on.
    pub open spec fn wf(&self, c: Commands) -> bool {
        &&& fits(c)
        &&& self.plan@ == schedule_of(c)
        &&& self.plan@.len() <= usize::MAX
        &&& self.pos <= self.plan@.len()
        &&& self.succeeded <= self.executed
        &&& self.executed <= self.plan@.len()
        &&& !self.finished ==> self.executed == self.pos
    }

    /// The command line at the run's position.
    pub open spec fn current(&self) -> Target {
        self.plan@[self.pos as int]
    }

    /// A run of `c` that has done nothing yet.
    pub fn new(c: &Commands) -> (r: Self)
        ensures
            r.wf(*c),
            r.pos == 0,
            r.executed == 0,
            r.succeeded == 0,
            !r.finished,
    {
        // Reading each length as a `usize` is what bounds it in the proofs.
        let _ = c.system_modules.len();
        let _ = c.interfaces.len();
        let _ = c.implementations.len();
        let _ = c.sources.len();
        let plan = schedule(c);
        let _ = plan.len();
        BuildRun { plan, pos: 0, executed: 0, succeeded: 0, finished: false }
    }

    /// The next step: run the command line at the position, or end the run
    /// with success once every planned command line has run. A command line
    /// that cannot be resolved to a process ends the run before anything is
    /// spawned for it.
    pub fn next(&mut self, c: &Commands, dev_shell: &Option<String>) -> (a: Action)
        requires
            old(self).wf(*c),
            !old(self).finished,
        ensures
            final(self).wf(*c),
            final(self).plan == old(self).plan,
            final(self).pos == old(self).pos,
            final(self).executed == old(self).executed,
            final(self).succeeded == old(self).succeeded,
            if old(self).pos < old(self).plan@.len() {
                match invocation_spec(
                    c.compiler,
                    opt_text(*dev_shell),
                    arg_words(target_args(*c, old(self).current())),
                ) {
                    Some(v) => !final(self).finished && (a matches Action::Execute {
                        target,
                        invocation,
                    } && target == old(self).current() && invocation@ == v),
                    None => final(self).finished && (a matches Action::Finish {
                        save_cache,
                        outcome,
                    } && !save_cache && outcome matches Err(RunError::MissingDevShell)),
                }
            } else {
                final(self).finished && (a matches Action::Finish { save_cache, outcome }
                    && save_cache && outcome == Ok::<CommandExecutionResult, RunError>(
                    CommandExecutionResult::Success,
                ))
            },
    {
        if self.pos < self.plan.len() {
            let t = self.plan[self.pos];
            proof {
                lemma_schedule_valid(*c);
            }
            let args = args_of(c, t);
            match resolve_invocation(c.compiler, dev_shell, args) {
                Ok(invocation) => Action::Execute { target: t, invocation },
                Err(e) => {
                    self.finished = true;
                    Action::Finish { save_cache: false, outcome: Err(e) }
                },
            }
        } else {
            self.finished = true;
            Action::Finish { save_cache: true, outcome: Ok(CommandExecutionResult::Success) }
        }
    }

    /// Records how the process of the command line at the position ended:
    /// the outcome is kept on that command line, and the run either moves on
    /// to the next one or stops with an error.
    pub fn record(&mut self, c: &mut Commands, outcome: CommandExecutionResult) -> (a: Option<
        Action,
    >)
        requires
            old(self).wf(*old(c)),
            !old(self).finished,
            old(self).pos < old(self).plan@.len(),
            is_terminal(outcome),
        ensures
            final(self).wf(*final(c)),
            recorded(*old(c), *final(c), old(self).current(), outcome),
            final(self).plan == old(self).plan,
            final(self).executed == old(self).executed + 1,
            final(self).succeeded == old(self).succeeded + (if outcome is Success {
                1int
            } else {
                0int
            }),
            if stops(old(self).current(), outcome) {
                final(self).finished && final(self).pos == old(self).pos && (a matches Some(
                    Action::Finish { save_cache, outcome: Err(e) },
                ) && save_cache == saves_on_abort(old(self).current().phase) && stop_error(
                    e,
                    *old(c),
                    old(self).current(),
                    outcome,
                ))
            } else {
                !final(self).finished && final(self).pos == old(self).pos + 1 && a is None
            },
    {
        let t = self.plan[self.pos];
        proof {
            lemma_schedule_valid(*c);
        }
        let ghost pre = *c;
        match t.phase {
            Phase::SystemModules => {},
            Phase::Interfaces => set_unit_result(&mut c.interfaces, t.index, outcome),
            Phase::Implementations => set_unit_result(&mut c.implementations, t.index, outcome),
            Phase::Sources => set_unit_result(&mut c.sources, t.index, outcome),
            Phase::Main => {
                c.main.execution_result = outcome;
            },
        }
        proof {
            lemma_pending_same(Phase::Interfaces, pre.interfaces@, c.interfaces@);
            lemma_pending_same(Phase::Implementations, pre.implementations@, c.implementations@);
            lemma_pending_same(Phase::Sources, pre.sources@, c.sources@);
            assert(schedule_of(*c) == schedule_of(pre));
        }
        self.executed = self.executed + 1;
        let is_error = match outcome {
            CommandExecutionResult::Error => true,
            _ => false,
        };
        match outcome {
            CommandExecutionResult::Success => {
                self.succeeded = self.succeeded + 1;
            },
            _ => {},
        }
        let stop = match t.phase {
            Phase::SystemModules => is_error,
            _ => outcome.is_failure(),
        };
        if stop {
            self.finished = true;
            let error = if is_error {
                RunError::Process { target: t }
            } else {
                match t.phase {
                    Phase::Interfaces => RunError::Unsuccessful {
                        file: c.interfaces[t.index].file.clone(),
                    },
                    Phase::Implementations => RunError::Unsuccessful {
                        file: c.implementations[t.index].file.clone(),
                    },
                    Phase::Sources => RunError::Unsuccessful { file: c.sources[t.index].file.clone() },
                    _ => RunError::MainUnsuccessful,
                }
            };
            let save_cache = match t.phase {
                Phase::Interfaces | Phase::Main => true,
                _ => false,
            };
            Some(Action::Finish { save_cache, outcome: Err(error) })
        } else {
            self.pos = self.pos + 1;
            None
        }
    }
}

} // verus!
