//! The supervisor of modules: it starts them in the order in which they were
//! added and shuts them down in the reverse order, one after the other, also
//! when one of them ends on its own.

use crate::bus::BusError;
use crate::signal::{ShutdownCompleted, ShutdownModule};
use crate::text::str_eq;
use vstd::prelude::*;

verus! {

/// For how many seconds a module that was told to shut down may go on.
pub const MODULE_SHUTDOWN_TIMEOUT: u64 = 5;

/// After how many seconds without a completed shutdown the supervisor turns
/// to the next module: the time that a module has, and a second more.
pub const SHUTDOWN_SAFETY_TIMEOUT: u64 = 6;

/// The name of the module that builds the first block. It runs once and is
/// not shut down.
pub const GENESIS_MODULE: &'static str = "hyle::genesis::Genesis";

/// Why the supervisor refuses.
#[derive(Debug, Clone, Copy, PartialEq, Eq)]
pub enum SupervisorError {
    /// Modules were started before and still run.
    AlreadyRunning,
}

/// Whether a module of that name runs until it is shut down.
pub open spec fn long_running(name: Seq<char>) -> bool {
    name != GENESIS_MODULE@
}

/// The names of `names` that run until they are shut down, in their order.
pub open spec fn long_running_of(names: Seq<Seq<char>>) -> Seq<Seq<char>>
    decreases names.len(),
{
    if names.len() == 0 {
        names
    } else if long_running(names.last()) {
        long_running_of(names.drop_last()).push(names.last())
    } else {
        long_running_of(names.drop_last())
    }
}

/// `names` without `name`, in their order.
pub open spec fn without(names: Seq<Seq<char>>, name: Seq<char>) -> Seq<Seq<char>>
    decreases names.len(),
{
    if names.len() == 0 {
        names
    } else if names.last() == name {
        without(names.drop_last(), name)
    } else {
        without(names.drop_last(), name).push(names.last())
    }
}

/// The state of the supervisor as a mathematical value.
#[verifier::ext_equal]
pub struct HandlerView {
    /// The modules that were added and not started yet.
    pub pending: Seq<Seq<char>>,
    /// The modules that run until they are shut down, in the order of their start.
    pub started: Seq<Seq<char>>,
    /// How many tasks of such modules the host holds.
    pub running: nat,
    /// The modules that have shut down.
    pub shut: Seq<Seq<char>>,
}

/// What the loop that waits for shutdowns does next.
#[derive(Debug, PartialEq, Eq)]
pub enum LoopStep {
    /// Go on waiting.
    Wait,
    /// Publish this message, then go on waiting.
    Publish(ShutdownModule),
    /// Every module has shut down: leave the loop.
    Exit,
}

/// A step of the loop as a mathematical value.
pub enum LoopStepView {
    Wait,
    Publish(Seq<char>),
    Exit,
}

impl View for LoopStep {
    type V = LoopStepView;

    open spec fn view(&self) -> LoopStepView {
        match self {
            LoopStep::Wait => LoopStepView::Wait,
            LoopStep::Publish(m) => LoopStepView::Publish(m.module@),
            LoopStep::Exit => LoopStepView::Exit,
        }
    }
}

/// The module of a message that may be absent.
pub open spec fn told(m: Option<ShutdownModule>) -> Option<Seq<char>> {
    match m {
        Some(m) => Some(m.module@),
        None => None,
    }
}

/// Turning to the next module: the module that was started last leaves the
/// started modules, and is told to shut down unless it has shut down already.
pub open spec fn next_module(v: HandlerView) -> (HandlerView, Option<Seq<char>>) {
    if v.started.len() == 0 {
        (v, None)
    } else {
        (
            HandlerView { started: v.started.drop_last(), ..v },
            if v.shut.contains(v.started.last()) {
                None
            } else {
                Some(v.started.last())
            },
        )
    }
}

/// Hearing that `module` has shut down: a module that runs until it is shut
/// down, and of which this is first heard, leaves the started modules and
/// joins those that have shut down; then the loop ends if no module is left,
/// and turns to the next module otherwise.
pub open spec fn completed(v: HandlerView, module: Seq<char>) -> (HandlerView, LoopStepView) {
    if long_running(module) && !v.shut.contains(module) {
        let w = HandlerView {
            started: without(v.started, module),
            shut: v.shut.push(module),
            ..v
        };
        if w.started.len() == 0 {
            (w, LoopStepView::Exit)
        } else {
            let (x, m) = next_module(w);
            (
                x,
                match m {
                    Some(name) => LoopStepView::Publish(name),
                    None => LoopStepView::Wait,
                },
            )
        }
    } else {
        (v, LoopStepView::Wait)
    }
}

/// The supervisor of modules.
pub struct ModulesHandler {
    modules: Vec<String>,
    started_modules: Vec<String>,
    running_modules: usize,
    shut_modules: Vec<String>,
}

impl View for ModulesHandler {
    type V = HandlerView;

    closed spec fn view(&self) -> HandlerView {
        HandlerView {
            pending: self.modules.deep_view(),
            started: self.started_modules.deep_view(),
            running: self.running_modules as nat,
            shut: self.shut_modules.deep_view(),
        }
    }
}

/// Whether `name` is among `names`.
fn has_name(names: &Vec<String>, name: &str) -> (r: bool)
    ensures
        r == names.deep_view().contains(name@),
{
    let mut i: usize = 0;
    while i < names.len()
        invariant
            i <= names.len(),
            forall|k: int| 0 <= k < i ==> names.deep_view()[k] != name@,
        decreases names.len() - i,
    {
        if str_eq(names[i].as_str(), name) {
            assert(names.deep_view()[i as int] == name@);
            return true;
        }
        i += 1;
    }
    false
}

/// The long-running names are no more than the names.
proof fn lemma_long_running_len(names: Seq<Seq<char>>)
    ensures
        long_running_of(names).len() <= names.len(),
    decreases names.len(),
{
    if names.len() > 0 {
        lemma_long_running_len(names.drop_last());
    }
}

impl ModulesHandler {
    /// A supervisor without modules.
    pub fn new() -> (r: Self)
        ensures
            r@.pending.len() == 0,
            r@.started.len() == 0,
            r@.running == 0,
            r@.shut.len() == 0,
    {
        ModulesHandler {
            modules: Vec::new(),
            started_modules: Vec::new(),
            running_modules: 0,
            shut_modules: Vec::new(),
        }
    }

    /// Whether a module of that name runs until it is shut down.
    pub fn long_running_module(module_name: &str) -> (r: bool)
        ensures
            r == long_running(module_name@),
    {
        !str_eq(module_name, GENESIS_MODULE)
    }

    /// Adds a module, which is built, to those that wait for their start.
    pub fn add_module(&mut self, name: &str) -> (r: Result<(), SupervisorError>)
        ensures
            r is Ok,
            final(self)@ == (HandlerView { pending: old(self)@.pending.push(name@), ..old(self)@ }),
    {
        self.modules.push(name.to_string());
        proof {
            assert(self.modules.deep_view() =~= old(self).modules.deep_view().push(name@));
        }
        Ok(())
    }

    /// The modules that wait for their start.
    pub fn pending_modules(&self) -> (r: &Vec<String>)
        ensures
            r.deep_view() == self@.pending,
    {
        &self.modules
    }

    /// The modules that run until they are shut down, in the order of their start.
    pub fn started_modules(&self) -> (r: &Vec<String>)
        ensures
            r.deep_view() == self@.started,
    {
        &self.started_modules
    }

    /// The modules that have shut down, in the order in which they did.
    pub fn shut_modules(&self) -> (r: &Vec<String>)
        ensures
            r.deep_view() == self@.shut,
    {
        &self.shut_modules
    }

    /// Starts the modules that wait: hands their names to the host, which runs
    /// each of them, in the order in which they were added, and notes those that
    /// run until they are shut down. Refuses while modules of an earlier start run.
    pub fn start_modules(&mut self) -> (r: Result<Vec<String>, SupervisorError>)
        ensures
            old(self)@.running > 0 ==> r == Err::<Vec<String>, SupervisorError>(
                SupervisorError::AlreadyRunning,
            ) && final(self)@ == old(self)@,
            old(self)@.running == 0 ==> r is Ok && r->Ok_0.deep_view() == old(self)@.pending
                && final(self)@ == (HandlerView {
                pending: Seq::empty(),
                started: old(self)@.started + long_running_of(old(self)@.pending),
                running: long_running_of(old(self)@.pending).len(),
                shut: old(self)@.shut,
            }),
    {
        if self.running_modules != 0 {
            return Err(SupervisorError::AlreadyRunning);
        }
        let mut names: Vec<String> = Vec::new();
        let ghost all = self.modules.deep_view();
        let ghost before = self.started_modules.deep_view();
        let n: usize = self.modules.len();
        let mut i: usize = 0;
        while i < n
            invariant
                i <= n,
                n == self.modules.len(),
                all == self.modules.deep_view(),
                self.shut_modules == old(self).shut_modules,
                names.deep_view() == all.take(i as int),
                self.started_modules.deep_view() == before + long_running_of(all.take(i as int)),
                self.running_modules == long_running_of(all.take(i as int)).len(),
            decreases n - i,
        {
            proof {
                assert(all.take(i as int + 1).drop_last() =~= all.take(i as int));
                assert(all.take(i as int + 1).last() == self.modules@[i as int]@);
                lemma_long_running_len(all.take(i as int + 1));
            }
            let ghost started = self.started_modules.deep_view();
            let ghost given = names.deep_view();
            if Self::long_running_module(self.modules[i].as_str()) {
                self.started_modules.push(self.modules[i].clone());
                self.running_modules = self.running_modules + 1;
                proof {
                    assert(self.started_modules.deep_view() =~= started.push(self.modules@[i as int]@));
                    assert(self.started_modules.deep_view() =~= before + long_running_of(
                        all.take(i as int + 1),
                    ));
                }
            }
            names.push(self.modules[i].clone());
            proof {
                assert(names.deep_view() =~= given.push(self.modules@[i as int]@));
                assert(names.deep_view() =~= all.take(i as int + 1));
            }
            i += 1;
        }
        proof {
            assert(all.take(n as int) =~= all);
        }
        self.modules = Vec::new();
        proof {
            assert(self.modules.deep_view() =~= Seq::<Seq<char>>::empty());
        }
        Ok(names)
    }

    /// Turns to the next module: takes the module that was started last from
    /// the started modules, and gives the message that tells it to shut down,
    /// unless it has shut down already.
    pub fn shutdown_next_module(&mut self) -> (r: Option<ShutdownModule>)
        ensures
            (final(self)@, told(r)) == next_module(old(self)@),
    {
        match self.started_modules.pop() {
            None => {
                assert(self.started_modules.deep_view() =~= old(self).started_modules.deep_view());
                None
            },
            Some(name) => {
                proof {
                    assert(self.started_modules.deep_view() =~= old(
                        self,
                    ).started_modules.deep_view().drop_last());
                    assert(old(self).started_modules.deep_view().last() == name@);
                }
                if has_name(&self.shut_modules, name.as_str()) {
                    None
                } else {
                    Some(ShutdownModule { module: name })
                }
            },
        }
    }

    /// Takes note that a module has shut down, and says how the loop that
    /// waits for shutdowns goes on.
    pub fn on_shutdown_completed(&mut self, msg: &ShutdownCompleted) -> (r: LoopStep)
        ensures
            (final(self)@, r@) == completed(old(self)@, msg.module@),
    {
        if Self::long_running_module(msg.module.as_str()) && !has_name(
            &self.shut_modules,
            msg.module.as_str(),
        ) {
            let ghost all = self.started_modules.deep_view();
            let mut kept: Vec<String> = Vec::new();
            let n: usize = self.started_modules.len();
            let mut i: usize = 0;
            while i < n
                invariant
                    i <= n,
                    n == self.started_modules.len(),
                    all == self.started_modules.deep_view(),
                    kept.deep_view() == without(all.take(i as int), msg.module@),
                decreases n - i,
            {
                proof {
                    assert(all.take(i as int + 1).drop_last() =~= all.take(i as int));
                    assert(all.take(i as int + 1).last() == self.started_modules@[i as int]@);
                }
                let ghost so_far = kept.deep_view();
                if !str_eq(self.started_modules[i].as_str(), msg.module.as_str()) {
                    kept.push(self.started_modules[i].clone());
                    proof {
                        assert(kept.deep_view() =~= so_far.push(self.started_modules@[i as int]@));
                    }
                }
                i += 1;
            }
            proof {
                assert(all.take(n as int) =~= all);
            }
            self.started_modules = kept;
            let ghost shut = self.shut_modules.deep_view();
            self.shut_modules.push(msg.module.clone());
            proof {
                assert(self.shut_modules.deep_view() =~= shut.push(msg.module@));
            }
            if self.started_modules.len() == 0 {
                LoopStep::Exit
            } else {
                match self.shutdown_next_module() {
                    Some(m) => LoopStep::Publish(m),
                    None => LoopStep::Wait,
                }
            }
        } else {
            LoopStep::Wait
        }
    }

    /// What the loop does when no shutdown was completed for six seconds: once
    /// a module has shut down, it turns to the next module.
    pub fn on_safety_timer(&mut self) -> (r: Option<ShutdownModule>)
        ensures
            old(self)@.shut.len() == 0 ==> r is None && final(self)@ == old(self)@,
            old(self)@.shut.len() > 0 ==> (final(self)@, told(r)) == next_module(old(self)@),
    {
        if self.shut_modules.len() > 0 {
            self.shutdown_next_module()
        } else {
            None
        }
    }

    /// Whether the loop that waits for shutdowns has anything to wait for.
    pub fn shutdown_loop(&self) -> (r: bool)
        ensures
            r == (self@.started.len() > 0),
    {
        self.started_modules.len() > 0
    }

    /// Begins the shutdown of all modules: turns to the next module, and says
    /// whether the loop that waits for shutdowns is to run after that.
    pub fn shutdown_modules(&mut self) -> (r: (Option<ShutdownModule>, bool))
        ensures
            (final(self)@, told(r.0)) == next_module(old(self)@),
            r.1 == (final(self)@.started.len() > 0),
    {
        let first = self.shutdown_next_module();
        let wait = self.started_modules.len() > 0;
        (first, wait)
    }
}

/// Whether the watchdog of the module `module_name` starts its countdown on
/// what the channel gave: on a shutdown of that module, and on nothing else.
pub fn countdown_starts(module_name: &str, event: &Result<ShutdownModule, BusError>) -> (r: bool)
    ensures
        r == (*event matches Ok(e) && e.module@ == module_name@),
{
    match event {
        Ok(e) => str_eq(e.module.as_str(), module_name),
        Err(_) => false,
    }
}

/// The message that is published when the task of a module has ended,
/// however it ended: with or without an error, by a panic, or because its
/// time to shut down ran out.
pub fn module_ended(module_name: &str) -> (r: ShutdownCompleted)
    ensures
        r.module@ == module_name@,
{
    ShutdownCompleted { module: module_name.to_string() }
}

/// Taking a name from names that do not hold it changes nothing.
pub proof fn lemma_without_absent(names: Seq<Seq<char>>, name: Seq<char>)
    requires
        !names.contains(name),
    ensures
        without(names, name) == names,
    decreases names.len(),
{
    if names.len() > 0 {
        let rest = names.drop_last();
        assert(names[names.len() - 1] == names.last());
        assert forall|i: int| 0 <= i < rest.len() implies rest[i] != name by {
            assert(names[i] == rest[i]);
        }
        lemma_without_absent(rest, name);
        assert(rest.push(names.last()) =~= names);
    }
}

/// What is left of names when one is taken out was among them, and is not
/// the name taken out.
pub proof fn lemma_without_subset(names: Seq<Seq<char>>, name: Seq<char>, other: Seq<char>)
    requires
        without(names, name).contains(other),
    ensures
        names.contains(other),
        other != name,
    decreases names.len(),
{
    if names.len() > 0 {
        let rest = names.drop_last();
        let out = without(names, name);
        let i = choose|i: int| 0 <= i < out.len() && out[i] == other;
        if names.last() != name && i == out.len() - 1 {
            assert(names[names.len() - 1] == other);
        } else {
            assert(without(rest, name)[i] == other);
            lemma_without_subset(rest, name, other);
            let j = choose|j: int| 0 <= j < rest.len() && rest[j] == other;
            assert(names[j] == other);
        }
    }
}

/// Names of which none occurs twice stay so when one is taken out.
pub proof fn lemma_without_unique(names: Seq<Seq<char>>, name: Seq<char>)
    requires
        names.no_duplicates(),
    ensures
        without(names, name).no_duplicates(),
    decreases names.len(),
{
    if names.len() > 0 {
        let rest = names.drop_last();
        assert(rest.no_duplicates());
        lemma_without_unique(rest, name);
        if names.last() != name {
            let out = without(rest, name);
            if out.contains(names.last()) {
                lemma_without_subset(rest, name, names.last());
                let j = choose|j: int| 0 <= j < rest.len() && rest[j] == names.last();
                assert(names[j] == names[names.len() - 1]);
            }
            assert forall|a: int, b: int|
                0 <= a < out.len() + 1 && 0 <= b < out.len() + 1 && a != b implies out.push(
                names.last(),
            )[a] != out.push(names.last())[b] by {
                if a < out.len() && b < out.len() {
                } else if a < out.len() {
                    assert(out.contains(out[a]));
                } else {
                    assert(out.contains(out[b]));
                }
            }
        }
    }
}

/// A name among the long-running names of `names` is among `names`.
pub proof fn lemma_long_running_subset(names: Seq<Seq<char>>, x: Seq<char>)
    requires
        long_running_of(names).contains(x),
    ensures
        names.contains(x),
    decreases names.len(),
{
    if names.len() > 0 {
        let rest = names.drop_last();
        let got = long_running_of(names);
        let i = choose|i: int| 0 <= i < got.len() && got[i] == x;
        if long_running(names.last()) && i == got.len() - 1 {
            assert(names[names.len() - 1] == x);
        } else {
            assert(long_running_of(rest)[i] == x);
            lemma_long_running_subset(rest, x);
            let j = choose|j: int| 0 <= j < rest.len() && rest[j] == x;
            assert(names[j] == x);
        }
    }
}

/// The long-running names among names of which none occurs twice are names
/// of which none occurs twice.
pub proof fn lemma_long_running_unique(names: Seq<Seq<char>>)
    requires
        names.no_duplicates(),
    ensures
        long_running_of(names).no_duplicates(),
    decreases names.len(),
{
    if names.len() > 0 {
        let rest = names.drop_last();
        assert(rest.no_duplicates());
        lemma_long_running_unique(rest);
        let out = long_running_of(rest);
        if long_running(names.last()) {
            if out.contains(names.last()) {
                lemma_long_running_subset(rest, names.last());
                let j = choose|j: int| 0 <= j < rest.len() && rest[j] == names.last();
                assert(names[j] == names[names.len() - 1]);
            }
            assert forall|a: int, b: int|
                0 <= a < out.len() + 1 && 0 <= b < out.len() + 1 && a != b implies out.push(
                names.last(),
            )[a] != out.push(names.last())[b] by {
                if a < out.len() && b < out.len() {
                } else if a < out.len() {
                    assert(out.contains(out[a]));
                } else {
                    assert(out.contains(out[b]));
                }
            }
        }
    }
}

/// Where no name occurs twice among the modules that run and those that
/// wait, none occurs twice among the started modules after the start.
pub proof fn lemma_start_keeps_unique(started: Seq<Seq<char>>, pending: Seq<Seq<char>>)
    requires
        (started + pending).no_duplicates(),
    ensures
        (started + long_running_of(pending)).no_duplicates(),
{
    let all = started + pending;
    assert(pending.no_duplicates()) by {
        assert forall|i: int, j: int| 0 <= i < pending.len() && 0 <= j < pending.len() && i
            != j implies pending[i] != pending[j] by {
            assert(all[started.len() + i] == pending[i]);
            assert(all[started.len() + j] == pending[j]);
        }
    }
    lemma_long_running_unique(pending);
    let run = long_running_of(pending);
    let out = started + run;
    assert forall|i: int, j: int| 0 <= i < out.len() && 0 <= j < out.len() && i != j implies out[i]
        != out[j] by {
        if i < started.len() && j < started.len() {
            assert(all[i] == started[i] && all[j] == started[j]);
        } else if i >= started.len() && j >= started.len() {
            assert(out[i] == run[i - started.len()] && out[j] == run[j - started.len()]);
        } else {
            let (a, b) = if i < started.len() {
                (i, j)
            } else {
                (j, i)
            };
            assert(out[b] == run[b - started.len()]);
            assert(run.contains(run[b - started.len()]));
            lemma_long_running_subset(pending, run[b - started.len()]);
            let k = choose|k: int| 0 <= k < pending.len() && pending[k] == run[b - started.len()];
            assert(all[started.len() + k] == pending[k]);
            assert(all[a] == started[a]);
        }
    }
}

/// No step of the supervisor makes the name of a module occur twice among
/// the started modules.
pub proof fn lemma_started_stay_unique(v: HandlerView, module: Seq<char>)
    requires
        v.started.no_duplicates(),
    ensures
        next_module(v).0.started.no_duplicates(),
        completed(v, module).0.started.no_duplicates(),
{
    lemma_without_unique(v.started, module);
}

/// The shutdown messages that go out after `module` was told to shut down,
/// when each module that is told to shut down does so and says so, and no
/// other module ends.
pub open spec fn orderly(v: HandlerView, module: Seq<char>) -> Seq<Seq<char>>
    decreases v.started.len(),
{
    let (w, step) = completed(v, module);
    match step {
        LoopStepView::Publish(m) => if w.started.len() < v.started.len() {
            seq![m] + orderly(w, m)
        } else {
            seq![m]
        },
        _ => Seq::empty(),
    }
}

/// Modules that run until they are shut down, that were started under names
/// of which none occurs twice, and of which none has shut down, are told to
/// shut down in the reverse of the order of their start, each one once the
/// one before it has said that it has shut down.
pub proof fn lemma_shutdown_in_reverse_order(v: HandlerView)
    requires
        v.started.len() > 0,
        v.started.no_duplicates(),
        forall|i: int| 0 <= i < v.started.len() ==> long_running(#[trigger] v.started[i]),
        forall|i: int| 0 <= i < v.started.len() ==> !v.shut.contains(#[trigger] v.started[i]),
    ensures
        next_module(v).1 == Some(v.started.last()),
        seq![v.started.last()] + orderly(next_module(v).0, v.started.last())
            == v.started.reverse(),
    decreases v.started.len(),
{
    let last = v.started.last();
    let rest = v.started.drop_last();
    let w = next_module(v).0;
    assert(v.started[v.started.len() - 1] == last);
    assert(!rest.contains(last)) by {
        if rest.contains(last) {
            let j = choose|j: int| 0 <= j < rest.len() && rest[j] == last;
            assert(v.started[j] == v.started[v.started.len() - 1]);
        }
    }
    lemma_without_absent(rest, last);
    if rest.len() == 0 {
        assert(seq![last] + orderly(w, last) =~= v.started.reverse());
    } else {
        let u = HandlerView { started: rest, shut: v.shut.push(last), ..v };
        assert(rest.no_duplicates());
        assert forall|i: int| 0 <= i < rest.len() implies long_running(#[trigger] rest[i]) by {
            assert(rest[i] == v.started[i]);
        }
        assert forall|i: int| 0 <= i < rest.len() implies !u.shut.contains(#[trigger] rest[i]) by {
            assert(rest[i] == v.started[i]);
            assert(rest.contains(rest[i]));
            if u.shut.contains(rest[i]) {
                let k = choose|k: int| 0 <= k < u.shut.len() && u.shut[k] == rest[i];
                if k < v.shut.len() {
                    assert(v.shut[k] == rest[i]);
                }
            }
        }
        lemma_shutdown_in_reverse_order(u);
        assert(completed(w, last).0 == next_module(u).0);
        assert(orderly(w, last) == seq![rest.last()] + orderly(next_module(u).0, rest.last()));
        assert(seq![last] + rest.reverse() =~= v.started.reverse());
    }
}

} // verus!
