//! Testing the templates of installed packages.
//!
//! Every package that ships a template gets a fresh scratch directory, is
//! instantiated there by the template tool and compiled, and the result is
//! opened in a viewer. A failure ends the test of that package only: the
//! packages after it are still tested, and the first failure is what the
//! run reports.

use crate::manifest::Manifest;
use crate::session::{package_spec_of, Package, PackageView};
use crate::text::{concat_strings, views};
use vstd::prelude::*;

verus! {

/// The directory below which templates are instantiated.
pub fn scratch_root() -> (r: &'static str)
    ensures
        r@ == "test"@,
{
    "test"
}

/// The step that a test run waits for.
#[derive(Clone, Copy, Debug, PartialEq, Eq, Structural)]
pub enum TestStage {
    /// Create the scratch root, unless it exists.
    CreateScratchRoot,
    /// Remove the scratch directory of the current package, if it exists.
    ClearScratch,
    /// Run the template tool on the package's spec and scratch directory.
    InitTemplate,
    /// Compile the entrypoint inside the scratch directory.
    Compile,
    /// Open the compiled document.
    View,
    /// Every package has had its turn.
    Done,
}

/// Why the test of a package, or the run, failed.
#[derive(Clone, Copy, Debug, PartialEq, Eq, Structural)]
pub enum TestFault {
    /// The scratch root could not be created; no package was tested.
    ScratchRootFailed,
    /// The scratch directory of an earlier run could not be removed.
    ScratchRemovalFailed,
    /// The template tool failed.
    TemplateInitFailed,
    /// The entrypoint did not compile.
    CompileFailed,
    /// The viewer failed.
    ViewFailed,
}

/// The first failure of a test run.
#[derive(Clone, Copy, Debug, PartialEq, Eq)]
pub struct TestError {
    pub kind: TestFault,
    /// The position of the package that failed; zero for `ScratchRootFailed`.
    pub package: usize,
}

/// The text that tells a user why a test failed.
pub open spec fn test_message(fault: TestFault) -> Seq<char> {
    match fault {
        TestFault::ScratchRootFailed => "failed to create `test` directory"@,
        TestFault::ScratchRemovalFailed => "failed to remove existing template"@,
        _ => "command failed"@,
    }
}

impl TestError {
    /// The error as a sentence for the user.
    pub fn message(&self) -> (r: String)
        ensures
            r@ == test_message(self.kind),
    {
        match self.kind {
            TestFault::ScratchRootFailed => String::from_str("failed to create `test` directory"),
            TestFault::ScratchRemovalFailed => String::from_str(
                "failed to remove existing template",
            ),
            _ => String::from_str("command failed"),
        }
    }
}

/// What testing one package needs.
#[derive(Debug)]
pub struct TestPlan {
    /// The package as the template tool names it.
    pub spec: String,
    /// The components of the scratch directory.
    pub scratch: Vec<String>,
    /// The file to compile, relative to the scratch directory.
    pub entrypoint: String,
}

/// A plan as plain values.
pub struct PlanView {
    pub spec: Seq<char>,
    pub scratch: Seq<Seq<char>>,
    pub entrypoint: Seq<char>,
}

impl View for TestPlan {
    type V = PlanView;

    open spec fn view(&self) -> PlanView {
        PlanView { spec: self.spec@, scratch: views(self.scratch@), entrypoint: self.entrypoint@ }
    }
}

impl TestPlan {
    /// The components of the path of the file to compile: the entrypoint
    /// inside the scratch directory.
    pub fn entrypoint_path(&self) -> (r: Vec<String>)
        ensures
            views(r@) == self@.scratch.push(self@.entrypoint),
    {
        let mut name: Vec<String> = Vec::new();
        name.push(String::from_str(self.entrypoint.as_str()));
        assert(views(name@) =~= seq![self@.entrypoint]);
        let path = concat_strings(&self.scratch, &name);
        assert(views(path@) =~= self@.scratch.push(self@.entrypoint));
        path
    }
}

/// The plan for a package: none without a template, else its spec, the
/// directory named after it below the scratch root, and the entrypoint.
pub open spec fn plan_of(root: Seq<char>, package: PackageView, entrypoint: Option<Seq<char>>) -> Option<
    PlanView,
> {
    match entrypoint {
        None => None,
        Some(entrypoint) => Some(
            PlanView { spec: package_spec_of(package), scratch: seq![root, package.name], entrypoint },
        ),
    }
}

/// The views of a list of plans.
pub open spec fn plan_views(plans: Seq<Option<TestPlan>>) -> Seq<Option<PlanView>> {
    Seq::new(
        plans.len(),
        |i: int|
            match plans[i] {
                Some(plan) => Some(plan@),
                None => None,
            },
    )
}

/// Makes the plan for testing a package with the given manifest.
pub fn plan_test(root: &str, package: &Package, manifest: &Manifest) -> (r: Option<TestPlan>)
    ensures
        match r {
            Some(plan) => plan_of(root@, package@, manifest.entrypoint()) == Some(plan@),
            None => plan_of(root@, package@, manifest.entrypoint()) is None,
        },
{
    match &manifest.template {
        None => None,
        Some(template) => {
            let mut scratch: Vec<String> = Vec::new();
            scratch.push(String::from_str(root));
            scratch.push(String::from_str(package.name));
            assert(views(scratch@) =~= seq![root@, package.name@]);
            Some(
                TestPlan {
                    spec: package.spec(),
                    scratch,
                    entrypoint: String::from_str(template.entrypoint.as_str()),
                },
            )
        },
    }
}

/// The state of a test run as plain values.
pub struct HarnessView {
    pub stage: TestStage,
    /// The position of the package under test.
    pub index: int,
    /// The plan of every package, in order.
    pub plans: Seq<Option<PlanView>>,
    /// The first failure so far: the fault and the position of the package.
    pub failure: Option<(TestFault, int)>,
}

/// The first position from `from` on that has a plan, or the number of plans.
pub open spec fn next_planned(plans: Seq<Option<PlanView>>, from: int) -> int
    decreases plans.len() - from,
{
    if from >= plans.len() {
        plans.len() as int
    } else if from >= 0 && plans[from] is Some {
        from
    } else {
        next_planned(plans, from + 1)
    }
}

impl HarnessView {
    /// This state at another step of the same package.
    pub open spec fn at(self, stage: TestStage) -> HarnessView {
        HarnessView { stage, ..self }
    }

    /// This state with `fault` for the current package, unless a failure
    /// is recorded already.
    pub open spec fn latch(self, fault: TestFault) -> HarnessView {
        HarnessView {
            failure: if self.failure is Some {
                self.failure
            } else {
                Some((fault, self.index))
            },
            ..self
        }
    }

    /// This state at the first package from `from` on that has a plan, or
    /// at the end if there is none.
    pub open spec fn enter(self, from: int) -> HarnessView {
        let index = next_planned(self.plans, from);
        HarnessView {
            stage: if index < self.plans.len() {
                TestStage::ClearScratch
            } else {
                TestStage::Done
            },
            index,
            ..self
        }
    }
}

/// The state of a run that has not begun.
pub open spec fn harness_start(plans: Seq<Option<PlanView>>) -> HarnessView {
    HarnessView { stage: TestStage::CreateScratchRoot, index: 0, plans, failure: None }
}

/// The fault of a step that fails.
pub open spec fn test_fault_of(stage: TestStage) -> TestFault {
    match stage {
        TestStage::CreateScratchRoot => TestFault::ScratchRootFailed,
        TestStage::ClearScratch => TestFault::ScratchRemovalFailed,
        TestStage::InitTemplate => TestFault::TemplateInitFailed,
        TestStage::Compile => TestFault::CompileFailed,
        _ => TestFault::ViewFailed,
    }
}

/// The state that follows when the pending step has succeeded (`ok`) or
/// failed.
///
/// Without the scratch root nothing is tested. A package goes through its
/// steps while they succeed. When a step fails, the failure is recorded
/// unless an earlier one is, and the run moves on to the next package.
pub open spec fn harness_step(s: HarnessView, ok: bool) -> HarnessView {
    match s.stage {
        TestStage::Done => s,
        TestStage::CreateScratchRoot => if ok {
            s.enter(0)
        } else {
            s.latch(TestFault::ScratchRootFailed).at(TestStage::Done)
        },
        TestStage::ClearScratch => if ok {
            s.at(TestStage::InitTemplate)
        } else {
            s.latch(TestFault::ScratchRemovalFailed).enter(s.index + 1)
        },
        TestStage::InitTemplate => if ok {
            s.at(TestStage::Compile)
        } else {
            s.latch(TestFault::TemplateInitFailed).enter(s.index + 1)
        },
        TestStage::Compile => if ok {
            s.at(TestStage::View)
        } else {
            s.latch(TestFault::CompileFailed).enter(s.index + 1)
        },
        TestStage::View => if ok {
            s.enter(s.index + 1)
        } else {
            s.latch(TestFault::ViewFailed).enter(s.index + 1)
        },
    }
}

/// A test run over the packages of a session, step by step.
#[derive(Debug)]
pub struct Harness {
    plans: Vec<Option<TestPlan>>,
    index: usize,
    stage: TestStage,
    failure: Option<TestError>,
}

impl View for Harness {
    type V = HarnessView;

    closed spec fn view(&self) -> HarnessView {
        HarnessView {
            stage: self.stage,
            index: self.index as int,
            plans: plan_views(self.plans@),
            failure: match self.failure {
                Some(e) => Some((e.kind, e.package as int)),
                None => None,
            },
        }
    }
}

impl Harness {
    #[verifier::type_invariant]
    spec fn well_formed(&self) -> bool {
        &&& self.index <= self.plans@.len()
        &&& self.stage == TestStage::CreateScratchRoot ==> self.index == 0
        &&& (self.stage == TestStage::ClearScratch || self.stage == TestStage::InitTemplate
            || self.stage == TestStage::Compile || self.stage == TestStage::View) ==> self.index
            < self.plans@.len() && self.plans@[self.index as int] is Some
    }

    /// A run over the packages with their manifests, pair by pair; what is
    /// left over of the longer list is not tested.
    pub fn new(root: &str, packages: &[Package], manifests: &Vec<Manifest>) -> (r: Harness)
        ensures
            r@.stage == TestStage::CreateScratchRoot,
            r@.index == 0,
            r@.failure is None,
            r@.plans.len() == if packages@.len() <= manifests@.len() {
                packages@.len()
            } else {
                manifests@.len()
            },
            forall|i: int|
                0 <= i < r@.plans.len() ==> #[trigger] r@.plans[i] == plan_of(
                    root@,
                    packages@[i]@,
                    manifests@[i].entrypoint(),
                ),
    {
        let n: usize = if packages.len() <= manifests.len() {
            packages.len()
        } else {
            manifests.len()
        };
        let mut plans: Vec<Option<TestPlan>> = Vec::new();
        let mut i: usize = 0;
        while i < n
            invariant
                i <= n,
                n <= packages@.len(),
                n <= manifests@.len(),
                plans@.len() == i,
                forall|k: int|
                    0 <= k < i ==> #[trigger] plan_views(plans@)[k] == plan_of(
                        root@,
                        packages@[k]@,
                        manifests@[k].entrypoint(),
                    ),
            decreases n - i,
        {
            let ghost before = plan_views(plans@);
            let plan = plan_test(root, &packages[i], &manifests[i]);
            plans.push(plan);
            assert forall|k: int| 0 <= k < i + 1 implies #[trigger] plan_views(plans@)[k] == plan_of(
                root@,
                packages@[k]@,
                manifests@[k].entrypoint(),
            ) by {
                if k < i {
                    assert(plan_views(plans@)[k] == before[k]);
                }
            }
            i += 1;
        }
        Harness { plans, index: 0, stage: TestStage::CreateScratchRoot, failure: None }
    }

    /// The step to perform next.
    pub fn stage(&self) -> (r: TestStage)
        ensures
            r == self@.stage,
    {
        self.stage
    }

    /// The position of the package under test.
    pub fn index(&self) -> (r: usize)
        ensures
            r == self@.index,
    {
        self.index
    }

    /// The first failure so far.
    pub fn failure(&self) -> (r: Option<TestError>)
        ensures
            match r {
                Some(e) => self@.failure == Some((e.kind, e.package as int)),
                None => self@.failure is None,
            },
    {
        self.failure
    }

    /// The plan of the package under test, while the run is at one.
    pub fn plan(&self) -> (r: Option<&TestPlan>)
        ensures
            match r {
                Some(plan) => {
                    &&& self@.stage != TestStage::CreateScratchRoot
                    &&& self@.stage != TestStage::Done
                    &&& 0 <= self@.index < self@.plans.len()
                    &&& self@.plans[self@.index] == Some(plan@)
                },
                None => self@.stage == TestStage::CreateScratchRoot || self@.stage
                    == TestStage::Done,
            },
    {
        proof {
            use_type_invariant(self);
        }
        match self.stage {
            TestStage::CreateScratchRoot | TestStage::Done => None,
            _ => self.plans[self.index].as_ref(),
        }
    }

    /// The first position from `from` on that has a plan.
    fn seek(&self, from: usize) -> (r: usize)
        requires
            from <= self@.plans.len(),
        ensures
            r == next_planned(self@.plans, from as int),
            from <= r <= self@.plans.len(),
            r < self@.plans.len() ==> self.plans@[r as int] is Some,
    {
        let n: usize = self.plans.len();
        let mut i: usize = from;
        while i < n && self.plans[i].is_none()
            invariant
                from <= i <= n,
                n == self.plans@.len(),
                next_planned(self@.plans, from as int) == next_planned(self@.plans, i as int),
            decreases n - i,
        {
            i += 1;
        }
        i
    }

    /// This run at the first package from `from` on that has a plan.
    fn enter(self, from: usize, failure: Option<TestError>) -> (r: Harness)
        requires
            from <= self@.plans.len(),
        ensures
            r@ == (HarnessView {
                failure: match failure {
                    Some(e) => Some((e.kind, e.package as int)),
                    None => None,
                },
                ..self@
            }).enter(from as int),
    {
        let index: usize = self.seek(from);
        let stage = if index < self.plans.len() {
            TestStage::ClearScratch
        } else {
            TestStage::Done
        };
        Harness { plans: self.plans, index, stage, failure }
    }

    /// The failure to record when the pending step fails.
    fn latched(&self) -> (r: Option<TestError>)
        ensures
            match r {
                Some(e) => self@.latch(test_fault_of(self@.stage)).failure == Some(
                    (e.kind, e.package as int),
                ),
                None => false,
            },
    {
        match self.failure {
            Some(e) => Some(e),
            None => {
                let kind = match self.stage {
                    TestStage::CreateScratchRoot => TestFault::ScratchRootFailed,
                    TestStage::ClearScratch => TestFault::ScratchRemovalFailed,
                    TestStage::InitTemplate => TestFault::TemplateInitFailed,
                    TestStage::Compile => TestFault::CompileFailed,
                    _ => TestFault::ViewFailed,
                };
                Some(TestError { kind, package: self.index })
            },
        }
    }

    /// Takes the outcome of the pending step and moves on.
    pub fn step(self, ok: bool) -> (r: Harness)
        ensures
            r@ == harness_step(self@, ok),
    {
        proof {
            use_type_invariant(&self);
        }
        let failure = self.failure;
        let count: usize = self.plans.len();
        let next: usize = if self.index < count {
            self.index + 1
        } else {
            count
        };
        match self.stage {
            TestStage::Done => self,
            TestStage::CreateScratchRoot => {
                if ok {
                    self.enter(0, failure)
                } else {
                    let failure = self.latched();
                    Harness { plans: self.plans, index: self.index, stage: TestStage::Done, failure }
                }
            },
            TestStage::View => {
                if ok {
                    self.enter(next, failure)
                } else {
                    let failure = self.latched();
                    self.enter(next, failure)
                }
            },
            stage => {
                if ok {
                    let following = match stage {
                        TestStage::ClearScratch => TestStage::InitTemplate,
                        TestStage::InitTemplate => TestStage::Compile,
                        _ => TestStage::View,
                    };
                    Harness { plans: self.plans, index: self.index, stage: following, failure }
                } else {
                    let failure = self.latched();
                    self.enter(next, failure)
                }
            },
        }
    }
}

/// The fault of the package at `i` when `passes` tells which steps
/// succeed: that of its first step that fails.
pub open spec fn package_fault(passes: spec_fn(int, TestStage) -> bool, i: int) -> Option<TestFault> {
    if !passes(i, TestStage::ClearScratch) {
        Some(TestFault::ScratchRemovalFailed)
    } else if !passes(i, TestStage::InitTemplate) {
        Some(TestFault::TemplateInitFailed)
    } else if !passes(i, TestStage::Compile) {
        Some(TestFault::CompileFailed)
    } else if !passes(i, TestStage::View) {
        Some(TestFault::ViewFailed)
    } else {
        None
    }
}

/// The fault and the position of the first package from `from` on that
/// has a plan and fails.
pub open spec fn first_failure(
    plans: Seq<Option<PlanView>>,
    passes: spec_fn(int, TestStage) -> bool,
    from: int,
) -> Option<(TestFault, int)>
    decreases plans.len() - from,
{
    if from < 0 || from >= plans.len() {
        None
    } else if plans[from] is Some && package_fault(passes, from) is Some {
        Some((package_fault(passes, from)->0, from))
    } else {
        first_failure(plans, passes, from + 1)
    }
}

/// The state after at most `fuel` steps from `s`, when `passes` tells
/// which steps succeed.
pub open spec fn harness_run(
    s: HarnessView,
    passes: spec_fn(int, TestStage) -> bool,
    fuel: nat,
) -> HarnessView
    decreases fuel,
{
    if fuel == 0 || s.stage == TestStage::Done {
        s
    } else {
        harness_run(harness_step(s, passes(s.index, s.stage)), passes, (fuel - 1) as nat)
    }
}

/// `next_planned` skips exactly the packages without a plan.
pub proof fn lemma_next_planned(plans: Seq<Option<PlanView>>, from: int)
    requires
        0 <= from <= plans.len(),
    ensures
        from <= next_planned(plans, from) <= plans.len(),
        next_planned(plans, from) < plans.len() ==> plans[next_planned(plans, from)] is Some,
        forall|k: int| from <= k < next_planned(plans, from) ==> plans[k] is None,
    decreases plans.len() - from,
{
    if from < plans.len() && plans[from] is None {
        lemma_next_planned(plans, from + 1);
    }
}

/// Packages without a plan do not fail.
proof fn lemma_first_failure_skip(
    plans: Seq<Option<PlanView>>,
    passes: spec_fn(int, TestStage) -> bool,
    from: int,
)
    requires
        0 <= from <= plans.len(),
    ensures
        first_failure(plans, passes, from) == first_failure(
            plans,
            passes,
            next_planned(plans, from),
        ),
    decreases plans.len() - from,
{
    if from < plans.len() && plans[from] is None {
        lemma_first_failure_skip(plans, passes, from + 1);
    }
}

/// From the package at `from` on, a run ends with the failure it had, or
/// else with the first failure among the packages left.
proof fn lemma_run_from(
    s: HarnessView,
    passes: spec_fn(int, TestStage) -> bool,
    from: int,
    fuel: nat,
)
    requires
        0 <= from <= s.plans.len(),
        fuel >= 4 * (s.plans.len() - from),
    ensures
        harness_run(s.enter(from), passes, fuel).stage == TestStage::Done,
        harness_run(s.enter(from), passes, fuel).failure == if s.failure is Some {
            s.failure
        } else {
            first_failure(s.plans, passes, from)
        },
    decreases s.plans.len() - from,
{
    let t = s.enter(from);
    let i = t.index;
    lemma_next_planned(s.plans, from);
    lemma_first_failure_skip(s.plans, passes, from);
    if i < s.plans.len() {
        reveal_with_fuel(harness_run, 5);
        if !passes(i, TestStage::ClearScratch) {
            lemma_run_from(t.latch(TestFault::ScratchRemovalFailed), passes, i + 1, (fuel - 1) as nat);
        } else if !passes(i, TestStage::InitTemplate) {
            lemma_run_from(
                t.at(TestStage::InitTemplate).latch(TestFault::TemplateInitFailed),
                passes,
                i + 1,
                (fuel - 2) as nat,
            );
        } else if !passes(i, TestStage::Compile) {
            lemma_run_from(
                t.at(TestStage::Compile).latch(TestFault::CompileFailed),
                passes,
                i + 1,
                (fuel - 3) as nat,
            );
        } else if !passes(i, TestStage::View) {
            lemma_run_from(
                t.at(TestStage::View).latch(TestFault::ViewFailed),
                passes,
                i + 1,
                (fuel - 4) as nat,
            );
        } else {
            lemma_run_from(t.at(TestStage::View), passes, i + 1, (fuel - 4) as nat);
        }
    }
}

/// A failing package does not keep the packages after it from being
/// tested, and the run reports the first failure: whatever steps succeed
/// or fail, a run over `plans` ends within four steps for each package
/// and one more, and its failure is that of the first package with a plan
/// that fails, or none if every such package passes. Without a scratch
/// root the run ends at once with `ScratchRootFailed`.
pub proof fn lemma_first_failure_is_reported(
    plans: Seq<Option<PlanView>>,
    passes: spec_fn(int, TestStage) -> bool,
)
    ensures
        harness_run(harness_start(plans), passes, 4 * plans.len() + 1).stage == TestStage::Done,
        harness_run(harness_start(plans), passes, 4 * plans.len() + 1).failure == if passes(
            0,
            TestStage::CreateScratchRoot,
        ) {
            first_failure(plans, passes, 0)
        } else {
            Some((TestFault::ScratchRootFailed, 0int))
        },
{
    let s = harness_start(plans);
    reveal_with_fuel(harness_run, 3);
    if passes(0, TestStage::CreateScratchRoot) {
        lemma_run_from(s, passes, 0, 4 * plans.len());
    }
}

/// The steps that a run takes from `s`, at most `fuel` of them, each with
/// the position of its package.
pub open spec fn harness_steps(
    s: HarnessView,
    passes: spec_fn(int, TestStage) -> bool,
    fuel: nat,
) -> Seq<(int, TestStage)>
    decreases fuel,
{
    if fuel == 0 || s.stage == TestStage::Done {
        Seq::empty()
    } else {
        seq![(s.index, s.stage)] + harness_steps(
            harness_step(s, passes(s.index, s.stage)),
            passes,
            (fuel - 1) as nat,
        )
    }
}

/// From the package at `from` on, a run begins every package that has a plan.
proof fn lemma_steps_from(
    s: HarnessView,
    passes: spec_fn(int, TestStage) -> bool,
    from: int,
    fuel: nat,
    i: int,
)
    requires
        0 <= from <= i < s.plans.len(),
        s.plans[i] is Some,
        fuel >= 4 * (s.plans.len() - from),
    ensures
        harness_steps(s.enter(from), passes, fuel).contains((i, TestStage::ClearScratch)),
    decreases s.plans.len() - from,
{
    let t = s.enter(from);
    let j = t.index;
    lemma_next_planned(s.plans, from);
    reveal_with_fuel(harness_steps, 5);
    let steps = harness_steps(t, passes, fuel);
    if j == i {
        assert(steps[0] == (i, TestStage::ClearScratch));
    } else {
        let (u, taken): (HarnessView, nat) = if !passes(j, TestStage::ClearScratch) {
            (t.latch(TestFault::ScratchRemovalFailed), 1)
        } else if !passes(j, TestStage::InitTemplate) {
            (t.at(TestStage::InitTemplate).latch(TestFault::TemplateInitFailed), 2)
        } else if !passes(j, TestStage::Compile) {
            (t.at(TestStage::Compile).latch(TestFault::CompileFailed), 3)
        } else if !passes(j, TestStage::View) {
            (t.at(TestStage::View).latch(TestFault::ViewFailed), 4)
        } else {
            (t.at(TestStage::View), 4)
        };
        let rest = harness_steps(u.enter(j + 1), passes, (fuel - taken) as nat);
        lemma_steps_from(u, passes, j + 1, (fuel - taken) as nat, i);
        let k = choose|k: int| 0 <= k < rest.len() && rest[k] == (i, TestStage::ClearScratch);
        assert(steps =~= steps.take(taken as int) + rest);
        assert(steps[taken + k] == (i, TestStage::ClearScratch));
    }
}

/// A failing package does not keep another from its turn: once the
/// scratch root is there, a run over `plans` begins every package that has
/// a plan, whatever steps succeed or fail.
pub proof fn lemma_every_package_is_tested(
    plans: Seq<Option<PlanView>>,
    passes: spec_fn(int, TestStage) -> bool,
    i: int,
)
    requires
        passes(0, TestStage::CreateScratchRoot),
        0 <= i < plans.len(),
        plans[i] is Some,
    ensures
        harness_steps(harness_start(plans), passes, 4 * plans.len() + 1).contains(
            (i, TestStage::ClearScratch),
        ),
{
    let s = harness_start(plans);
    reveal_with_fuel(harness_steps, 2);
    let steps = harness_steps(s, passes, 4 * plans.len() + 1);
    let rest = harness_steps(s.enter(0), passes, 4 * plans.len());
    lemma_steps_from(s, passes, 0, 4 * plans.len(), i);
    let k = choose|k: int| 0 <= k < rest.len() && rest[k] == (i, TestStage::ClearScratch);
    assert(steps =~= seq![(0int, TestStage::CreateScratchRoot)] + rest);
    assert(steps[1 + k] == (i, TestStage::ClearScratch));
}

} // verus!
