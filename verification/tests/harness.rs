use package_review::harness::{
    plan_test, scratch_root, Harness, TestError, TestFault, TestStage,
};
use package_review::manifest::{Manifest, Template};
use package_review::session::Package;

fn with_template(entrypoint: &str) -> Manifest {
    Manifest { exclude: vec![], template: Some(Template { entrypoint: entrypoint.to_string() }) }
}

fn without_template() -> Manifest {
    Manifest { exclude: vec![], template: None }
}

/// Runs the tests; `fails` tells which steps fail. Gives back the steps
/// taken and the failure reported.
fn run(
    packages: &[Package],
    manifests: &Vec<Manifest>,
    fails: &[(usize, TestStage)],
) -> (Vec<(usize, TestStage)>, Option<TestError>) {
    let mut run = Harness::new("test", packages, manifests);
    let mut trace = vec![];
    while run.stage() != TestStage::Done {
        let step = (run.index(), run.stage());
        trace.push(step);
        run = run.step(!fails.contains(&step));
    }
    assert!(run.plan().is_none());
    (trace, run.failure())
}

const THREE: [Package<'static>; 3] = [
    Package { name: "one", vers: "0.1.0" },
    Package { name: "two", vers: "0.2.0" },
    Package { name: "three", vers: "0.3.0" },
];

fn steps(index: usize) -> Vec<(usize, TestStage)> {
    vec![
        (index, TestStage::ClearScratch),
        (index, TestStage::InitTemplate),
        (index, TestStage::Compile),
        (index, TestStage::View),
    ]
}

#[test]
fn a_failing_package_does_not_stop_the_others() {
    let manifests = vec![with_template("a.typ"), with_template("b.typ"), with_template("c.typ")];
    let (trace, failure) = run(&THREE, &manifests, &[(1, TestStage::Compile)]);
    let mut expected = vec![(0, TestStage::CreateScratchRoot)];
    expected.extend(steps(0));
    expected.extend(steps(1)[..3].to_vec());
    expected.extend(steps(2));
    assert_eq!(trace, expected);
    assert_eq!(failure, Some(TestError { kind: TestFault::CompileFailed, package: 1 }));
    assert_eq!(failure.unwrap().message(), "command failed");
}

#[test]
fn reports_the_first_of_several_failures() {
    let manifests = vec![with_template("a.typ"), with_template("b.typ"), with_template("c.typ")];
    let fails = [(0, TestStage::View), (1, TestStage::InitTemplate), (2, TestStage::ClearScratch)];
    let (trace, failure) = run(&THREE, &manifests, &fails);
    assert_eq!(failure, Some(TestError { kind: TestFault::ViewFailed, package: 0 }));
    assert_eq!(trace.len(), 1 + 4 + 2 + 1);
    let (_, failure) = run(&THREE, &manifests, &fails[1..]);
    assert_eq!(failure, Some(TestError { kind: TestFault::TemplateInitFailed, package: 1 }));
    let (_, failure) = run(&THREE, &manifests, &fails[2..]);
    assert_eq!(failure, Some(TestError { kind: TestFault::ScratchRemovalFailed, package: 2 }));
    assert_eq!(failure.unwrap().message(), "failed to remove existing template");
}

#[test]
fn passes_when_every_step_succeeds() {
    let manifests = vec![with_template("a.typ"), with_template("b.typ"), with_template("c.typ")];
    let (trace, failure) = run(&THREE, &manifests, &[]);
    assert_eq!(failure, None);
    assert_eq!(trace.len(), 13);
}

#[test]
fn skips_packages_without_template() {
    let manifests = vec![without_template(), with_template("b.typ"), without_template()];
    let (trace, failure) = run(&THREE, &manifests, &[(0, TestStage::Compile)]);
    let mut expected = vec![(0, TestStage::CreateScratchRoot)];
    expected.extend(steps(1));
    assert_eq!(trace, expected);
    assert_eq!(failure, None);
    let none = vec![without_template(), without_template(), without_template()];
    let (trace, failure) = run(&THREE, &none, &[]);
    assert_eq!(trace, vec![(0, TestStage::CreateScratchRoot)]);
    assert_eq!(failure, None);
}

#[test]
fn tests_nothing_without_a_scratch_root() {
    let manifests = vec![with_template("a.typ"), with_template("b.typ"), with_template("c.typ")];
    let (trace, failure) = run(&THREE, &manifests, &[(0, TestStage::CreateScratchRoot)]);
    assert_eq!(trace, vec![(0, TestStage::CreateScratchRoot)]);
    assert_eq!(failure, Some(TestError { kind: TestFault::ScratchRootFailed, package: 0 }));
    assert_eq!(failure.unwrap().message(), "failed to create `test` directory");
}

#[test]
fn tests_packages_and_manifests_in_pairs() {
    let manifests = vec![with_template("a.typ")];
    let (trace, _) = run(&THREE, &manifests, &[]);
    assert_eq!(trace.len(), 5);
    let (trace, failure) = run(&[], &manifests, &[]);
    assert_eq!(trace, vec![(0, TestStage::CreateScratchRoot)]);
    assert_eq!(failure, None);
}

#[test]
fn plans_the_test_of_a_template() {
    assert_eq!(scratch_root(), "test");
    let plan = plan_test("test", &THREE[0], &with_template("main.typ")).unwrap();
    assert_eq!(plan.spec, "@preview/one:0.1.0");
    assert_eq!(plan.scratch, vec!["test", "one"]);
    assert_eq!(plan.entrypoint, "main.typ");
    assert_eq!(plan.entrypoint_path(), vec!["test", "one", "main.typ"]);
    assert!(plan_test("test", &THREE[0], &without_template()).is_none());

    let manifests = vec![without_template(), with_template("b.typ")];
    let run = Harness::new("scratch", &THREE, &manifests);
    assert!(run.plan().is_none());
    let run = run.step(true);
    assert_eq!((run.index(), run.stage()), (1, TestStage::ClearScratch));
    let plan = run.plan().unwrap();
    assert_eq!(plan.spec, "@preview/two:0.2.0");
    assert_eq!(plan.scratch, vec!["scratch", "two"]);
    assert_eq!(plan.entrypoint, "b.typ");
}
