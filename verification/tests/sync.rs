use package_review::session::{Args, Package};
use package_review::sync::{
    find_head, has_branch, on_primary, primary_branch, remote_name, repository_dir, stale_branches,
    RemoteHead, SyncEvent, SyncFault, SyncStage, Synchronizer,
};
use std::collections::BTreeMap;

fn session(pr_nr: u32) -> Args<'static> {
    Args { packages: vec![Package { name: "foo", vers: "1.0.0" }], pr_nr }
}

/// A repository in memory: a branch that is checked out can be neither
/// deleted nor replaced.
#[derive(Clone, Debug, PartialEq)]
struct Repo {
    head: Option<String>,
    branches: BTreeMap<String, String>,
    pulls: BTreeMap<u32, String>,
}

fn repo(head: &str, branches: &[(&str, &str)]) -> Repo {
    Repo {
        head: Some(head.to_string()),
        branches: branches.iter().map(|(n, c)| (n.to_string(), c.to_string())).collect(),
        pulls: [(42, "c42".to_string()), (43, "c43".to_string())].into_iter().collect(),
    }
}

fn sync(repo: &mut Repo, args: &Args) -> (SyncStage, Option<SyncFault>, Vec<SyncStage>) {
    let mut job = Synchronizer::new(args);
    let mut trace = vec![];
    loop {
        let stage = job.stage();
        trace.push(stage);
        let done = |ok: bool| if ok { SyncEvent::Succeeded } else { SyncEvent::Failed };
        let event = match stage {
            SyncStage::OpenRepository => SyncEvent::Succeeded,
            SyncStage::ReadHead => SyncEvent::Head(repo.head.clone()),
            SyncStage::CheckoutPrimary => {
                let ok = repo.branches.contains_key("main");
                if ok {
                    repo.head = Some("main".to_string());
                }
                done(ok)
            }
            SyncStage::ListBranches => {
                SyncEvent::Branches(repo.branches.keys().map(|k| Some(k.clone())).collect())
            }
            SyncStage::DeleteBranch => {
                let ok = repo.head.as_deref() != Some(job.branch());
                done(ok && repo.branches.remove(job.branch()).is_some())
            }
            SyncStage::Fetch => {
                assert_eq!(job.refspec(), format!("pull/{}/head", args.pr_nr));
                done(repo.pulls.contains_key(&args.pr_nr))
            }
            SyncStage::ListRemoteHeads => SyncEvent::RemoteHeads(
                repo.pulls
                    .iter()
                    .map(|(n, c)| RemoteHead {
                        name: format!("refs/pull/{}/head", n),
                        commit: c.clone(),
                    })
                    .collect(),
            ),
            SyncStage::FindCommit => done(job.commit().is_some()),
            SyncStage::CreateBranch => {
                let ok = repo.head.as_deref() != Some(job.branch());
                if ok {
                    repo.branches.insert(job.branch().to_string(), job.commit().unwrap().to_string());
                }
                done(ok)
            }
            SyncStage::CheckoutBranch => {
                let ok = repo.branches.contains_key(job.branch());
                if ok {
                    repo.head = Some(job.branch().to_string());
                }
                done(ok)
            }
            SyncStage::Done | SyncStage::Failed => return (stage, job.fault(), trace),
        };
        job = job.step(event);
    }
}

#[test]
fn names_what_it_works_on() {
    assert_eq!(repository_dir(), "packages");
    assert_eq!(remote_name(), "origin");
    assert_eq!(primary_branch(), "main");
    let job = Synchronizer::new(&session(42));
    assert_eq!(job.stage(), SyncStage::OpenRepository);
    assert_eq!(job.branch(), "foo_1.0.0_#42");
    assert_eq!(job.refspec(), "pull/42/head");
    assert_eq!(job.head_ref(), "refs/pull/42/head");
    assert_eq!(job.commit(), None);
    assert_eq!(job.fault(), None);
}

#[test]
fn checks_out_the_pull_request_on_its_branch() {
    let mut r = repo("main", &[("main", "c0")]);
    let (stage, fault, trace) = sync(&mut r, &session(42));
    assert_eq!((stage, fault), (SyncStage::Done, None));
    assert_eq!(
        trace,
        vec![
            SyncStage::OpenRepository,
            SyncStage::ReadHead,
            SyncStage::ListBranches,
            SyncStage::Fetch,
            SyncStage::ListRemoteHeads,
            SyncStage::FindCommit,
            SyncStage::CreateBranch,
            SyncStage::CheckoutBranch,
            SyncStage::Done,
        ]
    );
    assert_eq!(r, repo("foo_1.0.0_#42", &[("main", "c0"), ("foo_1.0.0_#42", "c42")]));
}

#[test]
fn synchronising_twice_ends_in_the_same_state() {
    let mut r = repo("main", &[("main", "c0")]);
    sync(&mut r, &session(42));
    let once = r.clone();
    let (stage, fault, trace) = sync(&mut r, &session(42));
    assert_eq!((stage, fault), (SyncStage::Done, None));
    assert_eq!(r, once);
    assert_eq!(
        trace,
        vec![
            SyncStage::OpenRepository,
            SyncStage::ReadHead,
            SyncStage::CheckoutPrimary,
            SyncStage::ListBranches,
            SyncStage::DeleteBranch,
            SyncStage::Fetch,
            SyncStage::ListRemoteHeads,
            SyncStage::FindCommit,
            SyncStage::CreateBranch,
            SyncStage::CheckoutBranch,
            SyncStage::Done,
        ]
    );
}

#[test]
fn replaces_a_stale_branch_of_the_same_name() {
    let mut r = repo("other", &[("main", "c0"), ("other", "c1"), ("foo_1.0.0_#42", "old")]);
    let (stage, _, _) = sync(&mut r, &session(42));
    assert_eq!(stage, SyncStage::Done);
    assert_eq!(r.head.as_deref(), Some("foo_1.0.0_#42"));
    assert_eq!(r.branches["foo_1.0.0_#42"], "c42");
    assert_eq!(r.branches["other"], "c1");
}

#[test]
fn an_unknown_pull_request_fails_the_fetch_and_undoes_nothing() {
    let mut r = repo("foo_1.0.0_#7", &[("main", "c0"), ("foo_1.0.0_#7", "old")]);
    let (stage, fault, _) = sync(&mut r, &session(7));
    assert_eq!((stage, fault), (SyncStage::Failed, Some(SyncFault::FetchError)));
    assert_eq!(r, repo("main", &[("main", "c0")]));
}

fn at(stage: SyncStage) -> Synchronizer {
    let mut job = Synchronizer::new(&session(42));
    let heads = || {
        SyncEvent::RemoteHeads(vec![RemoteHead {
            name: "refs/pull/42/head".to_string(),
            commit: "c42".to_string(),
        }])
    };
    while job.stage() != stage {
        let event = match job.stage() {
            SyncStage::ReadHead => SyncEvent::Head(None),
            SyncStage::ListBranches => SyncEvent::Branches(vec![Some("foo_1.0.0_#42".to_string())]),
            SyncStage::ListRemoteHeads => heads(),
            _ => SyncEvent::Succeeded,
        };
        job = job.step(event);
    }
    job
}

#[test]
fn every_operation_fails_with_its_fault() {
    let cases = [
        (SyncStage::OpenRepository, SyncFault::RepositoryNotFound),
        (SyncStage::ReadHead, SyncFault::BranchNotResolvable),
        (SyncStage::CheckoutPrimary, SyncFault::BranchNotResolvable),
        (SyncStage::ListBranches, SyncFault::BranchNotResolvable),
        (SyncStage::DeleteBranch, SyncFault::InvalidRef),
        (SyncStage::Fetch, SyncFault::FetchError),
        (SyncStage::ListRemoteHeads, SyncFault::InvariantViolation),
        (SyncStage::FindCommit, SyncFault::InvariantViolation),
        (SyncStage::CreateBranch, SyncFault::InvalidRef),
        (SyncStage::CheckoutBranch, SyncFault::BranchNotResolvable),
    ];
    for (stage, fault) in cases {
        let job = at(stage).step(SyncEvent::Failed);
        assert_eq!(job.stage(), SyncStage::Failed);
        assert_eq!(job.fault(), Some(fault));
        let job = job.step(SyncEvent::Succeeded);
        assert_eq!(job.stage(), SyncStage::Failed);
        assert!(!fault.message().is_empty());
    }
    assert_eq!(SyncFault::RepositoryNotFound.message(), "repository not found");
}

#[test]
fn a_fetched_head_that_the_remote_does_not_list_is_a_violation() {
    let job = at(SyncStage::ListRemoteHeads).step(SyncEvent::RemoteHeads(vec![RemoteHead {
        name: "refs/pull/4/head".to_string(),
        commit: "c4".to_string(),
    }]));
    assert_eq!(job.stage(), SyncStage::Failed);
    assert_eq!(job.fault(), Some(SyncFault::InvariantViolation));
    let job = at(SyncStage::ListRemoteHeads).step(SyncEvent::RemoteHeads(vec![]));
    assert_eq!(job.fault(), Some(SyncFault::InvariantViolation));
}

#[test]
fn takes_the_first_head_of_the_name() {
    let head = |name: &str, commit: &str| RemoteHead {
        name: name.to_string(),
        commit: commit.to_string(),
    };
    let heads = vec![
        head("HEAD", "c0"),
        head("refs/pull/42/head", "first"),
        head("refs/pull/42/merge", "m"),
        head("refs/pull/42/head", "second"),
    ];
    assert_eq!(find_head(&heads, "refs/pull/42/head"), 1);
    assert_eq!(find_head(&heads, "refs/pull/43/head"), 4);
    let job = at(SyncStage::ListRemoteHeads).step(SyncEvent::RemoteHeads(heads));
    assert_eq!(job.stage(), SyncStage::FindCommit);
    assert_eq!(job.commit(), Some("first"));
}

#[test]
fn stays_on_the_primary_branch_when_it_is_there() {
    let job = at(SyncStage::ReadHead).step(SyncEvent::Head(Some("main".to_string())));
    assert_eq!(job.stage(), SyncStage::ListBranches);
    let job = at(SyncStage::ReadHead).step(SyncEvent::Head(Some("refs/heads/main".to_string())));
    assert_eq!(job.stage(), SyncStage::CheckoutPrimary);
    let job = at(SyncStage::ReadHead).step(SyncEvent::Head(None));
    assert_eq!(job.stage(), SyncStage::CheckoutPrimary);
    assert!(on_primary(&Some("main".to_string())));
    assert!(!on_primary(&Some("mai".to_string())));
    assert!(!on_primary(&None));
}

#[test]
fn deletes_only_a_branch_of_the_session() {
    let names = vec![Some("main".to_string()), None, Some("foo_1.0.0_#4".to_string())];
    let job = at(SyncStage::ListBranches).step(SyncEvent::Branches(names.clone()));
    assert_eq!(job.stage(), SyncStage::Fetch);
    assert!(!has_branch(&names, "foo_1.0.0_#42"));
    assert!(has_branch(&names, "foo_1.0.0_#4"));
    assert!(has_branch(&names, "main"));
    assert!(!has_branch(&vec![], "main"));
}

#[test]
fn an_event_that_is_no_result_changes_nothing() {
    let job = at(SyncStage::Fetch).step(SyncEvent::Head(None));
    assert_eq!(job.stage(), SyncStage::Fetch);
    let job = job.step(SyncEvent::Branches(vec![]));
    assert_eq!(job.stage(), SyncStage::Fetch);
    let job = at(SyncStage::ReadHead).step(SyncEvent::Succeeded);
    assert_eq!(job.stage(), SyncStage::ReadHead);
    let job = at(SyncStage::Done).step(SyncEvent::Failed);
    assert_eq!(job.stage(), SyncStage::Done);
    assert_eq!(job.fault(), None);
}

#[test]
fn cleaning_removes_all_branches_but_the_primary() {
    let names = vec![
        Some("foo_1.0.0_#4".to_string()),
        Some("main".to_string()),
        None,
        Some("bar_2.0.0_#5".to_string()),
        Some("main2".to_string()),
    ];
    assert_eq!(stale_branches(&names), vec!["foo_1.0.0_#4", "bar_2.0.0_#5", "main2"]);
    assert!(stale_branches(&vec![Some("main".to_string())]).is_empty());
}
