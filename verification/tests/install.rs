use package_review::exclude::ExcludeFilter;
use package_review::install::{
    cache_dir, package_dir, select_files, target_dir, CopyOutcome, InstallError, InstallEvent,
    InstallFault, InstallOutcome, InstallStage, Installer, SourceEntry,
};
use package_review::session::Package;
use std::collections::BTreeSet;

const FOO: Package<'static> = Package { name: "foo", vers: "1.0.0" };

fn manifest(excludes: &[&str]) -> String {
    let list: Vec<String> = excludes.iter().map(|e| format!("{:?}", e)).collect();
    format!(
        "[package]\nname = \"foo\"\nversion = \"1.0.0\"\nentrypoint = \"lib.typ\"\nexclude = [{}]\n",
        list.join(", ")
    )
}

fn file(path: &[&str]) -> SourceEntry {
    SourceEntry { path: path.iter().map(|s| s.to_string()).collect(), is_file: true }
}

fn dir(path: &[&str]) -> SourceEntry {
    SourceEntry { path: path.iter().map(|s| s.to_string()).collect(), is_file: false }
}

fn listing(paths: &[&str]) -> Vec<SourceEntry> {
    let mut entries = vec![dir(&[])];
    for p in paths {
        let parts: Vec<&str> = p.split('/').collect();
        if p.ends_with('/') {
            entries.push(dir(&parts[..parts.len() - 1]));
        } else {
            entries.push(file(&parts));
        }
    }
    entries
}

/// Runs an installation on a disk where every operation succeeds; `target`
/// holds the files of the target tree by their paths below it.
fn install(
    text: Option<&str>,
    source: &[&str],
    target: &mut BTreeSet<String>,
) -> Result<usize, InstallError> {
    let mut job = Installer::new(&FOO, "packages", "/data");
    let mut copies = 0;
    loop {
        let event = match job.stage() {
            InstallStage::ReadManifest => InstallEvent::ManifestRead(text.map(|t| t.to_string())),
            InstallStage::ClearTarget => {
                target.clear();
                InstallEvent::TargetCleared(true)
            }
            InstallStage::ListSource => InstallEvent::SourceListed(Some(listing(source))),
            InstallStage::CopyFile => {
                let from = job.copy_source().unwrap();
                let to = job.copy_target().unwrap();
                assert_eq!(from[..5], ["packages", "packages", "preview", "foo", "1.0.0"]);
                assert_eq!(to[..6], ["/data", "typst", "packages", "preview", "foo", "1.0.0"]);
                assert_eq!(from[5..], to[6..]);
                target.insert(to[6..].join("/"));
                copies += 1;
                InstallEvent::FileCopied(CopyOutcome::Copied)
            }
            InstallStage::Done | InstallStage::Failed => break,
        };
        job = job.step(event);
    }
    match job.finish() {
        InstallOutcome::Installed(_) => Ok(copies),
        InstallOutcome::Failed(e) => Err(e),
        InstallOutcome::Unfinished(_) => panic!("the installation has ended"),
    }
}

fn set(items: &[&str]) -> BTreeSet<String> {
    items.iter().map(|s| s.to_string()).collect()
}

#[test]
fn places_packages_in_repository_and_cache() {
    assert_eq!(
        package_dir("packages", &FOO),
        vec!["packages", "packages", "preview", "foo", "1.0.0"]
    );
    assert_eq!(cache_dir("/data"), vec!["/data", "typst", "packages", "preview"]);
    assert_eq!(
        target_dir("/data", &FOO),
        vec!["/data", "typst", "packages", "preview", "foo", "1.0.0"]
    );
    let job = Installer::new(&FOO, "repo", "/cache");
    assert_eq!(job.stage(), InstallStage::ReadManifest);
    assert_eq!(*job.package_dir(), vec!["repo", "packages", "preview", "foo", "1.0.0"]);
    assert_eq!(
        *job.target_dir(),
        vec!["/cache", "typst", "packages", "preview", "foo", "1.0.0"]
    );
    assert_eq!(
        job.manifest_path(),
        vec!["repo", "packages", "preview", "foo", "1.0.0", "typst.toml"]
    );
    assert!(job.copy_source().is_none());
    assert!(job.copy_target().is_none());
    assert!(job.copy_index().is_none());
}

#[test]
fn tells_which_entry_of_the_listing_to_copy() {
    let mut job = Installer::new(&FOO, "packages", "/data")
        .step(InstallEvent::ManifestRead(Some(manifest(&["*.md"]))))
        .step(InstallEvent::TargetCleared(true))
        .step(InstallEvent::SourceListed(Some(listing(&[
            "a.typ", "b.md", "docs/", "docs/c.typ", "docs/d.md", "e.typ",
        ]))));
    let mut copied = vec![];
    while job.stage() == InstallStage::CopyFile {
        copied.push(job.copy_index().unwrap());
        job = job.step(InstallEvent::FileCopied(CopyOutcome::Copied));
    }
    assert_eq!(copied, vec![1, 4, 6]);
    assert_eq!(job.stage(), InstallStage::Done);
    assert!(job.copy_index().is_none());
}

#[test]
fn installs_the_files_that_are_not_excluded() {
    let mut target = BTreeSet::new();
    let source = [
        "typst.toml", "lib.typ", "docs/", "docs/guide.md", "img/", "img/logo.png", "src/",
        "src/util.typ", "src/draft.png",
    ];
    let copies = install(Some(&manifest(&["docs", "*.png"])), &source, &mut target).unwrap();
    assert_eq!(copies, 3);
    assert_eq!(target, set(&["typst.toml", "lib.typ", "src/util.typ"]));
}

#[test]
fn installs_everything_without_excludes() {
    let mut target = BTreeSet::new();
    let source = ["typst.toml", "lib.typ", "docs/", "docs/guide.md"];
    assert_eq!(install(Some(&manifest(&[])), &source, &mut target).unwrap(), 3);
    assert_eq!(target, set(&["typst.toml", "lib.typ", "docs/guide.md"]));
}

#[test]
fn installs_nothing_from_an_empty_package() {
    let mut target = set(&["stale.typ"]);
    assert_eq!(install(Some(&manifest(&[])), &[], &mut target).unwrap(), 0);
    assert!(target.is_empty());
}

#[test]
fn a_second_installation_replaces_the_first() {
    let mut target = BTreeSet::new();
    let text = manifest(&["*.bak"]);
    install(Some(&text), &["typst.toml", "a.typ", "b.typ", "old.bak"], &mut target).unwrap();
    assert_eq!(target, set(&["typst.toml", "a.typ", "b.typ"]));
    install(Some(&text), &["typst.toml", "b.typ", "c.typ", "new.bak"], &mut target).unwrap();
    assert_eq!(target, set(&["typst.toml", "b.typ", "c.typ"]));
}

#[test]
fn more_excludes_install_no_more() {
    let source = ["typst.toml", "a.typ", "docs/", "docs/x.md", "img/", "img/y.png"];
    let mut with_fewer = BTreeSet::new();
    let mut with_more = BTreeSet::new();
    install(Some(&manifest(&["docs"])), &source, &mut with_fewer).unwrap();
    install(Some(&manifest(&["docs", "*.png"])), &source, &mut with_more).unwrap();
    assert_eq!(with_fewer, set(&["typst.toml", "a.typ", "img/y.png"]));
    assert_eq!(with_more, set(&["typst.toml", "a.typ"]));
    assert!(with_more.is_subset(&with_fewer));
}

#[test]
fn a_negated_exclude_fails_before_anything_is_touched() {
    for excludes in [&["!keep.md"][..], &["docs", "!docs/keep.md"][..], &["!a", "!b"][..]] {
        let mut target = set(&["installed/before.typ"]);
        let err = install(Some(&manifest(excludes)), &["typst.toml", "keep.md"], &mut target)
            .unwrap_err();
        assert_eq!(err.kind, InstallFault::InvalidExcludePattern);
        assert!(err.subject.starts_with('!'));
        assert_eq!(target, set(&["installed/before.typ"]));
    }
    let job = Installer::new(&FOO, "packages", "/data");
    let job = job.step(InstallEvent::ManifestRead(Some(manifest(&["!keep.md"]))));
    assert_eq!(job.stage(), InstallStage::Failed);
    let job = job.step(InstallEvent::TargetCleared(true));
    let job = job.step(InstallEvent::SourceListed(Some(listing(&["a.typ"]))));
    let job = job.step(InstallEvent::FileCopied(CopyOutcome::Copied));
    assert_eq!(job.stage(), InstallStage::Failed);
    assert!(job.copy_source().is_none());
}

#[test]
fn a_missing_or_invalid_manifest_stops_the_installation() {
    let mut target = set(&["before.typ"]);
    let err = install(None, &["lib.typ"], &mut target).unwrap_err();
    assert_eq!(err.kind, InstallFault::ManifestMissing);
    assert_eq!(err.message(), "failed to read package manifest");
    let err = install(Some("[package]"), &["lib.typ"], &mut target).unwrap_err();
    assert_eq!(err.kind, InstallFault::ManifestInvalid);
    let err = install(Some(&manifest(&["a["])), &["lib.typ"], &mut target).unwrap_err();
    assert_eq!(err.kind, InstallFault::InvalidExcludeGlob);
    assert_eq!(err.subject, "a[");
    assert_eq!(target, set(&["before.typ"]));
}

fn failure(job: Installer) -> InstallError {
    assert_eq!(job.stage(), InstallStage::Failed);
    match job.finish() {
        InstallOutcome::Failed(e) => e,
        _ => panic!("the installation has failed"),
    }
}

#[test]
fn a_failing_operation_stops_the_installation() {
    let read = || {
        Installer::new(&FOO, "packages", "/data")
            .step(InstallEvent::ManifestRead(Some(manifest(&[]))))
    };
    let err = failure(read().step(InstallEvent::TargetCleared(false)));
    assert_eq!(err.kind, InstallFault::RemovalFailed);
    assert_eq!(err.message(), "failed to remove existing package");

    let cleared = || read().step(InstallEvent::TargetCleared(true));
    let err = failure(cleared().step(InstallEvent::SourceListed(None)));
    assert_eq!(err.kind, InstallFault::TraversalFailed);
    assert_eq!(err.message(), "failed to traverse");

    let listed =
        || cleared().step(InstallEvent::SourceListed(Some(listing(&["a.typ", "src/", "src/b.typ"]))));
    let copying = || listed().step(InstallEvent::FileCopied(CopyOutcome::Copied));
    assert_eq!(
        copying().copy_source().unwrap(),
        vec!["packages", "packages", "preview", "foo", "1.0.0", "src", "b.typ"]
    );
    let err = failure(copying().step(InstallEvent::FileCopied(CopyOutcome::CreateDirFailed)));
    assert_eq!(err.kind, InstallFault::CreateDirFailed);
    assert_eq!(err.subject, "/data/typst/packages/preview/foo/1.0.0/src");
    assert_eq!(
        err.message(),
        "failed to create parent directory `/data/typst/packages/preview/foo/1.0.0/src`"
    );
    let err = failure(copying().step(InstallEvent::FileCopied(CopyOutcome::CopyFailed)));
    assert_eq!(err.kind, InstallFault::CopyFailed);
    assert_eq!(
        err.message(),
        "failed to copy to `/data/typst/packages/preview/foo/1.0.0/src/b.typ`"
    );
}

#[test]
fn an_answer_to_another_step_changes_nothing() {
    let job = Installer::new(&FOO, "packages", "/data");
    let job = job.step(InstallEvent::TargetCleared(true));
    let job = job.step(InstallEvent::FileCopied(CopyOutcome::Copied));
    let job = job.step(InstallEvent::SourceListed(None));
    assert_eq!(job.stage(), InstallStage::ReadManifest);
    let job = job.step(InstallEvent::ManifestRead(Some(manifest(&[]))));
    assert_eq!(job.stage(), InstallStage::ClearTarget);
    let job = job.step(InstallEvent::ManifestRead(None));
    assert_eq!(job.stage(), InstallStage::ClearTarget);
    match job.finish() {
        InstallOutcome::Unfinished(job) => assert_eq!(job.stage(), InstallStage::ClearTarget),
        _ => panic!("the installation has not ended"),
    }
}

#[test]
fn hands_the_manifest_on() {
    let text = "[package]\nname = \"foo\"\nversion = \"1.0.0\"\nentrypoint = \"lib.typ\"\n\
                [template]\npath = \"t\"\nentrypoint = \"main.typ\"\n";
    let job = Installer::new(&FOO, "packages", "/data")
        .step(InstallEvent::ManifestRead(Some(text.to_string())))
        .step(InstallEvent::TargetCleared(true))
        .step(InstallEvent::SourceListed(Some(vec![])));
    assert_eq!(job.stage(), InstallStage::Done);
    match job.finish() {
        InstallOutcome::Installed(m) => assert_eq!(m.template.unwrap().entrypoint, "main.typ"),
        _ => panic!("the installation is done"),
    }
}

#[test]
fn selects_files_in_listing_order() {
    let filter = ExcludeFilter::compile(&vec!["*.md".to_string()]).unwrap();
    let entries = listing(&["a.typ", "b.md", "docs/", "docs/c.typ", "docs/d.md", "e.typ"]);
    assert_eq!(select_files(&filter, &entries), vec![1, 4, 6]);
    assert_eq!(select_files(&filter, &vec![]), Vec::<usize>::new());
}
