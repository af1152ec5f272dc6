//! Installing a package: where it is read from, where it goes, and which of
//! its files are copied.

use crate::exclude::{
    excluded, first_rejected, is_negated, lemma_excluded_monotonic, lemma_first_rejected,
    pattern_fault, ExcludeFilter,
};
use crate::manifest::{manifest_of, parse_manifest, Manifest};
use crate::session::{Package, PackageView};
use crate::text::{concat_strings, join, join_strings, quoted, views};
use vstd::prelude::*;

verus! {

/// Why an installation stopped.
#[derive(Clone, Copy, Debug, PartialEq, Eq, Structural)]
pub enum InstallFault {
    /// The manifest could not be read.
    ManifestMissing,
    /// The manifest does not follow the schema.
    ManifestInvalid,
    /// An exclude pattern begins with `!`.
    InvalidExcludePattern,
    /// An exclude pattern is not a valid glob.
    InvalidExcludeGlob,
    /// The previous installation could not be removed.
    RemovalFailed,
    /// The package directory could not be listed.
    TraversalFailed,
    /// A directory of the target tree could not be created.
    CreateDirFailed,
    /// A file could not be copied.
    CopyFailed,
}

/// A failed installation: the fault and the pattern or path it concerns
/// (empty where the fault has none).
#[derive(Debug)]
pub struct InstallError {
    pub kind: InstallFault,
    pub subject: String,
}

/// The text that tells a user why an installation stopped.
pub open spec fn install_message(kind: InstallFault, subject: Seq<char>) -> Seq<char> {
    match kind {
        InstallFault::ManifestMissing => "failed to read package manifest"@,
        InstallFault::ManifestInvalid => "failed to parse package manifest"@,
        InstallFault::InvalidExcludePattern => "exclude globs cannot start with `!` - `"@ + subject
            + "`"@,
        InstallFault::InvalidExcludeGlob => "invalid exclude glob"@,
        InstallFault::RemovalFailed => "failed to remove existing package"@,
        InstallFault::TraversalFailed => "failed to traverse"@,
        InstallFault::CreateDirFailed => "failed to create parent directory `"@ + subject + "`"@,
        InstallFault::CopyFailed => "failed to copy to `"@ + subject + "`"@,
    }
}

impl InstallError {
    /// The error as a sentence for the user.
    pub fn message(&self) -> (r: String)
        ensures
            r@ == install_message(self.kind, self.subject@),
    {
        let subject = self.subject.as_str();
        match self.kind {
            InstallFault::ManifestMissing => String::from_str("failed to read package manifest"),
            InstallFault::ManifestInvalid => String::from_str("failed to parse package manifest"),
            InstallFault::InvalidExcludePattern => quoted(
                "exclude globs cannot start with `!` - `",
                subject,
            ),
            InstallFault::InvalidExcludeGlob => String::from_str("invalid exclude glob"),
            InstallFault::RemovalFailed => String::from_str("failed to remove existing package"),
            InstallFault::TraversalFailed => String::from_str("failed to traverse"),
            InstallFault::CreateDirFailed => quoted("failed to create parent directory `", subject),
            InstallFault::CopyFailed => quoted("failed to copy to `", subject),
        }
    }
}

/// The components of the directory that holds a package in the checked-out
/// repository.
pub open spec fn package_dir_of(source_root: Seq<char>, package: PackageView) -> Seq<Seq<char>> {
    seq![source_root, "packages"@, "preview"@, package.name, package.vers]
}

/// The components of the directory below the cache root that holds every
/// installed package.
pub open spec fn cache_dir_of(cache_root: Seq<char>) -> Seq<Seq<char>> {
    seq![cache_root, "typst"@, "packages"@, "preview"@]
}

/// The components of the directory that a package is installed into.
pub open spec fn target_dir_of(cache_root: Seq<char>, package: PackageView) -> Seq<Seq<char>> {
    cache_dir_of(cache_root) + seq![package.name, package.vers]
}

/// The directory of a package below the repository at `source_root`.
pub fn package_dir(source_root: &str, package: &Package) -> (r: Vec<String>)
    ensures
        views(r@) == package_dir_of(source_root@, package@),
{
    let mut dir: Vec<String> = Vec::new();
    dir.push(String::from_str(source_root));
    dir.push(String::from_str("packages"));
    dir.push(String::from_str("preview"));
    dir.push(String::from_str(package.name));
    dir.push(String::from_str(package.vers));
    assert(views(dir@) =~= package_dir_of(source_root@, package@));
    dir
}

/// The directory of all installed packages below `cache_root`.
pub fn cache_dir(cache_root: &str) -> (r: Vec<String>)
    ensures
        views(r@) == cache_dir_of(cache_root@),
{
    let mut dir: Vec<String> = Vec::new();
    dir.push(String::from_str(cache_root));
    dir.push(String::from_str("typst"));
    dir.push(String::from_str("packages"));
    dir.push(String::from_str("preview"));
    assert(views(dir@) =~= cache_dir_of(cache_root@));
    dir
}

/// The directory that a package is installed into below `cache_root`.
pub fn target_dir(cache_root: &str, package: &Package) -> (r: Vec<String>)
    ensures
        views(r@) == target_dir_of(cache_root@, package@),
{
    let mut dir = cache_dir(cache_root);
    dir.push(String::from_str(package.name));
    dir.push(String::from_str(package.vers));
    assert(views(dir@) =~= target_dir_of(cache_root@, package@));
    dir
}

/// One entry found below a package directory.
#[derive(Debug)]
pub struct SourceEntry {
    /// The components of its path, relative to the package directory.
    pub path: Vec<String>,
    /// Whether it is a regular file.
    pub is_file: bool,
}

/// An entry as plain values.
pub struct EntryView {
    pub path: Seq<Seq<char>>,
    pub is_file: bool,
}

impl View for SourceEntry {
    type V = EntryView;

    open spec fn view(&self) -> EntryView {
        EntryView { path: views(self.path@), is_file: self.is_file }
    }
}

/// The views of a listing.
pub open spec fn entry_views(entries: Seq<SourceEntry>) -> Seq<EntryView> {
    Seq::new(entries.len(), |i: int| entries[i]@)
}

/// Whether an entry is installed: it is a regular file and the exclude
/// patterns do not leave it out.
pub open spec fn installs(patterns: Seq<Seq<char>>, entry: EntryView) -> bool {
    entry.is_file && !excluded(patterns, entry.path, false)
}

/// The positions, in order, of the entries of a listing that are installed.
pub open spec fn selection(patterns: Seq<Seq<char>>, entries: Seq<EntryView>) -> Seq<int>
    decreases entries.len(),
{
    if entries.len() == 0 {
        Seq::empty()
    } else {
        let before = selection(patterns, entries.drop_last());
        if installs(patterns, entries.last()) {
            before.push(entries.len() - 1)
        } else {
            before
        }
    }
}

/// The selection holds exactly the positions of the installed entries,
/// each once and in increasing order.
pub proof fn lemma_selection(patterns: Seq<Seq<char>>, entries: Seq<EntryView>)
    ensures
        forall|k: int|
            0 <= k < selection(patterns, entries).len() ==> {
                &&& 0 <= #[trigger] selection(patterns, entries)[k] < entries.len()
                &&& installs(patterns, entries[selection(patterns, entries)[k]])
            },
        forall|k: int, l: int|
            0 <= k < l < selection(patterns, entries).len() ==> selection(patterns, entries)[k]
                < selection(patterns, entries)[l],
        forall|i: int|
            0 <= i < entries.len() && installs(patterns, #[trigger] entries[i]) ==> selection(
                patterns,
                entries,
            ).contains(i),
        selection(patterns, entries).len() <= entries.len(),
    decreases entries.len(),
{
    if entries.len() > 0 {
        let init = entries.drop_last();
        let before = selection(patterns, init);
        let all = selection(patterns, entries);
        lemma_selection(patterns, init);
        assert forall|i: int| 0 <= i < entries.len() && installs(patterns, #[trigger] entries[i])
            implies all.contains(i) by {
            if i < entries.len() - 1 {
                assert(init[i] == entries[i]);
                assert(before.contains(i));
                let k = choose|k: int| 0 <= k < before.len() && before[k] == i;
                assert(all[k] == i);
            } else {
                assert(all[all.len() - 1] == i);
            }
        }
        assert forall|k: int| 0 <= k < all.len() implies {
            &&& 0 <= #[trigger] all[k] < entries.len()
            &&& installs(patterns, entries[all[k]])
        } by {
            if k < before.len() {
                assert(init[before[k]] == entries[before[k]]);
            }
        }
    }
}

/// An entry is selected exactly if it is installed.
pub proof fn lemma_selected_are_installed(patterns: Seq<Seq<char>>, entries: Seq<EntryView>)
    ensures
        forall|i: int|
            0 <= i < entries.len() ==> (selection(patterns, entries).contains(i) <==> installs(
                patterns,
                #[trigger] entries[i],
            )),
{
    let queue = selection(patterns, entries);
    lemma_selection(patterns, entries);
    assert forall|i: int| 0 <= i < entries.len() && queue.contains(i) implies installs(
        patterns,
        #[trigger] entries[i],
    ) by {
        let k = choose|k: int| 0 <= k < queue.len() && queue[k] == i;
        assert(installs(patterns, entries[queue[k]]));
    }
}

/// More exclude patterns never add a file: what is installed under
/// patterns that include `fewer` is installed under `fewer` too.
pub proof fn lemma_selection_monotonic(
    fewer: Seq<Seq<char>>,
    more: Seq<Seq<char>>,
    entries: Seq<EntryView>,
)
    requires
        forall|i: int| 0 <= i < fewer.len() ==> more.contains(#[trigger] fewer[i]),
    ensures
        forall|i: int| #[trigger]
            selection(more, entries).contains(i) ==> selection(fewer, entries).contains(i),
{
    lemma_selection(fewer, entries);
    lemma_selection(more, entries);
    assert forall|i: int| #[trigger] selection(more, entries).contains(i) implies selection(
        fewer,
        entries,
    ).contains(i) by {
        let k = choose|k: int| 0 <= k < selection(more, entries).len() && selection(more, entries)[k] == i;
        assert(installs(more, entries[selection(more, entries)[k]]));
        if excluded(fewer, entries[i].path, false) {
            lemma_excluded_monotonic(fewer, more, entries[i].path, false);
        }
        assert(installs(fewer, entries[i]));
    }
}

/// The positions of a `Vec` of positions.
pub open spec fn positions(queue: Seq<usize>) -> Seq<int> {
    Seq::new(queue.len(), |k: int| queue[k] as int)
}

/// Picks the entries of a listing that are installed: the regular files
/// that the filter does not leave out, by position and in listing order.
pub fn select_files(filter: &ExcludeFilter, entries: &Vec<SourceEntry>) -> (r: Vec<usize>)
    ensures
        positions(r@) == selection(filter.patterns(), entry_views(entries@)),
        forall|i: int|
            0 <= i < entries@.len() ==> (positions(r@).contains(i) <==> installs(
                filter.patterns(),
                #[trigger] entries@[i]@,
            )),
{
    proof {
        lemma_selected_are_installed(filter.patterns(), entry_views(entries@));
    }
    let mut queue: Vec<usize> = Vec::new();
    let n: usize = entries.len();
    let mut i: usize = 0;
    let ghost all = entry_views(entries@);
    assert(all.take(0) =~= Seq::<EntryView>::empty());
    assert(positions(queue@) =~= Seq::<int>::empty());
    while i < n
        invariant
            i <= n,
            n == entries@.len(),
            all == entry_views(entries@),
            positions(queue@) == selection(filter.patterns(), all.take(i as int)),
        decreases n - i,
    {
        let ghost before = positions(queue@);
        assert(all.take(i as int + 1).drop_last() =~= all.take(i as int));
        assert(all.take(i as int + 1).last() == entries@[i as int]@);
        if entries[i].is_file && !filter.excludes(&entries[i].path, false) {
            queue.push(i);
            assert(positions(queue@) =~= before.push(i as int));
        }
        i += 1;
    }
    assert(all.take(n as int) =~= all);
    assert forall|i: int| 0 <= i < entries@.len() implies (positions(queue@).contains(i)
        <==> installs(filter.patterns(), #[trigger] entries@[i]@)) by {
        assert(all[i] == entries@[i]@);
    }
    queue
}

/// The step that an installation waits for.
#[derive(Clone, Copy, Debug, PartialEq, Eq, Structural)]
pub enum InstallStage {
    /// Read the file at `manifest_path`.
    ReadManifest,
    /// Remove the directory at `target_dir` with all it holds, if it exists.
    ClearTarget,
    /// List what lies below `package_dir`.
    ListSource,
    /// Copy the file at `copy_source` to `copy_target`, creating the
    /// directories above the target.
    CopyFile,
    /// Every file is copied.
    Done,
    /// The installation has stopped with an error.
    Failed,
}

/// How copying one file ended.
#[derive(Clone, Copy, Debug, PartialEq, Eq, Structural)]
pub enum CopyOutcome {
    Copied,
    CreateDirFailed,
    CopyFailed,
}

/// The answer to a step.
#[derive(Debug)]
pub enum InstallEvent {
    /// The manifest's text, or `None` if it could not be read.
    ManifestRead(Option<String>),
    /// Whether the target directory is gone.
    TargetCleared(bool),
    /// The entries below the package directory, or `None` if listing failed.
    SourceListed(Option<Vec<SourceEntry>>),
    /// How the copy ended.
    FileCopied(CopyOutcome),
}

/// An answer as plain values.
pub enum InstallEventView {
    ManifestRead(Option<Seq<char>>),
    TargetCleared(bool),
    SourceListed(Option<Seq<EntryView>>),
    FileCopied(CopyOutcome),
}

impl View for InstallEvent {
    type V = InstallEventView;

    open spec fn view(&self) -> InstallEventView {
        match self {
            InstallEvent::ManifestRead(Some(text)) => InstallEventView::ManifestRead(Some(text@)),
            InstallEvent::ManifestRead(None) => InstallEventView::ManifestRead(None),
            InstallEvent::TargetCleared(ok) => InstallEventView::TargetCleared(*ok),
            InstallEvent::SourceListed(Some(entries)) => InstallEventView::SourceListed(
                Some(entry_views(entries@)),
            ),
            InstallEvent::SourceListed(None) => InstallEventView::SourceListed(None),
            InstallEvent::FileCopied(outcome) => InstallEventView::FileCopied(*outcome),
        }
    }
}

/// The state of an installation as plain values.
pub struct InstallView {
    pub stage: InstallStage,
    pub package_dir: Seq<Seq<char>>,
    pub target_dir: Seq<Seq<char>>,
    /// The exclude patterns and the template entrypoint of the manifest,
    /// once it is read and its patterns are accepted.
    pub manifest: Option<(Seq<Seq<char>>, Option<Seq<char>>)>,
    /// The listing of the package directory, once it is there.
    pub entries: Seq<EntryView>,
    /// How many of the selected files are copied.
    pub copied: int,
    /// The fault and its subject, once the installation has failed.
    pub error: Option<(InstallFault, Seq<char>)>,
}

impl InstallView {
    /// The exclude patterns in force.
    pub open spec fn patterns(self) -> Seq<Seq<char>> {
        match self.manifest {
            Some((patterns, _)) => patterns,
            None => Seq::empty(),
        }
    }

    /// The positions of the files to copy.
    pub open spec fn queue(self) -> Seq<int> {
        selection(self.patterns(), self.entries)
    }

    /// The path, below the package directory, of the file to copy next.
    pub open spec fn current_file(self) -> Seq<Seq<char>> {
        self.entries[self.queue()[self.copied]].path
    }

    /// This state, stopped with an error.
    pub open spec fn fail(self, fault: InstallFault, subject: Seq<char>) -> InstallView {
        InstallView { stage: InstallStage::Failed, error: Some((fault, subject)), ..self }
    }

    /// `CopyFile` while a selected file is left, else `Done`.
    pub open spec fn copy_or_done(self) -> InstallView {
        InstallView {
            stage: if self.copied < self.queue().len() {
                InstallStage::CopyFile
            } else {
                InstallStage::Done
            },
            ..self
        }
    }
}

/// A path without its last component.
pub open spec fn parent_of(path: Seq<Seq<char>>) -> Seq<Seq<char>> {
    if path.len() > 0 {
        path.drop_last()
    } else {
        path
    }
}

/// The state of an installation that has not begun.
pub open spec fn install_start(
    source_root: Seq<char>,
    cache_root: Seq<char>,
    package: PackageView,
) -> InstallView {
    InstallView {
        stage: InstallStage::ReadManifest,
        package_dir: package_dir_of(source_root, package),
        target_dir: target_dir_of(cache_root, package),
        manifest: None,
        entries: Seq::empty(),
        copied: 0,
        error: None,
    }
}

/// The state that follows when `event` answers the step that `s` waits
/// for. An event that does not answer that step changes nothing.
///
/// The manifest is parsed and its exclude patterns are compiled before the
/// target is touched; the target is cleared before the source is listed;
/// the files that `selection` picks are copied in listing order; the first
/// failure stops the installation.
pub open spec fn install_step(s: InstallView, event: InstallEventView) -> InstallView {
    match (s.stage, event) {
        (InstallStage::ReadManifest, InstallEventView::ManifestRead(None)) => s.fail(
            InstallFault::ManifestMissing,
            Seq::empty(),
        ),
        (InstallStage::ReadManifest, InstallEventView::ManifestRead(Some(text))) => match manifest_of(
            text,
        ) {
            None => s.fail(InstallFault::ManifestInvalid, Seq::empty()),
            Some((patterns, entrypoint)) => match first_rejected(patterns) {
                Some(i) => s.fail(pattern_fault(patterns[i]), patterns[i]),
                None => InstallView {
                    stage: InstallStage::ClearTarget,
                    manifest: Some((patterns, entrypoint)),
                    ..s
                },
            },
        },
        (InstallStage::ClearTarget, InstallEventView::TargetCleared(ok)) => if ok {
            InstallView { stage: InstallStage::ListSource, ..s }
        } else {
            s.fail(InstallFault::RemovalFailed, Seq::empty())
        },
        (InstallStage::ListSource, InstallEventView::SourceListed(None)) => s.fail(
            InstallFault::TraversalFailed,
            Seq::empty(),
        ),
        (InstallStage::ListSource, InstallEventView::SourceListed(Some(entries))) => InstallView {
            entries,
            copied: 0,
            ..s
        }.copy_or_done(),
        (InstallStage::CopyFile, InstallEventView::FileCopied(outcome)) => match outcome {
            CopyOutcome::Copied => InstallView { copied: s.copied + 1, ..s }.copy_or_done(),
            CopyOutcome::CreateDirFailed => s.fail(
                InstallFault::CreateDirFailed,
                join(parent_of(s.target_dir + s.current_file()), seq!['/']),
            ),
            CopyOutcome::CopyFailed => s.fail(
                InstallFault::CopyFailed,
                join(s.target_dir + s.current_file(), seq!['/']),
            ),
        },
        _ => s,
    }
}

/// How an installation ended, or that it has not.
#[derive(Debug)]
pub enum InstallOutcome {
    /// Every selected file is copied; the manifest is handed on to testing.
    Installed(Manifest),
    Failed(InstallError),
    Unfinished(Installer),
}

/// The installation of one package, step by step: `stage` says what to do
/// next, `step` takes the answer.
#[derive(Debug)]
pub struct Installer {
    package_dir: Vec<String>,
    target_dir: Vec<String>,
    stage: InstallStage,
    manifest: Option<Manifest>,
    filter: Option<ExcludeFilter>,
    entries: Vec<SourceEntry>,
    queue: Vec<usize>,
    next: usize,
    error: Option<InstallError>,
}

impl View for Installer {
    type V = InstallView;

    closed spec fn view(&self) -> InstallView {
        InstallView {
            stage: self.stage,
            package_dir: views(self.package_dir@),
            target_dir: views(self.target_dir@),
            manifest: match self.manifest {
                Some(m) => Some((m.excludes(), m.entrypoint())),
                None => None,
            },
            entries: entry_views(self.entries@),
            copied: self.next as int,
            error: match self.error {
                Some(e) => Some((e.kind, e.subject@)),
                None => None,
            },
        }
    }
}

impl Installer {
    #[verifier::type_invariant]
    spec fn well_formed(&self) -> bool {
        &&& self.stage == InstallStage::Failed <==> self.error is Some
        &&& self.manifest is Some <==> self.filter is Some
        &&& self.manifest matches Some(m) ==> self.filter->0.patterns() == m.excludes()
        &&& self.stage == InstallStage::ReadManifest ==> self.manifest is None
        &&& (self.stage == InstallStage::ClearTarget || self.stage == InstallStage::ListSource
            || self.stage == InstallStage::CopyFile || self.stage == InstallStage::Done)
            ==> self.manifest is Some
        &&& (self.stage == InstallStage::ReadManifest || self.stage == InstallStage::ClearTarget
            || self.stage == InstallStage::ListSource) ==> self.entries@.len() == 0 && self.next == 0
        &&& (self.stage == InstallStage::CopyFile || self.stage == InstallStage::Done) ==> {
            &&& positions(self.queue@) == selection(self@.patterns(), entry_views(self.entries@))
            &&& self.next <= self.queue@.len()
        }
        &&& self.stage == InstallStage::CopyFile ==> self.next < self.queue@.len()
        &&& self.stage == InstallStage::Done ==> self.next == self.queue@.len()
    }

    /// An installation of `package` from the repository at `source_root`
    /// into the cache at `cache_root`.
    pub fn new(package: &Package, source_root: &str, cache_root: &str) -> (r: Installer)
        ensures
            r@ == install_start(source_root@, cache_root@, package@),
    {
        let r = Installer {
            package_dir: package_dir(source_root, package),
            target_dir: target_dir(cache_root, package),
            stage: InstallStage::ReadManifest,
            manifest: None,
            filter: None,
            entries: Vec::new(),
            queue: Vec::new(),
            next: 0,
            error: None,
        };
        assert(r@.entries =~= Seq::<EntryView>::empty());
        r
    }

    /// The step to perform next.
    pub fn stage(&self) -> (r: InstallStage)
        ensures
            r == self@.stage,
    {
        self.stage
    }

    /// The directory of the package in the repository.
    pub fn package_dir(&self) -> (r: &Vec<String>)
        ensures
            views(r@) == self@.package_dir,
    {
        &self.package_dir
    }

    /// The directory that the package is installed into.
    pub fn target_dir(&self) -> (r: &Vec<String>)
        ensures
            views(r@) == self@.target_dir,
    {
        &self.target_dir
    }

    /// The manifest file of the package.
    pub fn manifest_path(&self) -> (r: Vec<String>)
        ensures
            views(r@) == self@.package_dir.push("typst.toml"@),
    {
        let mut name: Vec<String> = Vec::new();
        name.push(String::from_str("typst.toml"));
        assert(views(name@) =~= seq!["typst.toml"@]);
        let path = concat_strings(&self.package_dir, &name);
        assert(views(path@) =~= self@.package_dir.push("typst.toml"@));
        path
    }

    /// The position in the listing of the file to copy next, while the
    /// installation is at `CopyFile`.
    pub fn copy_index(&self) -> (r: Option<usize>)
        ensures
            match r {
                Some(i) => self@.stage == InstallStage::CopyFile && i == self@.queue()[self@.copied]
                    && i < self@.entries.len(),
                None => self@.stage != InstallStage::CopyFile,
            },
    {
        proof {
            use_type_invariant(self);
        }
        if self.stage == InstallStage::CopyFile {
            proof {
                lemma_selection(self@.patterns(), self@.entries);
                assert(positions(self.queue@)[self.next as int] == self.queue@[self.next as int]);
            }
            Some(self.queue[self.next])
        } else {
            None
        }
    }

    /// The file to copy next, while the installation is at `CopyFile`.
    pub fn copy_source(&self) -> (r: Option<Vec<String>>)
        ensures
            match r {
                Some(path) => self@.stage == InstallStage::CopyFile && views(path@)
                    == self@.package_dir + self@.current_file(),
                None => self@.stage != InstallStage::CopyFile,
            },
    {
        proof {
            use_type_invariant(self);
        }
        if self.stage == InstallStage::CopyFile {
            proof {
                lemma_selection(self@.patterns(), self@.entries);
                assert(positions(self.queue@)[self.next as int] == self.queue@[self.next as int]);
            }
            Some(concat_strings(&self.package_dir, &self.entries[self.queue[self.next]].path))
        } else {
            None
        }
    }

    /// Where the file to copy next goes, while the installation is at `CopyFile`.
    pub fn copy_target(&self) -> (r: Option<Vec<String>>)
        ensures
            match r {
                Some(path) => self@.stage == InstallStage::CopyFile && views(path@)
                    == self@.target_dir + self@.current_file(),
                None => self@.stage != InstallStage::CopyFile,
            },
    {
        proof {
            use_type_invariant(self);
        }
        if self.stage == InstallStage::CopyFile {
            proof {
                lemma_selection(self@.patterns(), self@.entries);
                assert(positions(self.queue@)[self.next as int] == self.queue@[self.next as int]);
            }
            Some(concat_strings(&self.target_dir, &self.entries[self.queue[self.next]].path))
        } else {
            None
        }
    }

    /// This installation, stopped with `error`.
    fn stop(self, error: InstallError) -> (r: Installer)
        ensures
            r@ == self@.fail(error.kind, error.subject@),
    {
        proof {
            use_type_invariant(&self);
        }
        Installer {
            package_dir: self.package_dir,
            target_dir: self.target_dir,
            stage: InstallStage::Failed,
            manifest: self.manifest,
            filter: self.filter,
            entries: self.entries,
            queue: self.queue,
            next: self.next,
            error: Some(error),
        }
    }

    /// This installation with its target cleared.
    fn cleared(self) -> (r: Installer)
        requires
            self@.stage == InstallStage::ClearTarget,
        ensures
            r@ == (InstallView { stage: InstallStage::ListSource, ..self@ }),
    {
        proof {
            use_type_invariant(&self);
        }
        Installer {
            package_dir: self.package_dir,
            target_dir: self.target_dir,
            stage: InstallStage::ListSource,
            manifest: self.manifest,
            filter: self.filter,
            entries: self.entries,
            queue: self.queue,
            next: self.next,
            error: self.error,
        }
    }

    /// Takes the manifest's text: parses it and compiles its exclude patterns.
    fn read(self, text: &str) -> (r: Installer)
        requires
            self@.stage == InstallStage::ReadManifest,
        ensures
            r@ == install_step(self@, InstallEventView::ManifestRead(Some(text@))),
    {
        proof {
            use_type_invariant(&self);
        }
        match parse_manifest(text) {
            Err(e) => self.stop(e),
            Ok(m) => {
                proof {
                    lemma_first_rejected(m.excludes());
                }
                match ExcludeFilter::compile(&m.exclude) {
                    Err(e) => self.stop(e),
                    Ok(f) => {
                        assert(selection(f.patterns(), entry_views(self.entries@)) =~= Seq::<
                            int,
                        >::empty());
                        Installer {
                            package_dir: self.package_dir,
                            target_dir: self.target_dir,
                            stage: InstallStage::ClearTarget,
                            manifest: Some(m),
                            filter: Some(f),
                            entries: self.entries,
                            queue: self.queue,
                            next: self.next,
                            error: self.error,
                        }
                    },
                }
            },
        }
    }

    /// Takes the listing of the package directory and selects the files to copy.
    fn list(self, listing: Vec<SourceEntry>) -> (r: Installer)
        requires
            self@.stage == InstallStage::ListSource,
        ensures
            r@ == install_step(self@, InstallEventView::SourceListed(Some(entry_views(listing@)))),
    {
        proof {
            use_type_invariant(&self);
        }
        match self.filter {
            Some(f) => {
                let queue = select_files(&f, &listing);
                let stage = if queue.len() > 0 {
                    InstallStage::CopyFile
                } else {
                    InstallStage::Done
                };
                Installer {
                    package_dir: self.package_dir,
                    target_dir: self.target_dir,
                    stage,
                    manifest: self.manifest,
                    filter: Some(f),
                    entries: listing,
                    queue,
                    next: 0,
                    error: self.error,
                }
            },
            None => self,
        }
    }

    /// Takes the outcome of copying the current file.
    fn copied(self, outcome: CopyOutcome) -> (r: Installer)
        requires
            self@.stage == InstallStage::CopyFile,
        ensures
            r@ == install_step(self@, InstallEventView::FileCopied(outcome)),
    {
        proof {
            use_type_invariant(&self);
            lemma_selection(self@.patterns(), self@.entries);
            assert(positions(self.queue@)[self.next as int] == self.queue@[self.next as int]);
            reveal_strlit("/");
            assert("/"@ =~= seq!['/']);
        }
        match outcome {
            CopyOutcome::Copied => {
                let len: usize = self.queue.len();
                let next: usize = self.next + 1;
                let stage = if next < len {
                    InstallStage::CopyFile
                } else {
                    InstallStage::Done
                };
                Installer {
                    package_dir: self.package_dir,
                    target_dir: self.target_dir,
                    stage,
                    manifest: self.manifest,
                    filter: self.filter,
                    entries: self.entries,
                    queue: self.queue,
                    next,
                    error: self.error,
                }
            },
            CopyOutcome::CreateDirFailed => {
                let mut path = concat_strings(
                    &self.target_dir,
                    &self.entries[self.queue[self.next]].path,
                );
                let ghost whole = views(path@);
                path.pop();
                assert(views(path@) =~= parent_of(whole));
                let subject = join_strings(&path, "/");
                self.stop(InstallError { kind: InstallFault::CreateDirFailed, subject })
            },
            CopyOutcome::CopyFailed => {
                let path = concat_strings(
                    &self.target_dir,
                    &self.entries[self.queue[self.next]].path,
                );
                let subject = join_strings(&path, "/");
                self.stop(InstallError { kind: InstallFault::CopyFailed, subject })
            },
        }
    }

    /// Takes the answer to the pending step and moves on.
    pub fn step(self, event: InstallEvent) -> (r: Installer)
        ensures
            r@ == install_step(self@, event@),
    {
        proof {
            use_type_invariant(&self);
        }
        match self.stage {
            InstallStage::ReadManifest => match event {
                InstallEvent::ManifestRead(None) => self.stop(
                    InstallError { kind: InstallFault::ManifestMissing, subject: String::new() },
                ),
                InstallEvent::ManifestRead(Some(text)) => self.read(text.as_str()),
                _ => self,
            },
            InstallStage::ClearTarget => match event {
                InstallEvent::TargetCleared(true) => self.cleared(),
                InstallEvent::TargetCleared(false) => self.stop(
                    InstallError { kind: InstallFault::RemovalFailed, subject: String::new() },
                ),
                _ => self,
            },
            InstallStage::ListSource => match event {
                InstallEvent::SourceListed(None) => self.stop(
                    InstallError { kind: InstallFault::TraversalFailed, subject: String::new() },
                ),
                InstallEvent::SourceListed(Some(listing)) => self.list(listing),
                _ => self,
            },
            InstallStage::CopyFile => match event {
                InstallEvent::FileCopied(outcome) => self.copied(outcome),
                _ => self,
            },
            InstallStage::Done => self,
            InstallStage::Failed => self,
        }
    }

    /// Ends the installation: the manifest if every file is copied, the
    /// error if it failed, else the installation itself.
    pub fn finish(self) -> (r: InstallOutcome)
        ensures
            match r {
                InstallOutcome::Installed(m) => self@.stage == InstallStage::Done && self@.manifest
                    == Some((m.excludes(), m.entrypoint())),
                InstallOutcome::Failed(e) => self@.stage == InstallStage::Failed && self@.error
                    == Some((e.kind, e.subject@)),
                InstallOutcome::Unfinished(rest) => self@.stage != InstallStage::Done && self@.stage
                    != InstallStage::Failed && rest@ == self@,
            },
    {
        proof {
            use_type_invariant(&self);
        }
        match self.stage {
            InstallStage::Done => match self.manifest {
                Some(m) => InstallOutcome::Installed(m),
                None => InstallOutcome::Unfinished(self),
            },
            InstallStage::Failed => match self.error {
                Some(e) => InstallOutcome::Failed(e),
                None => InstallOutcome::Unfinished(self),
            },
            _ => InstallOutcome::Unfinished(self),
        }
    }
}

/// What an installation finds on disk, as far as it can tell.
pub struct Disk {
    /// The text of the package's manifest, if it can be read.
    pub manifest: Option<Seq<char>>,
    /// What lies below the package directory.
    pub source: Seq<EntryView>,
    /// The files below the target directory, by their paths below it.
    pub target: Set<Seq<Seq<char>>>,
}

/// What the step that `s` waits for does to a disk on which every
/// operation succeeds, and the answer it gives.
pub open spec fn perform(disk: Disk, s: InstallView) -> (Disk, InstallEventView) {
    match s.stage {
        InstallStage::ReadManifest => (disk, InstallEventView::ManifestRead(disk.manifest)),
        InstallStage::ClearTarget => (
            Disk { target: Set::empty(), ..disk },
            InstallEventView::TargetCleared(true),
        ),
        InstallStage::ListSource => (disk, InstallEventView::SourceListed(Some(disk.source))),
        _ => (
            Disk { target: disk.target.insert(s.current_file()), ..disk },
            InstallEventView::FileCopied(CopyOutcome::Copied),
        ),
    }
}

/// The disk and the state after at most `fuel` steps from `s`.
pub open spec fn install_run(disk: Disk, s: InstallView, fuel: nat) -> (Disk, InstallView)
    decreases fuel,
{
    if fuel == 0 || s.stage == InstallStage::Done || s.stage == InstallStage::Failed {
        (disk, s)
    } else {
        let (next, event) = perform(disk, s);
        install_run(next, install_step(s, event), (fuel - 1) as nat)
    }
}

/// The paths of the first `count` files that are copied.
pub open spec fn copied_paths(
    patterns: Seq<Seq<char>>,
    entries: Seq<EntryView>,
    count: int,
) -> Set<Seq<Seq<char>>> {
    Set::new(
        |path: Seq<Seq<char>>|
            exists|k: int|
                0 <= k < count && #[trigger] entries[selection(patterns, entries)[k]].path == path,
    )
}

/// The paths of the entries of a listing that are installed.
pub open spec fn installed_paths(patterns: Seq<Seq<char>>, entries: Seq<EntryView>) -> Set<
    Seq<Seq<char>>,
> {
    Set::new(
        |path: Seq<Seq<char>>|
            exists|i: int|
                0 <= i < entries.len() && installs(patterns, #[trigger] entries[i]) && entries[i].path
                    == path,
    )
}

/// Copying, once begun, goes through the whole selection.
proof fn lemma_copy_run(disk: Disk, s: InstallView, fuel: nat)
    requires
        s.stage == InstallStage::CopyFile || s.stage == InstallStage::Done,
        0 <= s.copied <= s.queue().len(),
        s.stage == InstallStage::CopyFile <==> s.copied < s.queue().len(),
        fuel >= s.queue().len() - s.copied,
        disk.target == copied_paths(s.patterns(), s.entries, s.copied),
    ensures
        install_run(disk, s, fuel).1.stage == InstallStage::Done,
        install_run(disk, s, fuel).0.target == copied_paths(
            s.patterns(),
            s.entries,
            s.queue().len() as int,
        ),
    decreases s.queue().len() - s.copied,
{
    if s.stage == InstallStage::CopyFile {
        let (next, event) = perform(disk, s);
        let t = install_step(s, event);
        assert(t.queue() == s.queue());
        assert(next.target =~= copied_paths(s.patterns(), s.entries, s.copied + 1)) by {
            assert forall|path: Seq<Seq<char>>|
                copied_paths(s.patterns(), s.entries, s.copied + 1).contains(path)
                implies next.target.contains(path) by {
                let k = choose|k: int|
                    0 <= k < s.copied + 1 && #[trigger] s.entries[s.queue()[k]].path == path;
                if k < s.copied {
                    assert(copied_paths(s.patterns(), s.entries, s.copied).contains(path));
                }
            }
            assert forall|path: Seq<Seq<char>>| next.target.contains(path) implies copied_paths(
                s.patterns(),
                s.entries,
                s.copied + 1,
            ).contains(path) by {
                if path == s.current_file() {
                    assert(s.entries[s.queue()[s.copied]].path == path);
                } else {
                    let k = choose|k: int|
                        0 <= k < s.copied && #[trigger] s.entries[s.queue()[k]].path == path;
                    assert(s.entries[s.queue()[k]].path == path);
                }
            }
        }
        lemma_copy_run(next, t, (fuel - 1) as nat);
    }
}

/// What is copied in the end is what is installed.
proof fn lemma_copied_is_installed(patterns: Seq<Seq<char>>, entries: Seq<EntryView>)
    ensures
        copied_paths(patterns, entries, selection(patterns, entries).len() as int) == installed_paths(
            patterns,
            entries,
        ),
{
    let queue = selection(patterns, entries);
    let copied = copied_paths(patterns, entries, queue.len() as int);
    let installed = installed_paths(patterns, entries);
    lemma_selection(patterns, entries);
    assert forall|path: Seq<Seq<char>>| copied.contains(path) implies installed.contains(path) by {
        let k = choose|k: int| 0 <= k < queue.len() && #[trigger] entries[queue[k]].path == path;
        assert(installs(patterns, entries[queue[k]]));
    }
    assert forall|path: Seq<Seq<char>>| installed.contains(path) implies copied.contains(path) by {
        let i = choose|i: int|
            0 <= i < entries.len() && installs(patterns, #[trigger] entries[i]) && entries[i].path
                == path;
        assert(queue.contains(i));
        let k = choose|k: int| 0 <= k < queue.len() && queue[k] == i;
        assert(entries[queue[k]].path == path);
    }
    assert(copied =~= installed);
}

/// The exclude patterns of a manifest text; none where the text is refused.
pub open spec fn manifest_patterns(text: Seq<char>) -> Seq<Seq<char>> {
    match manifest_of(text) {
        Some((patterns, _)) => patterns,
        None => Seq::empty(),
    }
}

/// An installation replaces, it never merges: with a manifest whose
/// patterns are all accepted, and on a disk on which every operation
/// succeeds, the target holds in the end exactly the files of the source
/// that are installed, whatever it held before.
pub proof fn lemma_install_replaces(disk: Disk, start: InstallView, text: Seq<char>)
    requires
        start.stage == InstallStage::ReadManifest,
        disk.manifest == Some(text),
    ensures
        manifest_of(text) is Some && first_rejected(manifest_patterns(text)) is None ==> {
            &&& install_run(disk, start, disk.source.len() + 3).1.stage == InstallStage::Done
            &&& install_run(disk, start, disk.source.len() + 3).0.target == installed_paths(
                manifest_patterns(text),
                disk.source,
            )
        },
{
    if manifest_of(text) is Some && first_rejected(manifest_patterns(text)) is None {
        let patterns = manifest_patterns(text);
        reveal_with_fuel(install_run, 4);
        let read = install_step(start, perform(disk, start).1);
        let cleared = install_step(read, perform(disk, read).1);
        let emptied = perform(disk, read).0;
        let listed = install_step(cleared, perform(emptied, cleared).1);
        lemma_selection(patterns, disk.source);
        assert(emptied.target =~= copied_paths(patterns, disk.source, 0));
        lemma_copy_run(emptied, listed, disk.source.len());
        lemma_copied_is_installed(patterns, disk.source);
    }
}

/// A negated exclude pattern stops the installation of its package as
/// soon as the manifest is read: the target is neither cleared nor
/// written to, and no later answer moves the installation on.
pub proof fn lemma_negated_exclude_stops(disk: Disk, start: InstallView, text: Seq<char>, fuel: nat)
    requires
        start.stage == InstallStage::ReadManifest,
        disk.manifest == Some(text),
        fuel > 0,
    ensures
        manifest_of(text) is Some && (exists|i: int|
            0 <= i < manifest_patterns(text).len() && is_negated(#[trigger] manifest_patterns(text)[i]))
            ==> {
            &&& install_step(start, InstallEventView::ManifestRead(Some(text))).stage
                == InstallStage::Failed
            &&& install_run(disk, start, fuel).1.stage == InstallStage::Failed
            &&& install_run(disk, start, fuel).0 == disk
            &&& forall|event: InstallEventView| #[trigger]
                install_step(install_run(disk, start, fuel).1, event) == install_run(
                    disk,
                    start,
                    fuel,
                ).1
        },
{
    lemma_first_rejected(manifest_patterns(text));
    reveal_with_fuel(install_run, 2);
}

} // verus!
