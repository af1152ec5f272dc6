//! What one run of the tool is asked to do: the command, the packages under
//! review and the pull request that submits them.

use crate::text::{
    decimal, decimal_string, free_of, has_prefix, join, lemma_decimal, lemma_decimal_injective,
    lemma_join_injective, lemma_join_push, lemma_split_at_first, lemma_split_at_last, parse_u32,
    parse_u32_spec, quoted, split_at_char, split_once, starts_with, str_eq, str_views, trim_end,
    trim_end_matches,
};
use vstd::prelude::*;

verus! {

/// One package under review.
#[derive(Debug)]
pub struct Package<'a> {
    pub name: &'a str,
    pub vers: &'a str,
}

/// A package as two character sequences.
pub struct PackageView {
    pub name: Seq<char>,
    pub vers: Seq<char>,
}

impl<'a> View for Package<'a> {
    type V = PackageView;

    open spec fn view(&self) -> PackageView {
        PackageView { name: self.name@, vers: self.vers@ }
    }
}

/// The views of a list of packages.
pub open spec fn package_views(packages: Seq<Package>) -> Seq<PackageView> {
    Seq::new(packages.len(), |i: int| packages[i]@)
}

/// The string that names a package to the template tool: `@preview/`, the
/// name, a colon and the version.
pub open spec fn package_spec_of(package: PackageView) -> Seq<char> {
    "@preview/"@ + package.name + seq![':'] + package.vers
}

impl<'a> Package<'a> {
    /// The package's fully qualified name, as the template tool takes it.
    pub fn spec(&self) -> (r: String)
        ensures
            r@ == package_spec_of(self@),
    {
        let mut out = String::from_str("@preview/");
        out.append(self.name);
        proof {
            reveal_strlit(":");
            assert(":"@ =~= seq![':']);
        }
        out.append(":");
        out.append(self.vers);
        out
    }
}

/// The packages of a pull request and its number.
#[derive(Debug)]
pub struct Args<'a> {
    pub packages: Vec<Package<'a>>,
    pub pr_nr: u32,
}

/// A session as plain values.
pub struct ArgsView {
    pub packages: Seq<PackageView>,
    pub pr_nr: u32,
}

impl<'a> View for Args<'a> {
    type V = ArgsView;

    open spec fn view(&self) -> ArgsView {
        ArgsView { packages: package_views(self.packages@), pr_nr: self.pr_nr }
    }
}

/// What stands for a package in a branch name: name, underscore, version.
pub open spec fn branch_token(package: PackageView) -> Seq<char> {
    package.name + seq!['_'] + package.vers
}

/// The branch tokens of a list of packages.
pub open spec fn branch_tokens(packages: Seq<PackageView>) -> Seq<Seq<char>> {
    Seq::new(packages.len(), |i: int| branch_token(packages[i]))
}

/// The name of the branch of a session: the tokens of its packages joined
/// by commas, then `_#` and the number of the pull request.
pub open spec fn branch_name_of(session: ArgsView) -> Seq<char> {
    join(branch_tokens(session.packages), seq![',']) + seq!['_', '#'] + decimal(
        session.pr_nr as nat,
    )
}

impl<'a> Args<'a> {
    /// The name of the local branch that the pull request is checked out on.
    pub fn branch_name(&self) -> (r: String)
        ensures
            r@ == branch_name_of(self@),
    {
        let mut buf = String::new();
        let n: usize = self.packages.len();
        let mut i: usize = 0;
        let ghost tokens = branch_tokens(self@.packages);
        proof {
            reveal_strlit(",");
            reveal_strlit("_");
            reveal_strlit("_#");
            assert(","@ =~= seq![',']);
            assert("_"@ =~= seq!['_']);
            assert("_#"@ =~= seq!['_', '#']);
            assert(tokens.take(0) =~= Seq::<Seq<char>>::empty());
        }
        while i < n
            invariant
                i <= n,
                n == self.packages@.len(),
                tokens == branch_tokens(self@.packages),
                ","@ == seq![','],
                "_"@ == seq!['_'],
                buf@ == join(tokens.take(i as int), seq![',']),
            decreases n - i,
        {
            proof {
                lemma_join_push(tokens.take(i as int), seq![','], tokens[i as int]);
                assert(tokens.take(i as int).push(tokens[i as int]) =~= tokens.take(i as int + 1));
            }
            if i > 0 {
                buf.append(",");
            }
            buf.append(self.packages[i].name);
            buf.append("_");
            buf.append(self.packages[i].vers);
            assert(buf@ =~= join(tokens.take(i as int + 1), seq![',']));
            i += 1;
        }
        assert(tokens.take(n as int) =~= tokens);
        buf.append("_#");
        buf.append(decimal_string(self.pr_nr).as_str());
        buf
    }
}

/// The phases that a command runs.
#[derive(Clone, Copy, Debug, PartialEq, Eq, Structural)]
pub enum Cmd {
    /// Synchronise, install and test.
    Review,
    /// Synchronise only.
    Fetch,
    /// Install and test, on the working tree as it is.
    Install,
}

impl Cmd {
    /// Whether the command checks out the pull request.
    pub fn fetch(&self) -> (r: bool)
        ensures
            r == (*self == Cmd::Review || *self == Cmd::Fetch),
    {
        match self {
            Cmd::Review | Cmd::Fetch => true,
            Cmd::Install => false,
        }
    }

    /// Whether the command installs and tests the packages.
    pub fn install(&self) -> (r: bool)
        ensures
            r == (*self == Cmd::Review || *self == Cmd::Install),
    {
        match self {
            Cmd::Review | Cmd::Install => true,
            Cmd::Fetch => false,
        }
    }
}

/// What a run does next.
#[derive(Clone, Copy, Debug, PartialEq, Eq, Structural)]
pub enum Phase {
    /// Check out the pull request.
    Fetch,
    /// Install the package at this position.
    Install(usize),
    /// Test the templates of the installed packages.
    Test,
    /// Every phase of the command has succeeded.
    Done,
    /// A phase has failed; its error is the run's.
    Failed,
}

/// The phase in which the packages from `from` on are installed, or the
/// test phase when none is left.
pub open spec fn install_from(from: int, count: int) -> Phase {
    if from < count {
        Phase::Install(from as usize)
    } else {
        Phase::Test
    }
}

/// The phase that follows the checkout, or begins a run without one.
pub open spec fn phase_after_fetch(cmd: Cmd, count: int) -> Phase {
    if cmd == Cmd::Fetch {
        Phase::Done
    } else {
        install_from(0, count)
    }
}

/// The first phase of a command on `count` packages.
pub open spec fn first_phase_of(cmd: Cmd, count: int) -> Phase {
    if cmd == Cmd::Install {
        phase_after_fetch(cmd, count)
    } else {
        Phase::Fetch
    }
}

/// The phase that follows when `phase` has succeeded (`ok`) or failed.
///
/// The pull request is checked out before anything is installed. The
/// packages are installed in order, and the first that fails ends the
/// run. Templates are tested once every package is installed.
pub open spec fn next_phase_of(cmd: Cmd, count: int, phase: Phase, ok: bool) -> Phase {
    match phase {
        Phase::Done => Phase::Done,
        Phase::Failed => Phase::Failed,
        _ => if !ok {
            Phase::Failed
        } else {
            match phase {
                Phase::Fetch => phase_after_fetch(cmd, count),
                Phase::Install(i) => install_from(i + 1, count),
                _ => Phase::Done,
            }
        },
    }
}

/// Tells how a command on `count` packages begins.
pub fn first_phase(cmd: Cmd, count: usize) -> (r: Phase)
    ensures
        r == first_phase_of(cmd, count as int),
{
    if cmd.fetch() {
        Phase::Fetch
    } else if count > 0 {
        Phase::Install(0)
    } else {
        Phase::Test
    }
}

/// Tells how a command on `count` packages goes on after `phase`.
pub fn next_phase(cmd: Cmd, count: usize, phase: Phase, ok: bool) -> (r: Phase)
    ensures
        r == next_phase_of(cmd, count as int, phase, ok),
{
    match phase {
        Phase::Done => Phase::Done,
        Phase::Failed => Phase::Failed,
        _ => if !ok {
            Phase::Failed
        } else {
            match phase {
                Phase::Fetch => {
                    if !cmd.install() {
                        Phase::Done
                    } else if count > 0 {
                        Phase::Install(0)
                    } else {
                        Phase::Test
                    }
                },
                Phase::Install(i) => {
                    if i < count && i + 1 < count {
                        Phase::Install(i + 1)
                    } else {
                        Phase::Test
                    }
                },
                _ => Phase::Done,
            }
        },
    }
}

/// What the first word of the command line asks for.
#[derive(Clone, Copy, Debug, PartialEq, Eq, Structural)]
pub enum Task {
    /// Work on the packages of a pull request.
    Run(Cmd),
    /// Remove installed packages, scratch directories and branches.
    Clean,
}

/// Why a command line was refused.
#[derive(Clone, Copy, Debug, PartialEq, Eq, Structural)]
pub enum ArgsFault {
    /// There is no command.
    MissingCommand,
    /// The command is none of `review`, `fetch`, `install`, `clean`.
    UnknownCommand,
    /// There are fewer than two arguments after the command.
    TooFewArguments,
    /// The last argument does not begin with `#`.
    MissingPrMarker,
    /// What follows `#` is not a positive number.
    InvalidPrNumber,
    /// An argument is neither `and` nor a name, a colon and a version.
    MissingSeparator,
}

/// A refused command line: the fault and the text it concerns (empty where
/// the fault has none).
#[derive(Debug)]
pub struct ArgsError {
    pub kind: ArgsFault,
    pub subject: String,
}

/// The text that tells a user why a command line was refused.
pub open spec fn args_message(kind: ArgsFault, subject: Seq<char>) -> Seq<char> {
    match kind {
        ArgsFault::MissingCommand => "missing command"@,
        ArgsFault::UnknownCommand => "unknown command `"@ + subject + "`"@,
        ArgsFault::TooFewArguments => "expected at least one package and the PR number"@,
        ArgsFault::MissingPrMarker => "PR number must start with `#` - `"@ + subject + "`"@,
        ArgsFault::InvalidPrNumber => "PR number is not valid - `"@ + subject + "`"@,
        ArgsFault::MissingSeparator => "package name and version must be separated by `:` - `"@
            + subject + "`"@,
    }
}

impl ArgsError {
    /// The error as a sentence for the user.
    pub fn message(&self) -> (r: String)
        ensures
            r@ == args_message(self.kind, self.subject@),
    {
        let subject = self.subject.as_str();
        match self.kind {
            ArgsFault::MissingCommand => String::from_str("missing command"),
            ArgsFault::UnknownCommand => quoted("unknown command `", subject),
            ArgsFault::TooFewArguments => String::from_str(
                "expected at least one package and the PR number",
            ),
            ArgsFault::MissingPrMarker => quoted("PR number must start with `#` - `", subject),
            ArgsFault::InvalidPrNumber => quoted("PR number is not valid - `", subject),
            ArgsFault::MissingSeparator => quoted(
                "package name and version must be separated by `:` - `",
                subject,
            ),
        }
    }
}

/// The command that a word stands for.
pub open spec fn task_of(word: Seq<char>) -> Option<Task> {
    if word == "review"@ {
        Some(Task::Run(Cmd::Review))
    } else if word == "fetch"@ {
        Some(Task::Run(Cmd::Fetch))
    } else if word == "install"@ {
        Some(Task::Run(Cmd::Install))
    } else if word == "clean"@ {
        Some(Task::Clean)
    } else {
        None
    }
}

/// Reads the command, the first word of the command line.
pub fn parse_command(word: Option<&str>) -> (r: Result<Task, ArgsError>)
    ensures
        match r {
            Ok(task) => word matches Some(w) && task_of(w@) == Some(task),
            Err(e) => match word {
                None => e.kind == ArgsFault::MissingCommand && e.subject@ == Seq::<char>::empty(),
                Some(w) => task_of(w@) is None && e.kind == ArgsFault::UnknownCommand && e.subject@
                    == w@,
            },
        },
{
    match word {
        None => Err(ArgsError { kind: ArgsFault::MissingCommand, subject: String::new() }),
        Some(w) => {
            if str_eq(w, "review") {
                Ok(Task::Run(Cmd::Review))
            } else if str_eq(w, "fetch") {
                Ok(Task::Run(Cmd::Fetch))
            } else if str_eq(w, "install") {
                Ok(Task::Run(Cmd::Install))
            } else if str_eq(w, "clean") {
                Ok(Task::Clean)
            } else {
                Err(ArgsError { kind: ArgsFault::UnknownCommand, subject: String::from_str(w) })
            }
        },
    }
}

/// The packages that the arguments before the pull request name: each
/// argument loses its trailing commas, `and` is skipped, and every other
/// argument is a name and a version around its first colon. The first
/// argument without a colon is the error.
pub open spec fn parse_packages(words: Seq<Seq<char>>) -> Result<
    Seq<PackageView>,
    (ArgsFault, Seq<char>),
>
    decreases words.len(),
{
    if words.len() == 0 {
        Ok(Seq::empty())
    } else {
        match parse_packages(words.drop_last()) {
            Err(e) => Err(e),
            Ok(before) => {
                let word = trim_end(words.last(), ',');
                if word == "and"@ {
                    Ok(before)
                } else {
                    match split_once(word, ':') {
                        Some((name, vers)) => Ok(before.push(PackageView { name, vers })),
                        None => Err((ArgsFault::MissingSeparator, word)),
                    }
                }
            },
        }
    }
}

/// The session that the arguments after the command describe: at least
/// two arguments, the last of them `#` and the number of the pull request,
/// which is positive, the others packages.
pub open spec fn parse_args_spec(args: Seq<Seq<char>>) -> Result<ArgsView, (ArgsFault, Seq<char>)> {
    if args.len() < 2 {
        Err((ArgsFault::TooFewArguments, Seq::empty()))
    } else if !starts_with(args.last(), seq!['#']) {
        Err((ArgsFault::MissingPrMarker, args.last()))
    } else {
        match parse_u32_spec(args.last().skip(1)) {
            Some(pr_nr) if pr_nr > 0 => match parse_packages(args.drop_last()) {
                Err(e) => Err(e),
                Ok(packages) => Ok(ArgsView { packages, pr_nr }),
            },
            _ => Err((ArgsFault::InvalidPrNumber, args.last().skip(1))),
        }
    }
}

/// Reads the arguments after the command.
pub fn parse_args<'a>(args: &[&'a str]) -> (r: Result<Args<'a>, ArgsError>)
    ensures
        match r {
            Ok(session) => parse_args_spec(str_views(args@)) == Ok::<
                ArgsView,
                (ArgsFault, Seq<char>),
            >(session@),
            Err(e) => parse_args_spec(str_views(args@)) == Err::<ArgsView, (ArgsFault, Seq<char>)>(
                (e.kind, e.subject@),
            ),
        },
        args@.len() < 2 ==> r is Err,
        args@.len() >= 2 && !starts_with(args@.last()@, seq!['#']) ==> r is Err,
{
    let n: usize = args.len();
    if n < 2 {
        return Err(ArgsError { kind: ArgsFault::TooFewArguments, subject: String::new() });
    }
    let last: &'a str = args[n - 1];
    let ghost all = str_views(args@);
    proof {
        reveal_strlit("#");
        assert("#"@ =~= seq!['#']);
        assert(all.last() == last@);
    }
    if !has_prefix(last, "#") {
        return Err(ArgsError { kind: ArgsFault::MissingPrMarker, subject: String::from_str(last) });
    }
    let digits: &'a str = last.substring_char(1, last.unicode_len());
    assert(digits@ =~= last@.skip(1));
    let pr_nr: u32 = match parse_u32(digits) {
        Some(pr_nr) if pr_nr > 0 => pr_nr,
        _ => {
            return Err(
                ArgsError { kind: ArgsFault::InvalidPrNumber, subject: String::from_str(digits) },
            );
        },
    };
    let mut packages: Vec<Package<'a>> = Vec::new();
    let mut i: usize = 0;
    let ghost words = all.drop_last();
    assert(words.take(0) =~= Seq::<Seq<char>>::empty());
    assert(package_views(packages@) =~= Seq::<PackageView>::empty());
    while i < n - 1
        invariant
            i <= n - 1,
            n == args@.len(),
            n >= 2,
            pr_nr > 0,
            all == str_views(args@),
            words == all.drop_last(),
            parse_packages(words.take(i as int)) == Ok::<Seq<PackageView>, (ArgsFault, Seq<char>)>(
                package_views(packages@),
            ),
            parse_args_spec(all) == match parse_packages(words) {
                Err(e) => Err::<ArgsView, (ArgsFault, Seq<char>)>(e),
                Ok(packages) => Ok(ArgsView { packages, pr_nr }),
            },
        decreases n - 1 - i,
    {
        let ghost upto = words.take(i as int + 1);
        let ghost before = package_views(packages@);
        assert(upto.drop_last() =~= words.take(i as int));
        assert(upto.last() == args@[i as int]@);
        let arg: &'a str = trim_end_matches(args[i], ',');
        if !str_eq(arg, "and") {
            match split_at_char(arg, ':') {
                Some((name, vers)) => {
                    packages.push(Package { name, vers });
                    assert(package_views(packages@) =~= before.push(
                        PackageView { name: name@, vers: vers@ },
                    ));
                },
                None => {
                    proof {
                        lemma_parse_packages_prefix(words, i as int + 1);
                    }
                    return Err(
                        ArgsError {
                            kind: ArgsFault::MissingSeparator,
                            subject: String::from_str(arg),
                        },
                    );
                },
            }
        }
        i += 1;
    }
    assert(words.take(n as int - 1) =~= words);
    Ok(Args { packages, pr_nr })
}

/// The error of a prefix of the arguments is the error of them all.
pub proof fn lemma_parse_packages_prefix(words: Seq<Seq<char>>, len: int)
    requires
        0 <= len <= words.len(),
    ensures
        parse_packages(words.take(len)) is Err ==> parse_packages(words) == parse_packages(
            words.take(len),
        ),
    decreases words.len() - len,
{
    if len < words.len() {
        lemma_parse_packages_prefix(words, len + 1);
        assert(words.take(len + 1).drop_last() =~= words.take(len));
    } else {
        assert(words.take(len) =~= words);
    }
}

/// Whether no name and no version holds a comma.
pub open spec fn comma_free(packages: Seq<PackageView>) -> bool {
    forall|i: int|
        0 <= i < packages.len() ==> free_of((#[trigger] packages[i]).name, ',') && free_of(
            packages[i].vers,
            ',',
        )
}

/// Whether no name holds an underscore.
pub open spec fn plain_names(packages: Seq<PackageView>) -> bool {
    forall|i: int| 0 <= i < packages.len() ==> free_of((#[trigger] packages[i]).name, '_')
}

/// Whether no version holds an underscore.
pub open spec fn plain_versions(packages: Seq<PackageView>) -> bool {
    forall|i: int| 0 <= i < packages.len() ==> free_of((#[trigger] packages[i]).vers, '_')
}

/// A branch name ends with the pull request's number, and only with that:
/// it is the name before `#` with its underscore, and the decimal after it.
proof fn lemma_branch_name_parts(first: ArgsView, second: ArgsView)
    requires
        branch_name_of(first) == branch_name_of(second),
    ensures
        first.pr_nr == second.pr_nr,
        join(branch_tokens(first.packages), seq![',']) == join(
            branch_tokens(second.packages),
            seq![','],
        ),
{
    let a = join(branch_tokens(first.packages), seq![',']);
    let b = join(branch_tokens(second.packages), seq![',']);
    let m = decimal(first.pr_nr as nat);
    let n = decimal(second.pr_nr as nat);
    lemma_decimal(first.pr_nr as nat);
    lemma_decimal(second.pr_nr as nat);
    assert(free_of(m, '#')) by {
        assert forall|i: int| 0 <= i < m.len() implies #[trigger] m[i] != '#' by {}
    }
    assert(free_of(n, '#')) by {
        assert forall|i: int| 0 <= i < n.len() implies #[trigger] n[i] != '#' by {}
    }
    assert(a + seq!['_', '#'] + m =~= (a + seq!['_']) + seq!['#'] + m);
    assert(b + seq!['_', '#'] + n =~= (b + seq!['_']) + seq!['#'] + n);
    lemma_split_at_last(a + seq!['_'], m, b + seq!['_'], n, '#');
    lemma_decimal_injective(first.pr_nr as nat, second.pr_nr as nat);
    assert(a =~= (a + seq!['_']).drop_last());
    assert(b =~= (b + seq!['_']).drop_last());
}

/// Sessions with different pull requests have different branches.
pub proof fn lemma_branch_name_tells_pull_request(first: ArgsView, second: ArgsView)
    requires
        first.pr_nr != second.pr_nr,
    ensures
        branch_name_of(first) != branch_name_of(second),
{
    if branch_name_of(first) == branch_name_of(second) {
        lemma_branch_name_parts(first, second);
    }
}

/// Sessions with different packages have different branches, provided
/// that the names and versions can be told apart in a branch name: none
/// holds a comma, and either no name or no version holds an underscore.
pub proof fn lemma_branch_name_tells_packages(first: ArgsView, second: ArgsView)
    requires
        first.packages != second.packages,
        comma_free(first.packages),
        comma_free(second.packages),
        (plain_names(first.packages) && plain_names(second.packages)) || (plain_versions(
            first.packages,
        ) && plain_versions(second.packages)),
    ensures
        branch_name_of(first) != branch_name_of(second),
{
    if branch_name_of(first) == branch_name_of(second) {
        lemma_branch_name_parts(first, second);
        let a = branch_tokens(first.packages);
        let b = branch_tokens(second.packages);
        assert forall|i: int| 0 <= i < a.len() implies (#[trigger] a[i]).len() > 0 && free_of(
            a[i],
            ',',
        ) by {
            let p = first.packages[i];
            assert forall|k: int| 0 <= k < a[i].len() implies #[trigger] a[i][k] != ',' by {
                if k < p.name.len() {
                    assert(a[i][k] == p.name[k]);
                } else if k > p.name.len() {
                    assert(a[i][k] == p.vers[k - p.name.len() - 1]);
                }
            }
        }
        assert forall|i: int| 0 <= i < b.len() implies (#[trigger] b[i]).len() > 0 && free_of(
            b[i],
            ',',
        ) by {
            let p = second.packages[i];
            assert forall|k: int| 0 <= k < b[i].len() implies #[trigger] b[i][k] != ',' by {
                if k < p.name.len() {
                    assert(b[i][k] == p.name[k]);
                } else if k > p.name.len() {
                    assert(b[i][k] == p.vers[k - p.name.len() - 1]);
                }
            }
        }
        lemma_join_injective(a, b, ',');
        assert(first.packages.len() == second.packages.len());
        assert forall|i: int| 0 <= i < first.packages.len() implies first.packages[i]
            == second.packages[i] by {
            let p = first.packages[i];
            let q = second.packages[i];
            assert(a[i] == b[i]);
            if plain_names(first.packages) && plain_names(second.packages) {
                lemma_split_at_first(p.name, p.vers, q.name, q.vers, '_');
            } else {
                lemma_split_at_last(p.name, p.vers, q.name, q.vers, '_');
            }
        }
        assert(first.packages =~= second.packages);
    }
}

} // verus!
