//! Exclude globs of a manifest as a filter on the files of a package.
//!
//! Every exclude pattern becomes one override rule that ignores what the
//! pattern matches. A path is left out when a rule ignores it or one of the
//! directories above it, so more patterns can only leave out more.

use crate::install::{InstallError, InstallFault};
use crate::text::{
    has_prefix, join, lemma_join_push, starts_with, trim_start, trim_start_matches, views,
};
use ignore::overrides::{Override, OverrideBuilder};
use vstd::prelude::*;

verus! {

/// `ignore::overrides::Override`, a matcher built from glob lines. Nothing
/// is known of a value but what it answers, which `rule_ignores` names.
#[verifier::external_type_specification]
#[verifier::external_body]
pub struct ExOverride(Override);

/// `ignore::Error`, the error of a glob line that does not compile.
#[verifier::external_type_specification]
#[verifier::external_body]
pub struct ExGlobError(ignore::Error);

/// Whether an override matcher reports `path` as ignored.
pub uninterp spec fn rule_ignores(rule: Override, path: Seq<char>, is_dir: bool) -> bool;

/// Whether `OverrideBuilder` accepts `line` as a glob and builds a matcher
/// from it alone, with `root` as its directory.
pub uninterp spec fn override_compiles(root: Seq<char>, line: Seq<char>) -> bool;

/// Whether a matcher that `OverrideBuilder` builds for the directory
/// `root` when it is given the lines `globs`, in order, reports `path` as
/// ignored.
pub uninterp spec fn override_ignores(
    root: Seq<char>,
    globs: Seq<Seq<char>>,
    path: Seq<char>,
    is_dir: bool,
) -> bool;

/// Builds a matcher from one glob line: `OverrideBuilder::new(root)`, then
/// `add(line)`, then `build()`. The contract claims that success and what
/// the matcher answers are determined by the root and the line. It says
/// nothing of what the matcher stores: the builder trims a line, and
/// skips a comment or a blank one.
#[verifier::external_body]
fn compile_rule(root: &str, line: &str) -> (r: Result<Override, ignore::Error>)
    ensures
        r is Ok <==> override_compiles(root@, line@),
        r matches Ok(rule) ==> forall|path: Seq<char>, is_dir: bool| #[trigger]
            rule_ignores(rule, path, is_dir) == override_ignores(
                root@,
                seq![line@],
                path,
                is_dir,
            ),
{
    OverrideBuilder::new(root).add(line)?.build()
}

/// Asks `Override::matched` whether the matcher ignores `path`. The
/// contract claims that the answer is determined by the matcher, the path
/// and the directory flag.
#[verifier::external_body]
fn rule_matches(rule: &Override, path: &str, is_dir: bool) -> (r: bool)
    ensures
        r == rule_ignores(*rule, path@, is_dir),
{
    rule.matched(path, is_dir).is_ignore()
}

/// Whether an exclude pattern is negated, which is not supported.
pub open spec fn is_negated(pattern: Seq<char>) -> bool {
    starts_with(pattern, seq!['!'])
}

/// The override line for an exclude pattern: the pattern without leading
/// `./`, marked with `!` as a rule that ignores.
pub open spec fn exclude_line(pattern: Seq<char>) -> Seq<char> {
    seq!['!'] + trim_start(pattern, seq!['.', '/'])
}

/// Whether an exclude pattern can be compiled into a rule.
pub open spec fn pattern_compiles(pattern: Seq<char>) -> bool {
    override_compiles(Seq::empty(), exclude_line(pattern))
}

/// Whether an exclude pattern is accepted.
pub open spec fn pattern_accepted(pattern: Seq<char>) -> bool {
    !is_negated(pattern) && pattern_compiles(pattern)
}

/// The fault of a pattern that is not accepted.
pub open spec fn pattern_fault(pattern: Seq<char>) -> InstallFault {
    if is_negated(pattern) {
        InstallFault::InvalidExcludePattern
    } else {
        InstallFault::InvalidExcludeGlob
    }
}

/// The position of the first pattern that is not accepted, if there is one.
pub open spec fn first_rejected(patterns: Seq<Seq<char>>) -> Option<int>
    decreases patterns.len(),
{
    if patterns.len() == 0 {
        None
    } else {
        match first_rejected(patterns.drop_last()) {
            Some(i) => Some(i),
            None => if pattern_accepted(patterns.last()) {
                None
            } else {
                Some(patterns.len() - 1)
            },
        }
    }
}

/// `first_rejected` is the least position of a pattern that is not accepted.
pub proof fn lemma_first_rejected(patterns: Seq<Seq<char>>)
    ensures
        match first_rejected(patterns) {
            Some(i) => {
                &&& 0 <= i < patterns.len()
                &&& !pattern_accepted(patterns[i])
                &&& forall|j: int| 0 <= j < i ==> pattern_accepted(#[trigger] patterns[j])
            },
            None => forall|j: int| 0 <= j < patterns.len() ==> pattern_accepted(#[trigger] patterns[j]),
        },
    decreases patterns.len(),
{
    if patterns.len() > 0 {
        lemma_first_rejected(patterns.drop_last());
        match first_rejected(patterns.drop_last()) {
            Some(i) => {
                assert(patterns.drop_last()[i] == patterns[i]);
                assert forall|j: int| 0 <= j < i implies pattern_accepted(#[trigger] patterns[j]) by {
                    assert(patterns.drop_last()[j] == patterns[j]);
                }
            },
            None => {
                assert forall|j: int| 0 <= j < patterns.len() - 1 implies pattern_accepted(
                    #[trigger] patterns[j],
                ) by {
                    assert(patterns.drop_last()[j] == patterns[j]);
                }
            },
        }
    }
}

/// A pattern that is rejected within a prefix is the first rejected of the whole.
pub proof fn lemma_first_rejected_prefix(patterns: Seq<Seq<char>>, len: int)
    requires
        0 <= len <= patterns.len(),
    ensures
        first_rejected(patterns.take(len)) is Some ==> first_rejected(patterns) == first_rejected(
            patterns.take(len),
        ),
    decreases patterns.len() - len,
{
    if len < patterns.len() {
        lemma_first_rejected_prefix(patterns, len + 1);
        assert(patterns.take(len + 1).drop_last() =~= patterns.take(len));
    } else {
        assert(patterns.take(len) =~= patterns);
    }
}

/// Whether the rule of an exclude pattern ignores a path relative to the
/// package root.
pub open spec fn pattern_ignores(pattern: Seq<char>, path: Seq<char>, is_dir: bool) -> bool {
    override_ignores(Seq::empty(), seq![exclude_line(pattern)], path, is_dir)
}

/// Whether one of the patterns ignores the path.
pub open spec fn patterns_ignore(patterns: Seq<Seq<char>>, path: Seq<char>, is_dir: bool) -> bool {
    exists|i: int| 0 <= i < patterns.len() && #[trigger] pattern_ignores(patterns[i], path, is_dir)
}

/// Whether the patterns ignore the first `depth` components of `rel`, taken
/// as a directory unless it is all of `rel`.
pub open spec fn prefix_ignored(
    patterns: Seq<Seq<char>>,
    rel: Seq<Seq<char>>,
    depth: int,
    is_dir: bool,
) -> bool {
    patterns_ignore(patterns, join(rel.take(depth), seq!['/']), depth < rel.len() || is_dir)
}

/// Whether the entry at `rel` below the package root is left out: the
/// patterns ignore it or a directory on the way to it. The root itself is
/// never left out.
pub open spec fn excluded(patterns: Seq<Seq<char>>, rel: Seq<Seq<char>>, is_dir: bool) -> bool {
    exists|depth: int| 0 < depth <= rel.len() && #[trigger] prefix_ignored(patterns, rel, depth, is_dir)
}

/// The compiled exclude patterns of one package.
#[derive(Debug)]
pub struct ExcludeFilter {
    patterns: Vec<String>,
    rules: Vec<Override>,
}

impl ExcludeFilter {
    #[verifier::type_invariant]
    spec fn well_formed(&self) -> bool {
        &&& self.rules@.len() == self.patterns@.len()
        &&& forall|i: int, path: Seq<char>, is_dir: bool|
            0 <= i < self.rules@.len() ==> #[trigger] rule_ignores(self.rules@[i], path, is_dir)
                == pattern_ignores(self.patterns@[i]@, path, is_dir)
    }

    /// The exclude patterns that the filter was compiled from.
    pub closed spec fn patterns(&self) -> Seq<Seq<char>> {
        views(self.patterns@)
    }

    /// Compiles the exclude patterns of a manifest, in order.
    ///
    /// Succeeds exactly when every pattern is accepted. Otherwise the error
    /// names the first pattern that is not: `InvalidExcludePattern` if it is
    /// negated, `InvalidExcludeGlob` if it does not compile.
    pub fn compile(excludes: &Vec<String>) -> (r: Result<ExcludeFilter, InstallError>)
        ensures
            match r {
                Ok(filter) => {
                    &&& first_rejected(views(excludes@)) is None
                    &&& filter.patterns() == views(excludes@)
                },
                Err(e) => {
                    &&& first_rejected(views(excludes@)) matches Some(i)
                    &&& e.kind == pattern_fault(excludes@[i]@)
                    &&& e.subject@ == excludes@[i]@
                },
            },
            (exists|i: int| 0 <= i < excludes@.len() && is_negated(#[trigger] excludes@[i]@))
                ==> r is Err,
    {
        proof {
            lemma_first_rejected(views(excludes@));
        }
        assert(views(excludes@).take(0) =~= Seq::<Seq<char>>::empty());
        let mut patterns: Vec<String> = Vec::new();
        let mut rules: Vec<Override> = Vec::new();
        let n: usize = excludes.len();
        let mut i: usize = 0;
        while i < n
            invariant
                i <= n,
                n == excludes@.len(),
                patterns@.len() == i,
                rules@.len() == i,
                first_rejected(views(excludes@).take(i as int)) is None,
                forall|j: int| 0 <= j < i ==> (#[trigger] patterns@[j])@ == excludes@[j]@,
                forall|j: int, path: Seq<char>, is_dir: bool|
                    0 <= j < i ==> #[trigger] rule_ignores(rules@[j], path, is_dir)
                        == pattern_ignores(patterns@[j]@, path, is_dir),
            decreases n - i,
        {
            let pattern: &str = excludes[i].as_str();
            proof {
                let upto = views(excludes@).take(i as int + 1);
                assert(upto.drop_last() =~= views(excludes@).take(i as int));
                assert(upto.last() == pattern@);
                lemma_first_rejected_prefix(views(excludes@), i as int + 1);
                reveal_strlit("!");
                reveal_strlit("./");
                reveal_strlit("");
                assert("!"@ =~= seq!['!']);
                assert("./"@ =~= seq!['.', '/']);
                assert(""@ =~= Seq::<char>::empty());
            }
            if has_prefix(pattern, "!") {
                return Err(
                    InstallError {
                        kind: InstallFault::InvalidExcludePattern,
                        subject: String::from_str(pattern),
                    },
                );
            }
            let mut line = String::from_str("!");
            line.append(trim_start_matches(pattern, "./"));
            match compile_rule("", line.as_str()) {
                Ok(rule) => {
                    rules.push(rule);
                    patterns.push(String::from_str(pattern));
                },
                Err(_) => {
                    return Err(
                        InstallError {
                            kind: InstallFault::InvalidExcludeGlob,
                            subject: String::from_str(pattern),
                        },
                    );
                },
            }
            i += 1;
        }
        assert(views(patterns@) =~= views(excludes@));
        assert(views(excludes@).take(n as int) =~= views(excludes@));
        assert forall|j: int| 0 <= j < n implies !is_negated(#[trigger] excludes@[j]@) by {
            assert(pattern_accepted(views(excludes@)[j]));
        }
        Ok(ExcludeFilter { patterns, rules })
    }

    /// Tells whether one of the rules ignores `path`, relative to the package root.
    fn ignores(&self, path: &str, is_dir: bool) -> (r: bool)
        ensures
            r == patterns_ignore(self.patterns(), path@, is_dir),
    {
        proof {
            use_type_invariant(self);
        }
        let n: usize = self.rules.len();
        let mut i: usize = 0;
        while i < n
            invariant
                i <= n,
                n == self.rules@.len(),
                self.well_formed(),
                forall|j: int|
                    0 <= j < i ==> !pattern_ignores(#[trigger] self.patterns()[j], path@, is_dir),
            decreases n - i,
        {
            if rule_matches(&self.rules[i], path, is_dir) {
                assert(pattern_ignores(self.patterns()[i as int], path@, is_dir));
                return true;
            }
            i += 1;
        }
        false
    }

    /// Tells whether the entry at `rel`, given by its components below the
    /// package root, is left out of the installation.
    pub fn excludes(&self, rel: &Vec<String>, is_dir: bool) -> (r: bool)
        ensures
            r == excluded(self.patterns(), views(rel@), is_dir),
    {
        let n: usize = rel.len();
        let mut path = String::new();
        let mut depth: usize = 0;
        let ghost parts = views(rel@);
        assert(parts.take(0) =~= Seq::<Seq<char>>::empty());
        while depth < n
            invariant
                depth <= n,
                n == rel@.len(),
                parts == views(rel@),
                path@ == join(parts.take(depth as int), seq!['/']),
                forall|d: int|
                    0 < d <= depth ==> !#[trigger] prefix_ignored(self.patterns(), parts, d, is_dir),
            decreases n - depth,
        {
            proof {
                reveal_strlit("/");
                assert("/"@ =~= seq!['/']);
                lemma_join_push(parts.take(depth as int), seq!['/'], parts[depth as int]);
                assert(parts.take(depth as int).push(parts[depth as int]) =~= parts.take(depth as int + 1));
            }
            if depth > 0 {
                path.append("/");
            }
            path.append(rel[depth].as_str());
            depth += 1;
            if self.ignores(path.as_str(), depth < n || is_dir) {
                assert(prefix_ignored(self.patterns(), parts, depth as int, is_dir));
                return true;
            }
        }
        false
    }
}

/// Leaving out is monotonic: what some patterns leave out, any patterns
/// that include them leave out as well.
pub proof fn lemma_excluded_monotonic(
    fewer: Seq<Seq<char>>,
    more: Seq<Seq<char>>,
    rel: Seq<Seq<char>>,
    is_dir: bool,
)
    requires
        forall|i: int| 0 <= i < fewer.len() ==> more.contains(#[trigger] fewer[i]),
        excluded(fewer, rel, is_dir),
    ensures
        excluded(more, rel, is_dir),
{
    let depth = choose|depth: int|
        0 < depth <= rel.len() && #[trigger] prefix_ignored(fewer, rel, depth, is_dir);
    let path = join(rel.take(depth), seq!['/']);
    let dir = depth < rel.len() || is_dir;
    let i = choose|i: int| 0 <= i < fewer.len() && #[trigger] pattern_ignores(fewer[i], path, dir);
    assert(more.contains(fewer[i]));
    let j = choose|j: int| 0 <= j < more.len() && more[j] == fewer[i];
    assert(pattern_ignores(more[j], path, dir));
    assert(prefix_ignored(more, rel, depth, is_dir));
}

} // verus!
