use package_review::exclude::ExcludeFilter;
use package_review::install::InstallFault;

fn patterns(items: &[&str]) -> Vec<String> {
    items.iter().map(|s| s.to_string()).collect()
}

fn path(items: &[&str]) -> Vec<String> {
    items.iter().map(|s| s.to_string()).collect()
}

#[test]
fn leaves_out_what_a_pattern_matches() {
    let filter = ExcludeFilter::compile(&patterns(&["*.png", "docs/*.md"])).unwrap();
    assert!(filter.excludes(&path(&["a.png"]), false));
    assert!(filter.excludes(&path(&["img", "deep", "a.png"]), false));
    assert!(filter.excludes(&path(&["docs", "guide.md"]), false));
    assert!(!filter.excludes(&path(&["guide.md"]), false));
    assert!(!filter.excludes(&path(&["docs", "sub", "guide.md"]), false));
    assert!(!filter.excludes(&path(&["lib.typ"]), false));
    assert!(!filter.excludes(&path(&["png"]), false));
}

#[test]
fn leaves_out_what_lies_below_an_excluded_directory() {
    let filter = ExcludeFilter::compile(&patterns(&["docs"])).unwrap();
    assert!(filter.excludes(&path(&["docs"]), true));
    assert!(filter.excludes(&path(&["docs", "a.txt"]), false));
    assert!(filter.excludes(&path(&["docs", "deep", "a.txt"]), false));
    assert!(filter.excludes(&path(&["src", "docs", "a.txt"]), false));
    assert!(!filter.excludes(&path(&["src", "a.txt"]), false));
    assert!(!filter.excludes(&path(&["docs.txt"]), false));
}

#[test]
fn a_trailing_slash_matches_directories_only() {
    let filter = ExcludeFilter::compile(&patterns(&["images/"])).unwrap();
    assert!(filter.excludes(&path(&["images"]), true));
    assert!(!filter.excludes(&path(&["images"]), false));
    assert!(filter.excludes(&path(&["images", "a.png"]), false));
}

#[test]
fn a_leading_slash_anchors_at_the_package_root() {
    let filter = ExcludeFilter::compile(&patterns(&["/top.txt"])).unwrap();
    assert!(filter.excludes(&path(&["top.txt"]), false));
    assert!(!filter.excludes(&path(&["sub", "top.txt"]), false));
}

#[test]
fn strips_leading_current_directories() {
    let filter = ExcludeFilter::compile(&patterns(&["././img/logo.svg"])).unwrap();
    assert!(filter.excludes(&path(&["img", "logo.svg"]), false));
    assert!(!filter.excludes(&path(&["logo.svg"]), false));
    assert!(!filter.excludes(&path(&["other", "img", "logo.svg"]), false));
}

#[test]
fn never_leaves_out_the_root() {
    let filter = ExcludeFilter::compile(&patterns(&["*"])).unwrap();
    assert!(!filter.excludes(&path(&[]), true));
    assert!(filter.excludes(&path(&["a"]), false));
}

#[test]
fn without_patterns_nothing_is_left_out() {
    let filter = ExcludeFilter::compile(&patterns(&[])).unwrap();
    assert!(!filter.excludes(&path(&["a.png"]), false));
    assert!(!filter.excludes(&path(&["docs", "a.png"]), false));
}

#[test]
fn refuses_negated_patterns() {
    let err = ExcludeFilter::compile(&patterns(&["docs", "!docs/keep.md", "["])).unwrap_err();
    assert_eq!(err.kind, InstallFault::InvalidExcludePattern);
    assert_eq!(err.subject, "!docs/keep.md");
    assert_eq!(err.message(), "exclude globs cannot start with `!` - `!docs/keep.md`");
    let err = ExcludeFilter::compile(&patterns(&["!"])).unwrap_err();
    assert_eq!(err.kind, InstallFault::InvalidExcludePattern);
}

#[test]
fn refuses_patterns_that_are_no_globs() {
    let err = ExcludeFilter::compile(&patterns(&["docs", "a[", "!x"])).unwrap_err();
    assert_eq!(err.kind, InstallFault::InvalidExcludeGlob);
    assert_eq!(err.subject, "a[");
    assert_eq!(err.message(), "invalid exclude glob");
}

#[test]
fn a_pattern_behind_current_directories_is_not_negated() {
    let filter = ExcludeFilter::compile(&patterns(&["./!odd"])).unwrap();
    assert!(filter.excludes(&path(&["!odd"]), false));
    assert!(!filter.excludes(&path(&["odd"]), false));
}

#[test]
fn more_patterns_leave_out_no_less() {
    let fewer = ExcludeFilter::compile(&patterns(&["*.png"])).unwrap();
    let more = ExcludeFilter::compile(&patterns(&["docs", "*.png", "/README.md"])).unwrap();
    let paths = [
        path(&["a.png"]),
        path(&["docs", "a.txt"]),
        path(&["README.md"]),
        path(&["src", "README.md"]),
        path(&["src", "lib.typ"]),
        path(&["src", "img", "b.png"]),
    ];
    let mut left_out_by_more = 0;
    let mut left_out_by_fewer = 0;
    for p in paths.iter() {
        if fewer.excludes(p, false) {
            left_out_by_fewer += 1;
            assert!(more.excludes(p, false));
        }
        if more.excludes(p, false) {
            left_out_by_more += 1;
        }
    }
    assert_eq!(left_out_by_fewer, 2);
    assert_eq!(left_out_by_more, 4);
}

#[test]
fn blanks_after_a_pattern_do_not_count() {
    let filter = ExcludeFilter::compile(&patterns(&["docs ", "*.png\t"])).unwrap();
    assert!(filter.excludes(&path(&["docs"]), true));
    assert!(filter.excludes(&path(&["docs", "a.txt"]), false));
    assert!(filter.excludes(&path(&["a.png"]), false));
    assert!(!filter.excludes(&path(&["docs "]), true));
    assert!(!filter.excludes(&path(&["a.txt"]), false));
}
