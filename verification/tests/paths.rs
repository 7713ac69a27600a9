use oneagentgraph::anchor::{
    absolute, anchored, anchored_path, join_path, names_its_own_root, separator_of,
    take_components,
};
use oneagentgraph::location::{parent, Location};

/// The rule every caller relies on, in one place: a path that names its own root
/// is handed back untouched, and a relative one is spliced onto the base.
#[test]
fn a_path_naming_its_own_root_is_never_re_rooted_under_the_base() {
    let dir = tempfile::tempdir().expect("tempdir");
    let base = dir.path().display().to_string();
    let here = "/work";
    assert_eq!(anchored(here, &base, "/graphs/api"), None);
    assert_eq!(
        anchored_path(here, Some(&base), "/graphs/api"),
        "/graphs/api"
    );
    assert_eq!(
        anchored_path(here, Some(&base), "./graphs/api"),
        dir.path().join("graphs").join("api").display().to_string()
    );
    assert_eq!(anchored_path(here, None, "graphs/api"), "graphs/api");
    assert_eq!(anchored(here, &base, ""), None);
    assert_eq!(anchored_path(here, Some(&base), ""), "");
}

/// A base already ending in a separator is not given a second one, and the
/// separator spliced with is the base's own.
#[test]
fn the_splice_uses_the_base_s_own_separator_exactly_once() {
    assert_eq!(
        anchored("/work", "/graphs/", "api.yaml").as_deref(),
        Some("/graphs/api.yaml")
    );
    assert_eq!(separator_of("/graphs/a"), '/');
    assert_eq!(separator_of(r"\\server\share"), '\\');
    assert_eq!(separator_of(r"C:\graphs\a"), '\\');
    assert_eq!(separator_of("graphs"), '/');
}

/// A base with no root of its own is read against the directory the process runs
/// in, and an empty one is that directory.
#[test]
fn a_base_with_no_root_is_made_absolute_first() {
    assert_eq!(
        anchored("/work", "graphs", "api.yaml").as_deref(),
        Some("/work/graphs/api.yaml")
    );
    assert_eq!(
        anchored("/work", "", "./api.yaml").as_deref(),
        Some("/work/api.yaml")
    );
    assert_eq!(
        anchored("/work", "/base", "../up/./x.yaml").as_deref(),
        Some("/base/../up/x.yaml")
    );
    assert!(names_its_own_root("/a"));
    assert!(!names_its_own_root("a/b"));
}

/// Making a path absolute answers as the standard library does on this host.
#[test]
fn a_path_made_absolute_is_the_hosts_own() {
    let here = std::path::absolute(".").expect("a working directory");
    let here = here.display().to_string();
    for path in ["graphs", "./graphs/a", "a/./b/../c", "/x//y", "a/b/", "/", "./", ".", "././"] {
        let wanted = std::path::absolute(path).expect("absolute");
        assert_eq!(absolute(&here, path), wanted.display().to_string(), "{path:?}");
    }
    // The standard library refuses the empty path, which is kept.
    assert!(std::path::absolute("").is_err());
    assert_eq!(absolute(&here, ""), "");
}

/// Joining answers as the standard library does: a path with a root replaces what
/// it is joined to, and a separator is added only where one is missing.
#[test]
fn joining_answers_as_the_standard_library_does() {
    for (dir, path) in [("a", "b"), ("a/", "b"), ("a", "/b"), ("", "b"), ("a", ""), ("/", "b")] {
        assert_eq!(
            join_path(dir, path),
            std::path::Path::new(dir).join(path).display().to_string(),
            "{dir:?} {path:?}"
        );
    }
    assert_eq!(take_components("/a//b/./c/"), vec!["a", "b", "c"]);
}

#[test]
fn a_parent_is_the_standard_librarys() {
    for path in [
        "/a/b", "a", "/a", "/", "", "a/b/c", "a//b", "a/b/", "./a", ".", "./", "./a/b", "a/.", "..", "./.",
    ] {
        assert_eq!(
            parent(path),
            std::path::Path::new(path).parent().map(|it| it.display().to_string()),
            "{path:?}"
        );
    }
}

/// A location takes a history file apart, and put back together names it.
#[test]
fn a_location_takes_a_history_file_apart() {
    let location = Location::of("/store/projects/-work-api/abc.jsonl");
    let location = location.expect("a location");
    assert_eq!(
        (location.dir(), location.project(), location.session()),
        ("/store/projects", "-work-api", "abc")
    );
}
