use task_profiler::paths::file_name;

fn name(path: &str) -> Option<String> {
    file_name(path)
}

#[test]
fn file_in_a_directory() {
    assert_eq!(name("/usr/lib/libSystem.B.dylib").as_deref(), Some("libSystem.B.dylib"));
    assert_eq!(name("relative/app").as_deref(), Some("app"));
    assert_eq!(name("app").as_deref(), Some("app"));
    assert_eq!(name("/Applications/Ä pp/ü").as_deref(), Some("ü"));
}

#[test]
fn empty_components_and_dots_do_not_count() {
    assert_eq!(name("/usr/bin/").as_deref(), Some("bin"));
    assert_eq!(name("/usr/bin//").as_deref(), Some("bin"));
    assert_eq!(name("/usr/bin/.").as_deref(), Some("bin"));
    assert_eq!(name("a/./b/./").as_deref(), Some("b"));
    assert_eq!(name("...").as_deref(), Some("..."));
    assert_eq!(name(".hidden").as_deref(), Some(".hidden"));
}

#[test]
fn paths_without_a_file_name() {
    assert_eq!(name(""), None);
    assert_eq!(name("/"), None);
    assert_eq!(name("."), None);
    assert_eq!(name("./."), None);
    assert_eq!(name(".."), None);
    assert_eq!(name("a/.."), None);
    assert_eq!(name("a/../"), None);
}

#[test]
fn agrees_with_the_paths_of_std() {
    let paths = ["/a/b.c", "a//b", "./x", "x/.", "x/..", "..", "/", "", "a/b/../c", "//", ". /", "a/ "];
    for path in paths {
        let expected = std::path::Path::new(path).file_name();
        let expected = expected.map(|n| n.to_string_lossy().to_string());
        assert_eq!(name(path), expected, "{}", path);
    }
}
