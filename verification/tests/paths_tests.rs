use amax_updater_client::paths::{
    directory_of, is_directory_name, is_enclosed_name, join_path, placement, separates, PathStyle,
    Placement,
};

const UNIX: PathStyle = PathStyle::Unix;
const WINDOWS: PathStyle = PathStyle::Windows;
const BOTH: [PathStyle; 2] = [PathStyle::Unix, PathStyle::Windows];

fn top(name: &str) -> Placement {
    Placement::TopLevel(name.to_string())
}

#[test]
fn style_of_a_host() {
    assert_eq!(PathStyle::of_host(false), UNIX);
    assert_eq!(PathStyle::of_host(true), WINDOWS);
}

#[test]
fn separators_of_each_style() {
    assert!(separates('/', UNIX));
    assert!(!separates('\\', UNIX));
    assert!(separates('/', WINDOWS));
    assert!(separates('\\', WINDOWS));
    assert!(!separates('a', UNIX));
    assert!(!separates(':', WINDOWS));
}

#[test]
fn parent_traversal_escapes() {
    for style in BOTH {
        assert_eq!(placement("../../evil.txt", style), Placement::Escapes);
        assert_eq!(placement("..", style), Placement::Escapes);
        assert_eq!(placement("../x", style), Placement::Escapes);
        assert_eq!(placement("a/../../b", style), Placement::Escapes);
        assert_eq!(placement("a/b/../../../c", style), Placement::Escapes);
    }
}

#[test]
fn climbing_back_inside_is_still_an_escape() {
    for style in BOTH {
        assert_eq!(placement("../a/b", style), Placement::Escapes);
        assert_eq!(placement("a/../../a/b", style), Placement::Escapes);
    }
}

#[test]
fn backslash_is_part_of_a_name_where_only_slash_separates() {
    assert_eq!(placement("a\\b", UNIX), top("a\\b"));
    assert_eq!(placement("a\\", UNIX), top("a\\"));
    assert_eq!(placement("..\\..\\evil.txt", UNIX), top("..\\..\\evil.txt"));
    assert_eq!(placement("a\\b/c", UNIX), Placement::Nested);
    assert_eq!(placement("a\\b/..", UNIX), Placement::Nested);
}

#[test]
fn name_that_climbs_past_a_backslash_name_escapes() {
    assert_eq!(placement("a\\b/../../e", UNIX), Placement::Escapes);
    assert_eq!(placement("a\\b/../..", UNIX), Placement::Escapes);
    assert_eq!(placement("a\\..\\..\\b/../../e", UNIX), Placement::Escapes);
}

#[test]
fn backslash_separates_on_windows() {
    assert_eq!(placement("a\\b", WINDOWS), Placement::Nested);
    assert_eq!(placement("a\\", WINDOWS), top("a"));
    assert_eq!(placement("..\\..\\evil.txt", WINDOWS), Placement::Escapes);
    assert_eq!(placement("a\\..\\..\\b", WINDOWS), Placement::Escapes);
    assert_eq!(placement("a\\b/../../e", WINDOWS), Placement::Nested);
    assert_eq!(placement("a\\b/../../../e", WINDOWS), Placement::Escapes);
}

#[test]
fn rooted_names_escape() {
    for style in BOTH {
        assert_eq!(placement("/etc/passwd", style), Placement::Escapes);
        assert_eq!(placement("/", style), Placement::Escapes);
        assert_eq!(placement("//host/share", style), Placement::Escapes);
    }
    assert_eq!(placement("\\windows\\system32", WINDOWS), Placement::Escapes);
    assert_eq!(placement("C:\\windows", WINDOWS), Placement::Escapes);
    assert_eq!(placement("c:evil.txt", WINDOWS), Placement::Escapes);
    assert_eq!(placement("C:/windows", WINDOWS), Placement::Escapes);
}

#[test]
fn drive_letters_mean_nothing_where_only_slash_separates() {
    assert_eq!(placement("c:evil.txt", UNIX), top("c:evil.txt"));
    assert_eq!(placement("C:\\windows", UNIX), top("C:\\windows"));
    assert_eq!(placement("C:/windows", UNIX), Placement::Nested);
    assert_eq!(placement("\\windows", UNIX), top("\\windows"));
}

#[test]
fn names_with_nul_escape() {
    for style in BOTH {
        assert_eq!(placement("a\0b", style), Placement::Escapes);
        assert_eq!(placement("amax/\0", style), Placement::Escapes);
    }
}

#[test]
fn single_names_are_top_level() {
    for style in BOTH {
        assert_eq!(placement("d3d9.dll", style), top("d3d9.dll"));
        assert_eq!(placement("amax/", style), top("amax"));
        assert_eq!(placement("amax", style), top("amax"));
        assert_eq!(placement("amax//", style), top("amax"));
        assert_eq!(placement("amax/.", style), top("amax"));
        assert_eq!(placement("...", style), top("..."));
        assert_eq!(placement(".hidden", style), top(".hidden"));
    }
}

#[test]
fn name_behind_a_dot_is_not_top_level() {
    for style in BOTH {
        assert_eq!(placement("./amax/", style), Placement::Nested);
        assert_eq!(placement("./amax", style), Placement::Nested);
        assert_eq!(placement(".//amax", style), Placement::Nested);
    }
}

#[test]
fn names_inside_a_directory_are_nested() {
    for style in BOTH {
        assert_eq!(placement("amax/version", style), Placement::Nested);
        assert_eq!(placement("amax/data/", style), Placement::Nested);
        assert_eq!(placement("a/../b", style), Placement::Nested);
        assert_eq!(placement("a/b/../../c", style), Placement::Nested);
        assert_eq!(placement("a/..", style), Placement::Nested);
    }
}

#[test]
fn names_without_any_component_are_nested() {
    for style in BOTH {
        assert_eq!(placement("", style), Placement::Nested);
        assert_eq!(placement(".", style), Placement::Nested);
        assert_eq!(placement("./", style), Placement::Nested);
    }
}

#[test]
fn a_colon_elsewhere_is_no_drive() {
    assert_eq!(placement("ab:c", WINDOWS), top("ab:c"));
    assert_eq!(placement("1:x", WINDOWS), top("1:x"));
}

#[test]
fn enclosed_names() {
    for style in BOTH {
        assert!(is_enclosed_name("amax/version", style));
        assert!(is_enclosed_name("d3d9.dll", style));
        assert!(is_enclosed_name("a/../b", style));
        assert!(!is_enclosed_name("../../evil.txt", style));
        assert!(!is_enclosed_name("/abs", style));
        assert!(!is_enclosed_name("a/../..", style));
    }
    assert!(!is_enclosed_name("a\\b/../../e", UNIX));
    assert!(is_enclosed_name("a\\b/../../e", WINDOWS));
    assert!(is_enclosed_name("..\\x", UNIX));
    assert!(!is_enclosed_name("..\\x", WINDOWS));
}

#[test]
fn directory_names_end_in_a_slash() {
    assert!(is_directory_name("amax/"));
    assert!(is_directory_name("/"));
    assert!(is_directory_name("a\\b/"));
    assert!(!is_directory_name("amax"));
    assert!(!is_directory_name("amax/version"));
    assert!(!is_directory_name(""));
}

#[test]
fn name_that_ends_in_a_backslash_is_a_file() {
    assert!(!is_directory_name("amax\\"));
    assert!(!is_directory_name("a\\"));
    assert!(!is_directory_name("\\"));
}

#[test]
fn join_adds_one_separator() {
    assert_eq!(join_path("/games/blur", "amax", UNIX), "/games/blur/amax");
    assert_eq!(join_path("/games/blur/", "amax", UNIX), "/games/blur/amax");
    assert_eq!(join_path(".", "amax/version", UNIX), "./amax/version");
    assert_eq!(join_path("C:\\blur", "amax", WINDOWS), "C:\\blur\\amax");
    assert_eq!(join_path("C:\\blur\\", "amax", WINDOWS), "C:\\blur\\amax");
    assert_eq!(join_path("C:/blur/", "amax/version", WINDOWS), "C:/blur/amax/version");
    assert_eq!(join_path("C:\\blur", "amax/version", WINDOWS), "C:\\blur\\amax/version");
}

#[test]
fn join_behind_a_backslash_where_only_slash_separates() {
    assert_eq!(join_path("/games/blur\\", "amax", UNIX), "/games/blur\\/amax");
}

#[test]
fn join_to_nothing_is_the_relative_path() {
    for style in BOTH {
        assert_eq!(join_path("", "amax", style), "amax");
        assert_eq!(join_path("", "", style), "");
    }
}

#[test]
fn join_keeps_an_empty_relative_path() {
    assert_eq!(join_path("/tmp/x", "", UNIX), "/tmp/x/");
    assert_eq!(join_path("C:\\x", "", WINDOWS), "C:\\x\\");
}

#[test]
fn directory_of_a_file() {
    for style in BOTH {
        assert_eq!(directory_of("/tmp/x/archive.zip", style), Some("/tmp/x".to_string()));
        assert_eq!(directory_of("x/archive.zip", style), Some("x".to_string()));
    }
    assert_eq!(directory_of("C:\\x\\archive.zip", WINDOWS), Some("C:\\x".to_string()));
    assert_eq!(directory_of("x\\archive.zip", UNIX), None);
    assert_eq!(directory_of("/tmp/a\\b.zip", UNIX), Some("/tmp".to_string()));
}

#[test]
fn directory_of_a_bare_name_is_none() {
    for style in BOTH {
        assert_eq!(directory_of("archive.zip", style), None);
        assert_eq!(directory_of("", style), None);
    }
}

#[test]
fn directory_of_a_file_in_the_root() {
    assert_eq!(directory_of("/archive.zip", UNIX), Some("/".to_string()));
    assert_eq!(directory_of("\\archive.zip", WINDOWS), Some("\\".to_string()));
}

#[test]
fn directory_of_a_directory_name() {
    assert_eq!(directory_of("/tmp/x/", UNIX), Some("/tmp/x".to_string()));
}

#[test]
fn directory_of_a_file_in_the_root_of_a_drive() {
    assert_eq!(directory_of("C:\\archive.zip", WINDOWS), Some("C:\\".to_string()));
    assert_eq!(directory_of("c:/archive.zip", WINDOWS), Some("c:/".to_string()));
    assert_eq!(directory_of("C:\\Temp\\archive.zip", WINDOWS), Some("C:\\Temp".to_string()));
    assert_eq!(directory_of("C:/a.zip", UNIX), Some("C:".to_string()));
    assert_eq!(directory_of("ab\\c", WINDOWS), Some("ab".to_string()));
    assert_eq!(directory_of("1:\\c", WINDOWS), Some("1:".to_string()));
}
