use amax_updater_client::extract::{
    plan_entry, plan_extraction, ArchiveEntry, EntryKind, ExtractError, ExtractedEntry,
};
use amax_updater_client::paths::PathStyle;

const UNIX: PathStyle = PathStyle::Unix;
const WINDOWS: PathStyle = PathStyle::Windows;

fn entry(name: &str, size: u64, unix_mode: Option<u32>) -> ArchiveEntry {
    ArchiveEntry { name: name.to_string(), size, unix_mode }
}

fn some(text: &str) -> Option<String> {
    Some(text.to_string())
}

#[test]
fn zip_slip_entry_is_rejected() {
    let entries = vec![entry("amax/", 0, None), entry("../../evil.txt", 4, None)];
    for style in [UNIX, WINDOWS] {
        assert_eq!(
            plan_extraction(&entries, "/tmp/work", style),
            Err(ExtractError::UnsafePath { index: 1, name: "../../evil.txt".to_string() })
        );
    }
}

#[test]
fn entry_that_climbs_past_a_backslash_name_is_rejected() {
    let entries = vec![entry("a\\b/../../e", 1, None)];
    assert_eq!(
        plan_extraction(&entries, "/tmp/work", UNIX),
        Err(ExtractError::UnsafePath { index: 0, name: "a\\b/../../e".to_string() })
    );
}

#[test]
fn backslash_traversal_is_rejected_where_backslash_separates() {
    let entries = vec![entry("ok", 1, None), entry("..\\..\\evil.txt", 1, None)];
    assert_eq!(
        plan_extraction(&entries, "C:\\work", WINDOWS),
        Err(ExtractError::UnsafePath { index: 1, name: "..\\..\\evil.txt".to_string() })
    );
}

#[test]
fn first_unsafe_entry_is_reported() {
    let entries = vec![
        entry("ok.txt", 1, None),
        entry("/etc/passwd", 2, None),
        entry("../x", 3, None),
    ];
    assert_eq!(
        plan_extraction(&entries, "/tmp/work", UNIX),
        Err(ExtractError::UnsafePath { index: 1, name: "/etc/passwd".to_string() })
    );
}

#[test]
fn unsafe_entry_at_the_end_refuses_the_whole_archive() {
    let entries = vec![entry("a", 1, None), entry("b", 2, None), entry("c/../../d", 3, None)];
    assert!(plan_extraction(&entries, "w", UNIX).is_err());
}

#[test]
fn every_entry_gets_one_step() {
    let entries = vec![
        entry("amax/", 0, Some(0o755)),
        entry("amax/version", 7, Some(0o644)),
        entry("amax/data/blob.bin", 1024, None),
        entry("d3d9.dll", 2048, Some(0o644)),
    ];
    let set = plan_extraction(&entries, "/tmp/work", UNIX).unwrap();
    assert_eq!(set.entries.len(), 4);
    assert_eq!(
        set.entries,
        vec![
            ExtractedEntry {
                index: 0,
                relative_path: "amax/".to_string(),
                destination: "/tmp/work/amax/".to_string(),
                kind: EntryKind::Directory,
                parent: None,
                top_level: some("amax"),
                size: 0,
                unix_mode: Some(0o755),
            },
            ExtractedEntry {
                index: 1,
                relative_path: "amax/version".to_string(),
                destination: "/tmp/work/amax/version".to_string(),
                kind: EntryKind::File,
                parent: some("/tmp/work/amax"),
                top_level: None,
                size: 7,
                unix_mode: Some(0o644),
            },
            ExtractedEntry {
                index: 2,
                relative_path: "amax/data/blob.bin".to_string(),
                destination: "/tmp/work/amax/data/blob.bin".to_string(),
                kind: EntryKind::File,
                parent: some("/tmp/work/amax/data"),
                top_level: None,
                size: 1024,
                unix_mode: None,
            },
            ExtractedEntry {
                index: 3,
                relative_path: "d3d9.dll".to_string(),
                destination: "/tmp/work/d3d9.dll".to_string(),
                kind: EntryKind::File,
                parent: some("/tmp/work"),
                top_level: some("d3d9.dll"),
                size: 2048,
                unix_mode: Some(0o644),
            },
        ]
    );
    assert_eq!(set.top_level, vec!["amax".to_string(), "d3d9.dll".to_string()]);
}

#[test]
fn steps_on_a_windows_host() {
    let entries = vec![entry("amax/", 0, None), entry("amax/data/blob.bin", 9, None)];
    let set = plan_extraction(&entries, "C:\\Temp\\work", WINDOWS).unwrap();
    assert_eq!(set.entries[0].destination, "C:\\Temp\\work\\amax/");
    assert_eq!(set.entries[0].kind, EntryKind::Directory);
    assert_eq!(set.entries[1].destination, "C:\\Temp\\work\\amax/data/blob.bin");
    assert_eq!(set.entries[1].parent, some("C:\\Temp\\work\\amax/data"));
    assert_eq!(set.top_level, vec!["amax".to_string()]);
}

#[test]
fn paths_and_sizes_match_the_archive() {
    let names = ["a.txt", "b/c.txt", "b/d/e.bin", "f/", "g\\h", "i\\"];
    let entries: Vec<ArchiveEntry> =
        names.iter().enumerate().map(|(i, n)| entry(n, 10 * i as u64, None)).collect();
    let set = plan_extraction(&entries, "out", UNIX).unwrap();
    assert_eq!(set.entries.len(), names.len());
    for (i, step) in set.entries.iter().enumerate() {
        assert_eq!(step.index, i);
        assert_eq!(step.relative_path, names[i]);
        assert_eq!(step.destination, format!("out/{}", names[i]));
        assert_eq!(step.size, 10 * i as u64);
        assert_eq!(step.kind == EntryKind::Directory, names[i].ends_with('/'));
    }
}

#[test]
fn empty_archive_gives_an_empty_plan() {
    let set = plan_extraction(&Vec::new(), "/tmp/work", UNIX).unwrap();
    assert!(set.entries.is_empty());
    assert!(set.top_level.is_empty());
}

#[test]
fn top_level_entries_keep_archive_order_and_repeats() {
    let entries = vec![
        entry("lua5.1.dll", 1, None),
        entry("amax/", 0, None),
        entry("amax/x", 1, None),
        entry("amax", 0, None),
    ];
    let set = plan_extraction(&entries, "w", UNIX).unwrap();
    assert_eq!(
        set.top_level,
        vec!["lua5.1.dll".to_string(), "amax".to_string(), "amax".to_string()]
    );
}

#[test]
fn name_with_a_backslash_is_top_level_where_only_slash_separates() {
    let entries = vec![entry("a\\b", 1, None), entry("c/d", 1, None)];
    let set = plan_extraction(&entries, "w", UNIX).unwrap();
    assert_eq!(set.top_level, vec!["a\\b".to_string()]);
    assert_eq!(set.entries[0].destination, "w/a\\b");
    assert_eq!(set.entries[0].parent, some("w"));
    let set = plan_extraction(&entries, "w", WINDOWS).unwrap();
    assert!(set.top_level.is_empty());
    assert_eq!(set.entries[0].destination, "w\\a\\b");
    assert_eq!(set.entries[0].parent, some("w\\a"));
}

#[test]
fn extraction_into_the_current_directory() {
    let set = plan_extraction(&vec![entry("amax/version", 3, None)], "", UNIX).unwrap();
    assert_eq!(set.entries[0].destination, "amax/version");
    assert_eq!(set.entries[0].parent, some("amax"));
}

#[test]
fn single_entry_plan() {
    let step = plan_entry(&entry("amax/version", 7, Some(0o600)), 5, "/w", UNIX).unwrap();
    assert_eq!(step.index, 5);
    assert_eq!(step.destination, "/w/amax/version");
    assert_eq!(step.kind, EntryKind::File);
    assert_eq!(step.parent, some("/w/amax"));
    assert_eq!(step.top_level, None);
    assert_eq!(step.size, 7);
    assert_eq!(step.unix_mode, Some(0o600));
}

#[test]
fn single_unsafe_entry_is_refused() {
    assert_eq!(
        plan_entry(&entry("../up", 1, None), 3, "/w", UNIX),
        Err(ExtractError::UnsafePath { index: 3, name: "../up".to_string() })
    );
}

#[test]
fn entry_that_ends_in_a_backslash_is_a_file() {
    let step = plan_entry(&entry("amax\\", 5, None), 0, "/w", UNIX).unwrap();
    assert_eq!(step.kind, EntryKind::File);
    assert_eq!(step.destination, "/w/amax\\");
    assert_eq!(step.parent, some("/w"));
    assert_eq!(step.top_level, some("amax\\"));
    assert_eq!(step.size, 5);
    let step = plan_entry(&entry("amax\\", 5, None), 0, "C:\\w", WINDOWS).unwrap();
    assert_eq!(step.kind, EntryKind::File);
    assert_eq!(step.top_level, some("amax"));
}

#[test]
fn extract_error_messages() {
    assert_eq!(
        ExtractError::UnsafePath { index: 1, name: "../../evil.txt".to_string() }.message(),
        "Refused to extract '../../evil.txt': the path leaves the destination directory"
    );
    assert_eq!(
        ExtractError::CorruptArchive { cause: "invalid Zip archive".to_string() }.message(),
        "Failed to read the archive: invalid Zip archive"
    );
}
