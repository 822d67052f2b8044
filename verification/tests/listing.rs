use honey_shell::listing::{
    list_children, list_directory_with_times, ChildMetadata, ChildProbe, FileEntry, ModifiedTime,
};

fn probe(name: &str, len: u64, is_dir: bool, modified: ModifiedTime) -> ChildProbe {
    ChildProbe { name: name.to_string(), metadata: Some(ChildMetadata { len, is_dir, modified }) }
}

fn at(secs: u64, subsec_nanos: u32) -> ModifiedTime {
    ModifiedTime::SinceEpoch { secs, subsec_nanos }
}

#[test]
fn empty_directory_lists_as_empty_sequence() {
    assert_eq!(list_directory_with_times(Ok(Vec::new())), Ok(Vec::new()));
}

#[test]
fn unreadable_path_is_an_error_and_not_an_empty_listing() {
    let message = "The system cannot find the path specified. (os error 3)".to_string();
    let result = list_directory_with_times(Err(message.clone()));
    assert_eq!(result, Err(message));
    assert_ne!(result, Ok(Vec::new()));
}

#[test]
fn workspace_root_lists_its_inner_directory() {
    let result = list_directory_with_times(Ok(vec![probe("root", 4096, true, at(1_700_000_000, 5))]));
    assert_eq!(
        result,
        Ok(vec![FileEntry {
            name: "root".to_string(),
            mtime: 1_700_000_000,
            size: 4096,
            is_dir: true,
        }])
    );
}

#[test]
fn one_entry_per_child_in_probe_order() {
    let probes = vec![
        probe("zeta.txt", 12, false, at(30, 0)),
        probe(".hidden", 0, false, at(10, 0)),
        probe("alpha", 4096, true, at(20, 0)),
    ];
    let entries = list_children(&probes);
    let names: Vec<&str> = entries.iter().map(|e| e.name.as_str()).collect();
    assert_eq!(names, vec!["zeta.txt", ".hidden", "alpha"]);
    assert_eq!(entries[0].size, 12);
    assert!(!entries[0].is_dir);
    assert_eq!(entries[2].size, 4096);
    assert!(entries[2].is_dir);
    assert_eq!(entries[1].mtime, 10);
}

#[test]
fn mtime_is_truncated_to_whole_seconds() {
    let entries = list_children(&vec![
        probe("a", 1, false, at(41, 999_999_999)),
        probe("b", 1, false, at(42, 0)),
        probe("c", 1, false, at(0, 1)),
    ]);
    let times: Vec<u64> = entries.iter().map(|e| e.mtime).collect();
    assert_eq!(times, vec![41, 42, 0]);
}

#[test]
fn as_secs_gives_whole_seconds_or_nothing() {
    assert_eq!(at(7, 500_000_000).as_secs(), Some(7));
    assert_eq!(at(u64::MAX, 999_999_999).as_secs(), Some(u64::MAX));
    assert_eq!(ModifiedTime::BeforeEpoch.as_secs(), None);
    assert_eq!(ModifiedTime::Unavailable.as_secs(), None);
}

#[test]
fn child_without_metadata_is_dropped() {
    let probes = vec![
        probe("kept", 3, false, at(5, 0)),
        ChildProbe { name: "vanished".to_string(), metadata: None },
        probe("also kept", 4, true, at(6, 0)),
    ];
    let result = list_directory_with_times(Ok(probes));
    assert_eq!(
        result,
        Ok(vec![
            FileEntry { name: "kept".to_string(), mtime: 5, size: 3, is_dir: false },
            FileEntry { name: "also kept".to_string(), mtime: 6, size: 4, is_dir: true },
        ])
    );
}

#[test]
fn child_without_usable_modification_time_is_dropped() {
    let probes = vec![
        probe("old", 1, false, ModifiedTime::BeforeEpoch),
        probe("unknown", 2, false, ModifiedTime::Unavailable),
        probe("fine", 3, false, at(9, 9)),
    ];
    let entries = list_children(&probes);
    assert_eq!(
        entries,
        vec![FileEntry { name: "fine".to_string(), mtime: 9, size: 3, is_dir: false }]
    );
}

#[test]
fn listing_succeeds_even_when_every_child_is_dropped() {
    let probes = vec![
        ChildProbe { name: "a".to_string(), metadata: None },
        probe("b", 1, false, ModifiedTime::BeforeEpoch),
    ];
    assert_eq!(list_directory_with_times(Ok(probes)), Ok(Vec::new()));
}

#[test]
fn to_entry_carries_the_probe() {
    let entry = probe("notes.md", 77, false, at(123, 456)).to_entry();
    assert_eq!(
        entry,
        Some(FileEntry { name: "notes.md".to_string(), mtime: 123, size: 77, is_dir: false })
    );
    assert_eq!(ChildProbe { name: "x".to_string(), metadata: None }.to_entry(), None);
}

#[test]
fn equal_names_are_not_merged() {
    let probes = vec![probe("same", 1, false, at(1, 0)), probe("same", 1, false, at(1, 0))];
    assert_eq!(list_children(&probes).len(), 2);
}
