use findybara::stats::{
    file_state, folder_final_state, folder_progress_state, folder_scanning_state, format_size,
    is_hidden, multi_state, none_state, CtxData, FolderTally,
};

/// The size text computed the way the panel has always computed it, in `f64`.
fn size_in_f64(bytes: u64) -> String {
    let kb = 1024.0;
    let mb = kb * 1024.0;
    let gb = mb * 1024.0;
    let b = bytes as f64;
    if b >= gb {
        format!("{:.2} GB", b / gb)
    } else if b >= mb {
        format!("{:.1} MB", b / mb)
    } else if b >= kb {
        format!("{:.1} KB", b / kb)
    } else {
        format!("{} B", bytes)
    }
}

#[test]
fn size_exact_values() {
    assert_eq!(format_size(0), "0 B");
    assert_eq!(format_size(1023), "1023 B");
    assert_eq!(format_size(1024), "1.0 KB");
    assert_eq!(format_size(1536), "1.5 KB");
    assert_eq!(format_size(1048575), "1024.0 KB");
    assert_eq!(format_size(1048576), "1.0 MB");
    assert_eq!(format_size(5 * 1048576 + 524288), "5.5 MB");
    assert_eq!(format_size(1073741824), "1.00 GB");
    assert_eq!(format_size(1073741824 + 536870912), "1.50 GB");
}

#[test]
fn size_halfway_cases_round_to_even() {
    // 1.25 MB and 1.75 MB lie exactly halfway between two one-decimal values.
    assert_eq!(format_size(1310720), "1.2 MB");
    assert_eq!(format_size(1835008), "1.8 MB");
    assert_eq!(format_size(1310720), size_in_f64(1310720));
    assert_eq!(format_size(1835008), size_in_f64(1835008));
}

#[test]
fn size_matches_f64_formatting_below_four_megabytes() {
    for b in 0..4_200_000u64 {
        assert_eq!(format_size(b), size_in_f64(b), "bytes {}", b);
    }
}

#[test]
fn size_matches_f64_formatting_for_large_counts() {
    let mut x: u64 = 0x9E37_79B9_7F4A_7C15;
    for _ in 0..300_000 {
        x = x.wrapping_mul(6364136223846793005).wrapping_add(1442695040888963407);
        for b in [x, x >> 7, x >> 20, x >> 33, x >> 40] {
            assert_eq!(format_size(b), size_in_f64(b), "bytes {}", b);
        }
    }
    for b in [
        u64::MAX,
        u64::MAX - 1,
        1 << 53,
        (1 << 53) + 1,
        (1 << 54) + 2,
        (1 << 54) + 6,
        (1 << 63) + (1 << 10),
        1073741824 * 1023 + 1073741823,
        1073741824 + 5368709,
    ] {
        assert_eq!(format_size(b), size_in_f64(b), "bytes {}", b);
    }
    for k in 0..200_000u64 {
        let b = 1073741824 + k * 5_368_709;
        assert_eq!(format_size(b), size_in_f64(b), "bytes {}", b);
    }
}

#[test]
fn hidden_entries() {
    assert!(is_hidden(Some(".git")));
    assert!(is_hidden(Some(".")));
    assert!(!is_hidden(Some("src")));
    assert!(!is_hidden(Some("")));
    assert!(!is_hidden(None));
}

fn data(d: &Option<CtxData>) -> &CtxData {
    d.as_ref().expect("panel data")
}

#[test]
fn empty_selection_state() {
    let st = none_state();
    assert_eq!(st.ctx, "none");
    assert!(st.data.is_none());
}

#[test]
fn single_file_state() {
    let st = file_state("song.mp4", "/Users/me/song.mp4", 3 * 1048576);
    assert_eq!(st.ctx, "file");
    let d = data(&st.data);
    assert_eq!(d.name, "song.mp4");
    assert_eq!(d.ext, "MP4");
    assert_eq!(d.color, "#818CF8");
    assert_eq!(d.meta, "3.0 MB");
    assert_eq!(d.path, "/Users/me/song.mp4");
    assert_eq!(d.folder_summary, "");
    assert_eq!(d.actions, vec!["Play", "Convert to GIF", "Mute Audio", "Delete"]);
}

#[test]
fn folder_scan_states() {
    let st = folder_scanning_state("Projects", "/Users/me/Projects");
    assert_eq!(st.ctx, "folder");
    let d = data(&st.data);
    assert_eq!(d.meta, "Scanning items...");
    assert_eq!(d.ext, "DIR");
    assert_eq!(d.folder_summary, "");

    let mut t = FolderTally::new();
    t.record_file(1, 2048, Some("TXT"));
    t.record_dir(1);
    t.record_file(2, 1024, Some("txt"));
    t.record_dir(2);
    t.record_file(3, 10, None);
    t.record_file(1, 0, Some("rs"));

    let p = folder_progress_state("Projects", "/Users/me/Projects", &t);
    let d = data(&p.data);
    assert_eq!(d.meta, "Scanning... 1 folders, 2 files (3.0 KB...)");
    assert_eq!(d.folder_summary, "");

    let f = folder_final_state("Projects", "/Users/me/Projects", &t);
    assert_eq!(f.ctx, "folder");
    let d = data(&f.data);
    assert_eq!(d.name, "Projects");
    assert_eq!(d.path, "/Users/me/Projects");
    assert_eq!(d.color, "#34D399");
    assert_eq!(d.meta, "3.0 KB · 1 folders, 2 files");
    assert_eq!(d.folder_summary, "2 .txt files, 1 .no-ext files, 1 .rs files, ");
}

#[test]
fn empty_folder_final_state() {
    let t = FolderTally::new();
    let f = folder_final_state("Empty", "/e", &t);
    let d = data(&f.data);
    assert_eq!(d.meta, "0 B · 0 folders, 0 files");
    assert_eq!(d.folder_summary, "");
}

#[test]
fn every_counted_file_lands_in_the_summary() {
    let mut t = FolderTally::new();
    let exts = [Some("a"), Some("B"), None, Some("b"), Some("A"), Some("c"), None];
    for (i, e) in exts.iter().enumerate() {
        t.record_file(i % 3, 1, *e);
    }
    let f = folder_final_state("x", "/x", &t);
    let summary = &data(&f.data).folder_summary;
    let total: usize = summary
        .split(", ")
        .filter(|s| !s.is_empty())
        .map(|s| s.split(' ').next().unwrap().parse::<usize>().unwrap())
        .sum();
    assert_eq!(total, exts.len());
    assert_eq!(summary, "2 .a files, 2 .b files, 2 .no-ext files, 1 .c files, ");
}

#[test]
fn multi_selection_state() {
    let paths = vec!["/a/one.txt".to_string(), "/a/two".to_string(), "/a/three.png".to_string()];
    let st = multi_state(&paths, 2048);
    assert_eq!(st.ctx, "multi");
    let d = data(&st.data);
    assert_eq!(d.name, "3 items");
    assert_eq!(d.ext, "MULTI");
    assert_eq!(d.color, "#EAB308");
    assert_eq!(d.meta, "2.0 KB · 3 items selected");
    assert_eq!(d.path, "/a/one.txt\n/a/two\n/a/three.png");
    assert_eq!(d.actions, vec!["Copy Paths", "Move items", "Delete"]);
}

#[test]
fn multi_selection_of_folders_only_has_no_size() {
    let paths = vec!["/a".to_string(), "/b".to_string()];
    let st = multi_state(&paths, 0);
    let d = data(&st.data);
    assert_eq!(d.meta, "2 items selected");
    assert_eq!(d.path, "/a\n/b");
}

use findybara::stats::{selection_kind, FolderScan, SelectionKind};

#[test]
fn selection_kinds() {
    assert!(matches!(selection_kind(&vec![]), SelectionKind::Nothing));
    assert!(matches!(selection_kind(&vec!["/a".to_string()]), SelectionKind::Single));
    assert!(matches!(selection_kind(&vec!["/a".to_string(), "/b".to_string()]), SelectionKind::Several));
}

#[test]
fn folder_scan_progress_is_spaced_and_never_goes_down() {
    let mut scan = FolderScan::new(1_000);
    assert!(!scan.progress_due(1_000));
    assert!(!scan.progress_due(100_001_000));
    assert!(scan.progress_due(100_001_001));
    scan.record_file(1, 1024, Some("md"));
    scan.record_dir(1);
    let st = scan.progress_state("Docs", "/Docs");
    assert_eq!(st.ctx, "folder");
    let d = st.data.unwrap();
    assert_eq!(d.meta, "Scanning... 1 folders, 1 files (1.0 KB...)");
    assert_eq!(d.folder_summary, "");
    scan.mark_emitted(150_000_000);
    assert!(!scan.progress_due(250_000_000));
    assert!(scan.progress_due(250_000_001));
    scan.record_file(2, 1024, None);
    let d = scan.progress_state("Docs", "/Docs").data.unwrap();
    assert_eq!(d.meta, "Scanning... 1 folders, 1 files (2.0 KB...)");
    let f = scan.final_state("Docs", "/Docs").data.unwrap();
    assert_eq!(f.meta, "2.0 KB · 1 folders, 1 files");
    assert_eq!(f.folder_summary, "1 .md files, 1 .no-ext files, ");
    assert_eq!(scan.tally().files_recorded(), 2);
}
