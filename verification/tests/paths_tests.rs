use findybara::config::get_config;
use findybara::paths::item_name;
use findybara::stats::selection_bytes;
use std::path::Path;

/// The documented component, file-name and extension rules for a path
/// written with `/` alone, spelled out directly.
fn file_name_by_rule(p: &str) -> Option<String> {
    let last = p.split('/').filter(|c| !c.is_empty() && *c != ".").last()?;
    if last == ".." {
        None
    } else {
        Some(last.to_string())
    }
}

fn extension_by_rule(p: &str) -> Option<String> {
    let name = file_name_by_rule(p)?;
    let dot = name.rfind('.')?;
    if dot == 0 {
        None
    } else {
        Some(name[dot + 1..].to_string())
    }
}

const PATHS: [&str; 24] = [
    "", "/", ".", "..", "./", "/.", "/..", "a", "a.b", ".bashrc", "/Users/me/.bashrc",
    "/Users/me/.config/app.toml", "a/b.c/", "a/b.c/.", "a/b.c/..", "a//b.txt", "./x.y",
    "...", "..x", "a.", "x.tar.gz", "/tmp/My Photo.JPG", "dir.d/file", "a/./b.rs/./",
];

#[test]
fn std_follows_the_documented_path_rules() {
    for p in PATHS {
        assert_eq!(
            Path::new(p).file_name().and_then(|n| n.to_str()).map(|n| n.to_string()),
            file_name_by_rule(p),
            "file name of {:?}",
            p
        );
        assert_eq!(
            Path::new(p).extension().and_then(|n| n.to_str()).map(|n| n.to_string()),
            extension_by_rule(p),
            "extension of {:?}",
            p
        );
    }
}

#[test]
fn item_names() {
    assert_eq!(item_name("/Users/me/Documents/report.pdf"), "report.pdf");
    assert_eq!(item_name("/Users/me/Desktop/"), "Desktop");
    assert_eq!(item_name("/"), "");
    assert_eq!(item_name("/a/.."), "");
}

#[test]
fn dot_file_gets_the_file_label() {
    let c = get_config("/Users/me/.bashrc", false);
    assert_eq!(c.ext_label, "FILE");
}

#[test]
fn selection_byte_totals() {
    assert_eq!(selection_bytes(&vec![]), Some(0));
    assert_eq!(selection_bytes(&vec![Some(10), None, Some(5)]), Some(15));
    assert_eq!(selection_bytes(&vec![Some(u64::MAX), None]), Some(u64::MAX));
    assert_eq!(selection_bytes(&vec![Some(u64::MAX), Some(1)]), None);
    assert_eq!(selection_bytes(&vec![None, None]), Some(0));
}
