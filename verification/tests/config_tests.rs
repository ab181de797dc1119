use findybara::config::{get_config, get_multi_config, FileConfig};

fn actions(c: &FileConfig) -> Vec<&str> {
    c.actions.iter().map(|a| a.as_str()).collect()
}

#[test]
fn multi_config_values() {
    let c = get_multi_config();
    assert_eq!(c.ext_label, "MULTI");
    assert_eq!(c.color, "#EAB308");
    assert_eq!(actions(&c), vec!["Copy Paths", "Move items", "Delete"]);
}

#[test]
fn folder_config_ignores_the_name() {
    for p in ["/Users/me/Documents", "/tmp/photos.jpg", "", "/"] {
        let c = get_config(p, true);
        assert_eq!(c.ext_label, "DIR");
        assert_eq!(c.color, "#34D399");
        assert_eq!(actions(&c), vec!["Open VSCode", "Clean Up", "Compress", "Delete"]);
    }
}

#[test]
fn image_extension_is_uppercased_in_the_label() {
    let c = get_config("/Users/me/Pictures/cat.png", false);
    assert_eq!(c.ext_label, "PNG");
    assert_eq!(c.color, "#F472B6");
    assert_eq!(actions(&c), vec!["Preview", "Optimize", "Copy Path", "Delete"]);
}

#[test]
fn uppercase_extension_is_matched_case_insensitively() {
    let upper = get_config("/a/IMG_0001.JPG", false);
    let lower = get_config("/b/holiday.jpg", false);
    assert_eq!(upper.ext_label, "JPG");
    assert_eq!(upper.color, lower.color);
    assert_eq!(actions(&upper), actions(&lower));
}

#[test]
fn video_config() {
    let c = get_config("clip.MKV", false);
    assert_eq!(c.ext_label, "MKV");
    assert_eq!(c.color, "#818CF8");
    assert_eq!(actions(&c), vec!["Play", "Convert to GIF", "Mute Audio", "Delete"]);
}

#[test]
fn pdf_config() {
    let c = get_config("/docs/report.pdf", false);
    assert_eq!(c.ext_label, "PDF");
    assert_eq!(c.color, "#FB7185");
    assert_eq!(actions(&c), vec!["Open PDF", "Merge PDFs", "Compress"]);
}

#[test]
fn code_config() {
    for (p, label) in [("main.rs", "RS"), ("app.ts", "TS"), ("index.HTML", "HTML"), ("x.py", "PY")] {
        let c = get_config(p, false);
        assert_eq!(c.ext_label, label);
        assert_eq!(c.color, "#60A5FA");
        assert_eq!(actions(&c), vec!["Edit in VSCode", "Run Script", "Delete"]);
    }
}

#[test]
fn other_extension_config() {
    let c = get_config("/tmp/archive.tar.gz", false);
    assert_eq!(c.ext_label, "GZ");
    assert_eq!(c.color, "#9CA3AF");
    assert_eq!(actions(&c), vec!["Open with...", "Copy Path", "Delete"]);
}

#[test]
fn file_without_extension_is_labelled_file() {
    for p in ["/usr/bin/README", ".bashrc", "/home/me/.profile", "notes."] {
        let c = get_config(p, false);
        assert_eq!(c.ext_label, "FILE", "path {}", p);
        assert_eq!(c.color, "#9CA3AF");
    }
}

use findybara::config::config_for_extension;

#[test]
fn extension_config_by_lowered_extension() {
    let c = config_for_extension("jpeg");
    assert_eq!(c.ext_label, "JPEG");
    assert_eq!(c.color, "#F472B6");
    let c = config_for_extension("");
    assert_eq!(c.ext_label, "FILE");
    assert_eq!(c.color, "#9CA3AF");
    assert_eq!(actions(&c), vec!["Open with...", "Copy Path", "Delete"]);
    let c = config_for_extension("css");
    assert_eq!(c.ext_label, "CSS");
    assert_eq!(c.color, "#60A5FA");
    // The match is on the lowered text: capitals are not lowered here.
    let c = config_for_extension("PDF");
    assert_eq!(c.color, "#9CA3AF");
}

#[test]
fn extensions_differing_only_in_ascii_case_get_equal_configs() {
    for (a, b) in [("a.Png", "a.PNG"), ("x/y.mOv", "x/y.MOV"), ("r.Pdf", "s.pdf"), ("t.TxT", "u.txt")] {
        let (ca, cb) = (get_config(a, false), get_config(b, false));
        assert_eq!(ca.ext_label, cb.ext_label);
        assert_eq!(ca.color, cb.color);
        assert_eq!(actions(&ca), actions(&cb));
    }
}
