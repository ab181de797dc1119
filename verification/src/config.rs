//! What the panel shows for a kind of selection: the badge text, the badge
//! colour and the list of offered actions.

use vstd::prelude::*;
use crate::paths::{extension_rule, lemma_extension_rule_same_case, plain_path};

verus! {

/// The badge label, colour and actions offered for one kind of selection.
pub struct FileConfig {
    pub ext_label: String,
    pub color: String,
    pub actions: Vec<String>,
}

/// A configuration as plain text: label, colour and action names.
pub type ConfigView = (Seq<char>, Seq<char>, Seq<Seq<char>>);

impl View for FileConfig {
    type V = ConfigView;

    open spec fn view(&self) -> ConfigView {
        (self.ext_label@, self.color@, self.actions@.map_values(|a: String| a@))
    }
}

/// What `Path::extension` (followed by `OsStr::to_str`) gives for a path.
pub uninterp spec fn path_extension_of(path: Seq<char>) -> Option<Seq<char>>;

/// What `str::to_lowercase` gives for a text.
pub uninterp spec fn lowercase_of(s: Seq<char>) -> Seq<char>;

/// What `str::to_uppercase` gives for a text.
pub uninterp spec fn uppercase_of(s: Seq<char>) -> Seq<char>;

/// Every character of `s` is ASCII.
pub open spec fn is_ascii_text(s: Seq<char>) -> bool {
    forall|i: int| 0 <= i < s.len() ==> ((#[trigger] s[i]) as u32) < 128
}

/// `c` with an ASCII capital turned into its small letter.
pub open spec fn ascii_lower_char(c: char) -> char {
    let u = c as u32;
    if 65 <= u && u <= 90 {
        (u + 32) as char
    } else {
        c
    }
}

/// `c` with an ASCII small letter turned into its capital.
pub open spec fn ascii_upper_char(c: char) -> char {
    let u = c as u32;
    if 97 <= u && u <= 122 {
        (u - 32) as char
    } else {
        c
    }
}

/// `s` with its ASCII capitals turned into small letters.
pub open spec fn ascii_lower(s: Seq<char>) -> Seq<char> {
    s.map_values(|c: char| ascii_lower_char(c))
}

/// `s` with its ASCII small letters turned into capitals.
pub open spec fn ascii_upper(s: Seq<char>) -> Seq<char> {
    s.map_values(|c: char| ascii_upper_char(c))
}

/// `a` and `b` are the same text but for the case of ASCII letters.
pub open spec fn same_but_ascii_case(a: Seq<char>, b: Seq<char>) -> bool {
    a.len() == b.len() && forall|i: int|
        0 <= i < a.len() ==> ascii_lower_char(#[trigger] a[i]) == ascii_lower_char(b[i])
}

/// The badge label of an ASCII lowercased extension: `FILE` when empty,
/// else the extension in ASCII capitals.
pub open spec fn ascii_badge(lower: Seq<char>) -> Seq<char> {
    if lower.len() == 0 {
        "FILE"@
    } else {
        ascii_upper(lower)
    }
}

/// The extension of a path as `std::path::Path::extension` finds it. The
/// extension is the part of the final path component after its last `.`,
/// so it holds neither a `.` nor a path separator `/`. For a path written
/// with `/` alone (no `\`, no `:`, so no platform prefix), the documented
/// rules of `Path::components` (empty and `.` components normalized away),
/// `Path::file_name` (none after a final `..`) and `Path::extension` give
/// `extension_rule`; other paths are left to the name.
#[verifier::external_body]
pub(crate) fn path_extension(path: &str) -> (ext: Option<&str>)
    ensures
        ext matches Some(e) ==> e@ == path_extension_of(path@)->0,
        ext is Some <==> path_extension_of(path@) is Some,
        ext matches Some(e) ==> !e@.contains('.') && !e@.contains('/'),
        plain_path(path@) ==> match ext {
            Some(e) => extension_rule(path@) == Some(e@),
            None => extension_rule(path@) is None,
        },
{
    match std::path::Path::new(path).extension() {
        Some(e) => e.to_str(),
        None => None,
    }
}

/// `str::to_lowercase`: the Unicode lowercase mapping of `s`. On ASCII
/// text the Unicode mapping is the ASCII one: `A`–`Z` become `a`–`z` and
/// every other character stays (so `""` stays `""`).
#[verifier::external_body]
pub(crate) fn to_lowercase(s: &str) -> (r: String)
    ensures
        r@ == lowercase_of(s@),
        is_ascii_text(s@) ==> r@ == ascii_lower(s@),
{
    s.to_lowercase()
}

/// `str::to_uppercase`: the Unicode uppercase mapping of `s`. On ASCII
/// text the Unicode mapping is the ASCII one: `a`–`z` become `A`–`Z` and
/// every other character stays.
#[verifier::external_body]
pub(crate) fn to_uppercase(s: &str) -> (r: String)
    ensures
        r@ == uppercase_of(s@),
        is_ascii_text(s@) ==> r@ == ascii_upper(s@),
{
    s.to_uppercase()
}

/// The configuration for a folder.
pub open spec fn dir_config() -> ConfigView {
    ("DIR"@, "#34D399"@, seq!["Open VSCode"@, "Clean Up"@, "Compress"@, "Delete"@])
}

/// The configuration for a selection of several items.
pub open spec fn multi_config() -> ConfigView {
    ("MULTI"@, "#EAB308"@, seq!["Copy Paths"@, "Move items"@, "Delete"@])
}

/// Image extensions.
pub open spec fn is_image_ext(e: Seq<char>) -> bool {
    e == "jpg"@ || e == "jpeg"@ || e == "png"@ || e == "gif"@ || e == "webp"@ || e == "svg"@
}

/// Video extensions.
pub open spec fn is_video_ext(e: Seq<char>) -> bool {
    e == "mp4"@ || e == "mov"@ || e == "mkv"@ || e == "avi"@
}

/// Source-code extensions.
pub open spec fn is_code_ext(e: Seq<char>) -> bool {
    e == "rs"@ || e == "js"@ || e == "ts"@ || e == "py"@ || e == "html"@ || e == "css"@
}

/// The badge label for a lowercased extension: `FILE` when there is none,
/// else the extension in upper case.
pub open spec fn badge_label(lower: Seq<char>) -> Seq<char> {
    if lower.len() == 0 {
        "FILE"@
    } else {
        uppercase_of(lower)
    }
}

/// The configuration for a file whose lowercased extension is `lower`.
pub open spec fn file_config(lower: Seq<char>) -> ConfigView {
    let label = badge_label(lower);
    if is_image_ext(lower) {
        (label, "#F472B6"@, seq!["Preview"@, "Optimize"@, "Copy Path"@, "Delete"@])
    } else if is_video_ext(lower) {
        (label, "#818CF8"@, seq!["Play"@, "Convert to GIF"@, "Mute Audio"@, "Delete"@])
    } else if lower == "pdf"@ {
        (label, "#FB7185"@, seq!["Open PDF"@, "Merge PDFs"@, "Compress"@])
    } else if is_code_ext(lower) {
        (label, "#60A5FA"@, seq!["Edit in VSCode"@, "Run Script"@, "Delete"@])
    } else {
        (label, "#9CA3AF"@, seq!["Open with..."@, "Copy Path"@, "Delete"@])
    }
}

/// The lowercased extension of a file, empty when it has none.
pub open spec fn lowered_extension(ext: Option<Seq<char>>) -> Seq<char> {
    match ext {
        Some(e) => lowercase_of(e),
        None => lowercase_of(Seq::empty()),
    }
}

/// The configuration for a path: the folder configuration for a folder,
/// else the one chosen by the path's lowercased extension.
pub open spec fn config_for(path: Seq<char>, is_dir: bool) -> ConfigView {
    if is_dir {
        dir_config()
    } else {
        file_config(lowered_extension(path_extension_of(path)))
    }
}

/// Files are configured by their lowercased extension alone: two files
/// whose extensions agree once lowercased (`a.JPG`, `b.jpg`) get the same
/// configuration, and a folder gets the folder configuration whatever its
/// name.
pub proof fn lemma_config_follows_lowered_extension(p: Seq<char>, q: Seq<char>)
    ensures
        lowered_extension(path_extension_of(p)) == lowered_extension(path_extension_of(q))
            ==> config_for(p, false) == config_for(q, false),
        config_for(p, true) == config_for(q, true),
{
}

/// Lowering ASCII text gives ASCII text.
pub proof fn lemma_ascii_lower_is_ascii(s: Seq<char>)
    requires
        is_ascii_text(s),
    ensures
        is_ascii_text(ascii_lower(s)),
{
    assert forall|i: int| 0 <= i < ascii_lower(s).len() implies ((#[trigger] ascii_lower(s)[i]) as u32)
        < 128 by {
        assert((s[i] as u32) < 128);
    }
}

/// Extensions that differ only in the case of ASCII letters are matched
/// alike: lowered, they are the same text, so they get the same
/// configuration and the same badge.
pub proof fn lemma_extension_case_ignored(a: Seq<char>, b: Seq<char>)
    requires
        is_ascii_text(a),
        same_but_ascii_case(a, b),
    ensures
        is_ascii_text(b),
        ascii_lower(a) == ascii_lower(b),
        file_config(ascii_lower(a)) == file_config(ascii_lower(b)),
        ascii_badge(ascii_lower(a)) == ascii_badge(ascii_lower(b)),
{
    assert forall|i: int| 0 <= i < b.len() implies ((#[trigger] b[i]) as u32) < 128 by {
        assert(ascii_lower_char(a[i]) == ascii_lower_char(b[i]));
        assert((a[i] as u32) < 128);
    }
    assert(ascii_lower(a) =~= ascii_lower(b));
}

/// Two files whose plain paths differ only in the case of ASCII letters
/// (`a.Png`, `a.PNG`) get equal configurations from `get_config` when their
/// extension is ASCII or absent: `c1` and `c2` are what `get_config` states
/// of the two paths.
pub proof fn lemma_get_config_ignores_case(p1: Seq<char>, p2: Seq<char>, c1: ConfigView, c2: ConfigView)
    requires
        plain_path(p1),
        same_but_ascii_case(p1, p2),
        extension_rule(p1) is None ==> c1 == file_config(Seq::empty()),
        extension_rule(p1) is Some && is_ascii_text(extension_rule(p1)->0) ==> c1 == file_config(
            ascii_lower(extension_rule(p1)->0),
        ) && c1.0 == ascii_badge(ascii_lower(extension_rule(p1)->0)),
        extension_rule(p2) is None ==> c2 == file_config(Seq::empty()),
        extension_rule(p2) is Some && is_ascii_text(extension_rule(p2)->0) ==> c2 == file_config(
            ascii_lower(extension_rule(p2)->0),
        ) && c2.0 == ascii_badge(ascii_lower(extension_rule(p2)->0)),
    ensures
        plain_path(p2),
        extension_rule(p1) is None || is_ascii_text(extension_rule(p1)->0) ==> c1 == c2,
{
    lemma_extension_rule_same_case(p1, p2);
    if extension_rule(p1) is Some && is_ascii_text(extension_rule(p1)->0) {
        lemma_extension_case_ignored(extension_rule(p1)->0, extension_rule(p2)->0);
    }
}

/// The kind of a file follows from the literal list its lowercased
/// extension is in: `jpg`, `jpeg`, `png`, `gif`, `webp` and `svg` are images
/// (pink badge; Preview, Optimize, Copy Path, Delete), `mp4`, `mov`, `mkv`
/// and `avi` are videos (indigo badge; Play, Convert to GIF, Mute Audio,
/// Delete), `pdf` is a document (rose badge; Open PDF, Merge PDFs,
/// Compress), `rs`, `js`, `ts`, `py`, `html` and `css` are code (blue badge;
/// Edit in VSCode, Run Script, Delete), and any other extension, the empty
/// one included, gets the grey badge with Open with..., Copy Path, Delete.
pub proof fn lemma_extension_kinds(lower: Seq<char>)
    ensures
        lower == "jpg"@ || lower == "jpeg"@ || lower == "png"@ || lower == "gif"@ || lower
            == "webp"@ || lower == "svg"@ ==> file_config(lower).1 == "#F472B6"@ && file_config(
            lower,
        ).2 == seq!["Preview"@, "Optimize"@, "Copy Path"@, "Delete"@],
        lower == "mp4"@ || lower == "mov"@ || lower == "mkv"@ || lower == "avi"@ ==> file_config(
            lower,
        ).1 == "#818CF8"@ && file_config(lower).2 == seq![
            "Play"@,
            "Convert to GIF"@,
            "Mute Audio"@,
            "Delete"@,
        ],
        lower == "pdf"@ ==> file_config(lower).1 == "#FB7185"@ && file_config(lower).2 == seq![
            "Open PDF"@,
            "Merge PDFs"@,
            "Compress"@,
        ],
        lower == "rs"@ || lower == "js"@ || lower == "ts"@ || lower == "py"@ || lower == "html"@
            || lower == "css"@ ==> file_config(lower).1 == "#60A5FA"@ && file_config(lower).2
            == seq!["Edit in VSCode"@, "Run Script"@, "Delete"@],
        !(lower == "jpg"@ || lower == "jpeg"@ || lower == "png"@ || lower == "gif"@ || lower
            == "webp"@ || lower == "svg"@ || lower == "mp4"@ || lower == "mov"@ || lower == "mkv"@
            || lower == "avi"@ || lower == "pdf"@ || lower == "rs"@ || lower == "js"@ || lower
            == "ts"@ || lower == "py"@ || lower == "html"@ || lower == "css"@) ==> file_config(
            lower,
        ).1 == "#9CA3AF"@ && file_config(lower).2 == seq![
            "Open with..."@,
            "Copy Path"@,
            "Delete"@,
        ],
{
    reveal_strlit("jpg");
    reveal_strlit("jpeg");
    reveal_strlit("png");
    reveal_strlit("gif");
    reveal_strlit("webp");
    reveal_strlit("svg");
    reveal_strlit("mp4");
    reveal_strlit("mov");
    reveal_strlit("mkv");
    reveal_strlit("avi");
    reveal_strlit("pdf");
    reveal_strlit("rs");
    reveal_strlit("js");
    reveal_strlit("ts");
    reveal_strlit("py");
    reveal_strlit("html");
    reveal_strlit("css");
    let images = seq!["jpg"@, "jpeg"@, "png"@, "gif"@, "webp"@, "svg"@];
    let videos = seq!["mp4"@, "mov"@, "mkv"@, "avi"@];
    assert forall|i: int, j: int| 0 <= i < images.len() && 0 <= j < videos.len() implies #[trigger] images[i]
        != #[trigger] videos[j] by {
        if images[i].len() == videos[j].len() {
            assert(images[i][0] != videos[j][0]);
        }
    }
    assert forall|i: int| 0 <= i < images.len() implies #[trigger] images[i] != "pdf"@ by {
        if images[i].len() == 3 {
            assert(images[i][0] != 'p' || images[i][1] != 'd');
        }
    }
    let codes = seq!["rs"@, "js"@, "ts"@, "py"@, "html"@, "css"@];
    let others = images + videos.push("pdf"@);
    assert forall|i: int, j: int| 0 <= i < codes.len() && 0 <= j < others.len() implies #[trigger] codes[i]
        != #[trigger] others[j] by {
        if codes[i].len() == others[j].len() {
            assert(codes[i][0] != others[j][0]);
        }
    }
    if is_code_ext(lower) {
        assert(codes.contains(lower));
        assert(!others.contains(lower));
        assert(others[6] == "mp4"@ && others[7] == "mov"@ && others[8] == "mkv"@ && others[9] == "avi"@);
        assert(others[10] == "pdf"@);
        assert(others[0] == "jpg"@ && others[1] == "jpeg"@ && others[2] == "png"@);
        assert(others[3] == "gif"@ && others[4] == "webp"@ && others[5] == "svg"@);
        assert(!is_image_ext(lower));
        assert(!is_video_ext(lower));
        assert(lower != "pdf"@);
    }
    if is_video_ext(lower) {
        assert(videos.contains(lower));
        assert(!is_image_ext(lower));
    }
    if lower == "pdf"@ {
        assert(!is_image_ext(lower));
        assert(lower[0] == 'p' && lower[1] == 'd');
        assert(!is_video_ext(lower));
    }
}

/// `s` spells `lit`.
fn spells(s: &str, lit: &str) -> (r: bool)
    ensures
        r == (s@ == lit@),
{
    let a = String::from_str(s);
    let l = String::from_str(lit);
    a == l
}

/// A `String` holding `lit`.
fn owned_text(lit: &str) -> (s: String)
    ensures
        s@ == lit@,
{
    String::from_str(lit)
}

/// The configuration for a selection of several items.
pub fn get_multi_config() -> (c: FileConfig)
    ensures
        c@ == multi_config(),
{
    let c = FileConfig {
        ext_label: owned_text("MULTI"),
        color: owned_text("#EAB308"),
        actions: vec![owned_text("Copy Paths"), owned_text("Move items"), owned_text("Delete")],
    };
    assert(c@.2 =~= multi_config().2);
    c
}

/// The configuration for the folder or file at `path_str`.
pub fn get_config(path_str: &str, is_dir: bool) -> (c: FileConfig)
    ensures
        c@ == config_for(path_str@, is_dir),
        !is_dir && path_extension_of(path_str@) is None ==> c@ == file_config(Seq::empty()),
        !is_dir && path_extension_of(path_str@) is Some && is_ascii_text(
            path_extension_of(path_str@)->0,
        ) ==> c@ == file_config(ascii_lower(path_extension_of(path_str@)->0)) && c@.0
            == ascii_badge(ascii_lower(path_extension_of(path_str@)->0)),
        !is_dir && plain_path(path_str@) && extension_rule(path_str@) is None ==> c@ == file_config(
            Seq::empty(),
        ),
        !is_dir && plain_path(path_str@) && extension_rule(path_str@) is Some && is_ascii_text(
            extension_rule(path_str@)->0,
        ) ==> c@ == file_config(ascii_lower(extension_rule(path_str@)->0)) && c@.0 == ascii_badge(
            ascii_lower(extension_rule(path_str@)->0),
        ),
        ({
            let lower = ascii_lower(extension_rule(path_str@)->0);
            !is_dir && plain_path(path_str@) && extension_rule(path_str@) is Some && is_ascii_text(
                extension_rule(path_str@)->0,
            ) ==> {
                &&& lower == "jpg"@ || lower == "jpeg"@ || lower == "png"@ || lower == "gif"@
                    || lower == "webp"@ || lower == "svg"@ ==> c@.1 == "#F472B6"@ && c@.2 == seq![
                    "Preview"@,
                    "Optimize"@,
                    "Copy Path"@,
                    "Delete"@,
                ]
                &&& lower == "mp4"@ || lower == "mov"@ || lower == "mkv"@ || lower == "avi"@
                    ==> c@.1 == "#818CF8"@ && c@.2 == seq![
                    "Play"@,
                    "Convert to GIF"@,
                    "Mute Audio"@,
                    "Delete"@,
                ]
                &&& lower == "pdf"@ ==> c@.1 == "#FB7185"@ && c@.2 == seq![
                    "Open PDF"@,
                    "Merge PDFs"@,
                    "Compress"@,
                ]
                &&& lower == "rs"@ || lower == "js"@ || lower == "ts"@ || lower == "py"@ || lower
                    == "html"@ || lower == "css"@ ==> c@.1 == "#60A5FA"@ && c@.2 == seq![
                    "Edit in VSCode"@,
                    "Run Script"@,
                    "Delete"@,
                ]
            }
        }),
{
    if is_dir {
        let c = FileConfig {
            ext_label: owned_text("DIR"),
            color: owned_text("#34D399"),
            actions: vec![owned_text("Open VSCode"), owned_text("Clean Up"), owned_text("Compress"), owned_text("Delete")],
        };
        assert(c@.2 =~= dir_config().2);
        return c;
    }
    let ext = match path_extension(path_str) {
        Some(e) => to_lowercase(e),
        None => {
            proof {
                reveal_strlit("");
            }
            assert(""@ =~= Seq::<char>::empty());
            to_lowercase("")
        },
    };
    proof {
        assert(ascii_lower(Seq::<char>::empty()) =~= Seq::<char>::empty());
        if path_extension_of(path_str@) is Some {
            let e = path_extension_of(path_str@)->0;
            if is_ascii_text(e) {
                lemma_ascii_lower_is_ascii(e);
            }
        }
        if plain_path(path_str@) && extension_rule(path_str@) is Some {
            lemma_extension_kinds(ascii_lower(extension_rule(path_str@)->0));
        }
    }
    config_for_extension(ext.as_str())
}

/// The configuration for a file whose lowercased extension is `lower`
/// (empty when the file has none).
pub fn config_for_extension(lower: &str) -> (c: FileConfig)
    ensures
        c@ == file_config(lower@),
        is_ascii_text(lower@) ==> c@.0 == ascii_badge(lower@),
        lower@ == "jpg"@ || lower@ == "jpeg"@ || lower@ == "png"@ || lower@ == "gif"@ || lower@
            == "webp"@ || lower@ == "svg"@ ==> c@.1 == "#F472B6"@ && c@.2 == seq![
            "Preview"@,
            "Optimize"@,
            "Copy Path"@,
            "Delete"@,
        ],
        lower@ == "mp4"@ || lower@ == "mov"@ || lower@ == "mkv"@ || lower@ == "avi"@ ==> c@.1
            == "#818CF8"@ && c@.2 == seq!["Play"@, "Convert to GIF"@, "Mute Audio"@, "Delete"@],
        lower@ == "pdf"@ ==> c@.1 == "#FB7185"@ && c@.2 == seq![
            "Open PDF"@,
            "Merge PDFs"@,
            "Compress"@,
        ],
        lower@ == "rs"@ || lower@ == "js"@ || lower@ == "ts"@ || lower@ == "py"@ || lower@
            == "html"@ || lower@ == "css"@ ==> c@.1 == "#60A5FA"@ && c@.2 == seq![
            "Edit in VSCode"@,
            "Run Script"@,
            "Delete"@,
        ],
        !(lower@ == "jpg"@ || lower@ == "jpeg"@ || lower@ == "png"@ || lower@ == "gif"@ || lower@
            == "webp"@ || lower@ == "svg"@ || lower@ == "mp4"@ || lower@ == "mov"@ || lower@
            == "mkv"@ || lower@ == "avi"@ || lower@ == "pdf"@ || lower@ == "rs"@ || lower@ == "js"@
            || lower@ == "ts"@ || lower@ == "py"@ || lower@ == "html"@ || lower@ == "css"@)
            ==> c@.1 == "#9CA3AF"@ && c@.2 == seq!["Open with..."@, "Copy Path"@, "Delete"@],
{
    proof {
        lemma_extension_kinds(lower@);
    }
    let ext = lower;
    let label = if ext.is_empty() {
        owned_text("FILE")
    } else {
        to_uppercase(ext)
    };
    assert(label@ == badge_label(ext@));
    if spells(ext, "jpg") || spells(ext, "jpeg") || spells(ext, "png") || spells(ext, "gif")
        || spells(ext, "webp") || spells(ext, "svg") {
        let c = FileConfig {
            ext_label: label,
            color: owned_text("#F472B6"),
            actions: vec![owned_text("Preview"), owned_text("Optimize"), owned_text("Copy Path"), owned_text("Delete")],
        };
        assert(c@.2 =~= file_config(ext@).2);
        c
    } else if spells(ext, "mp4") || spells(ext, "mov") || spells(ext, "mkv") || spells(
        ext,
        "avi",
    ) {
        let c = FileConfig {
            ext_label: label,
            color: owned_text("#818CF8"),
            actions: vec![
                owned_text("Play"),
                owned_text("Convert to GIF"),
                owned_text("Mute Audio"),
                owned_text("Delete"),
            ],
        };
        assert(c@.2 =~= file_config(ext@).2);
        c
    } else if spells(ext, "pdf") {
        let c = FileConfig {
            ext_label: label,
            color: owned_text("#FB7185"),
            actions: vec![owned_text("Open PDF"), owned_text("Merge PDFs"), owned_text("Compress")],
        };
        assert(c@.2 =~= file_config(ext@).2);
        c
    } else if spells(ext, "rs") || spells(ext, "js") || spells(ext, "ts") || spells(ext, "py")
        || spells(ext, "html") || spells(ext, "css") {
        let c = FileConfig {
            ext_label: label,
            color: owned_text("#60A5FA"),
            actions: vec![owned_text("Edit in VSCode"), owned_text("Run Script"), owned_text("Delete")],
        };
        assert(c@.2 =~= file_config(ext@).2);
        c
    } else {
        let c = FileConfig {
            ext_label: label,
            color: owned_text("#9CA3AF"),
            actions: vec![owned_text("Open with..."), owned_text("Copy Path"), owned_text("Delete")],
        };
        assert(c@.2 =~= file_config(ext@).2);
        c
    }
}

} // verus!
