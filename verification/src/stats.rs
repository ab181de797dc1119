//! The panel state for a Finder selection: one file, one folder (with the
//! tally of a background scan) or several items, and the human-readable
//! sizes shown in it.

use vstd::prelude::*;
use crate::decimal::{decimal, decimal_value, digit, digit_char, lemma_decimal_round_trip, push_decimal};
use crate::config::{
    config_for, dir_config, get_config, get_multi_config, multi_config, to_lowercase, lowercase_of,
    ConfigView, FileConfig,
};
use crate::text::{char_vec, push_char};

verus! {

/// 1 KiB.
pub open spec fn kib() -> nat {
    1024
}

/// 1 MiB.
pub open spec fn mib() -> nat {
    1048576
}

/// 1 GiB.
pub open spec fn gib() -> nat {
    1073741824
}

/// `n / d` rounded to the nearest integer, halves going to the even one.
pub open spec fn round_half_even(n: nat, d: nat) -> nat
    recommends
        d > 0,
{
    let q = n / d;
    let r = n % d;
    if 2 * r > d || (2 * r == d && q % 2 == 1) {
        q + 1
    } else {
        q
    }
}

/// The spacing of the `f64` values around `b`: the least power of two by
/// which `b` can be divided and still stay below 2^53.
pub open spec fn f64_spacing(b: nat) -> nat
    decreases b,
{
    if b < 0x20000000000000 {
        1
    } else {
        2 * f64_spacing(b / 2)
    }
}

/// `b as f64`: `b` rounded to the nearest `f64`, halves going to the even
/// significand.
pub open spec fn as_f64(b: nat) -> nat {
    round_half_even(b, f64_spacing(b)) * f64_spacing(b)
}

/// `{:.1}` of the exact quotient `n / d`.
pub open spec fn one_decimal(n: nat, d: nat) -> Seq<char> {
    let q = round_half_even(n * 10, d);
    decimal(q / 10) + seq!['.', digit_char(q as int)]
}

/// `{:.2}` of the exact quotient `n / d`.
pub open spec fn two_decimals(n: nat, d: nat) -> Seq<char> {
    let q = round_half_even(n * 100, d);
    decimal(q / 100) + seq!['.', digit_char((q / 10) as int), digit_char(q as int)]
}

/// A byte count as the panel shows it: gigabytes with two decimals,
/// megabytes or kilobytes with one, else plain bytes (binary units, the
/// quotient formatted from its `f64` value).
pub open spec fn size_text(b: nat) -> Seq<char> {
    if b >= gib() {
        two_decimals(as_f64(b), gib()) + " GB"@
    } else if b >= mib() {
        one_decimal(b, mib()) + " MB"@
    } else if b >= kib() {
        one_decimal(b, kib()) + " KB"@
    } else {
        decimal(b) + " B"@
    }
}

/// The executable `round_half_even`.
fn round_half_even_u128(n: u128, d: u128) -> (q: u128)
    requires
        0 < d <= 0x1_0000_0000_0000_0000,
        n <= 0x10_0000_0000_0000_0000_0000_0000,
    ensures
        q == round_half_even(n as nat, d as nat),
        q <= n / d + 1,
{
    let q = n / d;
    let r = n % d;
    if 2 * r > d || (2 * r == d && q % 2 == 1) {
        q + 1
    } else {
        q
    }
}

/// `b as f64`, as an integer.
fn as_f64_exact(b: u64) -> (v: u128)
    ensures
        v == as_f64(b as nat),
        v <= 0x1_0000_0000_0000_0000 * 4097,
{
    let mut m: u64 = 1;
    let mut x: u64 = b;
    while x >= 0x20000000000000
        invariant
            1 <= m <= 4096,
            x * m <= b,
            f64_spacing(b as nat) == m * f64_spacing(x as nat),
        decreases x,
    {
        proof {
            assert(m * 0x20000000000000 <= b) by (nonlinear_arith)
                requires
                    x >= 0x20000000000000,
                    x * m <= b,
                    m >= 1,
            ;
            assert((x / 2) * (m * 2) <= x * m) by (nonlinear_arith)
                requires
                    m >= 1,
            ;
            assert(f64_spacing(x as nat) == 2 * f64_spacing((x / 2) as nat));
            assert(m * f64_spacing(x as nat) == (m * 2) * f64_spacing((x / 2) as nat))
                by (nonlinear_arith)
                requires
                    f64_spacing(x as nat) == 2 * f64_spacing((x / 2) as nat),
            ;
        }
        x = x / 2;
        m = m * 2;
    }
    assert(f64_spacing(x as nat) == 1);
    assert(f64_spacing(b as nat) == m) by (nonlinear_arith)
        requires
            f64_spacing(x as nat) == 1,
            f64_spacing(b as nat) == m * f64_spacing(x as nat),
    ;
    let q = round_half_even_u128(b as u128, m as u128);
    proof {
        assert(q <= b + 1) by (nonlinear_arith)
            requires
                q <= (b as nat) / (m as nat) + 1,
                m >= 1,
        ;
        assert(q * m <= 0x1_0000_0000_0000_0000 * 4097) by (nonlinear_arith)
            requires
                q <= b + 1,
                b < 0x1_0000_0000_0000_0000,
                1 <= m <= 4096,
        ;
    }
    q * (m as u128)
}

/// Appends `q / places`, a point, and the last one (`places == 10`) or two
/// (`places == 100`) digits of `q`.
fn push_fixed(s: &mut String, q: u128, places: u128)
    requires
        places == 10 || places == 100,
        q / places < 0x1_0000_0000_0000_0000,
    ensures
        places == 10 ==> final(s)@ == old(s)@ + decimal((q / 10) as nat) + seq![
            '.',
            digit_char(q as int),
        ],
        places == 100 ==> final(s)@ == old(s)@ + decimal((q / 100) as nat) + seq![
            '.',
            digit_char((q / 10) as int),
            digit_char(q as int),
        ],
{
    push_decimal(s, (q / places) as u64);
    push_char(s, '.');
    if places == 100 {
        push_char(s, digit(((q / 10) % 10) as u64));
        assert(digit_char(((q / 10) % 10) as int) == digit_char((q / 10) as int));
    }
    push_char(s, digit((q % 10) as u64));
    assert(digit_char((q % 10) as int) == digit_char(q as int));
    assert(places == 10 ==> s@ =~= old(s)@ + decimal((q / 10) as nat) + seq![
        '.',
        digit_char(q as int),
    ]);
    assert(places == 100 ==> s@ =~= old(s)@ + decimal((q / 100) as nat) + seq![
        '.',
        digit_char((q / 10) as int),
        digit_char(q as int),
    ]);
}

/// A byte count as the panel shows it (see `size_text`).
pub fn format_size(bytes: u64) -> (s: String)
    ensures
        s@ == size_text(bytes as nat),
{
    let mut s = String::new();
    if bytes >= 1073741824 {
        let v = as_f64_exact(bytes);
        let q = round_half_even_u128(v * 100, 1073741824);
        assert(q / 100 < 0x1_0000_0000_0000_0000) by (nonlinear_arith)
            requires
                q <= (v * 100) / 1073741824 + 1,
                v <= 0x1_0000_0000_0000_0000 * 4097,
        ;
        push_fixed(&mut s, q, 100);
        s.append(" GB");
    } else if bytes >= 1048576 {
        let q = round_half_even_u128(bytes as u128 * 10, 1048576);
        push_fixed(&mut s, q, 10);
        s.append(" MB");
    } else if bytes >= 1024 {
        let q = round_half_even_u128(bytes as u128 * 10, 1024);
        push_fixed(&mut s, q, 10);
        s.append(" KB");
    } else {
        push_decimal(&mut s, bytes);
        s.append(" B");
    }
    assert(s@ =~= size_text(bytes as nat));
    s
}

/// The state pushed to the panel on every change of the Finder selection.
pub struct FinderState {
    /// `none`, `file`, `folder` or `multi`.
    pub ctx: String,
    pub data: Option<CtxData>,
}

/// What the panel shows about the selection.
pub struct CtxData {
    pub name: String,
    pub ext: String,
    pub meta: String,
    pub color: String,
    pub actions: Vec<String>,
    pub path: String,
    pub folder_summary: String,
}

/// The badge label, colour and actions that a panel state shows.
pub open spec fn shown_config(d: CtxData) -> ConfigView {
    (d.ext@, d.color@, d.actions@.map_values(|a: String| a@))
}

/// Extension counts with their total.
pub open spec fn count_sum(s: Seq<(Seq<char>, nat)>) -> nat
    decreases s.len(),
{
    if s.len() == 0 {
        0
    } else {
        count_sum(s.drop_last()) + s.last().1
    }
}

/// Every extension in `s` has at least one file.
pub open spec fn positive_counts(s: Seq<(Seq<char>, nat)>) -> bool {
    forall|i: int| 0 <= i < s.len() ==> (#[trigger] s[i]).1 >= 1
}

/// With positive counts, the total is at least the number of entries.
pub proof fn lemma_sum_at_least_len(s: Seq<(Seq<char>, nat)>)
    requires
        positive_counts(s),
    ensures
        count_sum(s) >= s.len(),
    decreases s.len(),
{
    if s.len() > 0 {
        assert(s.last().1 >= 1);
        lemma_sum_at_least_len(s.drop_last());
    }
}

/// The extensions in `s` are pairwise different.
pub open spec fn distinct_keys(s: Seq<(Seq<char>, nat)>) -> bool {
    forall|i: int, j: int| 0 <= i < j < s.len() ==> #[trigger] s[i].0 != #[trigger] s[j].0
}

/// `s` holds an entry for `key`.
pub open spec fn has_key(s: Seq<(Seq<char>, nat)>, key: Seq<char>) -> bool {
    exists|i: int| 0 <= i < s.len() && #[trigger] s[i].0 == key
}

/// `s` after counting one more file with extension `key`: that entry goes up
/// by one, or a new entry with count one goes at the end.
pub open spec fn bump(s: Seq<(Seq<char>, nat)>, key: Seq<char>) -> Seq<(Seq<char>, nat)> {
    if has_key(s, key) {
        let i = choose|i: int| 0 <= i < s.len() && #[trigger] s[i].0 == key;
        s.update(i, (key, s[i].1 + 1))
    } else {
        s.push((key, 1))
    }
}

/// The key under which a file is counted: its lowercased extension, or
/// `no-ext` lowercased when it has none.
pub open spec fn ext_key(ext: Option<Seq<char>>) -> Seq<char> {
    match ext {
        Some(e) => lowercase_of(e),
        None => lowercase_of("no-ext"@),
    }
}

/// An optional `str` as an optional sequence.
pub open spec fn opt_str_view(ext: Option<&str>) -> Option<Seq<char>> {
    match ext {
        Some(e) => Some(e@),
        None => None,
    }
}

/// `<count> .<ext> files, ` for every extension in order.
pub open spec fn summary_text(s: Seq<(Seq<char>, nat)>) -> Seq<char>
    decreases s.len(),
{
    if s.len() == 0 {
        Seq::empty()
    } else {
        summary_text(s.drop_last()) + decimal(s.last().1) + " ."@ + s.last().0 + " files, "@
    }
}

/// One entry of a folder summary: the count in decimal, ` .`, the
/// extension and ` files, `.
pub open spec fn summary_entry(e: (Seq<char>, nat)) -> Seq<char> {
    decimal(e.1) + " ."@ + e.0 + " files, "@
}

/// The entries for `s` written one after another, the first entry first.
pub open spec fn entries_text(s: Seq<(Seq<char>, nat)>) -> Seq<char>
    decreases s.len(),
{
    if s.len() == 0 {
        Seq::empty()
    } else {
        summary_entry(s[0]) + entries_text(s.drop_first())
    }
}

/// The numbers that the entries for `s` spell, read back and added up.
pub open spec fn spelled_total(s: Seq<(Seq<char>, nat)>) -> int
    decreases s.len(),
{
    if s.len() == 0 {
        0
    } else {
        spelled_total(s.drop_last()) + decimal_value(decimal(s.last().1))
    }
}

/// Writing one more entry at the end extends the text by that entry.
proof fn lemma_entries_push(s: Seq<(Seq<char>, nat)>, x: (Seq<char>, nat))
    ensures
        entries_text(s.push(x)) == entries_text(s) + summary_entry(x),
    decreases s.len(),
{
    if s.len() == 0 {
        assert(s.push(x).drop_first() =~= Seq::<(Seq<char>, nat)>::empty());
        assert(s.push(x)[0] == x);
        assert(entries_text(s.push(x).drop_first()) == Seq::<char>::empty());
        assert(entries_text(s.push(x)) =~= summary_entry(x));
    } else {
        assert(s.push(x).drop_first() =~= s.drop_first().push(x));
        lemma_entries_push(s.drop_first(), x);
        assert(entries_text(s.push(x)) =~= entries_text(s) + summary_entry(x));
    }
}

/// A folder summary is its entries in order, each written
/// `<count> .<ext> files, ` with the count in full decimal.
pub proof fn lemma_summary_is_entries(s: Seq<(Seq<char>, nat)>)
    ensures
        summary_text(s) == entries_text(s),
    decreases s.len(),
{
    if s.len() > 0 {
        lemma_summary_is_entries(s.drop_last());
        lemma_entries_push(s.drop_last(), s.last());
        assert(s.drop_last().push(s.last()) =~= s);
        assert(summary_text(s) =~= entries_text(s.drop_last()) + summary_entry(s.last()));
    }
}

/// The counts written in a summary, read back, add up to the total count.
pub proof fn lemma_spelled_total(s: Seq<(Seq<char>, nat)>)
    ensures
        spelled_total(s) == count_sum(s),
    decreases s.len(),
{
    if s.len() > 0 {
        lemma_spelled_total(s.drop_last());
        lemma_decimal_round_trip(s.last().1);
    }
}

/// One entry's count is part of the total.
pub proof fn lemma_count_within_sum(s: Seq<(Seq<char>, nat)>, i: int)
    requires
        0 <= i < s.len(),
    ensures
        s[i].1 <= count_sum(s),
    decreases s.len(),
{
    if i < s.len() - 1 {
        lemma_count_within_sum(s.drop_last(), i);
    }
}

/// Raising one entry's count by one raises the total by one.
pub proof fn lemma_sum_after_increment(s: Seq<(Seq<char>, nat)>, i: int, key: Seq<char>)
    requires
        0 <= i < s.len(),
    ensures
        count_sum(s.update(i, (key, s[i].1 + 1))) == count_sum(s) + 1,
    decreases s.len(),
{
    let t = s.update(i, (key, s[i].1 + 1));
    if i < s.len() - 1 {
        assert(t.drop_last() =~= s.drop_last().update(i, (key, s[i].1 + 1)));
        lemma_sum_after_increment(s.drop_last(), i, key);
    } else {
        assert(t.drop_last() =~= s.drop_last());
    }
}

/// The position of `key` among the extensions of `exts`.
fn find_key(exts: &Vec<(String, usize)>, key: &String) -> (r: Option<usize>)
    ensures
        r matches Some(i) ==> i < exts.len() && exts@[i as int].0@ == key@,
        r is None ==> forall|j: int| 0 <= j < exts.len() ==> (#[trigger] exts@[j]).0@ != key@,
{
    let mut i: usize = 0;
    while i < exts.len()
        invariant
            i <= exts.len(),
            forall|j: int| 0 <= j < i ==> (#[trigger] exts@[j]).0@ != key@,
        decreases exts.len() - i,
    {
        if exts[i].0 == *key {
            return Some(i);
        }
        i = i + 1;
    }
    None
}

/// The running result of scanning a folder: top-level files and folders,
/// total size of all files below, and how many files carry each extension.
pub struct FolderTally {
    file_count: u32,
    dir_count: u32,
    total_size: u64,
    files_seen: usize,
    exts: Vec<(String, usize)>,
}

impl FolderTally {
    /// Files directly inside the folder.
    pub closed spec fn top_files(&self) -> nat {
        self.file_count as nat
    }

    /// Folders directly inside the folder.
    pub closed spec fn top_dirs(&self) -> nat {
        self.dir_count as nat
    }

    /// Bytes in all files below the folder.
    pub closed spec fn total_bytes(&self) -> nat {
        self.total_size as nat
    }

    /// Files counted at any depth.
    pub closed spec fn files_seen(&self) -> nat {
        self.files_seen as nat
    }

    /// Per-extension file counts, in the order the extensions were first met.
    pub closed spec fn ext_counts(&self) -> Seq<(Seq<char>, nat)> {
        self.exts@.map_values(|p: (String, usize)| (p.0@, p.1 as nat))
    }

    /// The top-level counters stay within the `i32` range, each extension
    /// appears once with a count of at least one, and the extension counts
    /// add up to the files seen.
    pub closed spec fn wf(&self) -> bool {
        &&& self.file_count <= i32::MAX
        &&& self.dir_count <= i32::MAX
        &&& distinct_keys(self.ext_counts())
        &&& positive_counts(self.ext_counts())
        &&& count_sum(self.ext_counts()) == self.files_seen
    }

    /// Every file counted falls under exactly one extension: the keys are
    /// distinct, each has at least one file, and their counts add up to the
    /// files seen. So a tally without files has an empty summary.
    pub proof fn lemma_counts_cover_files(&self)
        requires
            self.wf(),
        ensures
            distinct_keys(self.ext_counts()),
            positive_counts(self.ext_counts()),
            count_sum(self.ext_counts()) == self.files_seen(),
            self.ext_counts().len() <= self.files_seen(),
            self.files_seen() == 0 ==> summary_text(self.ext_counts()) == Seq::<char>::empty(),
    {
        lemma_sum_at_least_len(self.ext_counts());
        if self.files_seen() == 0 {
            assert(self.ext_counts().len() == 0);
        }
    }

    /// An empty tally.
    pub fn new() -> (t: Self)
        ensures
            t.wf(),
            t.top_files() == 0,
            t.top_dirs() == 0,
            t.total_bytes() == 0,
            t.files_seen() == 0,
            t.ext_counts() == Seq::<(Seq<char>, nat)>::empty(),
    {
        let t = FolderTally {
            file_count: 0,
            dir_count: 0,
            total_size: 0,
            files_seen: 0,
            exts: Vec::new(),
        };
        assert(t.ext_counts() =~= Seq::<(Seq<char>, nat)>::empty());
        t
    }

    /// Counts a file found `depth` levels below the folder, `len` bytes long,
    /// with extension `ext`.
    pub fn record_file(&mut self, depth: usize, len: u64, ext: Option<&str>)
        requires
            old(self).wf(),
            old(self).total_bytes() + len <= u64::MAX,
            depth == 1 ==> old(self).top_files() < i32::MAX,
            old(self).files_seen() < usize::MAX,
        ensures
            final(self).wf(),
            final(self).total_bytes() == old(self).total_bytes() + len,
            final(self).top_files() == old(self).top_files() + if depth == 1 {
                1nat
            } else {
                0nat
            },
            final(self).top_dirs() == old(self).top_dirs(),
            final(self).files_seen() == old(self).files_seen() + 1,
            final(self).ext_counts() == bump(old(self).ext_counts(), ext_key(opt_str_view(ext))),
    {
        self.total_size = self.total_size + len;
        if depth == 1 {
            self.file_count = self.file_count + 1;
        }
        let key = match ext {
            Some(e) => to_lowercase(e),
            None => to_lowercase("no-ext"),
        };
        let ghost old_counts = self.ext_counts();
        assert(key@ == ext_key(opt_str_view(ext)));
        match find_key(&self.exts, &key) {
            Some(i) => {
                let count = self.exts[i].1;
                proof {
                    lemma_count_within_sum(old_counts, i as int);
                    assert(old_counts[i as int].0 == key@);
                    assert(has_key(old_counts, key@));
                    let k = choose|k: int| 0 <= k < old_counts.len() && #[trigger] old_counts[k].0 == key@;
                    assert(old_counts[k].0 == old_counts[i as int].0);
                    assert(k == i);
                }
                self.exts.set(i, (key, count + 1));
                proof {
                    assert(self.ext_counts() =~= old_counts.update(i as int, (key@, old_counts[i as int].1 + 1)));
                    lemma_sum_after_increment(old_counts, i as int, key@);
                }
            },
            None => {
                assert(!has_key(old_counts, key@));
                self.exts.push((key, 1));
                assert(self.ext_counts() =~= old_counts.push((key@, 1)));
                assert(self.ext_counts().drop_last() =~= old_counts);
            },
        }
        self.files_seen = self.files_seen + 1;
    }

    /// Counts a folder found `depth` levels below the folder; only those
    /// directly inside count.
    pub fn record_dir(&mut self, depth: usize)
        requires
            old(self).wf(),
            depth == 1 ==> old(self).top_dirs() < i32::MAX,
        ensures
            final(self).wf(),
            final(self).top_dirs() == old(self).top_dirs() + if depth == 1 {
                1nat
            } else {
                0nat
            },
            final(self).top_files() == old(self).top_files(),
            final(self).total_bytes() == old(self).total_bytes(),
            final(self).files_seen() == old(self).files_seen(),
            final(self).ext_counts() == old(self).ext_counts(),
    {
        if depth == 1 {
            self.dir_count = self.dir_count + 1;
        }
    }

    /// Files directly inside the folder.
    pub fn file_count(&self) -> (n: u32)
        ensures
            n == self.top_files(),
    {
        self.file_count
    }

    /// Folders directly inside the folder.
    pub fn dir_count(&self) -> (n: u32)
        ensures
            n == self.top_dirs(),
    {
        self.dir_count
    }

    /// Bytes in all files below the folder.
    pub fn total_size(&self) -> (n: u64)
        ensures
            n == self.total_bytes(),
    {
        self.total_size
    }

    /// Files counted at any depth.
    pub fn files_recorded(&self) -> (n: usize)
        ensures
            n == self.files_seen(),
    {
        self.files_seen
    }

    /// `<count> .<ext> files, ` for every extension, in first-met order.
    pub fn summary(&self) -> (s: String)
        ensures
            s@ == summary_text(self.ext_counts()),
            s@ == entries_text(self.ext_counts()),
    {
        let mut s = String::new();
        let mut i: usize = 0;
        while i < self.exts.len()
            invariant
                i <= self.exts.len(),
                s@ == summary_text(self.ext_counts().take(i as int)),
            decreases self.exts.len() - i,
        {
            push_decimal(&mut s, self.exts[i].1 as u64);
            s.append(" .");
            s.append(self.exts[i].0.as_str());
            s.append(" files, ");
            assert(self.ext_counts().take(i + 1).drop_last() =~= self.ext_counts().take(i as int));
            i = i + 1;
        }
        assert(self.ext_counts().take(self.exts.len() as int) =~= self.ext_counts());
        proof {
            lemma_summary_is_entries(self.ext_counts());
        }
        s
    }

    /// The summary of a tally writes each extension's count in full decimal
    /// (`<count> .<ext> files, ` per extension, in first-met order), and the
    /// counts read back from it add up to the files seen.
    pub proof fn lemma_summary_spells_counts(&self)
        requires
            self.wf(),
        ensures
            summary_text(self.ext_counts()) == entries_text(self.ext_counts()),
            spelled_total(self.ext_counts()) == self.files_seen(),
    {
        lemma_summary_is_entries(self.ext_counts());
        lemma_spelled_total(self.ext_counts());
    }
}

/// The names of the selected items joined by newlines.
pub open spec fn join_lines(s: Seq<Seq<char>>) -> Seq<char>
    decreases s.len(),
{
    if s.len() == 0 {
        Seq::empty()
    } else if s.len() == 1 {
        s[0]
    } else {
        join_lines(s.drop_last()) + "\n"@ + s.last()
    }
}

/// The `meta` line while a folder is being scanned.
pub open spec fn progress_meta(dirs: nat, files: nat, bytes: nat) -> Seq<char> {
    "Scanning... "@ + decimal(dirs) + " folders, "@ + decimal(files) + " files ("@ + size_text(
        bytes,
    ) + "...)"@
}

/// The `meta` line once a folder has been scanned.
pub open spec fn final_meta(dirs: nat, files: nat, bytes: nat) -> Seq<char> {
    size_text(bytes) + " · "@ + decimal(dirs) + " folders, "@ + decimal(files) + " files"@
}

/// The `meta` line for several selected items.
pub open spec fn multi_meta(count: nat, bytes: nat) -> Seq<char> {
    if bytes > 0 {
        size_text(bytes) + " · "@ + decimal(count) + " items selected"@
    } else {
        decimal(count) + " items selected"@
    }
}

/// The paths of a selection as plain sequences.
pub open spec fn paths_view(paths: Seq<String>) -> Seq<Seq<char>> {
    paths.map_values(|p: String| p@)
}

/// A dot file or dot folder: the name is known and starts with `.`.
pub open spec fn hidden_name(name: Option<Seq<char>>) -> bool {
    match name {
        Some(n) => n.len() > 0 && n[0] == '.',
        None => false,
    }
}

/// Whether a directory entry is skipped by the folder scan: its name (when
/// it is valid text) starts with a dot.
pub fn is_hidden(name: Option<&str>) -> (hidden: bool)
    ensures
        hidden == hidden_name(opt_str_view(name)),
{
    match name {
        Some(n) => {
            let chars = char_vec(n);
            chars.len() > 0 && chars[0] == '.'
        },
        None => false,
    }
}

/// Panel data built from its parts.
fn ctx_data(
    name: &str,
    cfg: FileConfig,
    meta: String,
    path: &str,
    folder_summary: String,
) -> (d: CtxData)
    ensures
        d.name@ == name@,
        shown_config(d) == cfg@,
        d.meta == meta,
        d.path@ == path@,
        d.folder_summary == folder_summary,
{
    CtxData {
        name: String::from_str(name),
        ext: cfg.ext_label,
        meta,
        color: cfg.color,
        actions: cfg.actions,
        path: String::from_str(path),
        folder_summary,
    }
}

/// The state for an empty selection.
pub fn none_state() -> (st: FinderState)
    ensures
        st.ctx@ == "none"@,
        st.data is None,
{
    FinderState { ctx: String::from_str("none"), data: None }
}

/// The state for one selected file of `size` bytes.
pub fn file_state(name: &str, path: &str, size: u64) -> (st: FinderState)
    ensures
        st.ctx@ == "file"@,
        st.data matches Some(d) && {
            &&& d.name@ == name@
            &&& shown_config(d) == config_for(path@, false)
            &&& d.meta@ == size_text(size as nat)
            &&& d.path@ == path@
            &&& d.folder_summary@ == Seq::<char>::empty()
        },
{
    let cfg = get_config(path, false);
    let meta = format_size(size);
    FinderState {
        ctx: String::from_str("file"),
        data: Some(ctx_data(name, cfg, meta, path, String::new())),
    }
}

/// The state sent for a selected folder before its scan has found anything.
pub fn folder_scanning_state(name: &str, path: &str) -> (st: FinderState)
    ensures
        st.ctx@ == "folder"@,
        st.data matches Some(d) && {
            &&& d.name@ == name@
            &&& shown_config(d) == dir_config()
            &&& d.meta@ == "Scanning items..."@
            &&& d.path@ == path@
            &&& d.folder_summary@ == Seq::<char>::empty()
        },
{
    let cfg = get_config(path, true);
    FinderState {
        ctx: String::from_str("folder"),
        data: Some(ctx_data(name, cfg, String::from_str("Scanning items..."), path, String::new())),
    }
}

/// The state sent while a folder scan is under way.
pub fn folder_progress_state(name: &str, path: &str, tally: &FolderTally) -> (st: FinderState)
    ensures
        st.ctx@ == "folder"@,
        st.data matches Some(d) && {
            &&& d.name@ == name@
            &&& shown_config(d) == dir_config()
            &&& d.meta@ == progress_meta(tally.top_dirs(), tally.top_files(), tally.total_bytes())
            &&& d.path@ == path@
            &&& d.folder_summary@ == Seq::<char>::empty()
        },
{
    let cfg = get_config(path, true);
    let mut meta = String::from_str("Scanning... ");
    push_decimal(&mut meta, tally.dir_count as u64);
    meta.append(" folders, ");
    push_decimal(&mut meta, tally.file_count as u64);
    meta.append(" files (");
    let size = format_size(tally.total_size);
    meta.append(size.as_str());
    meta.append("...)");
    assert(meta@ =~= progress_meta(tally.top_dirs(), tally.top_files(), tally.total_bytes()));
    FinderState {
        ctx: String::from_str("folder"),
        data: Some(ctx_data(name, cfg, meta, path, String::new())),
    }
}

/// The state sent when a folder scan has finished.
pub fn folder_final_state(name: &str, path: &str, tally: &FolderTally) -> (st: FinderState)
    ensures
        st.ctx@ == "folder"@,
        st.data matches Some(d) && {
            &&& d.name@ == name@
            &&& shown_config(d) == dir_config()
            &&& d.meta@ == final_meta(tally.top_dirs(), tally.top_files(), tally.total_bytes())
            &&& d.path@ == path@
            &&& d.folder_summary@ == summary_text(tally.ext_counts())
            &&& d.folder_summary@ == entries_text(tally.ext_counts())
        },
{
    let cfg = get_config(path, true);
    let mut meta = format_size(tally.total_size);
    meta.append(" · ");
    push_decimal(&mut meta, tally.dir_count as u64);
    meta.append(" folders, ");
    push_decimal(&mut meta, tally.file_count as u64);
    meta.append(" files");
    assert(meta@ =~= final_meta(tally.top_dirs(), tally.top_files(), tally.total_bytes()));
    FinderState {
        ctx: String::from_str("folder"),
        data: Some(ctx_data(name, cfg, meta, path, tally.summary())),
    }
}

/// The paths of a selection, one per line.
fn join_paths(paths: &Vec<String>) -> (s: String)
    ensures
        s@ == join_lines(paths_view(paths@)),
{
    let mut s = String::new();
    let mut i: usize = 0;
    while i < paths.len()
        invariant
            i <= paths.len(),
            s@ == join_lines(paths_view(paths@.take(i as int))),
        decreases paths.len() - i,
    {
        if i > 0 {
            s.append("\n");
        }
        s.append(paths[i].as_str());
        assert(paths_view(paths@.take(i + 1)).drop_last() =~= paths_view(paths@.take(i as int)));
        assert(i == 0 ==> paths_view(paths@.take(i as int)) =~= Seq::<Seq<char>>::empty());
        i = i + 1;
    }
    assert(paths@.take(paths.len() as int) =~= paths@);
    s
}

/// The state for several selected items whose files hold `total_size` bytes.
pub fn multi_state(paths: &Vec<String>, total_size: u64) -> (st: FinderState)
    ensures
        st.ctx@ == "multi"@,
        st.data matches Some(d) && {
            &&& d.name@ == decimal(paths.len() as nat) + " items"@
            &&& shown_config(d) == multi_config()
            &&& d.meta@ == multi_meta(paths.len() as nat, total_size as nat)
            &&& d.path@ == join_lines(paths_view(paths@))
            &&& d.folder_summary@ == Seq::<char>::empty()
        },
{
    let count = paths.len();
    let cfg = get_multi_config();
    let mut name = String::new();
    push_decimal(&mut name, count as u64);
    name.append(" items");
    let mut meta = String::new();
    if total_size > 0 {
        meta = format_size(total_size);
        meta.append(" · ");
    }
    push_decimal(&mut meta, count as u64);
    meta.append(" items selected");
    assert(meta@ =~= multi_meta(count as nat, total_size as nat));
    let data = CtxData {
        name,
        ext: cfg.ext_label,
        meta,
        color: cfg.color,
        actions: cfg.actions,
        path: join_paths(paths),
        folder_summary: String::new(),
    };
    FinderState { ctx: String::from_str("multi"), data: Some(data) }
}

/// The bytes of the selected files: the sum of the known sizes (`None` for
/// an item that is no file or could not be read).
pub open spec fn size_sum(s: Seq<Option<u64>>) -> nat
    decreases s.len(),
{
    if s.len() == 0 {
        0
    } else {
        size_sum(s.drop_last()) + match s.last() {
            Some(n) => n as nat,
            None => 0nat,
        }
    }
}

/// A prefix adds up to no more than the whole.
proof fn lemma_size_sum_prefix(s: Seq<Option<u64>>, i: int)
    requires
        0 <= i <= s.len(),
    ensures
        size_sum(s.take(i)) <= size_sum(s),
    decreases s.len(),
{
    if i < s.len() {
        assert(s.drop_last().take(i) =~= s.take(i));
        lemma_size_sum_prefix(s.drop_last(), i);
    } else {
        assert(s.take(i) =~= s);
    }
}

/// The total size of a multi-selection, or `None` when it does not fit in
/// a `u64`.
pub fn selection_bytes(sizes: &Vec<Option<u64>>) -> (total: Option<u64>)
    ensures
        match total {
            Some(t) => t == size_sum(sizes@),
            None => size_sum(sizes@) > u64::MAX,
        },
{
    let mut total: u64 = 0;
    let mut i: usize = 0;
    while i < sizes.len()
        invariant
            i <= sizes.len(),
            total == size_sum(sizes@.take(i as int)),
        decreases sizes.len() - i,
    {
        assert(sizes@.take(i + 1).drop_last() =~= sizes@.take(i as int));
        match sizes[i] {
            Some(n) => match total.checked_add(n) {
                Some(t) => {
                    total = t;
                },
                None => {
                    proof {
                        lemma_size_sum_prefix(sizes@, i + 1);
                    }
                    return None;
                },
            },
            None => {},
        }
        i = i + 1;
    }
    assert(sizes@.take(sizes.len() as int) =~= sizes@);
    Some(total)
}

/// How many items a selection holds, which decides the kind of panel state.
pub enum SelectionKind {
    /// Nothing selected: the empty state.
    Nothing,
    /// One item: a file state, or a folder state followed by a scan.
    Single,
    /// Several items: the multi-selection state.
    Several,
}

/// The kind of panel state that a selection of `paths` gets.
pub fn selection_kind(paths: &Vec<String>) -> (kind: SelectionKind)
    ensures
        paths.len() == 0 ==> kind is Nothing,
        paths.len() == 1 ==> kind is Single,
        paths.len() > 1 ==> kind is Several,
{
    if paths.len() == 0 {
        SelectionKind::Nothing
    } else if paths.len() == 1 {
        SelectionKind::Single
    } else {
        SelectionKind::Several
    }
}

/// The least time between two progress messages of a folder scan, in
/// nanoseconds (100 ms).
pub const PROGRESS_INTERVAL_NANOS: u128 = 100_000_000;

/// A folder scan under way: its tally, the clock reading (in nanoseconds
/// of a monotonic clock) at which the last progress message went out or
/// the scan began, and the counts that message showed.
pub struct FolderScan {
    tally: FolderTally,
    last_emit: u128,
    shown: Ghost<(nat, nat, nat)>,
}

impl FolderScan {
    /// The tally so far.
    pub closed spec fn counts(&self) -> FolderTally {
        self.tally
    }

    /// The clock reading of the last progress message, or of the start.
    pub closed spec fn last_emit_at(&self) -> nat {
        self.last_emit as nat
    }

    /// Folders, files and bytes shown by the last progress message (zero
    /// before the first).
    pub closed spec fn shown_counts(&self) -> (nat, nat, nat) {
        self.shown@
    }

    /// The tally is well formed, and what the last progress message showed
    /// is no more than what has been counted since.
    pub closed spec fn wf(&self) -> bool {
        &&& self.tally.wf()
        &&& self.shown@.0 <= self.tally.top_dirs()
        &&& self.shown@.1 <= self.tally.top_files()
        &&& self.shown@.2 <= self.tally.total_bytes()
    }

    /// A scan beginning at clock reading `started_at`.
    pub fn new(started_at: u128) -> (scan: Self)
        ensures
            scan.wf(),
            scan.counts().top_files() == 0,
            scan.counts().top_dirs() == 0,
            scan.counts().total_bytes() == 0,
            scan.counts().files_seen() == 0,
            scan.counts().ext_counts() == Seq::<(Seq<char>, nat)>::empty(),
            scan.last_emit_at() == started_at,
            scan.shown_counts() == (0nat, 0nat, 0nat),
    {
        FolderScan { tally: FolderTally::new(), last_emit: started_at, shown: Ghost((0, 0, 0)) }
    }

    /// The tally so far.
    pub fn tally(&self) -> (t: &FolderTally)
        ensures
            *t == self.counts(),
    {
        &self.tally
    }

    /// Counts a file (see `FolderTally::record_file`).
    pub fn record_file(&mut self, depth: usize, len: u64, ext: Option<&str>)
        requires
            old(self).wf(),
            old(self).counts().total_bytes() + len <= u64::MAX,
            depth == 1 ==> old(self).counts().top_files() < i32::MAX,
            old(self).counts().files_seen() < usize::MAX,
        ensures
            final(self).wf(),
            final(self).counts().total_bytes() == old(self).counts().total_bytes() + len,
            final(self).counts().top_files() == old(self).counts().top_files() + if depth == 1 {
                1nat
            } else {
                0nat
            },
            final(self).counts().top_dirs() == old(self).counts().top_dirs(),
            final(self).counts().files_seen() == old(self).counts().files_seen() + 1,
            final(self).counts().ext_counts() == bump(
                old(self).counts().ext_counts(),
                ext_key(opt_str_view(ext)),
            ),
            final(self).last_emit_at() == old(self).last_emit_at(),
            final(self).shown_counts() == old(self).shown_counts(),
    {
        self.tally.record_file(depth, len, ext);
    }

    /// Counts a folder (see `FolderTally::record_dir`).
    pub fn record_dir(&mut self, depth: usize)
        requires
            old(self).wf(),
            depth == 1 ==> old(self).counts().top_dirs() < i32::MAX,
        ensures
            final(self).wf(),
            final(self).counts().top_dirs() == old(self).counts().top_dirs() + if depth == 1 {
                1nat
            } else {
                0nat
            },
            final(self).counts().top_files() == old(self).counts().top_files(),
            final(self).counts().total_bytes() == old(self).counts().total_bytes(),
            final(self).counts().files_seen() == old(self).counts().files_seen(),
            final(self).counts().ext_counts() == old(self).counts().ext_counts(),
            final(self).last_emit_at() == old(self).last_emit_at(),
            final(self).shown_counts() == old(self).shown_counts(),
    {
        self.tally.record_dir(depth);
    }

    /// A progress message is due when more than `PROGRESS_INTERVAL_NANOS`
    /// have passed since the last one (or since the start) at reading `now`.
    pub fn progress_due(&self, now: u128) -> (due: bool)
        ensures
            due == (now > self.last_emit_at() + PROGRESS_INTERVAL_NANOS),
    {
        now > self.last_emit && now - self.last_emit > PROGRESS_INTERVAL_NANOS
    }

    /// The progress message for the counts so far, which it remembers as
    /// shown. No count it shows is below the one the previous message showed.
    pub fn progress_state(&mut self, name: &str, path: &str) -> (st: FinderState)
        requires
            old(self).wf(),
        ensures
            final(self).wf(),
            st.ctx@ == "folder"@,
            st.data matches Some(d) && {
                &&& d.name@ == name@
                &&& shown_config(d) == dir_config()
                &&& d.meta@ == progress_meta(
                    old(self).counts().top_dirs(),
                    old(self).counts().top_files(),
                    old(self).counts().total_bytes(),
                )
                &&& d.path@ == path@
                &&& d.folder_summary@ == Seq::<char>::empty()
            },
            old(self).shown_counts().0 <= old(self).counts().top_dirs(),
            old(self).shown_counts().1 <= old(self).counts().top_files(),
            old(self).shown_counts().2 <= old(self).counts().total_bytes(),
            final(self).shown_counts() == (
                old(self).counts().top_dirs(),
                old(self).counts().top_files(),
                old(self).counts().total_bytes(),
            ),
            final(self).counts() == old(self).counts(),
            final(self).last_emit_at() == old(self).last_emit_at(),
    {
        let st = folder_progress_state(name, path, &self.tally);
        self.shown = Ghost((self.tally.top_dirs(), self.tally.top_files(), self.tally.total_bytes()));
        st
    }

    /// Notes that a progress message went out at clock reading `at`.
    pub fn mark_emitted(&mut self, at: u128)
        requires
            old(self).wf(),
        ensures
            final(self).wf(),
            final(self).last_emit_at() == at,
            final(self).counts() == old(self).counts(),
            final(self).shown_counts() == old(self).shown_counts(),
    {
        self.last_emit = at;
    }

    /// The message sent when the scan has finished.
    pub fn final_state(&self, name: &str, path: &str) -> (st: FinderState)
        ensures
            st.ctx@ == "folder"@,
            st.data matches Some(d) && {
                &&& d.name@ == name@
                &&& shown_config(d) == dir_config()
                &&& d.meta@ == final_meta(
                    self.counts().top_dirs(),
                    self.counts().top_files(),
                    self.counts().total_bytes(),
                )
                &&& d.path@ == path@
                &&& d.folder_summary@ == summary_text(self.counts().ext_counts())
                &&& d.folder_summary@ == entries_text(self.counts().ext_counts())
            },
    {
        folder_final_state(name, path, &self.tally)
    }

    /// A well-formed scan holds a well-formed tally, so the tally's laws
    /// (such as `FolderTally::lemma_counts_cover_files`) apply to it.
    pub proof fn lemma_tally_wf(&self)
        requires
            self.wf(),
        ensures
            self.counts().wf(),
    {
    }

    /// The counts shown by successive progress messages never go down: what
    /// the last message showed is within what has been counted.
    pub proof fn lemma_progress_never_goes_down(&self)
        requires
            self.wf(),
        ensures
            self.shown_counts().0 <= self.counts().top_dirs(),
            self.shown_counts().1 <= self.counts().top_files(),
            self.shown_counts().2 <= self.counts().total_bytes(),
    {
    }
}

} // verus!
