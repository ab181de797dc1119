//! Reading the Finder selection from the text that the Finder script
//! returns: one POSIX path per line.

use vstd::prelude::*;
use crate::text::{char_vec, is_trimmed, lemma_trim_inside, lemma_trim_is_trimmed, trim, trim_chars};

verus! {

/// `s` cut at every newline (`str::split('\n')`): always at least one piece.
pub open spec fn line_pieces(s: Seq<char>) -> Seq<Seq<char>>
    decreases s.len(),
{
    if s.len() == 0 {
        seq![Seq::empty()]
    } else {
        let p = line_pieces(s.drop_last());
        if s.last() == '\n' {
            p.push(Seq::empty())
        } else {
            p.update(p.len() - 1, p.last().push(s.last()))
        }
    }
}

/// The trimmed pieces that are not blank, in order.
pub open spec fn kept_lines(ps: Seq<Seq<char>>) -> Seq<Seq<char>>
    decreases ps.len(),
{
    if ps.len() == 0 {
        Seq::empty()
    } else {
        let k = kept_lines(ps.drop_last());
        let t = trim(ps.last());
        if t.len() > 0 {
            k.push(t)
        } else {
            k
        }
    }
}

/// The selected paths in the script's output: every line trimmed, blank
/// lines dropped; nothing when no line is left.
pub open spec fn selection_of(out: Seq<char>) -> Option<Seq<Seq<char>>> {
    let ks = kept_lines(line_pieces(out));
    if ks.len() > 0 {
        Some(ks)
    } else {
        None
    }
}

/// `line_pieces` never comes out empty.
pub proof fn lemma_line_pieces_nonempty(s: Seq<char>)
    ensures
        line_pieces(s).len() >= 1,
    decreases s.len(),
{
    if s.len() > 0 {
        lemma_line_pieces_nonempty(s.drop_last());
    }
}

/// The pieces of `ps` whose trimmed text is not empty, in order.
pub open spec fn nonblank(ps: Seq<Seq<char>>) -> Seq<Seq<char>> {
    ps.filter(|p: Seq<char>| trim(p).len() > 0)
}

/// The lines of `out` that are not blank, untrimmed, in order.
pub open spec fn nonblank_lines(out: Seq<char>) -> Seq<Seq<char>> {
    nonblank(line_pieces(out))
}

/// `nonblank` after one more piece.
proof fn lemma_nonblank_push(ps: Seq<Seq<char>>, p: Seq<char>)
    ensures
        nonblank(ps.push(p)) == if trim(p).len() > 0 {
            nonblank(ps).push(p)
        } else {
            nonblank(ps)
        },
{
    reveal(Seq::filter);
    assert(ps.push(p).drop_last() =~= ps);
}

/// The kept lines are the non-blank pieces, each trimmed.
proof fn lemma_kept_lines_are_nonblank(ps: Seq<Seq<char>>)
    ensures
        kept_lines(ps).len() == nonblank(ps).len(),
        forall|i: int| 0 <= i < kept_lines(ps).len() ==> #[trigger] kept_lines(ps)[i] == trim(
            nonblank(ps)[i],
        ),
    decreases ps.len(),
{
    if ps.len() > 0 {
        lemma_kept_lines_are_nonblank(ps.drop_last());
        lemma_nonblank_push(ps.drop_last(), ps.last());
        assert(ps.drop_last().push(ps.last()) =~= ps);
        let k = kept_lines(ps.drop_last());
        let n = nonblank(ps.drop_last());
        assert forall|i: int| 0 <= i < kept_lines(ps).len() implies #[trigger] kept_lines(ps)[i]
            == trim(nonblank(ps)[i]) by {
            if i < k.len() {
                assert(kept_lines(ps)[i] == k[i]);
                assert(nonblank(ps)[i] == n[i]);
            }
        }
    }
}

/// Appending a text without newlines to an output that is empty or ends
/// with a newline extends its last piece by that text.
proof fn lemma_pieces_append_line(out: Seq<char>, line: Seq<char>)
    requires
        no_newline(line),
    ensures
        line_pieces(out + line) == line_pieces(out).drop_last().push(line_pieces(out).last() + line),
    decreases line.len(),
{
    lemma_line_pieces_nonempty(out);
    if line.len() == 0 {
        assert(out + line =~= out);
        assert(line_pieces(out).last() + line =~= line_pieces(out).last());
        assert(line_pieces(out).drop_last().push(line_pieces(out).last()) =~= line_pieces(out));
    } else {
        let shorter = line.drop_last();
        assert(no_newline(shorter)) by {
            assert forall|j: int| 0 <= j < shorter.len() implies #[trigger] shorter[j] != '\n' by {
                assert(shorter[j] == line[j]);
            }
        }
        lemma_pieces_append_line(out, shorter);
        assert((out + line).drop_last() =~= out + shorter);
        assert((out + line).last() == line.last());
        assert(line[line.len() - 1] != '\n');
        assert((line_pieces(out).last() + shorter).push(line.last()) =~= line_pieces(out).last()
            + line);
        assert(line_pieces(out + line) =~= line_pieces(out).drop_last().push(
            line_pieces(out).last() + line,
        ));
    }
}

/// The last piece of an output that is empty or ends with a newline is
/// empty.
proof fn lemma_last_piece_empty(out: Seq<char>)
    requires
        out.len() == 0 || out.last() == '\n',
    ensures
        line_pieces(out).len() >= 1,
        line_pieces(out).last() == Seq::<char>::empty(),
        line_pieces(out) == line_pieces(out).drop_last().push(Seq::<char>::empty()),
{
    lemma_line_pieces_nonempty(out);
    assert(line_pieces(out) =~= line_pieces(out).drop_last().push(line_pieces(out).last()));
}

/// The paths read from `out`, empty when none is.
pub open spec fn read_paths(out: Seq<char>) -> Seq<Seq<char>> {
    match selection_of(out) {
        Some(ps) => ps,
        None => Seq::empty(),
    }
}

/// Every non-blank line gives one path: as many paths are read as the
/// output has lines whose trimmed text is not empty, the `i`-th path being
/// the `i`-th such line trimmed; a selection is read exactly when there is
/// such a line.
pub proof fn lemma_one_path_per_line(out: Seq<char>)
    ensures
        read_paths(out).len() == nonblank_lines(out).len(),
        forall|i: int| 0 <= i < read_paths(out).len() ==> #[trigger] read_paths(out)[i] == trim(
            nonblank_lines(out)[i],
        ),
        selection_of(out) is Some <==> nonblank_lines(out).len() > 0,
{
    lemma_kept_lines_are_nonblank(line_pieces(out));
}

/// Appending a line that names a path (no newline in it, not blank) to an
/// output that is empty or ends with a newline appends that path, trimmed,
/// to the paths read, whatever was read before.
pub proof fn lemma_appended_line_is_read(out: Seq<char>, line: Seq<char>)
    requires
        out.len() == 0 || out.last() == '\n',
        no_newline(line),
        trim(line).len() > 0,
    ensures
        nonblank_lines(out + line) == nonblank_lines(out).push(line),
        selection_of(out + line) == Some(read_paths(out).push(trim(line))),
{
    lemma_last_piece_empty(out);
    lemma_pieces_append_line(out, line);
    let ps = line_pieces(out);
    assert(Seq::<char>::empty() + line =~= line);
    assert(trim(Seq::<char>::empty()) =~= Seq::<char>::empty());
    lemma_nonblank_push(ps.drop_last(), Seq::<char>::empty());
    lemma_nonblank_push(ps.drop_last(), line);
    assert(kept_lines(ps) == kept_lines(ps.drop_last()));
    assert(line_pieces(out + line) == ps.drop_last().push(line));
    assert(ps.drop_last().push(line).drop_last() =~= ps.drop_last());
    assert(ps.drop_last().push(line).last() == line);
    assert(kept_lines(ps.drop_last().push(line)) == kept_lines(ps.drop_last()).push(trim(line)));
}

/// Strings as plain sequences.
pub open spec fn strings_view(v: Seq<String>) -> Seq<Seq<char>> {
    v.map_values(|s: String| s@)
}

/// The selected paths in the output of the Finder script (`None` when it
/// names none).
pub fn paths_from_script_output(out: &str) -> (paths: Option<Vec<String>>)
    ensures
        match paths {
            Some(v) => selection_of(out@) == Some(strings_view(v@)),
            None => selection_of(out@) is None,
        },
        match paths {
            Some(v) => v.len() == nonblank_lines(out@).len() && forall|i: int|
                0 <= i < v.len() ==> (#[trigger] v@[i])@ == trim(nonblank_lines(out@)[i]),
            None => nonblank_lines(out@).len() == 0,
        },
{
    let chars = char_vec(out);
    let mut kept: Vec<String> = Vec::new();
    let mut cur: Vec<char> = Vec::new();
    let mut i: usize = 0;
    proof {
        assert(chars@.take(0) =~= Seq::<char>::empty());
    }
    while i < chars.len()
        invariant
            i <= chars.len(),
            chars@ == out@,
            line_pieces(chars@.take(i as int)).len() >= 1,
            line_pieces(chars@.take(i as int)).last() == cur@,
            kept_lines(line_pieces(chars@.take(i as int)).drop_last()) == strings_view(kept@),
        decreases chars.len() - i,
    {
        let ghost prefix = chars@.take(i as int);
        let ghost pieces = line_pieces(prefix);
        let c = chars[i];
        assert(chars@.take(i + 1).drop_last() =~= prefix);
        if c == '\n' {
            let t = trim_chars(&cur);
            assert(kept_lines(pieces) == if trim(cur@).len() > 0 {
                kept_lines(pieces.drop_last()).push(trim(cur@))
            } else {
                kept_lines(pieces.drop_last())
            });
            if !t.as_str().is_empty() {
                kept.push(t);
                assert(strings_view(kept@) =~= kept_lines(pieces));
            } else {
                assert(t@.len() == 0) by {
                    broadcast use vstd::string::group_string_axioms;
                }
                assert(strings_view(kept@) =~= kept_lines(pieces));
            }
            cur = Vec::new();
            assert(line_pieces(chars@.take(i + 1)).drop_last() =~= pieces);
            assert(line_pieces(chars@.take(i + 1)).last() =~= cur@);
        } else {
            cur.push(c);
            assert(line_pieces(chars@.take(i + 1)).drop_last() =~= pieces.drop_last());
        }
        i = i + 1;
    }
    proof {
        assert(chars@.take(chars.len() as int) =~= out@);
    }
    let ghost pieces = line_pieces(out@);
    let t = trim_chars(&cur);
    if !t.as_str().is_empty() {
        kept.push(t);
        assert(strings_view(kept@) =~= kept_lines(pieces));
    } else {
        assert(t@.len() == 0) by {
            broadcast use vstd::string::group_string_axioms;
        }
        assert(strings_view(kept@) =~= kept_lines(pieces));
    }
    proof {
        lemma_one_path_per_line(out@);
        assert forall|i: int| 0 <= i < kept.len() implies (#[trigger] kept@[i])@ == trim(
            nonblank_lines(out@)[i],
        ) by {
            assert(strings_view(kept@)[i] == kept@[i]@);
        }
    }
    if kept.len() > 0 {
        Some(kept)
    } else {
        None
    }
}

/// `s` holds no newline.
pub open spec fn no_newline(s: Seq<char>) -> bool {
    forall|j: int| 0 <= j < s.len() ==> #[trigger] s[j] != '\n'
}

/// No piece of `line_pieces` holds a newline.
proof fn lemma_pieces_no_newline(s: Seq<char>)
    ensures
        forall|i: int| 0 <= i < line_pieces(s).len() ==> no_newline(#[trigger] line_pieces(s)[i]),
    decreases s.len(),
{
    if s.len() > 0 {
        lemma_pieces_no_newline(s.drop_last());
        lemma_line_pieces_nonempty(s.drop_last());
        let p = line_pieces(s.drop_last());
        if s.last() != '\n' {
            assert forall|i: int| 0 <= i < line_pieces(s).len() implies no_newline(
                #[trigger] line_pieces(s)[i],
            ) by {
                if i == p.len() - 1 {
                    assert(no_newline(p[i]));
                    assert(line_pieces(s)[i] == p[i].push(s.last()));
                } else {
                    assert(line_pieces(s)[i] == p[i]);
                }
            }
        } else {
            assert forall|i: int| 0 <= i < line_pieces(s).len() implies no_newline(
                #[trigger] line_pieces(s)[i],
            ) by {
                if i < p.len() {
                    assert(line_pieces(s)[i] == p[i]);
                }
            }
        }
    }
}

/// Trimming a text without newlines leaves none.
proof fn lemma_trim_no_newline(x: Seq<char>)
    requires
        no_newline(x),
    ensures
        no_newline(trim(x)),
{
    lemma_trim_inside(x);
    let k = choose|k: int|
        0 <= k && k + trim(x).len() <= x.len() && #[trigger] x.subrange(k, k + trim(x).len())
            == trim(x);
    assert forall|j: int| 0 <= j < trim(x).len() implies #[trigger] trim(x)[j] != '\n' by {
        assert(trim(x)[j] == x.subrange(k, k + trim(x).len())[j]);
        assert(x[k + j] != '\n');
    }
}

/// Every kept line is non-blank and trimmed, and holds no newline when no
/// piece does.
proof fn lemma_kept_lines_clean(ps: Seq<Seq<char>>)
    ensures
        forall|i: int|
            0 <= i < kept_lines(ps).len() ==> (#[trigger] kept_lines(ps)[i]).len() > 0
                && is_trimmed(kept_lines(ps)[i]),
        (forall|i: int| 0 <= i < ps.len() ==> no_newline(#[trigger] ps[i])) ==> forall|i: int|
            0 <= i < kept_lines(ps).len() ==> no_newline(#[trigger] kept_lines(ps)[i]),
    decreases ps.len(),
{
    if ps.len() > 0 {
        lemma_kept_lines_clean(ps.drop_last());
        lemma_trim_is_trimmed(ps.last());
        let k = kept_lines(ps.drop_last());
        assert forall|i: int| 0 <= i < kept_lines(ps).len() implies (#[trigger] kept_lines(
            ps,
        )[i]).len() > 0 && is_trimmed(kept_lines(ps)[i]) by {
            if i < k.len() {
                assert(kept_lines(ps)[i] == k[i]);
            }
        }
        if forall|i: int| 0 <= i < ps.len() ==> no_newline(#[trigger] ps[i]) {
            assert(forall|i: int|
                0 <= i < ps.drop_last().len() ==> no_newline(#[trigger] ps.drop_last()[i])) by {
                assert forall|i: int| 0 <= i < ps.drop_last().len() implies no_newline(
                    #[trigger] ps.drop_last()[i],
                ) by {
                    assert(ps.drop_last()[i] == ps[i]);
                }
            }
            assert(no_newline(ps[ps.len() - 1]));
            lemma_trim_no_newline(ps.last());
            assert forall|i: int| 0 <= i < kept_lines(ps).len() implies no_newline(
                #[trigger] kept_lines(ps)[i],
            ) by {
                if i < k.len() {
                    assert(kept_lines(ps)[i] == k[i]);
                }
            }
        }
    }
}

/// Every path read from the script's output is non-empty, carries no white
/// space at either end, and holds no newline.
pub proof fn lemma_selection_paths_clean(out: Seq<char>)
    ensures
        selection_of(out) matches Some(ps) ==> forall|i: int|
            0 <= i < ps.len() ==> (#[trigger] ps[i]).len() > 0 && is_trimmed(ps[i]) && no_newline(
                ps[i],
            ),
{
    lemma_pieces_no_newline(out);
    lemma_kept_lines_clean(line_pieces(out));
}

} // verus!
