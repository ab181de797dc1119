//! The documented rules by which `std::path::Path` finds a path's file
//! name and extension, for paths written with `/` alone (no `\` and no
//! `:`, so no platform prefix comes into play), and the fact that these
//! rules ignore the case of ASCII letters.

use vstd::prelude::*;
use crate::config::{ascii_lower_char, same_but_ascii_case};

verus! {

/// A path written with `/` alone: no `\` and no `:`.
pub open spec fn plain_path(p: Seq<char>) -> bool {
    !p.contains('\\') && !p.contains(':')
}

/// `p` cut at every `/`: always at least one piece.
pub open spec fn split_path(p: Seq<char>) -> Seq<Seq<char>>
    decreases p.len(),
{
    if p.len() == 0 {
        seq![Seq::empty()]
    } else {
        let q = split_path(p.drop_last());
        if p.last() == '/' {
            q.push(Seq::empty())
        } else {
            q.update(q.len() - 1, q.last().push(p.last()))
        }
    }
}

/// The last component of a path cut into pieces: empty pieces (repeated or
/// trailing separators) and `.` pieces are normalized away.
pub open spec fn last_component(ps: Seq<Seq<char>>) -> Option<Seq<char>>
    decreases ps.len(),
{
    if ps.len() == 0 {
        None
    } else if ps.last().len() == 0 || ps.last() == seq!['.'] {
        last_component(ps.drop_last())
    } else {
        Some(ps.last())
    }
}

/// `Path::file_name`: the last component, none when the path ends in `..`
/// or has no component besides the root or a leading `.`.
pub open spec fn file_name_rule(p: Seq<char>) -> Option<Seq<char>> {
    match last_component(split_path(p)) {
        Some(n) => if n == seq!['.', '.'] {
            None
        } else {
            Some(n)
        },
        None => None,
    }
}

/// The position of the last `.` in `n`.
pub open spec fn last_dot(n: Seq<char>) -> Option<int>
    decreases n.len(),
{
    if n.len() == 0 {
        None
    } else if n.last() == '.' {
        Some(n.len() - 1)
    } else {
        last_dot(n.drop_last())
    }
}

/// `Path::extension`: the part of the file name after its last `.`; none
/// when there is no file name, no `.`, or the only `.` opens the name.
pub open spec fn extension_rule(p: Seq<char>) -> Option<Seq<char>> {
    match file_name_rule(p) {
        Some(n) => match last_dot(n) {
            Some(i) => if i > 0 {
                Some(n.skip(i + 1))
            } else {
                None
            },
            None => None,
        },
        None => None,
    }
}

/// The pieces of `a` and `b` differ only in the case of ASCII letters.
pub open spec fn same_pieces_but_case(a: Seq<Seq<char>>, b: Seq<Seq<char>>) -> bool {
    a.len() == b.len() && forall|i: int| 0 <= i < a.len() ==> same_but_ascii_case(#[trigger] a[i], b[i])
}

/// A character that is no ASCII letter is kept by a change of letter case.
pub proof fn lemma_non_letter_kept(a: char, b: char)
    requires
        ascii_lower_char(a) == ascii_lower_char(b),
        !(65 <= (a as u32) <= 90) && !(97 <= (a as u32) <= 122),
    ensures
        a == b,
{
}

/// Changing the case of ASCII letters keeps `/`, `.`, `\` and `:` where they are.
proof fn lemma_marks_kept(a: char, b: char)
    requires
        ascii_lower_char(a) == ascii_lower_char(b),
    ensures
        a == '/' <==> b == '/',
        a == '.' <==> b == '.',
        a == '\\' <==> b == '\\',
        a == ':' <==> b == ':',
{
    if a == '/' || a == '.' || a == '\\' || a == ':' {
        lemma_non_letter_kept(a, b);
    }
    if b == '/' || b == '.' || b == '\\' || b == ':' {
        lemma_non_letter_kept(b, a);
    }
}

/// `split_path` cuts case variants at the same places.
proof fn lemma_split_same_case(a: Seq<char>, b: Seq<char>)
    requires
        same_but_ascii_case(a, b),
    ensures
        same_pieces_but_case(split_path(a), split_path(b)),
        split_path(a).len() >= 1,
    decreases a.len(),
{
    if a.len() > 0 {
        let a0 = a.drop_last();
        let b0 = b.drop_last();
        assert(same_but_ascii_case(a0, b0)) by {
            assert forall|i: int| 0 <= i < a0.len() implies ascii_lower_char(#[trigger] a0[i])
                == ascii_lower_char(b0[i]) by {
                assert(a0[i] == a[i] && b0[i] == b[i]);
            }
        }
        lemma_split_same_case(a0, b0);
        lemma_marks_kept(a.last(), b.last());
        assert(ascii_lower_char(a[a.len() - 1]) == ascii_lower_char(b[b.len() - 1]));
        let qa = split_path(a0);
        let qb = split_path(b0);
        if a.last() != '/' {
            let la = qa.last().push(a.last());
            let lb = qb.last().push(b.last());
            assert(same_but_ascii_case(qa[qa.len() - 1], qb[qb.len() - 1]));
            assert(same_but_ascii_case(la, lb)) by {
                assert forall|i: int| 0 <= i < la.len() implies ascii_lower_char(#[trigger] la[i])
                    == ascii_lower_char(lb[i]) by {
                    if i < la.len() - 1 {
                        assert(la[i] == qa.last()[i] && lb[i] == qb.last()[i]);
                    }
                }
            }
            assert forall|i: int| 0 <= i < split_path(a).len() implies same_but_ascii_case(
                #[trigger] split_path(a)[i],
                split_path(b)[i],
            ) by {
                if i < qa.len() - 1 {
                    assert(split_path(a)[i] == qa[i] && split_path(b)[i] == qb[i]);
                }
            }
        } else {
            assert forall|i: int| 0 <= i < split_path(a).len() implies same_but_ascii_case(
                #[trigger] split_path(a)[i],
                split_path(b)[i],
            ) by {
                if i < qa.len() {
                    assert(split_path(a)[i] == qa[i] && split_path(b)[i] == qb[i]);
                }
            }
        }
    }
}

/// Case variants of `.` and `..` are `.` and `..` themselves.
proof fn lemma_dots_same_case(x: Seq<char>, y: Seq<char>)
    requires
        same_but_ascii_case(x, y),
    ensures
        x == seq!['.'] <==> y == seq!['.'],
        x == seq!['.', '.'] <==> y == seq!['.', '.'],
{
    if x.len() >= 1 {
        lemma_marks_kept(x[0], y[0]);
    }
    if x.len() >= 2 {
        lemma_marks_kept(x[1], y[1]);
    }
    if x.len() == 1 && x[0] == '.' {
        assert(y =~= seq!['.']);
    }
    if y.len() == 1 && y[0] == '.' {
        assert(x =~= seq!['.']);
    }
    if x.len() == 2 && x[0] == '.' && x[1] == '.' {
        assert(y =~= seq!['.', '.']);
    }
    if y.len() == 2 && y[0] == '.' && y[1] == '.' {
        assert(x =~= seq!['.', '.']);
    }
}

/// `last_component` picks the same piece of case variants.
proof fn lemma_last_component_same_case(a: Seq<Seq<char>>, b: Seq<Seq<char>>)
    requires
        same_pieces_but_case(a, b),
    ensures
        last_component(a) is Some <==> last_component(b) is Some,
        last_component(a) is Some ==> same_but_ascii_case(
            last_component(a)->0,
            last_component(b)->0,
        ),
    decreases a.len(),
{
    if a.len() > 0 {
        assert(same_but_ascii_case(a[a.len() - 1], b[b.len() - 1]));
        lemma_dots_same_case(a.last(), b.last());
        let a0 = a.drop_last();
        let b0 = b.drop_last();
        assert(same_pieces_but_case(a0, b0)) by {
            assert forall|i: int| 0 <= i < a0.len() implies same_but_ascii_case(
                #[trigger] a0[i],
                b0[i],
            ) by {
                assert(a0[i] == a[i] && b0[i] == b[i]);
            }
        }
        lemma_last_component_same_case(a0, b0);
    }
}

/// `last_dot` gives a position inside the name.
proof fn lemma_last_dot_inside(n: Seq<char>)
    ensures
        last_dot(n) matches Some(i) ==> 0 <= i < n.len() && n[i] == '.',
    decreases n.len(),
{
    if n.len() > 0 && n.last() != '.' {
        lemma_last_dot_inside(n.drop_last());
    }
}

/// `last_dot` finds the same position in case variants.
proof fn lemma_last_dot_same_case(x: Seq<char>, y: Seq<char>)
    requires
        same_but_ascii_case(x, y),
    ensures
        last_dot(x) == last_dot(y),
    decreases x.len(),
{
    if x.len() > 0 {
        lemma_marks_kept(x[x.len() - 1], y[y.len() - 1]);
        let x0 = x.drop_last();
        let y0 = y.drop_last();
        assert(same_but_ascii_case(x0, y0)) by {
            assert forall|i: int| 0 <= i < x0.len() implies ascii_lower_char(#[trigger] x0[i])
                == ascii_lower_char(y0[i]) by {
                assert(x0[i] == x[i] && y0[i] == y[i]);
            }
        }
        lemma_last_dot_same_case(x0, y0);
    }
}

/// Two paths that differ only in the case of ASCII letters (for instance
/// in their extension) are both plain or both not, and have extensions
/// that are both absent or differ only in the case of ASCII letters.
pub proof fn lemma_extension_rule_same_case(p1: Seq<char>, p2: Seq<char>)
    requires
        same_but_ascii_case(p1, p2),
    ensures
        plain_path(p1) <==> plain_path(p2),
        extension_rule(p1) is Some <==> extension_rule(p2) is Some,
        extension_rule(p1) is Some ==> same_but_ascii_case(
            extension_rule(p1)->0,
            extension_rule(p2)->0,
        ),
{
    assert forall|i: int| 0 <= i < p1.len() implies (p1[i] == '\\' <==> p2[i] == '\\') && (p1[i]
        == ':' <==> p2[i] == ':') by {
        lemma_marks_kept(p1[i], p2[i]);
    }
    if p1.contains('\\') {
        let i = choose|i: int| 0 <= i < p1.len() && p1[i] == '\\';
        assert(p2[i] == '\\');
    }
    if p2.contains('\\') {
        let i = choose|i: int| 0 <= i < p2.len() && p2[i] == '\\';
        assert(p1[i] == '\\');
    }
    if p1.contains(':') {
        let i = choose|i: int| 0 <= i < p1.len() && p1[i] == ':';
        assert(p2[i] == ':');
    }
    if p2.contains(':') {
        let i = choose|i: int| 0 <= i < p2.len() && p2[i] == ':';
        assert(p1[i] == ':');
    }
    lemma_split_same_case(p1, p2);
    lemma_last_component_same_case(split_path(p1), split_path(p2));
    if last_component(split_path(p1)) is Some {
        let n1 = last_component(split_path(p1))->0;
        let n2 = last_component(split_path(p2))->0;
        lemma_dots_same_case(n1, n2);
        lemma_last_dot_same_case(n1, n2);
        lemma_last_dot_inside(n1);
        if last_dot(n1) is Some {
            let k = last_dot(n1)->0 + 1;
            assert(same_but_ascii_case(n1.skip(k), n2.skip(k))) by {
                assert forall|i: int| 0 <= i < n1.skip(k).len() implies ascii_lower_char(
                    #[trigger] n1.skip(k)[i],
                ) == ascii_lower_char(n2.skip(k)[i]) by {
                    assert(n1.skip(k)[i] == n1[k + i] && n2.skip(k)[i] == n2[k + i]);
                }
            }
        }
    }
}

/// What `Path::file_name` (followed by `OsStr::to_str`) gives for a path.
pub uninterp spec fn path_file_name_of(path: Seq<char>) -> Option<Seq<char>>;

/// The file name of a path as `std::path::Path::file_name` finds it: its
/// last component, none when it ends in `..`. For a path written with `/`
/// alone this is `file_name_rule`; other paths are left to the name.
#[verifier::external_body]
fn path_file_name(path: &str) -> (name: Option<&str>)
    ensures
        name matches Some(n) ==> path_file_name_of(path@) == Some(n@),
        name is None ==> path_file_name_of(path@) is None,
        plain_path(path@) ==> match name {
            Some(n) => file_name_rule(path@) == Some(n@),
            None => file_name_rule(path@) is None,
        },
{
    match std::path::Path::new(path).file_name() {
        Some(n) => n.to_str(),
        None => None,
    }
}

/// The name the panel shows for a selected item: the path's file name, or
/// nothing when it has none.
pub fn item_name(path: &str) -> (name: String)
    ensures
        name@ == match path_file_name_of(path@) {
            Some(n) => n,
            None => Seq::empty(),
        },
        plain_path(path@) ==> name@ == match file_name_rule(path@) {
            Some(n) => n,
            None => Seq::empty(),
        },
{
    match path_file_name(path) {
        Some(n) => String::from_str(n),
        None => String::new(),
    }
}

} // verus!
