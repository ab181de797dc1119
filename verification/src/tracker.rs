//! The decisions of the thread that follows Finder: when to re-read the
//! selection, when a new selection has to be analysed, when the panel is
//! hidden, and which front window the panel may follow. The thread itself,
//! its timers and the window geometry stay with the desktop shell.

use vstd::prelude::*;
use crate::stats::paths_view;

verus! {

/// What the tracker needs to know about the window in front.
pub struct FrontWindow {
    /// The window belongs to Finder.
    pub is_finder: bool,
    /// The window is the panel's own.
    pub is_self: bool,
    pub title: String,
    /// The window is at least 300 by 200 points.
    pub big_enough: bool,
}

/// What to do with the selection that Finder reported.
pub enum PathsAction {
    /// A selection different from the last one: analyse it, and show the panel.
    Analyze(Vec<String>),
    /// The same selection as before: show the panel.
    Unchanged,
    /// Finder has nothing to show: hide the panel.
    Hide,
}

/// The state kept between polls: the last selection, the last Finder title
/// seen and whether Finder had something to show at the last read.
pub struct FinderTracker {
    last_paths: Vec<String>,
    last_title: String,
    valid_finder: bool,
}

/// Whether the show/hide shortcut or a tray click hides the panel: only
/// when the panel is switched on and visible; otherwise it shows it.
pub fn toggle_hides(is_enabled: bool, is_visible: bool) -> (hide: bool)
    ensures
        hide == (is_enabled && is_visible),
{
    is_enabled && is_visible
}

/// `a` and `b` hold the same strings in the same order.
pub fn same_strings(a: &Vec<String>, b: &Vec<String>) -> (same: bool)
    ensures
        same == (paths_view(a@) == paths_view(b@)),
{
    if a.len() != b.len() {
        assert(paths_view(a@).len() != paths_view(b@).len());
        return false;
    }
    let mut i: usize = 0;
    while i < a.len()
        invariant
            a.len() == b.len(),
            i <= a.len(),
            forall|j: int| 0 <= j < i ==> a@[j]@ == b@[j]@,
        decreases a.len() - i,
    {
        if a[i] != b[i] {
            assert(paths_view(a@)[i as int] != paths_view(b@)[i as int]);
            return false;
        }
        i = i + 1;
    }
    assert(paths_view(a@) =~= paths_view(b@));
    true
}

/// A copy of a list of strings.
fn copy_strings(v: &Vec<String>) -> (c: Vec<String>)
    ensures
        paths_view(c@) == paths_view(v@),
{
    let mut c: Vec<String> = Vec::new();
    let mut i: usize = 0;
    while i < v.len()
        invariant
            i <= v.len(),
            paths_view(c@) == paths_view(v@.take(i as int)),
        decreases v.len() - i,
    {
        c.push(v[i].clone());
        assert(paths_view(v@.take(i + 1)) =~= paths_view(v@.take(i as int)).push(v@[i as int]@));
        assert(paths_view(c@) =~= paths_view(v@.take(i as int)).push(v@[i as int]@));
        i = i + 1;
    }
    assert(v@.take(v.len() as int) =~= v@);
    c
}

impl FinderTracker {
    /// The last selection reported.
    pub closed spec fn last_selection(&self) -> Seq<Seq<char>> {
        paths_view(self.last_paths@)
    }

    /// The title of the last Finder window that counted as a change.
    pub closed spec fn last_title(&self) -> Seq<char> {
        self.last_title@
    }

    /// Finder had something to show at the last read.
    pub closed spec fn finder_valid(&self) -> bool {
        self.valid_finder
    }

    pub fn new() -> (t: Self)
        ensures
            t.last_selection() == Seq::<Seq<char>>::empty(),
            t.last_title() == Seq::<char>::empty(),
            !t.finder_valid(),
    {
        let t = FinderTracker { last_paths: Vec::new(), last_title: String::new(), valid_finder: false };
        assert(t.last_selection() =~= Seq::<Seq<char>>::empty());
        t
    }

    /// While the panel is switched off: forget the last selection and title,
    /// so that both count as new once it is on again.
    pub fn forget(&mut self)
        ensures
            final(self).last_selection() == Seq::<Seq<char>>::empty(),
            final(self).last_title() == Seq::<char>::empty(),
            final(self).finder_valid() == old(self).finder_valid(),
    {
        self.last_paths = Vec::new();
        self.last_title = String::new();
        assert(self.last_selection() =~= Seq::<Seq<char>>::empty());
    }

    /// Notes the window in front. A large enough Finder window (not the
    /// panel) whose title differs from the last one is a change, which asks
    /// for the selection to be read at once; its title is remembered.
    pub fn note_front_window(&mut self, front: &Option<FrontWindow>) -> (changed: bool)
        ensures
            changed == (front matches Some(f) && f.is_finder && !f.is_self && f.title@
                != old(self).last_title() && f.big_enough),
            final(self).last_title() == (if changed {
                front->0.title@
            } else {
                old(self).last_title()
            }),
            final(self).last_selection() == old(self).last_selection(),
            final(self).finder_valid() == old(self).finder_valid(),
    {
        match front {
            Some(f) => {
                if f.is_finder && !f.is_self && f.title != self.last_title && f.big_enough {
                    self.last_title = f.title.clone();
                    true
                } else {
                    false
                }
            },
            None => false,
        }
    }

    /// Takes the selection read from Finder: a new selection is kept and
    /// analysed, the same one only keeps the panel up, none hides it.
    pub fn take_paths(&mut self, paths: Option<Vec<String>>) -> (action: PathsAction)
        ensures
            final(self).finder_valid() == paths is Some,
            final(self).last_title() == old(self).last_title(),
            match paths {
                Some(p) => if paths_view(p@) == old(self).last_selection() {
                    action is Unchanged && final(self).last_selection() == old(self).last_selection()
                } else {
                    action matches PathsAction::Analyze(a) && paths_view(a@) == paths_view(p@)
                        && final(self).last_selection() == paths_view(p@)
                },
                None => action is Hide && final(self).last_selection()
                    == old(self).last_selection(),
            },
    {
        match paths {
            Some(p) => {
                self.valid_finder = true;
                if same_strings(&p, &self.last_paths) {
                    PathsAction::Unchanged
                } else {
                    let analyze = copy_strings(&p);
                    self.last_paths = p;
                    PathsAction::Analyze(analyze)
                }
            },
            None => {
                self.valid_finder = false;
                PathsAction::Hide
            },
        }
    }

    /// The panel follows a front window that is not its own, belongs to a
    /// Finder that had something to show, and is large enough.
    pub fn should_follow(&self, front: &FrontWindow) -> (follow: bool)
        ensures
            follow == (!front.is_self && front.is_finder && self.finder_valid() && front.big_enough),
    {
        !front.is_self && front.is_finder && self.valid_finder && front.big_enough
    }
}

} // verus!
