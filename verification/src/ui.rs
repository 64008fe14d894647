//! The windows of a retained user interface, by their numbers.

use std::collections::HashMap;
use vstd::prelude::*;
use crate::fixed::{Fixed, ONE};
use crate::geometry::Rect;

verus! {

broadcast use vstd::std_specs::hash::group_hash_axioms;

/// One window: where it stands and what its title bar says.
pub struct Window {
    pub bounds: Rect,
    pub title: String,
}

/// The windows that were shown so far.
pub struct UI {
    windows: HashMap<usize, Window>,
}

/// The bounds of a window that is shown for the first time: `width` by
/// `height` as given, from the logical point `(100, 100)`.
pub open spec fn first_bounds(width: Fixed, height: Fixed) -> Rect {
    Rect { x1: 6553600, y1: 6553600, x2: width, y2: height }
}

impl UI {
    /// The windows by their numbers.
    pub closed spec fn windows(&self) -> Map<usize, Window> {
        self.windows@
    }

    pub fn new() -> (ui: Self)
        ensures
            ui.windows() == Map::<usize, Window>::empty(),
    {
        UI { windows: HashMap::new() }
    }

    /// Shows the window `id`. A window that is shown for the first time is
    /// given its bounds and its title; one that is known keeps what it has.
    /// Tells whether the window is new.
    pub fn window(&mut self, title: &str, width: Fixed, height: Fixed, id: usize) -> (created: bool)
        ensures
            created == !old(self).windows().contains_key(id),
            !created ==> final(self).windows() == old(self).windows(),
            created ==> final(self).windows().dom() == old(self).windows().dom().insert(id),
            created ==> final(self).windows()[id].bounds == first_bounds(width, height),
            created ==> final(self).windows()[id].title@ == title@,
            forall|other: usize|
                other != id && old(self).windows().contains_key(other) ==> final(self).windows()[other]
                    == old(self).windows()[other],
    {
        if self.windows.contains_key(&id) {
            false
        } else {
            let bounds = Rect::new(100 * ONE, 100 * ONE, width, height);
            self.windows.insert(id, Window { bounds, title: title.to_string() });
            true
        }
    }

    /// The bounds of the window `id`, if it was shown.
    pub fn bounds(&self, id: usize) -> (bounds: Option<Rect>)
        ensures
            bounds == if self.windows().contains_key(id) {
                Some(self.windows()[id].bounds)
            } else {
                None
            },
    {
        match self.windows.get(&id) {
            Some(window) => Some(window.bounds),
            None => None,
        }
    }
}

} // verus!
