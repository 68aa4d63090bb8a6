//! Directory-navigation state of the file picker.
//!
//! A [`FileDialog`] keeps an absolute location (as a sequence of path
//! components), the child-directory names listed there, a selection cursor
//! over them, and the last listing error, if any. Listing a directory is the
//! caller's job: each navigation step takes the outcome of that listing —
//! the child names in filesystem enumeration order, or an error message —
//! and this module does all the bookkeeping on it.
use crate::viewport::ViewportState;
use vstd::prelude::*;

verus! {

/// First position of `name` in `ds` at or after `i`.
pub open spec fn find_name(ds: Seq<String>, name: Seq<char>, i: int) -> Option<int>
    decreases ds.len() - i,
{
    if i < 0 || i >= ds.len() {
        None
    } else if ds[i]@ == name {
        Some(i)
    } else {
        find_name(ds, name, i + 1)
    }
}

/// Which row is selected right after a listing lands: nothing when the
/// listing is empty; the remembered child when it is still present; the
/// first row otherwise.
pub open spec fn selected_after_listing(ds: Seq<String>, prev: Option<String>) -> Option<usize> {
    if ds.len() == 0 {
        None
    } else {
        match prev {
            Some(p) => match find_name(ds, p@, 0) {
                Some(j) => Some(j as usize),
                None => Some(0usize),
            },
            None => Some(0usize),
        }
    }
}

/// Where a forward step of `steps` lands: saturating at the last index,
/// starting from the top when nothing was selected.
pub open spec fn stepped_forward(selected: Option<usize>, steps: int, len: int) -> int {
    match selected {
        Some(i) => if i + steps <= len - 1 {
            i + steps
        } else {
            len - 1
        },
        None => 0,
    }
}

/// Where a backward step of `steps` lands: saturating at the first index,
/// starting from the top when nothing was selected.
pub open spec fn stepped_backward(selected: Option<usize>, steps: int) -> int {
    match selected {
        Some(i) => if i - steps >= 0 {
            i - steps
        } else {
            0
        },
        None => 0,
    }
}

fn position_of(ds: &Vec<String>, name: &String) -> (r: Option<usize>)
    ensures
        r == match find_name(ds@, name@, 0) {
            Some(j) => Some(j as usize),
            None => None::<usize>,
        },
        r matches Some(j) ==> j < ds@.len(),
{
    let mut i: usize = 0;
    while i < ds.len()
        invariant
            i <= ds@.len(),
            find_name(ds@, name@, 0) == find_name(ds@, name@, i as int),
            forall|k: int| 0 <= k < i ==> ds@[k]@ != name@,
        decreases ds@.len() - i,
    {
        let d: &String = &ds[i];
        if d.eq(name) {
            return Some(i);
        }
        i = i + 1;
    }
    None
}

fn clone_names(v: &Vec<String>) -> (r: Vec<String>)
    ensures
        r@ == v@,
{
    let mut r: Vec<String> = Vec::new();
    let mut i: usize = 0;
    while i < v.len()
        invariant
            i <= v@.len(),
            r@ == v@.subrange(0, i as int),
        decreases v@.len() - i,
    {
        let s: String = v[i].clone();
        r.push(s);
        proof {
            assert(r@ =~= v@.subrange(0, i + 1));
        }
        i = i + 1;
    }
    proof {
        assert(r@ =~= v@);
    }
    r
}

/// The picker's state. `location` is an absolute path held as its
/// components, top-down; the empty sequence is the filesystem root.
pub struct FileDialog {
    pub title: String,
    pub location: Vec<String>,
    pub selection: Option<Vec<String>>,
    pub dirs: Vec<String>,
    pub error_message: Option<String>,
    pub color: bool,
    pub state: ViewportState,
}

impl FileDialog {
    /// The cursor is coherent with the listed names: nothing is selected
    /// exactly while the listing is empty, and a selection is in range.
    pub open spec fn wf(self) -> bool {
        &&& (self.dirs@.len() == 0 <==> self.state.selected is None)
        &&& (match self.state.selected {
            Some(i) => (i as int) < self.dirs@.len(),
            None => true,
        })
    }

    /// Everything but the listing, the selection cursor and the error is
    /// the same in `a` and `b`.
    pub open spec fn same_identity(a: FileDialog, b: FileDialog) -> bool {
        &&& a.title == b.title
        &&& a.location == b.location
        &&& a.selection == b.selection
        &&& a.color == b.color
    }

    /// A picker at `location` with nothing listed yet; feed the first
    /// listing through [`FileDialog::selection_changed`].
    pub fn new(title: String, location: Vec<String>, color: bool) -> (d: FileDialog)
        ensures
            d.title == title,
            d.location == location,
            d.selection is None,
            d.dirs@.len() == 0,
            d.error_message is None,
            d.color == color,
            d.state.offset == 0,
            d.state.selected is None,
            d.wf(),
    {
        FileDialog {
            title,
            location,
            selection: None,
            dirs: Vec::new(),
            error_message: None,
            color,
            state: ViewportState::new(),
        }
    }

    /// Move the selection `steps` rows forward, saturating at the last row;
    /// a no-op while the listing is empty.
    pub fn fwd(&mut self, steps: usize)
        requires
            old(self).wf(),
        ensures
            final(self).wf(),
            Self::same_identity(*old(self), *final(self)),
            final(self).dirs == old(self).dirs,
            final(self).error_message == old(self).error_message,
            final(self).state.offset == old(self).state.offset,
            old(self).dirs@.len() == 0 ==> final(self).state.selected == old(
                self,
            ).state.selected,
            old(self).dirs@.len() > 0 ==> final(self).state.selected == Some(
                stepped_forward(
                    old(self).state.selected,
                    steps as int,
                    old(self).dirs@.len() as int,
                ) as usize,
            ),
    {
        if self.dirs.len() == 0 {
            return ;
        }
        let last = self.dirs.len() - 1;
        let i: usize = match self.state.selected() {
            Some(i) => {
                let j = i.saturating_add(steps);
                if j < last {
                    j
                } else {
                    last
                }
            },
            None => 0,
        };
        self.state.select(Some(i));
    }

    /// Move the selection `steps` rows backward, saturating at the first
    /// row; a no-op while the listing is empty.
    pub fn bwd(&mut self, steps: usize)
        requires
            old(self).wf(),
        ensures
            final(self).wf(),
            Self::same_identity(*old(self), *final(self)),
            final(self).dirs == old(self).dirs,
            final(self).error_message == old(self).error_message,
            final(self).state.offset == old(self).state.offset,
            old(self).dirs@.len() == 0 ==> final(self).state.selected == old(
                self,
            ).state.selected,
            old(self).dirs@.len() > 0 ==> final(self).state.selected == Some(
                stepped_backward(old(self).state.selected, steps as int) as usize,
            ),
    {
        if self.dirs.len() == 0 {
            return ;
        }
        let i: usize = match self.state.selected() {
            Some(i) => i.saturating_sub(steps),
            None => 0,
        };
        self.state.select(Some(i));
    }

    /// Forget the last listing error.
    pub fn dismiss_error(&mut self)
        ensures
            Self::same_identity(*old(self), *final(self)),
            final(self).dirs == old(self).dirs,
            final(self).state == old(self).state,
            final(self).error_message is None,
    {
        self.error_message = None;
    }

    /// One key press up: a single row, or ten with shift held.
    pub fn on_up(&mut self, is_shift: bool)
        requires
            old(self).wf(),
        ensures
            final(self).wf(),
            Self::same_identity(*old(self), *final(self)),
            final(self).dirs == old(self).dirs,
            final(self).error_message == old(self).error_message,
            final(self).state.offset == old(self).state.offset,
            old(self).dirs@.len() == 0 ==> final(self).state.selected == old(
                self,
            ).state.selected,
            old(self).dirs@.len() > 0 ==> final(self).state.selected == Some(
                stepped_backward(
                    old(self).state.selected,
                    if is_shift {
                        10int
                    } else {
                        1int
                    },
                ) as usize,
            ),
    {
        let step: usize = if is_shift {
            10
        } else {
            1
        };
        self.bwd(step)
    }

    /// One key press down: a single row, or ten with shift held.
    pub fn on_down(&mut self, is_shift: bool)
        requires
            old(self).wf(),
        ensures
            final(self).wf(),
            Self::same_identity(*old(self), *final(self)),
            final(self).dirs == old(self).dirs,
            final(self).error_message == old(self).error_message,
            final(self).state.offset == old(self).state.offset,
            old(self).dirs@.len() == 0 ==> final(self).state.selected == old(
                self,
            ).state.selected,
            old(self).dirs@.len() > 0 ==> final(self).state.selected == Some(
                stepped_forward(
                    old(self).state.selected,
                    if is_shift {
                        10int
                    } else {
                        1int
                    },
                    old(self).dirs@.len() as int,
                ) as usize,
            ),
    {
        let step: usize = if is_shift {
            10
        } else {
            1
        };
        self.fwd(step)
    }

    /// Take a fresh listing of the current location. On success the names
    /// are adopted and the selection is restored to `prev_name` when that
    /// child is still present, else reset to the first row (or cleared when
    /// the listing is empty). On failure the listing empties, the selection
    /// clears, and the message is both stored and returned.
    pub fn selection_changed(
        &mut self,
        listing: Result<Vec<String>, String>,
        prev_name: Option<String>,
    ) -> (r: Result<(), String>)
        ensures
            final(self).wf(),
            Self::same_identity(*old(self), *final(self)),
            final(self).state.offset == old(self).state.offset,
            listing matches Ok(ds) ==> {
                &&& final(self).dirs == ds
                &&& final(self).error_message is None
                &&& final(self).state.selected == selected_after_listing(ds@, prev_name)
                &&& r is Ok
            },
            listing matches Err(e) ==> {
                &&& final(self).dirs@.len() == 0
                &&& final(self).state.selected is None
                &&& final(self).error_message matches Some(m) && m@ == e@
                &&& r matches Err(m) && m@ == e@
            },
    {
        match listing {
            Ok(ds) => {
                self.dirs = ds;
                self.error_message = None;
                if self.dirs.len() == 0 {
                    self.state.select(None);
                } else {
                    match &prev_name {
                        Some(p) => {
                            match position_of(&self.dirs, p) {
                                Some(j) => self.state.select(Some(j)),
                                None => self.state.select(Some(0)),
                            }
                        },
                        None => self.state.select(Some(0)),
                    }
                }
                Ok(())
            },
            Err(e) => {
                self.dirs = Vec::new();
                self.state.select(None);
                self.error_message = Some(e.clone());
                Err(e)
            },
        }
    }

    /// Step to the parent directory, when there is one: drop the last
    /// location component, adopt the listing of the parent, and point the
    /// selection back at the child just left when it is still present.
    /// At the root this is a no-op and `listing` is ignored.
    pub fn on_left(&mut self, listing: Result<Vec<String>, String>) -> (r: Result<(), String>)
        requires
            old(self).wf(),
        ensures
            final(self).wf(),
            old(self).location@.len() == 0 ==> *final(self) == *old(self) && r is Ok,
            old(self).location@.len() > 0 ==> {
                &&& final(self).location@ == old(self).location@.drop_last()
                &&& final(self).title == old(self).title
                &&& final(self).selection == old(self).selection
                &&& final(self).color == old(self).color
                &&& final(self).state.offset == old(self).state.offset
                &&& (listing matches Ok(ds) ==> {
                    &&& final(self).dirs == ds
                    &&& final(self).error_message is None
                    &&& final(self).state.selected == selected_after_listing(
                        ds@,
                        Some(old(self).location@.last()),
                    )
                    &&& r is Ok
                })
                &&& (listing matches Err(e) ==> {
                    &&& final(self).dirs@.len() == 0
                    &&& final(self).state.selected is None
                    &&& final(self).error_message matches Some(m) && m@ == e@
                    &&& r matches Err(m) && m@ == e@
                })
            },
    {
        if self.location.len() == 0 {
            return Ok(());
        }
        match self.location.pop() {
            Some(prev) => self.selection_changed(listing, Some(prev)),
            None => Ok(()),
        }
    }

    /// Enter the selected child directory: append its name to the location
    /// and adopt the listing of the new location (selection resets to the
    /// first row). Without a selection this is a no-op and `listing` is
    /// ignored. The location changes even when the listing of the child
    /// fails; the failure is surfaced, not rolled back.
    pub fn on_right(&mut self, listing: Result<Vec<String>, String>) -> (r: Result<(), String>)
        requires
            old(self).wf(),
        ensures
            final(self).wf(),
            old(self).state.selected is None ==> *final(self) == *old(self) && r is Ok,
            old(self).state.selected matches Some(i) ==> {
                &&& final(self).location@ == old(self).location@.push(old(self).dirs@[i as int])
                &&& final(self).title == old(self).title
                &&& final(self).selection == old(self).selection
                &&& final(self).color == old(self).color
                &&& final(self).state.offset == old(self).state.offset
                &&& (listing matches Ok(ds) ==> {
                    &&& final(self).dirs == ds
                    &&& final(self).error_message is None
                    &&& final(self).state.selected == selected_after_listing(
                        ds@,
                        None::<String>,
                    )
                    &&& r is Ok
                })
                &&& (listing matches Err(e) ==> {
                    &&& final(self).dirs@.len() == 0
                    &&& final(self).state.selected is None
                    &&& final(self).error_message matches Some(m) && m@ == e@
                    &&& r matches Err(m) && m@ == e@
                })
            },
    {
        match self.state.selected() {
            Some(i) => {
                let name: String = self.dirs[i].clone();
                self.location.push(name);
                self.selection_changed(listing, None)
            },
            None => Ok(()),
        }
    }

    /// Commit to the selected child: record `location` plus the selected
    /// name as the chosen path, without moving. Without a selection this
    /// is a no-op.
    pub fn on_enter(&mut self)
        requires
            old(self).wf(),
        ensures
            final(self).wf(),
            final(self).title == old(self).title,
            final(self).location == old(self).location,
            final(self).dirs == old(self).dirs,
            final(self).error_message == old(self).error_message,
            final(self).color == old(self).color,
            final(self).state == old(self).state,
            old(self).state.selected is None ==> final(self).selection == old(self).selection,
            old(self).state.selected matches Some(i) ==> final(self).selection matches Some(p)
                && p@ == old(self).location@.push(old(self).dirs@[i as int]),
    {
        match self.state.selected() {
            Some(i) => {
                let mut path = clone_names(&self.location);
                let name: String = self.dirs[i].clone();
                path.push(name);
                self.selection = Some(path);
            },
            None => {},
        }
    }
}

} // verus!
