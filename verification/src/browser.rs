//! Attachment-picker state: a directory listing with a movable selection and
//! a set of marked entries. Reading directories is the caller's business;
//! the state machine here only navigates what it was handed.

use vstd::prelude::*;

verus! {

/// One listed directory entry, with its path as a plain string.
#[derive(Debug, Clone)]
pub struct DirEntry {
    pub name: String,
    pub path: String,
    pub is_dir: bool,
    pub size: u64,
}

/// The paths of the marked entries, in the order they were marked.
pub open spec fn marked_paths(marked: Seq<usize>, entries: Seq<DirEntry>) -> Seq<Seq<char>>
    decreases marked.len(),
{
    if marked.len() == 0 {
        Seq::empty()
    } else {
        marked_paths(marked.drop_last(), entries) + seq![entries[marked.last() as int].path@]
    }
}

/// The index of the last separator in a path, or a negative value when the
/// path holds none.
pub open spec fn last_sep(s: Seq<char>) -> int
    decreases s.len(),
{
    if s.len() == 0 {
        -1
    } else if s.last() == '/' {
        s.len() - 1
    } else {
        last_sep(s.drop_last())
    }
}

/// The parent of a separator-joined path: everything before the last
/// separator (one trailing separator is ignored), keeping the leading
/// separator of a root-level entry. The root itself and separator-free
/// paths have no parent.
pub open spec fn parent_dir(s: Seq<char>) -> Option<Seq<char>> {
    let t = if s.len() > 1 && s.last() == '/' {
        s.drop_last()
    } else {
        s
    };
    let i = last_sep(t);
    if i < 0 || t.len() <= 1 {
        None
    } else {
        Some(
            t.take(
                if i == 0 {
                    1
                } else {
                    i
                },
            ),
        )
    }
}

/// What stepping to the parent does: the path shortens to its parent and the
/// listing clears for a re-read; the root and separator-free paths are left
/// alone.
pub open spec fn go_parent_post(pre: FileBrowserState, post: FileBrowserState) -> bool {
    match parent_dir(pre.current_dir@) {
        Some(p) => post.current_dir@ == p && post.entries@.len() == 0 && post.selected == 0
            && post.marked@.len() == 0 && post.show_hidden == pre.show_hidden,
        None => post == pre,
    }
}

/// What moving the selection does: it shifts by `delta`, clamped to the
/// listing; an empty listing is left alone.
pub open spec fn move_selection_post(
    pre: FileBrowserState,
    post: FileBrowserState,
    delta: i32,
) -> bool {
    &&& post.current_dir == pre.current_dir
    &&& post.entries == pre.entries
    &&& post.marked == pre.marked
    &&& post.show_hidden == pre.show_hidden
    &&& (pre.entries@.len() == 0 ==> post == pre)
    &&& (pre.entries@.len() > 0 && delta < 0 ==> post.selected == (if pre.selected >= (-(
    delta as int)) {
        pre.selected + delta
    } else {
        0int
    }))
    &&& (pre.entries@.len() > 0 && delta >= 0 ==> post.selected == (if pre.selected + delta
        < pre.entries@.len() {
        pre.selected + delta
    } else {
        pre.entries@.len() - 1
    }))
}

/// What toggling the mark does: the selected file joins the marks or leaves
/// them; directories and out-of-range selections change nothing.
pub open spec fn toggle_mark_post(pre: FileBrowserState, post: FileBrowserState) -> bool {
    &&& post.current_dir == pre.current_dir
    &&& post.entries == pre.entries
    &&& post.selected == pre.selected
    &&& post.show_hidden == pre.show_hidden
    &&& ((pre.selected >= pre.entries@.len() || pre.entries@[pre.selected as int].is_dir)
        ==> post.marked == pre.marked)
    &&& ((pre.selected < pre.entries@.len() && !pre.entries@[pre.selected as int].is_dir) ==> {
        ||| (exists|p: int|
            {
                &&& 0 <= p < pre.marked@.len()
                &&& #[trigger] pre.marked@[p] == pre.selected
                &&& post.marked@ == pre.marked@.remove(p)
            })
        ||| (!pre.marked@.contains(pre.selected) && post.marked@ == pre.marked@.push(pre.selected))
    })
}

/// What acting on the selected entry does: a directory is entered (listing
/// cleared for a re-read) yielding nothing, a file yields its path, no entry
/// does nothing.
pub open spec fn enter_selected_post(
    pre: FileBrowserState,
    post: FileBrowserState,
    picked: Option<Seq<char>>,
) -> bool {
    &&& (pre.selected >= pre.entries@.len() ==> post == pre && picked is None)
    &&& (pre.selected < pre.entries@.len() && pre.entries@[pre.selected as int].is_dir
        ==> post.current_dir@ == pre.entries@[pre.selected as int].path@ && post.entries@.len()
        == 0 && post.selected == 0 && post.marked@.len() == 0 && post.show_hidden
        == pre.show_hidden && picked is None)
    &&& (pre.selected < pre.entries@.len() && !pre.entries@[pre.selected as int].is_dir ==> post
        == pre && picked == Some(pre.entries@[pre.selected as int].path@))
}

/// The browser over one directory listing.
#[derive(Debug)]
pub struct FileBrowserState {
    pub current_dir: String,
    pub entries: Vec<DirEntry>,
    pub selected: usize,
    pub marked: Vec<usize>,
    pub show_hidden: bool,
}

impl FileBrowserState {
    /// Marks index into the entries and hold no duplicates.
    pub open spec fn wf(&self) -> bool {
        &&& forall|i: int|
            0 <= i < self.marked@.len() ==> (#[trigger] self.marked@[i]) < self.entries@.len()
        &&& forall|i: int, j: int|
            0 <= i < j < self.marked@.len() ==> #[trigger] self.marked@[i]
                != #[trigger] self.marked@[j]
    }

    /// Replaces the listing after the caller read a directory: selection and
    /// marks start over.
    pub fn set_entries(&mut self, current_dir: String, entries: Vec<DirEntry>)
        ensures
            final(self).wf(),
            final(self).current_dir == current_dir,
            final(self).entries == entries,
            final(self).selected == 0,
            final(self).marked@.len() == 0,
            final(self).show_hidden == old(self).show_hidden,
    {
        self.current_dir = current_dir;
        self.entries = entries;
        self.selected = 0;
        self.marked = Vec::new();
    }

    /// Acts on the selected entry: entering a directory clears the listing
    /// (for the caller to re-read) and yields nothing; a file yields its
    /// path; no entry yields nothing.
    pub fn enter_selected(&mut self) -> (r: Option<String>)
        requires
            old(self).wf(),
        ensures
            final(self).wf(),
            enter_selected_post(*old(self), *final(self), crate::model::opt_view(r)),
    {
        if self.selected >= self.entries.len() {
            return None;
        }
        if self.entries[self.selected].is_dir {
            let dir = self.entries[self.selected].path.clone();
            self.current_dir = dir;
            self.entries = Vec::new();
            self.selected = 0;
            self.marked = Vec::new();
            None
        } else {
            Some(self.entries[self.selected].path.clone())
        }
    }

    /// Steps to the parent directory and clears the listing for the caller
    /// to re-read; the root, and paths without a separator, are left alone.
    #[verifier::loop_isolation(false)]
    pub fn go_parent(&mut self)
        requires
            old(self).wf(),
        ensures
            final(self).wf(),
            go_parent_post(*old(self), *final(self)),
    {
        let n = self.current_dir.as_str().unicode_len();
        let trailing: bool = if n > 1 {
            self.current_dir.as_str().get_char(n - 1) == '/'
        } else {
            false
        };
        let t_len: usize = if trailing {
            n - 1
        } else {
            n
        };
        let ghost t = parent_scan_target(self.current_dir@);
        proof {
            let s = self.current_dir@;
            assert(trailing == (s.len() > 1 && s.last() == '/'));
            if trailing {
                assert(t =~= s.drop_last());
                assert(s.drop_last() =~= s.take(s.len() - 1));
            } else {
                assert(t =~= s.take(s.len() as int));
            }
            assert(t =~= s.take(t_len as int));
            assert(t.take(t_len as int) =~= t);
        }
        let mut j: usize = t_len;
        let mut found: Option<usize> = None;
        while j > 0 && found.is_none()
            invariant
                j <= t_len,
                found is None ==> last_sep(t) == last_sep(t.take(j as int)),
                found matches Some(f) ==> f < t_len && last_sep(t) == f,
            decreases j,
        {
            j = j - 1;
            proof {
                assert(t.take(j as int + 1).drop_last() =~= t.take(j as int));
                assert(t.take(j as int + 1).last() == t[j as int]);
                assert(t[j as int] == self.current_dir@[j as int]);
            }
            if self.current_dir.as_str().get_char(j) == '/' {
                found = Some(j);
            }
        }
        proof {
            if found is None {
                assert(t.take(0) =~= Seq::<char>::empty());
            }
        }
        let cut: usize = match found {
            Some(0) => {
                if t_len <= 1 {
                    return ;
                }
                1
            },
            Some(i) => i,
            None => {
                return ;
            },
        };
        let ghost pre_dir = self.current_dir@;
        let parent = self.current_dir.as_str().substring_char(0, cut).to_owned();
        self.current_dir = parent;
        self.entries = Vec::new();
        self.selected = 0;
        self.marked = Vec::new();
        proof {
            assert(parent_dir(pre_dir) == Some(self.current_dir@));
            assert(go_parent_post(*old(self), *self));
        }
    }

    /// Toggles the mark on the selected entry; directories cannot be marked.
    pub fn toggle_mark(&mut self)
        requires
            old(self).wf(),
        ensures
            final(self).wf(),
            toggle_mark_post(*old(self), *final(self)),
    {
        if self.selected < self.entries.len() && !self.entries[self.selected].is_dir {
            let mut i: usize = 0;
            let mut found: Option<usize> = None;
            while i < self.marked.len()
                invariant
                    i <= self.marked@.len(),
                    self == old(self),
                    match found {
                        Some(p) => p < self.marked@.len() && self.marked@[p as int]
                            == self.selected,
                        None => forall|k: int|
                            0 <= k < i ==> #[trigger] self.marked@[k] != self.selected,
                    },
                decreases self.marked@.len() - i,
            {
                if found.is_none() && self.marked[i] == self.selected {
                    found = Some(i);
                }
                i = i + 1;
            }
            match found {
                Some(p) => {
                    self.marked.remove(p);
                    proof {
                        old(self).marked@.remove_ensures(p as int);
                    }
                },
                None => {
                    self.marked.push(self.selected);
                },
            }
        }
    }

    /// The marked entries' paths, or the selected file's path when nothing
    /// is marked; a selected directory yields nothing.
    #[verifier::loop_isolation(false)]
    pub fn get_marked_or_selected(&self) -> (r: Vec<String>)
        requires
            self.wf(),
        ensures
            self.marked@.len() == 0 ==> crate::view::strs_view(r@) == (
            if self.selected < self.entries@.len() && !self.entries@[self.selected as int].is_dir {
                seq![self.entries@[self.selected as int].path@]
            } else {
                Seq::<Seq<char>>::empty()
            }),
            self.marked@.len() > 0 ==> crate::view::strs_view(r@) == marked_paths(
                self.marked@,
                self.entries@,
            ),
    {
        let mut out: Vec<String> = Vec::new();
        if self.marked.len() == 0 {
            if self.selected < self.entries.len() && !self.entries[self.selected].is_dir {
                out.push(self.entries[self.selected].path.clone());
                proof {
                    assert(crate::view::strs_view(out@) =~= seq![
                        self.entries@[self.selected as int].path@,
                    ]);
                }
            }
            return out;
        }
        let mut i: usize = 0;
        while i < self.marked.len()
            invariant
                i <= self.marked@.len(),
                crate::view::strs_view(out@) == marked_paths(self.marked@.take(i as int), self.entries@),
            decreases self.marked@.len() - i,
        {
            let idx = self.marked[i];
            let ghost prev = out@;
            out.push(self.entries[idx].path.clone());
            proof {
                assert(self.marked@.take(i as int + 1).drop_last() =~= self.marked@.take(i as int));
                assert(crate::view::strs_view(out@) =~= crate::view::strs_view(prev).push(
                    self.entries@[idx as int].path@,
                ));
                assert(crate::view::strs_view(out@) =~= marked_paths(
                    self.marked@.take(i as int + 1),
                    self.entries@,
                ));
            }
            i = i + 1;
        }
        proof {
            assert(self.marked@.take(self.marked@.len() as int) =~= self.marked@);
        }
        out
    }

    /// Shows or hides dot-files; the caller re-reads the directory after.
    pub fn toggle_hidden(&mut self)
        ensures
            *final(self) == (FileBrowserState { show_hidden: !old(self).show_hidden, ..*old(self) }),
    {
        self.show_hidden = !self.show_hidden;
    }

    /// Moves the selection by `delta`, clamped to the listing.
    pub fn move_selection(&mut self, delta: i32)
        ensures
            move_selection_post(*old(self), *final(self), delta),
    {
        if self.entries.len() == 0 {
            return ;
        }
        let len = self.entries.len();
        if delta < 0 {
            let step = (-(delta as i64)) as u64 as usize;
            self.selected = if self.selected >= step {
                self.selected - step
            } else {
                0
            };
        } else {
            let step = delta as usize;
            if self.selected < len - 1 && step < len - self.selected {
                self.selected = self.selected + step;
            } else {
                self.selected = len - 1;
            }
        }
    }

    /// Selects the first entry.
    pub fn go_top(&mut self)
        ensures
            *final(self) == (FileBrowserState { selected: 0, ..*old(self) }),
    {
        self.selected = 0;
    }

    /// Selects the last entry, when there is one.
    pub fn go_bottom(&mut self)
        ensures
            old(self).entries@.len() > 0 ==> *final(self) == (FileBrowserState {
                selected: (old(self).entries@.len() - 1) as usize,
                ..*old(self)
            }),
            old(self).entries@.len() == 0 ==> *final(self) == *old(self),
    {
        if self.entries.len() > 0 {
            self.selected = self.entries.len() - 1;
        }
    }
}

/// The path the parent scan walks: the current directory with one trailing
/// separator trimmed.
pub open spec fn parent_scan_target(s: Seq<char>) -> Seq<char> {
    if s.len() > 1 && s.last() == '/' {
        s.drop_last()
    } else {
        s
    }
}

impl Default for FileBrowserState {
    /// An empty browser at the filesystem root; the caller fills it in.
    fn default() -> (r: FileBrowserState)
        ensures
            r.wf(),
            r.entries@.len() == 0,
            r.marked@.len() == 0,
            r.selected == 0,
            !r.show_hidden,
            r.current_dir@ == "/"@,
    {
        FileBrowserState {
            current_dir: "/".to_owned(),
            entries: Vec::new(),
            selected: 0,
            marked: Vec::new(),
            show_hidden: false,
        }
    }
}

} // verus!
