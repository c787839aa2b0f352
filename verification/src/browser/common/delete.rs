//! Deletion of local and remote files: confirmation and the queue.
use vstd::prelude::*;
use crate::browser::common;
use crate::browser::path;
use super::{
    BrowserCore, CoreView, DeleteKind, DeleteLocation, DeleteTarget, DeleteView, PanelView,
    TargetView,
};
use crate::browser::parse::FsEntry;
use crate::browser::path::{join, remote_join};
use crate::style::Color;
use crate::text::{cat, same};

verus! {

/// The deletion of the entry in row `i` of a panel; none where there is no
/// such row or it leads to the parent directory.
pub open spec fn target_at(p: PanelView, location: DeleteLocation, i: usize) -> Option<TargetView> {
    if i < p.entries.len() && p.entries[i as int].name != ".."@ {
        let e = p.entries[i as int];
        Some(
            TargetView {
                location,
                kind: if e.is_dir {
                    DeleteKind::Dir
                } else {
                    DeleteKind::File
                },
                path: match location {
                    DeleteLocation::Local => path::joined(p.path, e.name),
                    DeleteLocation::Remote => path::remote_child(p.path, e.name),
                },
            },
        )
    } else {
        None
    }
}

/// The deletions of the entries in these rows of a panel.
pub open spec fn targets_at(p: PanelView, location: DeleteLocation, rows: Seq<usize>) -> Seq<
    TargetView,
>
    decreases rows.len(),
{
    if rows.len() == 0 {
        Seq::empty()
    } else {
        let before = targets_at(p, location, rows.drop_last());
        match target_at(p, location, rows.last()) {
            Some(t) => before.push(t),
            None => before,
        }
    }
}

impl CoreView {
    /// The panel of a location.
    pub open spec fn panel_at(self, location: DeleteLocation) -> PanelView {
        match location {
            DeleteLocation::Local => self.local,
            DeleteLocation::Remote => self.remote,
        }
    }

    /// The state with other deletions.
    pub open spec fn with_delete(self, delete: DeleteView) -> CoreView {
        CoreView { delete, ..self }
    }

    /// The state when the entry under the cursor of a panel is to be deleted.
    /// It is asked about, and nothing is removed before the answer.
    pub open spec fn asked_to_delete_one(self, location: DeleteLocation) -> CoreView {
        let p = self.panel_at(location);
        match p.sel.selected {
            Some(i) => match target_at(p, location, i) {
                Some(t) => self.with_delete(
                    DeleteView { confirm: Some(t), removing: false, ..self.delete },
                ).redrawn(),
                None => self,
            },
            None => self,
        }
    }

    /// The state when these are to be deleted: the first is to be confirmed,
    /// the others wait. Nothing is removed before the answer.
    pub open spec fn asked_to_delete(self, targets: Seq<TargetView>) -> CoreView {
        if targets.len() == 0 {
            self
        } else {
            self.with_delete(
                DeleteView {
                    confirm: Some(targets[0]),
                    pending: targets.skip(1),
                    removing: false,
                    ..self.delete
                },
            ).redrawn()
        }
    }

    /// The state when what is chosen in a panel is to be deleted. The
    /// selection is dropped.
    pub open spec fn asked_to_delete_chosen(self, location: DeleteLocation) -> CoreView {
        if self.chosen().len() > 1 {
            self.unselected().asked_to_delete(
                targets_at(self.panel_at(location), location, self.chosen()),
            )
        } else {
            self.unselected().asked_to_delete_one(location)
        }
    }

    /// The state with the first deletion that waits up for confirmation.
    pub open spec fn next_delete_taken(self) -> CoreView {
        if self.delete.pending.len() == 0 {
            self
        } else {
            self.with_delete(
                DeleteView {
                    confirm: Some(self.delete.pending[0]),
                    pending: self.delete.pending.skip(1),
                    removing: false,
                    ..self.delete
                },
            )
        }
    }

    /// The state after a deletion was refused.
    pub open spec fn deletion_refused(self) -> CoreView {
        self.with_delete(
            DeleteView { confirm: None, pending: Seq::empty(), removing: false, ..self.delete },
        ).saying("Deletion cancelled."@, Color::Yellow).redrawn()
    }

    /// Whether a local file is up for confirmation.
    pub open spec fn confirms_local(self) -> bool {
        self.delete.confirm is Some && self.delete.confirm->0.location == DeleteLocation::Local
    }

    /// Whether what the application is asked to remove, if anything, is a local
    /// file that was up for confirmation.
    pub open spec fn removal_sound(self) -> bool {
        self.delete.removing ==> self.confirms_local()
    }

    /// The state while the application removes the local file that was
    /// confirmed.
    pub open spec fn removing_local(self) -> CoreView {
        if self.confirms_local() {
            self.with_delete(DeleteView { removing: true, ..self.delete })
        } else {
            self
        }
    }

    /// The state after the application has tried to remove a local file, up to
    /// the choice of the next one. After a failure none of those that wait is
    /// removed.
    pub open spec fn local_removed(self, error: Option<Seq<char>>) -> CoreView {
        let s = match error {
            Some(e) => self.with_delete(
                DeleteView { pending: Seq::empty(), ..self.delete },
            ).saying("Delete failed: "@ + e, Color::Red),
            None => CoreView { reload_local: true, ..self }.saying(
                "Deleted: "@ + self.delete.confirm->0.path,
                Color::Green,
            ),
        };
        CoreView {
            delete: DeleteView { confirm: None, removing: false, ..s.delete },
            last_duration: None,
            ..s
        }
    }

    /// The state after a local file was removed, or not.
    pub open spec fn local_delete_done(self, error: Option<Seq<char>>) -> CoreView {
        let s = self.local_removed(error);
        if s.delete.pending.len() > 0 {
            s.next_delete_taken()
        } else {
            s.redrawn()
        }
    }
}

impl BrowserCore {
    fn delete_target_at(&self, location: DeleteLocation, i: usize) -> (r: Option<DeleteTarget>)
        ensures
            match r {
                Some(t) => target_at(self@.panel_at(location), location, i) == Some(t@),
                None => target_at(self@.panel_at(location), location, i) is None,
            },
    {
        let entries: &Vec<FsEntry> = match location {
            DeleteLocation::Local => &self.local.entries,
            DeleteLocation::Remote => &self.remote.entries,
        };
        if i >= entries.len() {
            return None;
        }
        let e = &entries[i];
        assert(self@.panel_at(location).entries[i as int] == e@);
        if same(e.name.as_str(), "..") {
            return None;
        }
        let path = match location {
            DeleteLocation::Local => join(self.local.path.as_str(), e.name.as_str()),
            DeleteLocation::Remote => remote_join(self.remote.path.as_str(), e.name.as_str()),
        };
        let kind = if e.is_dir {
            DeleteKind::Dir
        } else {
            DeleteKind::File
        };
        let t = DeleteTarget { location, kind, path };
        assert(target_at(self@.panel_at(location), location, i)->0 =~= t@);
        Some(t)
    }

    fn delete_targets_at(&self, location: DeleteLocation, rows: &[usize]) -> (r: Vec<DeleteTarget>)
        ensures
            common::targets_view(r@) == targets_at(self@.panel_at(location), location, rows@),
    {
        let ghost p = self@.panel_at(location);
        let mut targets: Vec<DeleteTarget> = Vec::new();
        let mut i: usize = 0;
        assert(rows@.take(0) =~= Seq::empty());
        assert(common::targets_view(targets@) =~= targets_at(p, location, rows@.take(0)));
        while i < rows.len()
            invariant
                i <= rows@.len(),
                p == self@.panel_at(location),
                common::targets_view(targets@) == targets_at(p, location, rows@.take(i as int)),
            decreases rows@.len() - i,
        {
            let ghost t = rows@.take(i + 1);
            assert(t.drop_last() =~= rows@.take(i as int));
            let ghost before = common::targets_view(targets@);
            if let Some(target) = self.delete_target_at(location, rows[i]) {
                let ghost view = target@;
                targets.push(target);
                assert(common::targets_view(targets@) =~= before.push(view));
            }
            i += 1;
        }
        assert(rows@.take(i as int) =~= rows@);
        targets
    }

    fn ask_delete_one(&mut self, location: DeleteLocation)
        ensures
            final(self)@ == old(self)@.asked_to_delete_one(location),
    {
        let cursor: Option<usize> = match location {
            DeleteLocation::Local => self.local.sel.selected(),
            DeleteLocation::Remote => self.remote.sel.selected(),
        };
        if let Some(i) = cursor {
            if let Some(t) = self.delete_target_at(location, i) {
                self.delete.confirm = Some(t);
                self.delete.removing = false;
                self.needs_redraw = true;
                assert(self@ =~= old(self)@.asked_to_delete_one(location));
            }
        }
    }

    fn ask_delete_chosen(&mut self, location: DeleteLocation)
        ensures
            final(self)@ == old(self)@.asked_to_delete_chosen(location),
    {
        let indices = self.selected_indices();
        if indices.len() > 1 {
            let mut targets = self.delete_targets_at(location, indices.as_slice());
            self.clear_selection();
            if targets.len() > 0 {
                let ghost all = common::targets_view(targets@);
                let first = targets.remove(0);
                assert(common::targets_view(targets@) =~= all.skip(1));
                assert(all[0] == first@);
                self.delete.pending = targets;
                self.delete.confirm = Some(first);
                self.delete.removing = false;
                self.needs_redraw = true;
            }
        } else {
            self.clear_selection();
            self.ask_delete_one(location);
        }
        assert(self@ =~= old(self)@.asked_to_delete_chosen(location));
    }

    /// Asks to delete the local entry under the cursor.
    pub fn local_delete_focused(&mut self)
        ensures
            final(self)@ == old(self)@.asked_to_delete_one(DeleteLocation::Local),
    {
        self.ask_delete_one(DeleteLocation::Local);
    }

    /// Asks to delete what is chosen in the local panel. The first entry is to
    /// be confirmed, the others wait.
    pub fn local_delete_selected(&mut self)
        ensures
            final(self)@ == old(self)@.asked_to_delete_chosen(DeleteLocation::Local),
    {
        self.ask_delete_chosen(DeleteLocation::Local);
    }

    /// Asks to delete what is chosen in the remote panel. The first entry is
    /// to be confirmed, the others wait.
    pub fn remote_delete_focused(&mut self)
        ensures
            final(self)@ == old(self)@.asked_to_delete_chosen(DeleteLocation::Remote),
    {
        self.ask_delete_chosen(DeleteLocation::Remote);
    }

    /// Starts a confirmed local deletion, if one is confirmed: asks the
    /// application to remove the file. Returns whether there was one.
    pub fn local_confirm_delete(&mut self) -> (r: bool)
        ensures
            r == old(self)@.confirms_local(),
            final(self)@ == old(self)@.removing_local(),
    {
        let local = match &self.delete.confirm {
            Some(t) => matches!(t.location, DeleteLocation::Local),
            None => false,
        };
        if local {
            self.delete.removing = true;
        }
        assert(self@ =~= old(self)@.removing_local());
        local
    }

    /// Takes in whether the local file was removed, and takes the next
    /// deletion that waits. One confirmation covers the whole batch. Returns
    /// whether there is a next one.
    pub fn local_deleted(&mut self, error: Option<&str>) -> (r: bool)
        requires
            old(self)@.confirms_local(),
        ensures
            final(self)@ == old(self)@.local_delete_done(
                match error {
                    Some(e) => Some(e@),
                    None => None,
                },
            ),
            r == (error is None && old(self)@.delete.pending.len() > 0),
    {
        let ghost err = match error {
            Some(e) => Some(e@),
            None => None,
        };
        match error {
            Some(e) => {
                self.say(cat("Delete failed: ", e), Color::Red);
                self.delete.pending.clear();
                assert(common::targets_view(self.delete.pending@) =~= Seq::empty());
            },
            None => {
                let path = match &self.delete.confirm {
                    Some(t) => t.path.clone(),
                    None => String::new(),
                };
                self.say(cat("Deleted: ", path.as_str()), Color::Green);
                self.reload_local = true;
            },
        }
        self.delete.confirm = None;
        self.delete.removing = false;
        self.last_duration = None;
        assert(self@ =~= old(self)@.local_removed(err));
        if self.pop_pending_delete() {
            true
        } else {
            self.needs_redraw = true;
            assert(self@ =~= old(self)@.local_delete_done(err));
            false
        }
    }

    /// Puts the first deletion that waits up for confirmation. Returns whether
    /// there was one.
    pub fn pop_pending_delete(&mut self) -> (r: bool)
        ensures
            r == (old(self)@.delete.pending.len() > 0),
            final(self)@ == old(self)@.next_delete_taken(),
    {
        assert(self@.delete.pending.len() == self.delete.pending@.len());
        if self.delete.pending.len() == 0 {
            false
        } else {
            let ghost all = common::targets_view(self.delete.pending@);
            let t = self.delete.pending.remove(0);
            assert(common::targets_view(self.delete.pending@) =~= all.skip(1));
            assert(all[0] == t@);
            self.delete.confirm = Some(t);
            self.delete.removing = false;
            assert(self@ =~= old(self)@.next_delete_taken());
            true
        }
    }

    /// Refuses the deletion that is up for confirmation, and those that wait.
    pub fn confirm_delete_no(&mut self)
        ensures
            final(self)@ == old(self)@.deletion_refused(),
    {
        self.delete.confirm = None;
        self.delete.removing = false;
        self.delete.pending.clear();
        assert(common::targets_view(self.delete.pending@) =~= Seq::empty());
        self.say("Deletion cancelled.".to_owned(), Color::Yellow);
        self.needs_redraw = true;
        assert(self@ =~= old(self)@.deletion_refused());
    }
}

} // verus!
