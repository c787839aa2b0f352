//! The queue of transfers.
use vstd::prelude::*;
use crate::browser::common;
use crate::browser::path;
use super::{
    BrowserCore, BrowserFocus, CoreView, DeleteView, PendingTransfer, PendingView, StatusView,
    TransferDirection, TransferStatus, TransferView,
};
use crate::browser::parse::{EntryView, FsEntry};
use crate::browser::path::{join, remote_join, to_slashes};
use crate::style::Color;
use crate::text::{cat3, same};

verus! {

/// The direction of a transfer out of the panel that has the keyboard.
pub open spec fn direction_from(focus: BrowserFocus) -> TransferDirection {
    match focus {
        BrowserFocus::Local => TransferDirection::Upload,
        BrowserFocus::Remote => TransferDirection::Download,
    }
}

/// The place of the first entry from `i` on with this name, or the length.
pub open spec fn entry_named(entries: Seq<EntryView>, name: Seq<char>, i: int) -> int
    decreases entries.len() - i,
{
    if i >= entries.len() {
        entries.len() as int
    } else if entries[i].name == name {
        i
    } else {
        entry_named(entries, name, i + 1)
    }
}

impl CoreView {
    /// The direction of the transfers that wait.
    pub open spec fn pending_direction(self) -> TransferDirection {
        match self.transfer.pending_direction {
            Some(d) => d,
            None => self.last_direction(),
        }
    }

    /// The direction of the transfer that was started last.
    pub open spec fn last_direction(self) -> TransferDirection {
        match self.transfer.last {
            Some(t) => t.direction,
            None => TransferDirection::Upload,
        }
    }

    /// The full path of an entry of the panel that has the keyboard.
    pub open spec fn full_path(self, name: Seq<char>) -> Seq<char> {
        match self.focus {
            BrowserFocus::Local => path::with_slashes(path::joined(self.local.path, name)),
            BrowserFocus::Remote => path::remote_child(self.remote.path, name),
        }
    }

    /// The transfer of the entry in row `i` of the panel that has the keyboard;
    /// none where there is no such row or it leads to the parent directory.
    pub open spec fn transfer_at(self, i: usize) -> Option<PendingView> {
        let entries = self.focused_panel().entries;
        if i < entries.len() && entries[i as int].name != ".."@ {
            let e = entries[i as int];
            Some(PendingView { path: self.full_path(e.name), name: e.name, is_dir: e.is_dir })
        } else {
            None
        }
    }

    /// The transfers of the entries in these rows.
    pub open spec fn transfers_at(self, rows: Seq<usize>) -> Seq<PendingView>
        decreases rows.len(),
    {
        if rows.len() == 0 {
            Seq::empty()
        } else {
            let before = self.transfers_at(rows.drop_last());
            match self.transfer_at(rows.last()) {
                Some(p) => before.push(p),
                None => before,
            }
        }
    }

    /// The state with the entries in these rows queued for transfer.
    pub open spec fn queued(self, rows: Seq<usize>) -> CoreView {
        CoreView {
            transfer: TransferView {
                pending: self.transfers_at(rows),
                pending_direction: Some(direction_from(self.focus)),
                ..self.transfer
            },
            ..self
        }
    }

    /// The state without the first transfer that waits.
    pub open spec fn next_taken(self) -> CoreView {
        if self.transfer.pending.len() == 0 {
            self
        } else {
            CoreView {
                transfer: TransferView { pending: self.transfer.pending.skip(1), ..self.transfer },
                ..self
            }
        }
    }

    /// The number of transfers to drop from the queue until the first whose
    /// name is in the listing, counted with that one.
    pub open spec fn listed_after(self, i: int) -> int
        decreases self.transfer.pending.len() - i,
    {
        let entries = self.focused_panel().entries;
        if i >= self.transfer.pending.len() {
            i
        } else if entry_named(entries, self.transfer.pending[i].name, 0) < entries.len() {
            i + 1
        } else {
            self.listed_after(i + 1)
        }
    }

    /// The row of the first transfer that waits and is in the listing.
    pub open spec fn listed_row(self, i: int) -> Option<usize>
        decreases self.transfer.pending.len() - i,
    {
        let entries = self.focused_panel().entries;
        if i >= self.transfer.pending.len() {
            None
        } else {
            let k = entry_named(entries, self.transfer.pending[i].name, 0);
            if k < entries.len() {
                Some(k as usize)
            } else {
                self.listed_row(i + 1)
            }
        }
    }
}

impl BrowserCore {
    /// The direction of the transfers that wait.
    pub fn pending_direction(&self) -> (r: TransferDirection)
        ensures
            r == self@.pending_direction(),
    {
        match self.transfer.pending_direction {
            Some(d) => d,
            None => self.last_transfer_direction(),
        }
    }

    /// The direction of the transfer that was started last.
    pub fn last_transfer_direction(&self) -> (r: TransferDirection)
        ensures
            r == self@.last_direction(),
    {
        match &self.transfer.last {
            Some(t) => t.direction,
            None => TransferDirection::Upload,
        }
    }

    fn pending_transfer_at(&self, i: usize) -> (r: Option<PendingTransfer>)
        ensures
            match r {
                Some(p) => self@.transfer_at(i) == Some(p@),
                None => self@.transfer_at(i) is None,
            },
    {
        let entries: &Vec<FsEntry> = match self.focus {
            BrowserFocus::Local => &self.local.entries,
            BrowserFocus::Remote => &self.remote.entries,
        };
        if i >= entries.len() {
            return None;
        }
        let e = &entries[i];
        assert(self@.focused_panel().entries[i as int] == e@);
        if same(e.name.as_str(), "..") {
            return None;
        }
        let path = match self.focus {
            BrowserFocus::Local => to_slashes(
                join(self.local.path.as_str(), e.name.as_str()).as_str(),
            ),
            BrowserFocus::Remote => remote_join(self.remote.path.as_str(), e.name.as_str()),
        };
        let p = PendingTransfer { path, name: e.name.clone(), is_dir: e.is_dir };
        assert(self@.transfer_at(i)->0 =~= p@);
        Some(p)
    }

    /// Queues the entries in these rows for transfer, in the direction that
    /// leads out of the panel that has the keyboard.
    pub fn queue_transfers_from_indices(&mut self, indices: &[usize])
        ensures
            final(self)@ == old(self)@.queued(indices@),
    {
        let mut pending: Vec<PendingTransfer> = Vec::new();
        let mut i: usize = 0;
        assert(indices@.take(0) =~= Seq::empty());
        assert(common::pending_view(pending@) =~= self@.transfers_at(indices@.take(0)));
        while i < indices.len()
            invariant
                i <= indices@.len(),
                *self == *old(self),
                common::pending_view(pending@) == self@.transfers_at(indices@.take(i as int)),
            decreases indices@.len() - i,
        {
            let ghost t = indices@.take(i + 1);
            assert(t.drop_last() =~= indices@.take(i as int));
            let ghost before = common::pending_view(pending@);
            if let Some(p) = self.pending_transfer_at(indices[i]) {
                let ghost view = p@;
                pending.push(p);
                assert(common::pending_view(pending@) =~= before.push(view));
            }
            i += 1;
        }
        assert(indices@.take(i as int) =~= indices@);
        self.transfer.pending_direction = Some(
            match self.focus {
                BrowserFocus::Local => TransferDirection::Upload,
                BrowserFocus::Remote => TransferDirection::Download,
            },
        );
        self.transfer.pending = pending;
        assert(self@ =~= old(self)@.queued(indices@));
    }

    /// Takes the first transfer that waits.
    pub fn pop_pending(&mut self) -> (r: Option<PendingTransfer>)
        ensures
            final(self)@ == old(self)@.next_taken(),
            match r {
                Some(p) => old(self)@.transfer.pending.len() > 0 && p@
                    == old(self)@.transfer.pending[0],
                None => old(self)@.transfer.pending.len() == 0,
            },
    {
        if self.transfer.pending.len() == 0 {
            None
        } else {
            let p = self.transfer.pending.remove(0);
            assert(common::pending_view(self.transfer.pending@) =~= old(self)@.transfer.pending.skip(1));
            assert(self@ =~= old(self)@.next_taken());
            Some(p)
        }
    }

    /// Takes transfers that wait until one is found whose name is in the
    /// listing of the panel that has the keyboard, and returns its row.
    pub fn pop_pending_transfer(&mut self) -> (r: Option<usize>)
        ensures
            r == old(self)@.listed_row(0),
            final(self)@ == (CoreView {
                transfer: TransferView {
                    pending: old(self)@.transfer.pending.skip(old(self)@.listed_after(0)),
                    ..old(self)@.transfer
                },
                ..old(self)@
            }),
    {
        let ghost all = old(self)@.transfer.pending;
        let ghost mut n: int = 0;
        assert(all.skip(0) =~= all);
        while self.transfer.pending.len() > 0
            invariant
                0 <= n <= all.len(),
                all == old(self)@.transfer.pending,
                old(self)@.listed_row(n) == old(self)@.listed_row(0),
                old(self)@.listed_after(n) == old(self)@.listed_after(0),
                common::pending_view(self.transfer.pending@) == all.skip(n),
                self@ == (CoreView {
                    transfer: TransferView { pending: all.skip(n), ..old(self)@.transfer },
                    ..old(self)@
                }),
            decreases self.transfer.pending@.len(),
        {
            assert(common::pending_view(self.transfer.pending@).len() == self.transfer.pending@.len());
            assert(all.skip(n)[0] == all[n]);
            let ghost before = self.transfer.pending@;
            let p = self.transfer.pending.remove(0);
            assert(common::pending_view(self.transfer.pending@) =~= common::pending_view(before).skip(1));
            assert(all.skip(n).skip(1) =~= all.skip(n + 1));
            proof {
                n = n + 1;
            }
            assert(self@ =~= (CoreView {
                transfer: TransferView { pending: all.skip(n), ..old(self)@.transfer },
                ..old(self)@
            }));
            let k: Option<usize> = self.find_entry(p.name.as_str());
            if k.is_some() {
                return k;
            }
        }
        assert(all.skip(n).len() == 0);
        None
    }

    fn find_entry(&self, name: &str) -> (r: Option<usize>)
        ensures
            ({
                let entries = self@.focused_panel().entries;
                let k = entry_named(entries, name@, 0);
                match r {
                    Some(i) => i == k && k < entries.len(),
                    None => k >= entries.len(),
                }
            }),
    {
        let entries: &Vec<FsEntry> = match self.focus {
            BrowserFocus::Local => &self.local.entries,
            BrowserFocus::Remote => &self.remote.entries,
        };
        let ghost view = self@.focused_panel().entries;
        let mut i: usize = 0;
        while i < entries.len()
            invariant
                i <= entries@.len(),
                view == crate::browser::parse::entries_view(entries@),
                view == self@.focused_panel().entries,
                entry_named(view, name@, i as int) == entry_named(view, name@, 0),
            decreases entries@.len() - i,
        {
            assert(view[i as int] == entries@[i as int]@);
            if same(entries[i].name.as_str(), name) {
                return Some(i);
            }
            i += 1;
        }
        None
    }
}

// ---------------------------------------------------------------------------
// Starting a transfer
// ---------------------------------------------------------------------------

impl CoreView {
    /// What to transfer next: the first transfer that waits, or else the entry
    /// under the cursor of the panel that the direction leads out of.
    pub open spec fn source(self, direction: TransferDirection) -> Option<PendingView> {
        if self.transfer.pending.len() > 0 {
            Some(self.transfer.pending[0])
        } else {
            match direction {
                TransferDirection::Upload => match self.local.focused() {
                    Some(e) => if e.name == ".."@ {
                        None
                    } else {
                        Some(
                            PendingView {
                                path: path::with_slashes(path::joined(self.local.path, e.name)),
                                name: e.name,
                                is_dir: e.is_dir,
                            },
                        )
                    },
                    None => None,
                },
                TransferDirection::Download => match self.remote.focused() {
                    Some(e) => if e.name == ".."@ {
                        None
                    } else {
                        Some(
                            PendingView {
                                path: path::remote_child(self.remote.path, e.name),
                                name: e.name,
                                is_dir: e.is_dir,
                            },
                        )
                    },
                    None => None,
                },
            }
        }
    }

    /// The state after a transfer was started. The first one of a batch counts
    /// the batch.
    pub open spec fn begun(
        self,
        name: Seq<char>,
        is_dir: bool,
        direction: TransferDirection,
        now: u64,
    ) -> CoreView {
        CoreView {
            transfer: TransferView {
                batch_total: if self.transfer.batch_done == 0 {
                    common::up_by(self.transfer.pending.len() as usize, 1)
                } else {
                    self.transfer.batch_total
                },
                start: Some(now),
                last: Some(
                    StatusView {
                        filename: name,
                        direction,
                        is_dir,
                        done: false,
                        progress: 0,
                        file_count: 0,
                    },
                ),
                ..self.transfer
            },
            ..self
        }.saying(
            match direction {
                TransferDirection::Download => "Downloading "@,
                TransferDirection::Upload => "Uploading "@,
            } + name + "..."@,
            Color::Yellow,
        )
    }

    /// The state with the transfer that was started last marked as complete.
    pub open spec fn last_completed(self) -> CoreView {
        CoreView {
            transfer: TransferView {
                last: match self.transfer.last {
                    Some(t) => Some(StatusView { done: true, progress: 100, ..t }),
                    None => None,
                },
                ..self.transfer
            },
            ..self
        }
    }

    /// The state with no transfer waiting.
    pub open spec fn transfers_dropped(self) -> CoreView {
        CoreView {
            transfer: TransferView { pending: Seq::empty(), ..self.transfer },
            ..self
        }
    }

    /// The state with the counters of the batch of transfers reset.
    pub open spec fn batch_reset(self) -> CoreView {
        CoreView {
            transfer: TransferView {
                start: None,
                batch_done: 0,
                batch_total: 0,
                ..self.transfer
            },
            ..self
        }
    }

    /// The state with one more transfer of the batch counted as done.
    pub open spec fn one_done(self) -> CoreView {
        CoreView {
            transfer: TransferView {
                batch_done: common::up_by(self.transfer.batch_done, 1),
                ..self.transfer
            },
            ..self
        }
    }

    /// The state after the process that did the work was lost: nothing waits
    /// any more.
    pub open spec fn work_lost(self, msg: Seq<char>) -> CoreView {
        CoreView {
            drop_confirm: None,
            link_probe: None,
            delete: DeleteView { pending: Seq::empty(), ..self.delete },
            ..self.transfers_dropped().batch_reset()
        }.saying(msg, Color::Red).redrawn()
    }
}

impl BrowserCore {
    /// Takes what to transfer next.
    pub(crate) fn take_source(&mut self, direction: TransferDirection) -> (r: Option<
        PendingTransfer,
    >)
        ensures
            match r {
                Some(p) => old(self)@.source(direction) == Some(p@) && final(self)@
                    == old(self)@.next_taken(),
                None => old(self)@.source(direction) is None && final(self)@ == old(self)@,
            },
    {
        if let Some(p) = self.pop_pending() {
            return Some(p);
        }
        let r = match direction {
            TransferDirection::Upload => match self.local.focused_entry() {
                Some(e) => {
                    if same(e.name.as_str(), "..") {
                        None
                    } else {
                        let path = to_slashes(
                            join(self.local.path.as_str(), e.name.as_str()).as_str(),
                        );
                        Some(PendingTransfer { path, name: e.name.clone(), is_dir: e.is_dir })
                    }
                },
                None => None,
            },
            TransferDirection::Download => match self.remote.focused_entry() {
                Some(e) => {
                    if same(e.name.as_str(), "..") {
                        None
                    } else {
                        let path = remote_join(self.remote.path.as_str(), e.name.as_str());
                        Some(PendingTransfer { path, name: e.name.clone(), is_dir: e.is_dir })
                    }
                },
                None => None,
            },
        };
        proof {
            if r is Some {
                assert(old(self)@.source(direction)->0 =~= r->0@);
            }
        }
        r
    }

    /// Notes that a transfer was started.
    pub(crate) fn begin(
        &mut self,
        name: &str,
        is_dir: bool,
        direction: TransferDirection,
        now: u64,
    )
        ensures
            final(self)@ == old(self)@.begun(name@, is_dir, direction, now),
    {
        if self.transfer.batch_done == 0 {
            self.transfer.batch_total = self.transfer.pending.len().saturating_add(1);
        }
        self.transfer.start = Some(now);
        self.transfer.last = Some(
            TransferStatus {
                filename: name.to_owned(),
                direction,
                is_dir,
                done: false,
                progress: 0,
                file_count: 0,
            },
        );
        let verb = match direction {
            TransferDirection::Download => "Downloading ",
            TransferDirection::Upload => "Uploading ",
        };
        self.say(cat3(verb, name, "..."), Color::Yellow);
        assert(old(self)@.transfer.pending.len() == old(self).transfer.pending@.len());
        assert(self@ =~= old(self)@.begun(name@, is_dir, direction, now));
    }

    /// Marks the transfer that was started last as complete. Returns its name
    /// and direction.
    pub(crate) fn complete_last(&mut self) -> (r: Option<(String, TransferDirection)>)
        ensures
            final(self)@ == old(self)@.last_completed(),
            match r {
                Some((name, d)) => old(self)@.transfer.last matches Some(t) && name@ == t.filename
                    && d == t.direction,
                None => old(self)@.transfer.last is None,
            },
    {
        let mut r: Option<(String, TransferDirection)> = None;
        if let Some(t) = &mut self.transfer.last {
            t.done = true;
            t.progress = 100;
            r = Some((t.filename.clone(), t.direction));
        }
        assert(self@ =~= old(self)@.last_completed());
        r
    }

    /// Drops the transfers that wait.
    pub(crate) fn drop_transfers(&mut self)
        ensures
            final(self)@ == old(self)@.transfers_dropped(),
    {
        self.transfer.pending.clear();
        assert(common::pending_view(self.transfer.pending@) =~= Seq::empty());
        assert(self@ =~= old(self)@.transfers_dropped());
    }

    /// Resets the counters of the batch of transfers.
    pub(crate) fn reset_batch(&mut self)
        ensures
            final(self)@ == old(self)@.batch_reset(),
    {
        self.transfer.start = None;
        self.transfer.batch_done = 0;
        self.transfer.batch_total = 0;
        assert(self@ =~= old(self)@.batch_reset());
    }

    /// Counts one more transfer of the batch as done.
    pub(crate) fn count_done(&mut self)
        ensures
            final(self)@ == old(self)@.one_done(),
    {
        self.transfer.batch_done = self.transfer.batch_done.saturating_add(1);
        assert(self@ =~= old(self)@.one_done());
    }

    /// Gives up everything that waits, because the process that did the work
    /// was lost.
    pub(crate) fn lose_work(&mut self, msg: &str)
        ensures
            final(self)@ == old(self)@.work_lost(msg@),
    {
        self.drop_confirm = None;
        self.link_probe = None;
        self.drop_transfers();
        self.delete.pending.clear();
        assert(common::targets_view(self.delete.pending@) =~= Seq::empty());
        self.reset_batch();
        self.say(msg.to_owned(), Color::Red);
        self.needs_redraw = true;
        assert(self@ =~= old(self)@.work_lost(msg@));
    }
}

} // verus!
