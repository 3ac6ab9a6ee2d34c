//! The manual track selection's state: the tracks the probe found,
//! the ordered output selection being built, and the attachment
//! sources, with the operations the selection dialog offers.

use vstd::prelude::*;

verus! {

/// One probed track as the selection dialog shows it.
#[derive(Clone, Debug)]
pub struct TrackInfo {
    pub source: String,
    pub id: u32,
    pub track_type: String,
    pub codec: String,
    pub lang: String,
    pub name: String,
}

/// A field-for-field copy.
fn duplicate_info(t: &TrackInfo) -> (r: TrackInfo)
    ensures
        r == *t,
{
    TrackInfo {
        source: t.source.clone(),
        id: t.id,
        track_type: t.track_type.clone(),
        codec: t.codec.clone(),
        lang: t.lang.clone(),
        name: t.name.clone(),
    }
}

/// The manual selection dialog's state.
pub struct ManualSelectionDialog {
    available_tracks: Vec<TrackInfo>,
    selected_tracks: Vec<TrackInfo>,
    attachment_sources: Vec<String>,
}

impl ManualSelectionDialog {
    pub closed spec fn available_view(self) -> Seq<TrackInfo> {
        self.available_tracks@
    }

    pub closed spec fn selected_view(self) -> Seq<TrackInfo> {
        self.selected_tracks@
    }

    pub closed spec fn attachments_view(self) -> Seq<String> {
        self.attachment_sources@
    }

    /// An empty dialog: nothing probed, nothing selected.
    pub fn new() -> (s: ManualSelectionDialog)
        ensures
            s.available_view().len() == 0,
            s.selected_view().len() == 0,
            s.attachments_view().len() == 0,
    {
        ManualSelectionDialog {
            available_tracks: Vec::new(),
            selected_tracks: Vec::new(),
            attachment_sources: Vec::new(),
        }
    }

    /// Hand the dialog the probed tracks to offer.
    pub fn set_available(&mut self, tracks: Vec<TrackInfo>)
        ensures
            final(self).available_view() == tracks@,
            final(self).selected_view() == old(self).selected_view(),
            final(self).attachments_view() == old(self).attachments_view(),
    {
        self.available_tracks = tracks;
    }

    /// Record one more attachment source.
    pub fn add_attachment_source(&mut self, source: String)
        ensures
            final(self).attachments_view() == old(self).attachments_view().push(source),
            final(self).available_view() == old(self).available_view(),
            final(self).selected_view() == old(self).selected_view(),
    {
        self.attachment_sources.push(source);
    }

    /// Append available track `idx` to the output selection (the same
    /// physical track may be added twice on purpose); out-of-range
    /// indices are ignored.
    pub fn add_track(&mut self, idx: usize)
        ensures
            final(self).available_view() == old(self).available_view(),
            final(self).attachments_view() == old(self).attachments_view(),
            idx < old(self).available_view().len() ==> final(self).selected_view() == old(
                self,
            ).selected_view().push(old(self).available_view()[idx as int]),
            idx >= old(self).available_view().len() ==> final(self).selected_view() == old(
                self,
            ).selected_view(),
    {
        if idx < self.available_tracks.len() {
            let copy = duplicate_info(&self.available_tracks[idx]);
            self.selected_tracks.push(copy);
        }
    }

    /// Remove entry `idx` of the output selection; out-of-range
    /// indices are ignored.
    pub fn remove_track(&mut self, idx: usize)
        ensures
            final(self).available_view() == old(self).available_view(),
            final(self).attachments_view() == old(self).attachments_view(),
            idx < old(self).selected_view().len() ==> final(self).selected_view() == old(
                self,
            ).selected_view().remove(idx as int),
            idx >= old(self).selected_view().len() ==> final(self).selected_view() == old(
                self,
            ).selected_view(),
    {
        if idx < self.selected_tracks.len() {
            self.selected_tracks.remove(idx);
        }
    }

    /// Move entry `idx` of the output selection one position up; the
    /// top entry and out-of-range indices stay put.
    pub fn move_up(&mut self, idx: usize)
        ensures
            final(self).available_view() == old(self).available_view(),
            final(self).attachments_view() == old(self).attachments_view(),
            0 < idx < old(self).selected_view().len() ==> final(self).selected_view() == old(
                self,
            ).selected_view().update(idx - 1, old(self).selected_view()[idx as int]).update(
                idx as int,
                old(self).selected_view()[idx - 1],
            ),
            !(0 < idx < old(self).selected_view().len()) ==> final(self).selected_view() == old(
                self,
            ).selected_view(),
    {
        if idx > 0 && idx < self.selected_tracks.len() {
            let ghost before = self.selected_tracks@;
            let moved = self.selected_tracks.remove(idx);
            self.selected_tracks.insert(idx - 1, moved);
            proof {
                assert(self.selected_tracks@ =~= before.update(idx - 1, before[idx as int]).update(
                    idx as int,
                    before[idx - 1],
                ));
            }
        }
    }

    /// Move entry `idx` of the output selection one position down;
    /// the bottom entry and out-of-range indices stay put.
    pub fn move_down(&mut self, idx: usize)
        ensures
            final(self).available_view() == old(self).available_view(),
            final(self).attachments_view() == old(self).attachments_view(),
            idx + 1 < old(self).selected_view().len() ==> final(self).selected_view() == old(
                self,
            ).selected_view().update(idx as int, old(self).selected_view()[idx + 1]).update(
                idx + 1,
                old(self).selected_view()[idx as int],
            ),
            idx + 1 >= old(self).selected_view().len() ==> final(self).selected_view() == old(
                self,
            ).selected_view(),
    {
        let n = self.selected_tracks.len();
        if n > 0 && idx < n - 1 {
            let ghost before = self.selected_tracks@;
            let moved = self.selected_tracks.remove(idx);
            self.selected_tracks.insert(idx + 1, moved);
            proof {
                assert(self.selected_tracks@ =~= before.update(idx as int, before[idx + 1]).update(
                    idx + 1,
                    before[idx as int],
                ));
            }
        }
    }

    /// How many entries the output selection holds.
    pub fn selected_len(&self) -> (n: usize)
        ensures
            n == self.selected_view().len(),
    {
        self.selected_tracks.len()
    }

    /// Read one entry of the output selection.
    pub fn selected_at(&self, idx: usize) -> (t: &TrackInfo)
        requires
            idx < self.selected_view().len(),
        ensures
            *t == self.selected_view()[idx as int],
    {
        &self.selected_tracks[idx]
    }
}

} // verus!
