//! Playing the queue: starting tracks, going on to the next, and the artwork of
//! what is queued.
use crate::actor::{
    Action, ActionModel, Actor, ActorModel, ListenEndReason, Moment, Surroundings,
    SurroundingsModel,
};
use crate::api::{DevicePlaybackRole, LibraryModel, LibrarySnapshot, PlaybackRepeat,
    PlaybackSnapshot, PlaybackStatus, SearchResults, SearchResultsModel};
use crate::catalog::{AudioSource, AudioSourceModel, Track, TrackKey, TrackKeyModel, TrackModel};
use crate::find::{first_where, found, lemma_first_where};
use crate::lookup::{
    artwork_request, find_queued, has_key, known_cover, known_cover_uri, queue_artwork_request_id,
};
use crate::merge::NameKeys;
use crate::names::{is_name_fn, keys_by};
use crate::queue::{item_tracks, Queue, QueueItem, QueueItemModel, QueueModel};
use crate::text::{file_name, sanitize_filename};
use crate::views::views;
use crate::wire::{extrapolated, extrapolated_control_position};
use vstd::prelude::*;

verus! {

broadcast use crate::views::group_views;

/// Queued tracks that wait for the same artwork.
#[derive(Debug, PartialEq)]
pub struct ArtworkGroup {
    pub request_id: String,
    pub track: Track,
    pub keys: Vec<TrackKey>,
}

pub struct ArtworkGroupModel {
    pub request_id: Seq<char>,
    pub track: TrackModel,
    pub keys: Seq<TrackKeyModel>,
}

impl View for ArtworkGroup {
    type V = ArtworkGroupModel;

    open spec fn view(&self) -> ArtworkGroupModel {
        ArtworkGroupModel {
            request_id: self.request_id@,
            track: self.track@,
            keys: views(self.keys@),
        }
    }
}

/// The tracks without artwork for which some is known, and what is known.
pub open spec fn known_covers(
    keys: NameKeys,
    library: LibraryModel,
    search: SearchResultsModel,
    queue: Seq<QueueItemModel>,
    tracks: Seq<TrackModel>,
) -> Seq<(TrackKeyModel, Seq<char>)>
    decreases tracks.len(),
{
    if tracks.len() == 0 {
        Seq::empty()
    } else {
        let so_far = known_covers(keys, library, search, queue, tracks.drop_last());
        let track = tracks.last();
        match known_cover(keys, library, search, queue, track) {
            Some(cover) if track.cover_uri is None => so_far.push((track.key, cover)),
            _ => so_far,
        }
    }
}

/// The queue with artwork on every track that goes by the key: the first of
/// them takes it, and the others become what the first one is then.
pub open spec fn with_cover(queue: QueueModel, key: TrackKeyModel, cover: Seq<char>) -> QueueModel {
    match found(item_tracks(queue.items), has_key(key)) {
        Some(track) => queue.replace_track(
            key,
            TrackModel { cover_uri: Some(cover), ..track },
        ),
        None => queue,
    }
}

pub open spec fn with_covers(queue: QueueModel, covers: Seq<(TrackKeyModel, Seq<char>)>) -> QueueModel
    decreases covers.len(),
{
    if covers.len() == 0 {
        queue
    } else {
        with_cover(with_covers(queue, covers.drop_last()), covers.last().0, covers.last().1)
    }
}

pub open spec fn is_request(request_id: Seq<char>) -> spec_fn(ArtworkGroupModel) -> bool {
    |group: ArtworkGroupModel| group.request_id == request_id
}

/// The tracks that wait for artwork from peers, grouped by what they share, in
/// the order in which the groups first appear.
pub open spec fn artwork_groups(keys: NameKeys, tracks: Seq<TrackModel>) -> Seq<ArtworkGroupModel>
    decreases tracks.len(),
{
    if tracks.len() == 0 {
        Seq::empty()
    } else {
        let so_far = artwork_groups(keys, tracks.drop_last());
        let track = tracks.last();
        match artwork_request(keys, track) {
            Some(request_id) if track.cover_uri is None && track.audio_source is Federation => {
                let i = first_where(so_far, is_request(request_id));
                if i < so_far.len() {
                    so_far.update(
                        i,
                        ArtworkGroupModel { keys: so_far[i].keys.push(track.key), ..so_far[i] },
                    )
                } else {
                    so_far.push(ArtworkGroupModel { request_id, track, keys: seq![track.key] })
                }
            },
            _ => so_far,
        }
    }
}

/// The smaller of two times.
pub open spec fn earlier(a: u64, b: u64) -> u64 {
    if a < b {
        a
    } else {
        b
    }
}

/// The time from `since` to `now`, none where the clock has not moved.
pub open spec fn elapsed(since: u64, now: u64) -> u64 {
    if now > since {
        (now - since) as u64
    } else {
        0
    }
}

/// A move of less than ten milliseconds is not worth showing.
pub open spec fn noticeable(a: u64, b: u64) -> bool {
    a - b >= 10_000_000 || b - a >= 10_000_000
}

impl ActorModel {
    pub open spec fn request_artwork(self, groups: Seq<ArtworkGroupModel>) -> Self
        decreases groups.len(),
    {
        if groups.len() == 0 {
            self
        } else {
            let before = self.request_artwork(groups.drop_last());
            let group = groups.last();
            if before.pending_queue_artwork.contains(group.request_id) {
                before
            } else {
                ActorModel {
                    pending_queue_artwork: before.pending_queue_artwork.push(group.request_id),
                    ..before
                }.act(
                    ActionModel::ResolveArtwork {
                        request_id: group.request_id,
                        track: group.track,
                        keys: group.keys,
                    },
                )
            }
        }
    }

    pub open spec fn covered(self, keys: NameKeys) -> Self {
        self.with_queue(
            with_covers(
                self.state.queue,
                known_covers(
                    keys,
                    self.library,
                    self.state.search.results,
                    self.state.queue.items,
                    item_tracks(self.state.queue.items),
                ),
            ),
        )
    }

    /// Gives the queued tracks the artwork that is known, and asks peers for the
    /// rest, once per group.
    #[verifier::opaque]
    pub open spec fn resolve_queue_artwork(self, keys: NameKeys) -> Self {
        let covered = self.covered(keys);
        if self.federation_ready {
            covered.request_artwork(
                artwork_groups(keys, item_tracks(covered.state.queue.items)),
            )
        } else {
            covered
        }
    }

    #[verifier::opaque]
    pub open spec fn stopped_with(self, message: Seq<char>, now: Moment) -> Self {
        self.finish_listen(ListenEndReason::Stopped).with_status(
            PlaybackStatus::Stopped,
        ).with_playback_error(Some(message)).publish(now)
    }

    #[verifier::opaque]
    pub open spec fn start_federated_playback(
        self,
        track: TrackModel,
        peer_id: Seq<char>,
        content_id: Seq<char>,
        now: Moment,
    ) -> Self {
        if !self.federation_ready {
            self.stopped_with("federation is still starting"@, now)
        } else {
            let silent = self.act(ActionModel::AudioStop).with_status(PlaybackStatus::Stopped);
            match track.key.federation_identity {
                Some((_, item_id)) => silent.act(
                    ActionModel::StreamTrack {
                        key: track.key,
                        peer_id,
                        item_id,
                        keep: self.state.settings.save_federated_on_listen,
                        stem: "fed-"@ + file_name(track.title),
                    },
                ),
                None => silent.act(ActionModel::LookupContent { key: track.key, content_id }),
            }.publish(now)
        }
    }

    /// Starts the current track from its beginning, here or on the controlled
    /// device; without one, playback stops.
    #[verifier::opaque]
    pub open spec fn play_current(self, around: SurroundingsModel) -> Self {
        let now = around.now;
        let cleared = self.remove_ephemeral_audio();
        match cleared.state.queue.current_item() {
            None => cleared.finish_listen(ListenEndReason::Stopped).with_status(
                PlaybackStatus::Stopped,
            ).publish(now),
            Some(item) => {
                let track = item.track;
                let listening = cleared.begin_listen(track, around);
                let ready = listening.with_playback(
                    PlaybackSnapshot {
                        position_nanos: 0,
                        duration_nanos: track.duration_nanos,
                        ..listening.state.playback
                    },
                ).with_playback_error(None);
                if ready.device_role == DevicePlaybackRole::Control {
                    ready.with_status(PlaybackStatus::Playing).control_and_publish(true, now)
                } else {
                    match track.audio_source {
                        AudioSourceModel::LocalFile(path) => ready.with_status(
                            PlaybackStatus::Playing,
                        ).act(
                            ActionModel::AudioPlay {
                                path,
                                volume_ppb: ready.state.playback.volume_ppb,
                            },
                        ).publish(now),
                        AudioSourceModel::Federation { peer_id, content_id } =>
                            ready.start_federated_playback(track, peer_id, content_id, now),
                    }
                }
            },
        }
    }

    pub open spec fn shuffle_new_context(self, seed: u64) -> Self {
        if self.state.playback.shuffle {
            self.with_queue(self.state.queue.shuffle_upcoming(seed))
        } else {
            self
        }
    }

    /// Whether there is something to go on to. A track that ended by itself and
    /// repeats goes on to itself; at the end of the queue, repeating all goes on
    /// to the start.
    pub open spec fn has_next(self, natural_finish: bool) -> bool {
        if natural_finish && self.state.playback.repeat == PlaybackRepeat::One {
            self.state.queue.current is Some
        } else {
            self.state.queue.can_advance() || (self.state.playback.repeat == PlaybackRepeat::All
                && self.state.queue.items.len() > 0)
        }
    }

    pub open spec fn advance_queue(self, natural_finish: bool) -> Self {
        if natural_finish && self.state.playback.repeat == PlaybackRepeat::One {
            self
        } else if self.state.queue.can_advance() {
            self.with_queue(self.state.queue.advance())
        } else if self.state.playback.repeat == PlaybackRepeat::All {
            self.with_queue(self.state.queue.select_index(0))
        } else {
            self
        }
    }

    /// Where the controlled device is by now, as far as it is known.
    pub open spec fn control_position(self, now: u64) -> Option<u64> {
        let told = match self.pending_control {
            Some(pending) if pending.device_id == self.active_device_id => Some(
                extrapolated(pending.state, elapsed(pending.sent_at, now)),
            ),
            _ => match self.control_anchor {
                Some(anchor) if anchor.device_id == self.active_device_id => Some(
                    extrapolated(anchor.state, elapsed(anchor.observed_at, now)),
                ),
                _ => None,
            },
        };
        match told {
            Some(position) => Some(
                if self.state.playback.duration_nanos > 0 {
                    earlier(position, self.state.playback.duration_nanos)
                } else {
                    position
                },
            ),
            None => None,
        }
    }

    pub open spec fn moved(self, position_nanos: u64, now: Moment) -> Self {
        if noticeable(position_nanos, self.state.playback.position_nanos) {
            self.with_playback(
                PlaybackSnapshot { position_nanos, ..self.state.playback },
            ).publish(now)
        } else {
            self
        }
    }

    /// What is shown follows what plays; `audio_nanos` is where the audio engine
    /// is.
    #[verifier::opaque]
    pub open spec fn tick(self, audio_nanos: u64, now: Moment) -> Self {
        if self.state.playback.status == PlaybackStatus::Stopped {
            self
        } else if self.device_role == DevicePlaybackRole::Control {
            match self.control_position(now.nanos) {
                Some(position) => self.moved(position, now),
                None => self,
            }
        } else {
            self.moved(earlier(audio_nanos, self.state.playback.duration_nanos), now)
        }
    }

    pub open spec fn audio_started(self, now: Moment) -> Self {
        self.with_status(PlaybackStatus::Playing).with_playback_error(None).publish(now)
    }

    #[verifier::opaque]
    pub open spec fn audio_finished(self, around: SurroundingsModel) -> Self {
        let ended = self.finish_listen(ListenEndReason::Finished).remove_ephemeral_audio();
        let next = ended.advance_queue(true);
        if ended.has_next(true) {
            next.play_current(around)
        } else {
            next.with_playback(
                PlaybackSnapshot {
                    status: PlaybackStatus::Stopped,
                    position_nanos: next.state.playback.duration_nanos,
                    ..next.state.playback
                },
            ).publish(around.now)
        }
    }
}

/// What the audio engine reports.
#[derive(Debug, PartialEq)]
pub enum Event {
    Started,
    Finished,
    Failed(String),
}

fn holds_text(list: &Vec<String>, text: &String) -> (r: bool)
    ensures
        r == views(list@).contains(text@),
{
    let mut i: usize = 0;
    while i < list.len()
        invariant
            i <= list.len(),
            forall|j: int| 0 <= j < i ==> #[trigger] views(list@)[j] != text@,
        decreases list.len() - i,
    {
        if list[i] == *text {
            assert(views(list@)[i as int] == text@);
            return true;
        }
        i += 1;
    }
    false
}

/// The queued tracks with artwork that is known but that they lack.
fn lacking_covers<F: Fn(&str) -> String>(
    library: &LibrarySnapshot,
    search: &SearchResults,
    items: &[QueueItem],
    names: &F,
) -> (r: Vec<(TrackKey, String)>)
    requires
        is_name_fn(names),
    ensures
        pairs(r@) == known_covers(
            keys_by(names),
            library@,
            search@,
            views(items@),
            item_tracks(views(items@)),
        ),
{
    let ghost keys = keys_by(names);
    let ghost all = item_tracks(views(items@));
    let mut r: Vec<(TrackKey, String)> = Vec::new();
    let mut i: usize = 0;
    proof {
        assert(pairs(r@) =~= Seq::empty());
    }
    while i < items.len()
        invariant
            is_name_fn(names),
            keys == keys_by(names),
            i <= items.len() == all.len(),
            all == item_tracks(views(items@)),
            pairs(r@) == known_covers(keys, library@, search@, views(items@), all.take(i as int)),
        decreases items.len() - i,
    {
        let ghost before = r@;
        proof {
            assert(all.take(i + 1).drop_last() =~= all.take(i as int));
            assert(all[i as int] == items@[i as int]@.track);
        }
        if items[i].track.cover_uri.is_none() {
            if let Some(cover) = known_cover_uri(library, search, items, &items[i].track, names) {
                r.push((items[i].track.key.clone(), cover));
                proof {
                    assert(pairs(r@) =~= pairs(before).push((all[i as int].key, cover@)));
                }
            }
        }
        i += 1;
    }
    proof {
        assert(all.take(i as int) =~= all);
    }
    r
}

/// The views of both sides of the pairs.
pub open spec fn pairs(s: Seq<(TrackKey, String)>) -> Seq<(TrackKeyModel, Seq<char>)> {
    Seq::new(s.len(), |i: int| (s[i].0@, s[i].1@))
}

/// Puts artwork on the queued tracks that go by the key.
pub fn cover_track(queue: &mut Queue, key: &TrackKey, cover: &String)
    requires
        old(queue)@.wf(),
    ensures
        final(queue)@ == with_cover(old(queue)@, key@, cover@),
        final(queue)@.wf(),
{
    let replacement: Option<Track> = match find_queued(queue.items(), key) {
        Some(track) => Some(track.clone()),
        None => None,
    };
    if let Some(found) = replacement {
        let mut track = found;
        track.cover_uri = Some(cover.clone());
        queue.replace_track(key, &track);
    }
}

fn cover_tracks(queue: &mut Queue, covers: &Vec<(TrackKey, String)>)
    requires
        old(queue)@.wf(),
    ensures
        final(queue)@ == with_covers(old(queue)@, pairs(covers@)),
        final(queue)@.wf(),
{
    let ghost all = pairs(covers@);
    let mut i: usize = 0;
    while i < covers.len()
        invariant
            i <= covers.len() == all.len(),
            all == pairs(covers@),
            queue@ == with_covers(old(queue)@, all.take(i as int)),
            queue@.wf(),
        decreases covers.len() - i,
    {
        proof {
            assert(all.take(i + 1).drop_last() =~= all.take(i as int));
        }
        cover_track(queue, &covers[i].0, &covers[i].1);
        i += 1;
    }
    proof {
        assert(all.take(i as int) =~= all);
    }
}

fn group_artwork<F: Fn(&str) -> String>(items: &[QueueItem], names: &F) -> (r: Vec<ArtworkGroup>)
    requires
        is_name_fn(names),
    ensures
        views(r@) == artwork_groups(keys_by(names), item_tracks(views(items@))),
{
    let ghost keys = keys_by(names);
    let ghost all = item_tracks(views(items@));
    let mut r: Vec<ArtworkGroup> = Vec::new();
    let mut i: usize = 0;
    while i < items.len()
        invariant
            is_name_fn(names),
            keys == keys_by(names),
            i <= items.len() == all.len(),
            all == item_tracks(views(items@)),
            views(r@) == artwork_groups(keys, all.take(i as int)),
        decreases items.len() - i,
    {
        proof {
            assert(all.take(i + 1).drop_last() =~= all.take(i as int));
            assert(all[i as int] == items@[i as int]@.track);
        }
        let track = &items[i].track;
        if track.cover_uri.is_none() && matches!(track.audio_source, AudioSource::Federation { .. }) {
            if let Some(request_id) = queue_artwork_request_id(track, names) {
                add_to_group(&mut r, request_id, track);
            }
        }
        i += 1;
    }
    proof {
        assert(all.take(i as int) =~= all);
    }
    r
}

fn add_to_group(groups: &mut Vec<ArtworkGroup>, request_id: String, track: &Track)
    ensures
        ({
            let so_far = views(old(groups)@);
            let i = first_where(so_far, is_request(request_id@));
            views(final(groups)@) == if i < so_far.len() {
                so_far.update(
                    i,
                    ArtworkGroupModel { keys: so_far[i].keys.push(track@.key), ..so_far[i] },
                )
            } else {
                so_far.push(
                    ArtworkGroupModel {
                        request_id: request_id@,
                        track: track@,
                        keys: seq![track@.key],
                    },
                )
            }
        }),
{
    let ghost so_far = views(groups@);
    let ghost p = is_request(request_id@);
    let mut i: usize = 0;
    while i < groups.len() && groups[i].request_id != request_id
        invariant
            i <= groups.len(),
            so_far == views(groups@),
            p == is_request(request_id@),
            forall|j: int| 0 <= j < i ==> !p(#[trigger] so_far[j]),
        ensures
            i <= groups.len(),
            i < groups.len() ==> p(so_far[i as int]),
            forall|j: int| 0 <= j < i ==> !p(#[trigger] so_far[j]),
        decreases groups.len() - i,
    {
        i += 1;
    }
    proof {
        assert(so_far.len() == groups.len());
        lemma_first_where(so_far, p, i as int);
    }
    if i < groups.len() {
        let mut group = groups.remove(i);
        group.keys.push(track.key.clone());
        groups.insert(i, group);
        proof {
            assert(views(groups@) =~= so_far.update(
                i as int,
                ArtworkGroupModel {
                    keys: so_far[i as int].keys.push(track@.key),
                    ..so_far[i as int]
                },
            ));
        }
    } else {
        let mut keys: Vec<TrackKey> = Vec::new();
        keys.push(track.key.clone());
        proof {
            assert(views(keys@) =~= seq![track@.key]);
        }
        groups.push(ArtworkGroup { request_id, track: track.clone(), keys });
    }
}

impl Actor {
    fn request_artwork(&mut self, groups: Vec<ArtworkGroup>)
        requires
            old(self)@.wf(),
        ensures
            final(self)@ == old(self)@.request_artwork(views(groups@)),
            final(self)@.wf(),
    {
        let ghost all = views(groups@);
        let mut rest = groups;
        let ghost mut done: int = 0;
        while rest.len() > 0
            invariant
                0 <= done,
                done + rest.len() == all.len(),
                views(rest@) == all.skip(done),
                self@ == old(self)@.request_artwork(all.take(done)),
                self@.wf(),
            decreases rest.len(),
        {
            let group = rest.remove(0);
            proof {
                assert(group@ == all[done]);
                assert(all.take(done + 1).drop_last() =~= all.take(done));
                assert(views(rest@) =~= all.skip(done + 1));
            }
            if !holds_text(self.pending_artwork(), &group.request_id) {
                let mut pending = self.pending_artwork().clone();
                proof {
                    assert(views(pending@) =~= self@.pending_queue_artwork);
                }
                pending.push(group.request_id.clone());
                self.set_pending_artwork(pending);
                self.act(
                    Action::ResolveArtwork {
                        request_id: group.request_id,
                        track: group.track,
                        keys: group.keys,
                    },
                );
            }
            proof {
                done = done + 1;
            }
        }
        proof {
            assert(all.take(done) =~= all);
        }
    }

    pub fn resolve_queue_artwork<F: Fn(&str) -> String>(&mut self, names: &F)
        requires
            is_name_fn(names),
            old(self)@.wf(),
        ensures
            final(self)@ == old(self)@.resolve_queue_artwork(keys_by(names)),
            final(self)@.wf(),
    {
        proof {
            reveal(ActorModel::resolve_queue_artwork);
        }
        let covers = lacking_covers(
            self.library(),
            self.results(),
            self.queue().items(),
            names,
        );
        cover_tracks(self.queue_mut(), &covers);
        if self.federation_ready() {
            let groups = group_artwork(self.queue().items(), names);
            self.request_artwork(groups);
        }
    }

    pub fn stopped_with(&mut self, message: String, now: Moment)
        requires
            old(self)@.wf(),
        ensures
            final(self)@ == old(self)@.stopped_with(message@, now),
            final(self)@.wf(),
    {
        proof {
            reveal(ActorModel::stopped_with);
        }
        self.finish_listen(ListenEndReason::Stopped);
        self.set_status(PlaybackStatus::Stopped);
        self.set_playback_error(Some(message));
        self.publish(now);
    }

    fn start_federated_playback(
        &mut self,
        track: &Track,
        peer_id: String,
        content_id: String,
        now: Moment,
    )
        requires
            old(self)@.wf(),
        ensures
            final(self)@ == old(self)@.start_federated_playback(
                track@,
                peer_id@,
                content_id@,
                now,
            ),
            final(self)@.wf(),
    {
        proof {
            reveal(ActorModel::start_federated_playback);
        }
        if !self.federation_ready() {
            self.stopped_with("federation is still starting".to_owned(), now);
            return;
        }
        self.act(Action::AudioStop);
        self.set_status(PlaybackStatus::Stopped);
        let key = track.key.clone();
        match track.key.federation_id() {
            Some((_, item_id)) => {
                let keep = self.settings().save_federated_on_listen;
                let mut stem = "fed-".to_owned();
                stem.push_str(sanitize_filename(track.title.as_str()).as_str());
                self.act(
                    Action::StreamTrack {
                        key,
                        peer_id,
                        item_id: item_id.to_owned(),
                        keep,
                        stem,
                    },
                );
            },
            None => {
                self.act(Action::LookupContent { key, content_id });
            },
        }
        self.publish(now);
    }

    pub fn play_current(&mut self, around: &Surroundings)
        requires
            old(self)@.wf(),
        ensures
            final(self)@ == old(self)@.play_current(around@),
            final(self)@.wf(),
    {
        proof {
            reveal(ActorModel::play_current);
        }
        self.remove_ephemeral_audio();
        let current: Option<Track> = match self.queue().current() {
            Some(item) => Some(item.track.clone()),
            None => None,
        };
        let Some(track) = current else {
            self.finish_listen(ListenEndReason::Stopped);
            self.set_status(PlaybackStatus::Stopped);
            self.publish(around.now);
            return;
        };
        self.begin_listen(&track, around);
        let playback = self.playback();
        self.set_playback(
            PlaybackSnapshot {
                position_nanos: 0,
                duration_nanos: track.duration_nanos,
                ..playback
            },
        );
        self.set_playback_error(None);
        if self.role() == DevicePlaybackRole::Control {
            self.set_status(PlaybackStatus::Playing);
            self.control_and_publish(true, around.now);
            return;
        }
        match track.audio_source.clone() {
            AudioSource::LocalFile(path) => {
                self.set_status(PlaybackStatus::Playing);
                let volume_ppb = self.playback().volume_ppb;
                self.act(Action::AudioPlay { path, volume_ppb });
                self.publish(around.now);
            },
            AudioSource::Federation { peer_id, content_id } => {
                self.start_federated_playback(
                    &track,
                    peer_id,
                    content_id.as_str().to_owned(),
                    around.now,
                );
            },
        }
    }

    pub fn shuffle_new_context(&mut self, seed: u64)
        requires
            old(self)@.wf(),
        ensures
            final(self)@ == old(self)@.shuffle_new_context(seed),
            final(self)@.wf(),
    {
        if self.playback().shuffle {
            self.queue_mut().shuffle_upcoming_from(seed);
        }
    }

    pub fn advance_queue(&mut self, natural_finish: bool) -> (r: bool)
        requires
            old(self)@.wf(),
        ensures
            r == old(self)@.has_next(natural_finish),
            final(self)@ == old(self)@.advance_queue(natural_finish),
            final(self)@.wf(),
    {
        if natural_finish && self.playback().repeat == PlaybackRepeat::One {
            return self.queue().current().is_some();
        }
        if self.queue_mut().advance().is_some() {
            return true;
        }
        self.playback().repeat == PlaybackRepeat::All && self.queue_mut().select_index(0).is_some()
    }

    pub fn control_position(&self, now: u64) -> (r: Option<u64>)
        ensures
            r == self@.control_position(now),
    {
        let mut told: Option<u64> = None;
        if let Some(anchor) = self.control_anchor() {
            if anchor.device_id == *self.active_device_id() {
                told = Some(
                    extrapolated_control_position(
                        &anchor.state,
                        now.saturating_sub(anchor.observed_at),
                    ),
                );
            }
        }
        if let Some(pending) = self.pending_control() {
            if pending.device_id == *self.active_device_id() {
                told = Some(
                    extrapolated_control_position(
                        &pending.state,
                        now.saturating_sub(pending.sent_at),
                    ),
                );
            }
        }
        match told {
            Some(position) => {
                let duration: u64 = self.playback().duration_nanos;
                Some(
                    if duration > 0 && duration <= position {
                        duration
                    } else {
                        position
                    },
                )
            },
            None => None,
        }
    }

    fn moved(&mut self, position_nanos: u64, now: Moment)
        requires
            old(self)@.wf(),
        ensures
            final(self)@ == old(self)@.moved(position_nanos, now),
            final(self)@.wf(),
    {
        let shown: u64 = self.playback().position_nanos;
        let off: u64 = if shown < position_nanos {
            position_nanos - shown
        } else {
            shown - position_nanos
        };
        if off >= 10_000_000 {
            let playback = self.playback();
            self.set_playback(PlaybackSnapshot { position_nanos, ..playback });
            self.publish(now);
        }
    }

    pub fn tick_playback(&mut self, audio_nanos: u64, now: Moment)
        requires
            old(self)@.wf(),
        ensures
            final(self)@ == old(self)@.tick(audio_nanos, now),
            final(self)@.wf(),
    {
        proof {
            reveal(ActorModel::tick);
        }
        if self.playback().status == PlaybackStatus::Stopped {
            return;
        }
        if self.role() == DevicePlaybackRole::Control {
            if let Some(position) = self.control_position(now.nanos) {
                self.moved(position, now);
            }
            return;
        }
        let duration: u64 = self.playback().duration_nanos;
        self.moved(
            if audio_nanos < duration {
                audio_nanos
            } else {
                duration
            },
            now,
        );
    }

    pub fn handle_audio_event(&mut self, event: Event, around: &Surroundings)
        requires
            old(self)@.wf(),
        ensures
            final(self)@ == (match event {
                Event::Started => old(self)@.audio_started(around@.now),
                Event::Finished => old(self)@.audio_finished(around@),
                Event::Failed(message) => old(self)@.stopped_with(message@, around@.now),
            }),
            final(self)@.wf(),
    {
        proof {
            reveal(ActorModel::audio_finished);
        }
        match event {
            Event::Started => {
                self.set_status(PlaybackStatus::Playing);
                self.set_playback_error(None);
                self.publish(around.now);
            },
            Event::Finished => {
                self.finish_listen(ListenEndReason::Finished);
                self.remove_ephemeral_audio();
                if self.advance_queue(true) {
                    self.play_current(around);
                } else {
                    let playback = self.playback();
                    self.set_playback(
                        PlaybackSnapshot {
                            status: PlaybackStatus::Stopped,
                            position_nanos: playback.duration_nanos,
                            ..playback
                        },
                    );
                    self.publish(around.now);
                }
            },
            Event::Failed(message) => {
                self.stopped_with(message, around.now);
            },
        }
    }
}

} // verus!
