//! What a device tells the others of what its user does, and what it makes of
//! their answers.
use crate::device_pairing::{trusted_profiles, News, NewsModel};
use crate::device_store::{DeviceSync, DeviceSyncModel, VectorEntry};
use crate::sync_ops::{beginning, short_id, SyncOpPayload, SyncOpPayloadModel};
use crate::text::{signed_decimal, signed_decimal_text};
use crate::views::{opt_view, views};
use crate::wire::{PlaybackCommand, SyncedFedTrack, SyncedFedTrackModel};
use vstd::prelude::*;

verus! {

broadcast use crate::views::group_views;

/// A track that was put on a playlist.
#[derive(Debug, PartialEq)]
pub struct AddedTrack {
    pub content_id: String,
    pub position: i64,
    pub fed: Option<SyncedFedTrack>,
}

pub struct AddedTrackModel {
    pub content_id: Seq<char>,
    pub position: i64,
    pub fed: Option<SyncedFedTrackModel>,
}

impl View for AddedTrack {
    type V = AddedTrackModel;

    open spec fn view(&self) -> AddedTrackModel {
        AddedTrackModel {
            content_id: self.content_id@,
            position: self.position,
            fed: opt_view(self.fed),
        }
    }
}

/// What a device answered to a greeting.
#[derive(Debug, PartialEq)]
pub enum SyncReply {
    Accepted,
    Refused { error: Option<String> },
    Unexpected,
}

/// The name of a listen.
pub open spec fn listen_name(now: i64, random: Seq<char>) -> Seq<char> {
    signed_decimal(now as int).push('-') + random
}

pub fn new_listen_id(now: i64, random: &str) -> (r: String)
    ensures
        r@ == listen_name(now, random@),
{
    let mut r = signed_decimal_text(now);
    r.push('-');
    r.push_str(random);
    r
}

/// Why a device was not reached by a greeting, if it was not.
pub fn sync_failure(reply: SyncReply) -> (r: Option<String>)
    ensures
        opt_view(r) == (match reply {
            SyncReply::Accepted => None,
            SyncReply::Refused { error: Some(error) } => Some(error@),
            SyncReply::Refused { error: None } => Some("sync refused"@),
            SyncReply::Unexpected => Some("unexpected sync response"@),
        }),
{
    match reply {
        SyncReply::Accepted => None,
        SyncReply::Refused { error: Some(error) } => Some(error),
        SyncReply::Refused { error: None } => Some("sync refused".to_owned()),
        SyncReply::Unexpected => Some("unexpected sync response".to_owned()),
    }
}

/// What is noted where one device alone was greeted in vain.
pub fn target_failure(device_id: &str, error: &str) -> (r: String)
    ensures
        r@ == beginning(device_id@, 10) + ": "@ + error@,
{
    let mut r = short_id(device_id);
    r.push_str(": ");
    r.push_str(error);
    r
}

/// What is noted where a device that came could not be answered.
pub fn incoming_failure(error: &str) -> (r: String)
    ensures
        r@ == "incoming sync: "@ + error@,
{
    let mut r = "incoming sync: ".to_owned();
    r.push_str(error);
    r
}

/// The last of the failures of a round; a round in which nothing failed has none.
pub open spec fn last_failure(outcomes: Seq<Option<Seq<char>>>) -> Option<Seq<char>>
    decreases outcomes.len(),
{
    if outcomes.len() == 0 {
        None
    } else {
        match outcomes.last() {
            Some(error) => Some(error),
            None => last_failure(outcomes.drop_last()),
        }
    }
}

pub open spec fn opt_views(outcomes: Seq<Option<String>>) -> Seq<Option<Seq<char>>> {
    outcomes.map_values(|o: Option<String>| opt_view(o))
}

/// Every device is greeted, whatever came of those before; the last failure is
/// the one that is told.
pub fn round_failure(outcomes: &Vec<Option<String>>) -> (r: Option<String>)
    ensures
        opt_view(r) == last_failure(opt_views(outcomes@)),
{
    let ghost all = opt_views(outcomes@);
    let mut n: usize = outcomes.len();
    assert(all.take(n as int) =~= all);
    while n > 0
        invariant
            n <= outcomes.len() == all.len(),
            all == opt_views(outcomes@),
            last_failure(all.take(n as int)) == last_failure(all),
        decreases n,
    {
        n -= 1;
        assert(all.take(n + 1).drop_last() =~= all.take(n as int));
        assert(all.take(n + 1).last() == opt_view(outcomes@[n as int]));
        if let Some(error) = &outcomes[n] {
            return Some(error.clone());
        }
    }
    None
}

/// A round fails exactly where one of its devices failed.
pub proof fn a_round_tells_of_failures(outcomes: Seq<Option<Seq<char>>>)
    ensures
        last_failure(outcomes) is Some <==> exists|i: int|
            0 <= i < outcomes.len() && (#[trigger] outcomes[i]) is Some,
    decreases outcomes.len(),
{
    if outcomes.len() > 0 {
        let shorter = outcomes.drop_last();
        a_round_tells_of_failures(shorter);
        if last_failure(outcomes) is Some {
            if outcomes.last() is Some {
                assert(outcomes[outcomes.len() - 1] is Some);
            } else {
                let i = choose|i: int| 0 <= i < shorter.len() && (#[trigger] shorter[i]) is Some;
                assert(outcomes[i] is Some);
            }
        }
        if exists|i: int| 0 <= i < outcomes.len() && (#[trigger] outcomes[i]) is Some {
            let i = choose|i: int| 0 <= i < outcomes.len() && (#[trigger] outcomes[i]) is Some;
            if i < shorter.len() {
                assert(shorter[i] is Some);
            }
        }
    }
}

impl DeviceSyncModel {
    /// Tracks were put on a playlist, one change each.
    /// All that another device may not know yet.
    pub open spec fn news_for(self, device_id: Seq<char>, now: i64) -> NewsModel {
        NewsModel {
            devices: trusted_profiles(self.devices),
            vector: self.vector,
            ops: self.ops_for_peer(device_id, now),
            snapshot: self.snapshot(),
            playback: self.local_playback,
        }
    }

    /// A device that said hello is also told how to reach this one.
    pub open spec fn hello_reply(
        self,
        device_id: Seq<char>,
        ticket: Seq<char>,
        endpoint_id: Seq<char>,
        now: i64,
    ) -> NewsModel {
        let news = self.news_for(device_id, now);
        NewsModel {
            devices: news.devices.push(self.own_profile(ticket, endpoint_id, now)),
            ..news
        }
    }

    pub open spec fn additions_recorded(
        self,
        playlist_id: Seq<char>,
        tracks: Seq<AddedTrackModel>,
        now: i64,
    ) -> Self
        decreases tracks.len(),
    {
        if tracks.len() == 0 {
            self
        } else {
            self.additions_recorded(playlist_id, tracks.drop_last(), now).recorded(
                SyncOpPayloadModel::PlaylistTrackAdded {
                    playlist_id,
                    content_id: tracks.last().content_id,
                    position: tracks.last().position,
                    fed: tracks.last().fed,
                },
                now,
            )
        }
    }
}

impl DeviceSync {
    /// How far the device is in the changes of each device.
    /// What another device is sent.
    pub fn news_for(&self, device_id: &str, now: i64) -> (r: News)
        ensures
            r@ == self@.news_for(device_id@, now),
    {
        News {
            devices: self.device_profiles(),
            vector: self.vector(),
            ops: self.ops_for_peer(device_id, now),
            snapshot: self.snapshot(),
            playback: self.local_playback.clone(),
        }
    }

    /// What a device that said hello is answered.
    pub fn hello_reply(&self, device_id: &str, ticket: &str, endpoint_id: &str, now: i64) -> (r:
        News)
        ensures
            r@ == self@.hello_reply(device_id@, ticket@, endpoint_id@, now),
    {
        let mut news = self.news_for(device_id, now);
        let profile = self.own_profile(ticket, endpoint_id, now);
        news.devices.push(profile);
        proof {
            assert(news@.devices =~= self@.hello_reply(
                device_id@,
                ticket@,
                endpoint_id@,
                now,
            ).devices);
        }
        news
    }

    pub fn vector(&self) -> (r: Vec<VectorEntry>)
        ensures
            views(r@) == self@.vector,
    {
        let r = self.vector.clone();
        assert(views(r@) =~= self@.vector);
        r
    }

    pub fn record_playlist_created(&mut self, playlist_id: &str, title: &str, now: i64)
        ensures
            final(self)@ == old(self)@.recorded(
                SyncOpPayloadModel::PlaylistCreated { playlist_id: playlist_id@, title: title@ },
                now,
            ),
    {
        self.record_op(
            SyncOpPayload::PlaylistCreated {
                playlist_id: playlist_id.to_owned(),
                title: title.to_owned(),
            },
            now,
        );
    }

    pub fn record_playlist_renamed(&mut self, playlist_id: &str, title: &str, now: i64)
        ensures
            final(self)@ == old(self)@.recorded(
                SyncOpPayloadModel::PlaylistRenamed { playlist_id: playlist_id@, title: title@ },
                now,
            ),
    {
        self.record_op(
            SyncOpPayload::PlaylistRenamed {
                playlist_id: playlist_id.to_owned(),
                title: title.to_owned(),
            },
            now,
        );
    }

    pub fn record_playlist_deleted(&mut self, playlist_id: &str, now: i64)
        ensures
            final(self)@ == old(self)@.recorded(
                SyncOpPayloadModel::PlaylistDeleted { playlist_id: playlist_id@ },
                now,
            ),
    {
        self.record_op(SyncOpPayload::PlaylistDeleted { playlist_id: playlist_id.to_owned() }, now);
    }

    /// Tracks of the library, or of a peer, were put on a playlist.
    pub fn record_playlist_tracks_added(&mut self, playlist_id: &str, tracks: Vec<AddedTrack>, now: i64)
        ensures
            final(self)@ == old(self)@.additions_recorded(playlist_id@, views(tracks@), now),
    {
        let ghost all = views(tracks@);
        let mut rest = tracks;
        let ghost mut done: int = 0;
        assert(all.skip(0) =~= all);
        while rest.len() > 0
            invariant
                0 <= done,
                done + rest.len() == all.len(),
                views(rest@) == all.skip(done),
                self@ == old(self)@.additions_recorded(playlist_id@, all.take(done), now),
            decreases rest.len(),
        {
            assert(views(rest@)[0] == all[done]);
            let track = rest.remove(0);
            self.record_op(
                SyncOpPayload::PlaylistTrackAdded {
                    playlist_id: playlist_id.to_owned(),
                    content_id: track.content_id,
                    position: track.position,
                    fed: track.fed,
                },
                now,
            );
            proof {
                assert(all.take(done + 1).drop_last() =~= all.take(done));
                assert(views(rest@) =~= all.skip(done + 1));
                done = done + 1;
            }
        }
        assert(all.take(done) =~= all);
    }

    pub fn record_playback_command(&mut self, target_device_id: &str, command: PlaybackCommand, now: i64)
        ensures
            final(self)@ == old(self)@.recorded(
                SyncOpPayloadModel::PlaybackCommand {
                    target_device_id: target_device_id@,
                    command: command@,
                },
                now,
            ),
    {
        self.record_op(
            SyncOpPayload::PlaybackCommand {
                target_device_id: target_device_id.to_owned(),
                command,
            },
            now,
        );
    }
}

} // verus!
