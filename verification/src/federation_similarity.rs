//! Asking other peers for tracks that sound alike, and answering them.
use crate::api::SimilaritySettingsSnapshot;
use crate::catalog::{
    AudioSource, AudioSourceModel, ReleaseKey, ReleaseKeyModel, Track, TrackKey, TrackKeyModel,
    TrackModel,
};
use crate::federation::{artist_refs, content_given, or_empty, peer_refs};
use crate::library::{noted_content, LibraryArtist, LibraryArtistRow, LibraryTrack, LibraryTrackRow};
use crate::merge::NameKeys;
use crate::names::{is_name_fn, key_of, keys_by};
use crate::similarity::{
    distance_of, distances_by, identity, is_distance_fn, is_known, is_near_duplicate, known_before,
    scores_higher, sketch, sounds_like_one, sounds_the_same, Candidate, CandidateModel, Distances,
    LocalMatch, LocalMatchModel, NEAR_DUPLICATE_DISTANCE,
};
use crate::sort::{lemma_sorted_views, stable_sort, stable_sorted};
use crate::text::{join, joined, labelled, same_str};
use crate::views::{opt_view, views};
use crate::wire::{name_id, name_id_of, to_u32, widen_u32};
use vstd::prelude::*;

verus! {

broadcast use crate::views::group_views;

/// At most so many peers are asked.
pub const MAX_QUERY_PEERS: usize = 48;

/// A track as a peer offers it. The score orders as the measured one does.
#[derive(Debug, PartialEq)]
pub struct SimilarityHit {
    pub score: i32,
    pub item_id: String,
    pub title: String,
    pub artist_names: Vec<String>,
    pub featured_artist_names: Vec<String>,
    pub year: Option<i32>,
    pub duration_seconds: Option<i64>,
    pub content_id: Option<String>,
    pub release_title: Option<String>,
    pub track_number: Option<i32>,
    pub disc_number: Option<i32>,
    pub embedding_signature: Option<[u8; 16]>,
}

pub struct SimilarityHitModel {
    pub score: i32,
    pub item_id: Seq<char>,
    pub title: Seq<char>,
    pub artist_names: Seq<Seq<char>>,
    pub featured_artist_names: Seq<Seq<char>>,
    pub year: Option<i32>,
    pub duration_seconds: Option<i64>,
    pub content_id: Option<Seq<char>>,
    pub release_title: Option<Seq<char>>,
    pub track_number: Option<i32>,
    pub disc_number: Option<i32>,
    pub embedding_signature: Option<Seq<u8>>,
}

impl View for SimilarityHit {
    type V = SimilarityHitModel;

    open spec fn view(&self) -> SimilarityHitModel {
        SimilarityHitModel {
            score: self.score,
            item_id: self.item_id@,
            title: self.title@,
            artist_names: views(self.artist_names@),
            featured_artist_names: views(self.featured_artist_names@),
            year: self.year,
            duration_seconds: self.duration_seconds,
            content_id: opt_view(self.content_id),
            release_title: opt_view(self.release_title),
            track_number: self.track_number,
            disc_number: self.disc_number,
            embedding_signature: sketch(self.embedding_signature),
        }
    }
}

/// What a peer is asked with. `network_limit` is the most that the network
/// gives back at once.
#[derive(Debug, PartialEq)]
pub struct SimilarQuery {
    pub signature: [u8; 16],
    pub source_content_id: Option<String>,
    pub limit: usize,
    pub network_limit: usize,
    pub minimum_score: Option<i32>,
    pub max_tracks_per_artist: usize,
}

pub struct SimilarQueryModel {
    pub signature: Seq<u8>,
    pub source_content_id: Option<Seq<char>>,
    pub limit: usize,
    pub network_limit: usize,
    pub minimum_score: Option<i32>,
    pub max_tracks_per_artist: usize,
}

impl View for SimilarQuery {
    type V = SimilarQueryModel;

    open spec fn view(&self) -> SimilarQueryModel {
        SimilarQueryModel {
            signature: self.signature@,
            source_content_id: opt_view(self.source_content_id),
            limit: self.limit,
            network_limit: self.network_limit,
            minimum_score: self.minimum_score,
            max_tracks_per_artist: self.max_tracks_per_artist,
        }
    }
}

/// The names of the library's artists, in order.
pub open spec fn row_names(artists: Seq<LibraryArtistRow>) -> Seq<Seq<char>> {
    Seq::new(artists.len(), |i: int| artists[i].name)
}

/// What a peer is told of a track of the library.
pub open spec fn offered(
    row: LibraryTrackRow,
    item_id: Seq<char>,
    score: i32,
    signature: Seq<u8>,
) -> SimilarityHitModel {
    SimilarityHitModel {
        score,
        item_id,
        title: row.title,
        artist_names: row_names(row.artists),
        featured_artist_names: row_names(row.featured_artists),
        year: row.release_year,
        duration_seconds: Some((row.duration_nanos / 1_000_000_000) as i64),
        content_id: row.content_id,
        release_title: Some(row.release_title),
        track_number: row.track_number,
        disc_number: row.disc_number,
        embedding_signature: Some(signature),
    }
}

fn names_of_rows(artists: &Vec<LibraryArtist>) -> (r: Vec<String>)
    ensures
        views(r@) == row_names(views(artists@)),
{
    let mut r: Vec<String> = Vec::new();
    let mut i: usize = 0;
    while i < artists.len()
        invariant
            i <= artists.len(),
            views(r@) == row_names(views(artists@)).take(i as int),
        decreases artists.len() - i,
    {
        r.push(artists[i].name.clone());
        i += 1;
        assert(views(r@) =~= row_names(views(artists@)).take(i as int));
    }
    assert(views(r@) =~= row_names(views(artists@)));
    r
}

/// Offers a track of the library to a peer that asked for something like it.
pub fn similarity_hit(track: LibraryTrack, item_id: String, score: i32, signature: [u8; 16]) -> (r:
    SimilarityHit)
    ensures
        r@ == offered(track@, item_id@, score, signature@),
{
    SimilarityHit {
        score,
        item_id,
        title: track.title,
        artist_names: names_of_rows(&track.artists),
        featured_artist_names: names_of_rows(&track.featured_artists),
        year: track.release_year,
        duration_seconds: Some((track.duration_nanos / 1_000_000_000) as i64),
        content_id: track.content_id,
        release_title: Some(track.release_title),
        track_number: track.track_number,
        disc_number: track.disc_number,
        embedding_signature: Some(signature),
    }
}

/// Whether the network may be told and asked how tracks sound: only where the
/// listener wants similar tracks at all, and has agreed.
pub fn network_allowed(settings: &SimilaritySettingsSnapshot) -> (r: bool)
    ensures
        r == (settings.enabled && settings.federation_consent),
{
    settings.enabled && settings.federation_consent
}

/// What a peer is told of the tracks that were found for it, each with the
/// name under which it is published.
pub open spec fn all_offered(found: Seq<(LocalMatchModel, Seq<char>)>) -> Seq<SimilarityHitModel> {
    Seq::new(
        found.len(),
        |i: int| offered(found[i].0.track, found[i].1, found[i].0.score, found[i].0.signature),
    )
}

/// Answers a peer that asked for tracks that sound alike. Without the consent of
/// the listener it is refused, whatever was found.
pub fn answer_query(allowed: bool, found: Result<Vec<(LocalMatch, String)>, String>) -> (r: Result<
    Vec<SimilarityHit>,
    String,
>)
    ensures
        match (allowed, found) {
            (false, _) => r matches Err(message) && message@
                == "similarity federation is disabled or has no privacy consent"@,
            (true, Err(error)) => r matches Err(message) && message@
                == "similarity query is unavailable: "@ + error@,
            (true, Ok(matches)) => r matches Ok(hits) && views(hits@) == all_offered(
                views(matches@),
            ),
        },
{
    if !allowed {
        return Err("similarity federation is disabled or has no privacy consent".to_owned());
    }
    let mut rest = match found {
        Ok(matches) => matches,
        Err(error) => {
            return Err(labelled("similarity query is unavailable: ", error.as_str()));
        },
    };
    let ghost matches = views(rest@);
    let mut hits: Vec<SimilarityHit> = Vec::new();
    while rest.len() > 0
        invariant
            hits.len() + rest.len() == matches.len(),
            views(rest@) == matches.skip(hits.len() as int),
            views(hits@) == all_offered(matches).take(hits.len() as int),
        decreases rest.len(),
    {
        let ghost done = hits.len() as int;
        let (found, item_id) = rest.remove(0);
        proof {
            assert((found@, item_id@) == matches[done]);
            assert(views(rest@) =~= matches.skip(done + 1));
        }
        hits.push(similarity_hit(found.track, item_id, found.score, found.signature));
        proof {
            assert(views(hits@) =~= all_offered(matches).take(done + 1));
        }
    }
    assert(views(hits@) =~= all_offered(matches));
    Ok(hits)
}

/// The length of a track that is told in whole seconds; what does not fit
/// counts as unknown.
pub open spec fn told_length(seconds: Option<i64>) -> u64 {
    match seconds {
        Some(n) => if 0 <= n <= u32::MAX {
            (n * 1_000_000_000) as u64
        } else {
            0
        },
        None => 0,
    }
}

/// What a track that a peer offers looks like in the catalog.
pub open spec fn offered_track(
    keys: NameKeys,
    peer: Seq<char>,
    hit: SimilarityHitModel,
    content_id: Seq<char>,
) -> TrackModel {
    TrackModel {
        key: TrackKeyModel {
            local_id: None,
            content_id: Some(content_id),
            federation_identity: Some((peer, hit.item_id)),
        },
        title: hit.title,
        artist: joined(hit.artist_names + hit.featured_artist_names, ", "@),
        artists: peer_refs(keys, peer, hit.artist_names),
        featured_artists: peer_refs(keys, peer, hit.featured_artist_names),
        release: or_empty(hit.release_title),
        release_id: ReleaseKeyModel::Federation {
            peer_id: peer,
            id: name_id(keys, or_empty(hit.release_title)),
        },
        duration_nanos: told_length(hit.duration_seconds),
        track_number: widen_u32(hit.track_number),
        disc_number: widen_u32(hit.disc_number),
        cover_uri: None,
        audio_format: None,
        audio_bitrate_kbps: None,
        audio_sample_rate_hz: None,
        audio_bit_depth: None,
        file_size_bytes: None,
        liked: false,
        audio_source: AudioSourceModel::Federation { peer_id: peer, content_id },
    }
}

/// A track that a peer offers, where it tells its content.
pub open spec fn offered_candidate(keys: NameKeys, peer: Seq<char>, hit: SimilarityHitModel) -> Option<
    CandidateModel,
> {
    match noted_content(hit.content_id) {
        Some(content_id) => Some(
            CandidateModel {
                track: offered_track(keys, peer, hit, content_id),
                score: hit.score,
                signature: hit.embedding_signature,
            },
        ),
        None => None,
    }
}

/// Turns what a peer offers into a candidate; without content it is none.
pub fn hit_to_track<F: Fn(&str) -> String>(owner: &str, hit: SimilarityHit, names: &F) -> (r: Option<
    Candidate,
>)
    requires
        is_name_fn(names),
    ensures
        opt_view(r) == offered_candidate(keys_by(names), owner@, hit@),
{
    let content_id = match content_given(&hit.content_id) {
        Some(id) => id,
        None => {
            return None;
        },
    };
    let artists = artist_refs(owner, &hit.artist_names, names);
    let featured_artists = artist_refs(owner, &hit.featured_artist_names, names);
    let mut all = hit.artist_names.clone();
    let mut featured = hit.featured_artist_names.clone();
    proof {
        assert(views(all@) =~= hit@.artist_names);
        assert(views(featured@) =~= hit@.featured_artist_names);
    }
    all.append(&mut featured);
    proof {
        assert(views(all@) =~= hit@.artist_names + hit@.featured_artist_names);
    }
    let release = match hit.release_title {
        Some(title) => title,
        None => String::new(),
    };
    let duration_nanos: u64 = match hit.duration_seconds {
        Some(n) => if 0 <= n && n <= 4_294_967_295 {
            n as u64 * 1_000_000_000
        } else {
            0
        },
        None => 0,
    };
    Some(
        Candidate {
            track: Track {
                key: TrackKey::federation(owner.to_owned(), hit.item_id, Some(content_id.clone())),
                title: hit.title,
                artist: join(&all, ", "),
                artists,
                featured_artists,
                release_id: ReleaseKey::Federation {
                    peer_id: owner.to_owned(),
                    id: name_id_of(release.as_str(), names),
                },
                release,
                duration_nanos,
                track_number: to_u32(hit.track_number),
                disc_number: to_u32(hit.disc_number),
                cover_uri: None,
                audio_format: None,
                audio_bitrate_kbps: None,
                audio_sample_rate_hz: None,
                audio_bit_depth: None,
                file_size_bytes: None,
                liked: false,
                audio_source: AudioSource::Federation { peer_id: owner.to_owned(), content_id },
            },
            score: hit.score,
            signature: hit.embedding_signature,
        },
    )
}

/// A peer to ask, with a way to reach it where one is known.
#[derive(Debug, PartialEq)]
pub struct QueryPeer {
    pub owner: String,
    pub ticket: Option<String>,
}

pub struct QueryPeerModel {
    pub owner: Seq<char>,
    pub ticket: Option<Seq<char>>,
}

impl View for QueryPeer {
    type V = QueryPeerModel;

    open spec fn view(&self) -> QueryPeerModel {
        QueryPeerModel { owner: self.owner@, ticket: opt_view(self.ticket) }
    }
}

pub open spec fn is_asked(peers: Seq<QueryPeerModel>, owner: Seq<char>) -> bool {
    exists|i: int| 0 <= i < peers.len() && (#[trigger] peers[i]).owner == owner
}

/// The peers with one more, unless it is this node or already among them.
pub open spec fn with_peer(own: Seq<char>, peers: Seq<QueryPeerModel>, peer: QueryPeerModel) -> Seq<
    QueryPeerModel,
> {
    if peer.owner == own || is_asked(peers, peer.owner) {
        peers
    } else {
        peers.push(peer)
    }
}

/// The peers that the routing names.
pub open spec fn routed_peers(own: Seq<char>, routed: Seq<(Seq<char>, Seq<char>)>) -> Seq<
    QueryPeerModel,
>
    decreases routed.len(),
{
    if routed.len() == 0 {
        Seq::empty()
    } else {
        with_peer(
            own,
            routed_peers(own, routed.drop_last()),
            QueryPeerModel { owner: routed.last().0, ticket: Some(routed.last().1) },
        )
    }
}

/// The peers with others that are known, one after the other, until there are
/// enough.
pub open spec fn with_known_peers(
    own: Seq<char>,
    routed: Seq<QueryPeerModel>,
    others: Seq<Seq<char>>,
) -> Seq<QueryPeerModel>
    decreases others.len(),
{
    if others.len() == 0 {
        routed
    } else {
        let before = with_known_peers(own, routed, others.drop_last());
        if others.len() > 1 && before.len() >= MAX_QUERY_PEERS {
            before
        } else {
            with_peer(own, before, QueryPeerModel { owner: others.last(), ticket: None })
        }
    }
}

fn add_peer(own: &str, peers: &mut Vec<QueryPeer>, peer: QueryPeer)
    ensures
        views(final(peers)@) == with_peer(own@, views(old(peers)@), peer@),
{
    if same_str(peer.owner.as_str(), own) {
        return;
    }
    let ghost all = views(peers@);
    let mut i: usize = 0;
    while i < peers.len()
        invariant
            *peers == *old(peers),
            i <= peers.len() == all.len(),
            all == views(peers@),
            forall|j: int| 0 <= j < i ==> (#[trigger] all[j]).owner != peer@.owner,
        decreases peers.len() - i,
    {
        if peers[i].owner == peer.owner {
            assert(all[i as int].owner == peer@.owner);
            return;
        }
        i += 1;
    }
    peers.push(peer);
}

/// Whom to ask: first those that the routing names, then the others that are
/// known, never this node and nobody twice.
pub fn query_peers(own: &str, routed: Vec<(String, String)>, others: Vec<String>) -> (r: Vec<
    QueryPeer,
>)
    ensures
        views(r@) == with_known_peers(
            own@,
            routed_peers(own@, views(routed@)),
            views(others@),
        ),
{
    let ghost all = views(routed@);
    let mut r: Vec<QueryPeer> = Vec::new();
    let mut rest = routed;
    let ghost mut done: int = 0;
    while rest.len() > 0
        invariant
            0 <= done,
            done + rest.len() == all.len(),
            views(rest@) == all.skip(done),
            views(r@) == routed_peers(own@, all.take(done)),
        decreases rest.len(),
    {
        let (owner, ticket) = rest.remove(0);
        proof {
            assert((owner@, ticket@) == all[done]);
            assert(all.take(done + 1).drop_last() =~= all.take(done));
            assert(views(rest@) =~= all.skip(done + 1));
        }
        add_peer(own, &mut r, QueryPeer { owner, ticket: Some(ticket) });
        proof {
            done = done + 1;
        }
    }
    proof {
        assert(all.take(done) =~= all);
    }
    let ghost start = views(r@);
    let ghost known = views(others@);
    let mut i: usize = 0;
    while i < others.len()
        invariant
            i <= others.len() == known.len(),
            known == views(others@),
            views(r@) == with_known_peers(own@, start, known.take(i as int)),
        decreases others.len() - i,
    {
        proof {
            assert(known.take(i + 1).drop_last() =~= known.take(i as int));
            assert(known[i as int] == others@[i as int]@);
        }
        if i == 0 || r.len() < MAX_QUERY_PEERS {
            add_peer(own, &mut r, QueryPeer { owner: others[i].clone(), ticket: None });
        }
        i += 1;
    }
    proof {
        assert(known.take(i as int) =~= known);
    }
    r
}

/// The artist that counts for a track; none where nobody is credited.
pub open spec fn main_artist(keys: NameKeys, track: TrackModel) -> Seq<char> {
    if track.artists.len() > 0 {
        keys(track.artists[0].name)
    } else {
        Seq::empty()
    }
}

pub open spec fn times_heard(keys: NameKeys, heard: Seq<CandidateModel>, artist: Seq<char>) -> nat
    decreases heard.len(),
{
    if heard.len() == 0 {
        0
    } else {
        times_heard(keys, heard.drop_last(), artist) + if main_artist(keys, heard.last().track)
            == artist {
            1nat
        } else {
            0nat
        }
    }
}

/// How many tracks are taken at most: as many as asked for and as the network
/// gives back, but one in any case.
pub open spec fn answer_limit(limit: usize, network_limit: usize) -> int {
    let both = if limit < network_limit {
        limit as int
    } else {
        network_limit as int
    };
    if both < 1 {
        1
    } else {
        both
    }
}

/// How many tracks each peer is asked for.
pub fn asked_limit(limit: usize, network_limit: usize) -> (r: usize)
    ensures
        r == answer_limit(limit, network_limit),
{
    let both: usize = if limit < network_limit {
        limit
    } else {
        network_limit
    };
    if both < 1 {
        1
    } else {
        both
    }
}

/// Whether a track is too far off to be taken.
pub open spec fn is_below(minimum: Option<i32>, score: i32) -> bool {
    minimum matches Some(minimum) && score < minimum
}

/// Whether a track is the one that was asked with.
pub open spec fn is_source(source: Option<Seq<char>>, key: TrackKeyModel) -> bool {
    source is Some && key.content_id == source
}

/// Whether a candidate is passed over, given those before it and those taken
/// from them.
pub open spec fn is_passed_over(
    keys: NameKeys,
    far: Distances,
    query: SimilarQueryModel,
    before: Seq<CandidateModel>,
    taken: Seq<CandidateModel>,
    candidate: CandidateModel,
) -> bool {
    let artist = main_artist(keys, candidate.track);
    ||| taken.len() >= answer_limit(query.limit, query.network_limit)
    ||| is_below(query.minimum_score, candidate.score)
    ||| is_source(query.source_content_id, candidate.track.key)
    ||| is_known(before, candidate.track.key)
    ||| sounds_the_same(far, candidate.signature, Some(query.signature))
    ||| is_near_duplicate(far, taken, candidate.signature)
    ||| artist.len() > 0 && times_heard(keys, taken, artist) >= query.max_tracks_per_artist
}

/// The candidates taken from a list, best first.
pub open spec fn taken(keys: NameKeys, far: Distances, query: SimilarQueryModel, s: Seq<CandidateModel>) -> Seq<
    CandidateModel,
>
    decreases s.len(),
{
    if s.len() == 0 {
        Seq::empty()
    } else {
        let before = taken(keys, far, query, s.drop_last());
        if is_passed_over(keys, far, query, s.drop_last(), before, s.last()) {
            before
        } else {
            before.push(s.last())
        }
    }
}

fn main_artist_of<F: Fn(&str) -> String>(track: &Track, names: &F) -> (r: String)
    requires
        is_name_fn(names),
    ensures
        r@ == main_artist(keys_by(names), track@),
{
    if track.artists.len() > 0 {
        key_of(names, track.artists[0].name.as_str())
    } else {
        String::new()
    }
}

fn count_heard<F: Fn(&str) -> String>(heard: &Vec<Candidate>, artist: &String, names: &F) -> (r:
    usize)
    requires
        is_name_fn(names),
    ensures
        r == times_heard(keys_by(names), views(heard@), artist@),
{
    let ghost all = views(heard@);
    let mut r: usize = 0;
    let mut i: usize = 0;
    while i < heard.len()
        invariant
            is_name_fn(names),
            r <= i <= heard.len() == all.len(),
            all == views(heard@),
            r == times_heard(keys_by(names), all.take(i as int), artist@),
        decreases heard.len() - i,
    {
        proof {
            assert(all.take(i + 1).drop_last() =~= all.take(i as int));
        }
        if main_artist_of(&heard[i].track, names) == *artist {
            r += 1;
        }
        i += 1;
    }
    proof {
        assert(all.take(i as int) =~= all);
    }
    r
}

fn is_asked_with(source: &Option<String>, key: &TrackKey) -> (r: bool)
    ensures
        r == is_source(opt_view(*source), key@),
{
    match (source, key.content_id()) {
        (Some(source), Some(id)) => same_str(source.as_str(), id.as_str()),
        _ => false,
    }
}

/// Ranks what all the peers offered and takes the best of it.
pub fn rank_answers<F: Fn(&str) -> String, D: Fn(&[u8; 16], &[u8; 16]) -> u32>(
    query: &SimilarQuery,
    hits: Vec<Candidate>,
    names: &F,
    distance: &D,
) -> (r: Vec<Candidate>)
    requires
        is_name_fn(names),
        is_distance_fn(distance),
    ensures
        views(r@) == taken(
            keys_by(names),
            distances_by(distance),
            query@,
            stable_sorted(views(hits@), scores_higher()),
        ),
{
    let ghost keys = keys_by(names);
    let ghost far = distances_by(distance);
    let ghost lt = |a: Candidate, b: Candidate| scores_higher()(a@, b@);
    let before = |a: &Candidate, b: &Candidate| -> (y: bool)
        ensures
            y == lt(*a, *b),
        { a.score > b.score };
    proof {
        lemma_sorted_views(hits@, lt, scores_higher());
    }
    let sorted = stable_sort(hits, before, Ghost(lt));
    let ghost all = views(sorted@);
    let limit: usize = asked_limit(query.limit, query.network_limit);
    let mut r: Vec<Candidate> = Vec::new();
    let mut i: usize = 0;
    while i < sorted.len()
        invariant
            is_name_fn(names),
            is_distance_fn(distance),
            keys == keys_by(names),
            far == distances_by(distance),
            limit == answer_limit(query.limit, query.network_limit),
            i <= sorted.len() == all.len(),
            all == views(sorted@),
            views(r@) == taken(keys, far, query@, all.take(i as int)),
        decreases sorted.len() - i,
    {
        proof {
            assert(all.take(i + 1).drop_last() =~= all.take(i as int));
            assert(views(r@).len() == r.len());
        }
        let candidate = &sorted[i];
        let below = match query.minimum_score {
            Some(minimum) => candidate.score < minimum,
            None => false,
        };
        let like_query = match &candidate.signature {
            Some(signature) => distance_of(distance, signature, &query.signature)
                <= NEAR_DUPLICATE_DISTANCE,
            None => false,
        };
        let artist = main_artist_of(&candidate.track, names);
        let exhausted = !artist.as_str().is_empty() && count_heard(&r, &artist, names)
            >= query.max_tracks_per_artist;
        if r.len() < limit && !below && !is_asked_with(
            &query.source_content_id,
            &candidate.track.key,
        ) && !known_before(&sorted, i) && !like_query && !sounds_like_one(
            &r,
            &candidate.signature,
            distance,
        ) && !exhausted {
            r.push(candidate.clone());
        }
        i += 1;
    }
    proof {
        assert(all.take(i as int) =~= all);
    }
    r
}

/// Which signatures a node announces: those of which profile, by their digest.
#[derive(Debug, PartialEq)]
pub struct RouteMarker {
    pub profile_id: String,
    pub digest: [u8; 32],
}

pub struct RouteMarkerModel {
    pub profile_id: Seq<char>,
    pub digest: Seq<u8>,
}

impl View for RouteMarker {
    type V = RouteMarkerModel;

    open spec fn view(&self) -> RouteMarkerModel {
        RouteMarkerModel { profile_id: self.profile_id@, digest: self.digest@ }
    }
}

/// The BLAKE3 hash of some bytes.
pub uninterp spec fn blake3_hash(bytes: Seq<u8>) -> Seq<u8>;

/// `blake3::hash`: a function of the bytes alone, named [`blake3_hash`].
#[verifier::external_body]
fn digest_of(bytes: &Vec<u8>) -> (r: [u8; 32])
    ensures
        r@ == blake3_hash(bytes@),
{
    *blake3::hash(bytes.as_slice()).as_bytes()
}

/// What to do with the announcement.
#[derive(Debug, PartialEq)]
pub enum RouteChange {
    Nothing,
    Withdraw,
    Announce(RouteMarker),
}

pub enum RouteChangeModel {
    Nothing,
    Withdraw,
    Announce(RouteMarkerModel),
}

impl View for RouteChange {
    type V = RouteChangeModel;

    open spec fn view(&self) -> RouteChangeModel {
        match self {
            RouteChange::Nothing => RouteChangeModel::Nothing,
            RouteChange::Withdraw => RouteChangeModel::Withdraw,
            RouteChange::Announce(marker) => RouteChangeModel::Announce(marker@),
        }
    }
}

/// What to do, given what is announced and what is to be: nothing where they
/// agree.
pub open spec fn route_step(
    announced: Option<RouteMarkerModel>,
    wanted: Option<RouteMarkerModel>,
) -> RouteChangeModel {
    if announced == wanted {
        RouteChangeModel::Nothing
    } else {
        match wanted {
            None => RouteChangeModel::Withdraw,
            Some(marker) => RouteChangeModel::Announce(marker),
        }
    }
}

/// All signatures, one behind the other.
pub open spec fn signature_bytes(signatures: Seq<Seq<u8>>) -> Seq<u8>
    decreases signatures.len(),
{
    if signatures.len() == 0 {
        Seq::empty()
    } else {
        signature_bytes(signatures.drop_last()) + signatures.last()
    }
}

fn same_digest(a: &[u8; 32], b: &[u8; 32]) -> (r: bool)
    ensures
        r == (a@ == b@),
{
    let mut i: usize = 0;
    while i < 32
        invariant
            i <= 32,
            forall|j: int| 0 <= j < i ==> a@[j] == b@[j],
        decreases 32 - i,
    {
        if a[i] != b[i] {
            assert(a@[i as int] != b@[i as int]);
            return false;
        }
        i += 1;
    }
    assert(a@ =~= b@);
    true
}

/// What to do with the announcement, given the marker of what is to be
/// announced.
pub fn route_change_to(announced: &Option<RouteMarker>, wanted: Option<RouteMarker>) -> (r:
    RouteChange)
    ensures
        r@ == route_step(opt_view(*announced), opt_view(wanted)),
{
    match (announced, wanted) {
        (None, None) => RouteChange::Nothing,
        (Some(_), None) => RouteChange::Withdraw,
        (None, Some(marker)) => RouteChange::Announce(marker),
        (Some(announced), Some(marker)) => if same_str(
            announced.profile_id.as_str(),
            marker.profile_id.as_str(),
        ) && same_digest(&announced.digest, &marker.digest) {
            RouteChange::Nothing
        } else {
            RouteChange::Announce(marker)
        },
    }
}

/// The marker of what an index wants announced.
pub open spec fn wanted_marker(index: Option<(Seq<char>, Seq<Seq<u8>>)>) -> Option<
    RouteMarkerModel,
> {
    match index {
        Some((profile_id, signatures)) => Some(
            RouteMarkerModel { profile_id, digest: blake3_hash(signature_bytes(signatures)) },
        ),
        None => None,
    }
}

pub open spec fn index_view(index: Option<(String, Vec<Vec<u8>>)>) -> Option<
    (Seq<char>, Seq<Seq<u8>>),
> {
    match index {
        Some((profile_id, signatures)) => Some((profile_id@, views(signatures@))),
        None => None,
    }
}

/// Compares what is announced with the index as it is now.
pub fn route_change(announced: &Option<RouteMarker>, index: &Option<(String, Vec<Vec<u8>>)>) -> (r:
    RouteChange)
    ensures
        r@ == route_step(opt_view(*announced), wanted_marker(index_view(*index))),
{
    let wanted = match index {
        Some((profile_id, signatures)) => {
            let ghost all = views(signatures@);
            let mut bytes: Vec<u8> = Vec::new();
            let mut i: usize = 0;
            while i < signatures.len()
                invariant
                    i <= signatures.len() == all.len(),
                    all == views(signatures@),
                    bytes@ == signature_bytes(all.take(i as int)),
                decreases signatures.len() - i,
            {
                proof {
                    assert(all.take(i + 1).drop_last() =~= all.take(i as int));
                }
                bytes.extend_from_slice(signatures[i].as_slice());
                proof {
                    assert(bytes@ =~= signature_bytes(all.take(i as int)) + all[i as int]);
                }
                i += 1;
            }
            proof {
                assert(all.take(i as int) =~= all);
            }
            Some(RouteMarker { profile_id: profile_id.clone(), digest: digest_of(&bytes) })
        },
        None => None,
    };
    route_change_to(announced, wanted)
}

proof fn lemma_taken_from(keys: NameKeys, far: Distances, query: SimilarQueryModel, s: Seq<CandidateModel>, k: int)
    requires
        0 <= k < taken(keys, far, query, s).len(),
    ensures
        exists|i: int| 0 <= i < s.len() && taken(keys, far, query, s)[k] == #[trigger] s[i],
    decreases s.len(),
{
    let front = s.drop_last();
    let before = taken(keys, far, query, front);
    if k < before.len() {
        lemma_taken_from(keys, far, query, front, k);
        let i = choose|i: int| 0 <= i < front.len() && before[k] == #[trigger] front[i];
        assert(s[i] == taken(keys, far, query, s)[k]);
    } else {
        assert(s[s.len() - 1] == taken(keys, far, query, s)[k]);
    }
}

/// Whatever the peers offered: there are never too many, none is too far off,
/// none is the track that was asked with or sounds the same, no track is taken
/// twice, and no two that are taken sound the same.
pub proof fn answers_keep_their_promises(
    keys: NameKeys,
    far: Distances,
    query: SimilarQueryModel,
    s: Seq<CandidateModel>,
)
    ensures
        ({
            let r = taken(keys, far, query, s);
            &&& r.len() <= answer_limit(query.limit, query.network_limit)
            &&& forall|i: int|
                0 <= i < r.len() ==> !is_below(query.minimum_score, (#[trigger] r[i]).score)
                    && !is_source(query.source_content_id, r[i].track.key) && !sounds_the_same(
                    far,
                    r[i].signature,
                    Some(query.signature),
                )
            &&& forall|i: int, j: int|
                #![trigger r[i], r[j]]
                0 <= i < j < r.len() ==> identity(r[i].track.key) != identity(r[j].track.key)
                    && !sounds_the_same(far, r[j].signature, r[i].signature)
        }),
    decreases s.len(),
{
    if s.len() > 0 {
        let front = s.drop_last();
        let before = taken(keys, far, query, front);
        let r = taken(keys, far, query, s);
        answers_keep_their_promises(keys, far, query, front);
        if r.len() > before.len() {
            assert forall|i: int, j: int|
                #![trigger r[i], r[j]]
                0 <= i < j < r.len() implies identity(r[i].track.key) != identity(r[j].track.key)
                && !sounds_the_same(far, r[j].signature, r[i].signature) by {
                if j == before.len() {
                    lemma_taken_from(keys, far, query, front, i);
                    assert(before[i] == r[i]);
                } else {
                    assert(before[i] == r[i] && before[j] == r[j]);
                }
            }
            assert forall|i: int| 0 <= i < r.len() implies !is_below(
                query.minimum_score,
                (#[trigger] r[i]).score,
            ) && !is_source(query.source_content_id, r[i].track.key) && !sounds_the_same(
                far,
                r[i].signature,
                Some(query.signature),
            ) by {
                if i < before.len() {
                    assert(before[i] == r[i]);
                }
            }
        }
    }
}

proof fn lemma_taken_grows(
    keys: NameKeys,
    far: Distances,
    query: SimilarQueryModel,
    s: Seq<CandidateModel>,
    k: int,
)
    requires
        0 <= k <= s.len(),
    ensures
        taken(keys, far, query, s.take(k)).len() <= taken(keys, far, query, s).len(),
        forall|i: int|
            0 <= i < taken(keys, far, query, s.take(k)).len() ==> taken(
                keys,
                far,
                query,
                s.take(k),
            )[i] == #[trigger] taken(keys, far, query, s)[i],
    decreases s.len(),
{
    if k == s.len() {
        assert(s.take(k) =~= s);
    } else {
        assert(s.drop_last().take(k) =~= s.take(k));
        lemma_taken_grows(keys, far, query, s.drop_last(), k);
    }
}

proof fn lemma_times_heard_grow(
    keys: NameKeys,
    a: Seq<CandidateModel>,
    b: Seq<CandidateModel>,
    artist: Seq<char>,
)
    requires
        a.len() <= b.len(),
        forall|i: int| 0 <= i < a.len() ==> a[i] == #[trigger] b[i],
    ensures
        times_heard(keys, a, artist) <= times_heard(keys, b, artist),
    decreases b.len(),
{
    if a.len() == b.len() {
        assert(a =~= b);
    } else {
        lemma_times_heard_grow(keys, a, b.drop_last(), artist);
    }
}

/// Nothing is passed over without need: where there is room for more, each
/// candidate is taken unless it scores too low, is the track that was asked
/// with or sounds the same, is the same track as one before it, sounds the same
/// as one that is taken, or its artist has enough.
pub proof fn answers_are_complete(
    keys: NameKeys,
    far: Distances,
    query: SimilarQueryModel,
    s: Seq<CandidateModel>,
    i: int,
)
    requires
        0 <= i < s.len(),
        taken(keys, far, query, s).len() < answer_limit(query.limit, query.network_limit),
    ensures
        ({
            let r = taken(keys, far, query, s);
            let artist = main_artist(keys, s[i].track);
            ||| r.contains(s[i])
            ||| query.minimum_score is Some && s[i].score < query.minimum_score->0
            ||| query.source_content_id is Some && s[i].track.key.content_id
                == query.source_content_id
            ||| sounds_the_same(far, s[i].signature, Some(query.signature))
            ||| exists|j: int|
                0 <= j < i && identity((#[trigger] s[j]).track.key) == identity(s[i].track.key)
            ||| exists|k: int|
                0 <= k < r.len() && sounds_the_same(
                    far,
                    s[i].signature,
                    (#[trigger] r[k]).signature,
                )
            ||| artist.len() > 0 && times_heard(keys, r, artist) >= query.max_tracks_per_artist
        }),
{
    let r = taken(keys, far, query, s);
    let earlier = s.take(i);
    let before = taken(keys, far, query, earlier);
    let c = s[i];
    lemma_taken_grows(keys, far, query, s, i);
    lemma_taken_grows(keys, far, query, s, i + 1);
    assert(s.take(i + 1).drop_last() =~= earlier);
    lemma_times_heard_grow(keys, before, r, main_artist(keys, c.track));
    if is_known(earlier, c.track.key) {
        let m = choose|m: int|
            0 <= m < earlier.len() && identity((#[trigger] earlier[m]).track.key) == identity(
                c.track.key,
            );
        assert(s[m] == earlier[m]);
    } else if is_near_duplicate(far, before, c.signature) {
        let m = choose|m: int|
            0 <= m < before.len() && sounds_the_same(
                far,
                c.signature,
                (#[trigger] before[m]).signature,
            );
        assert(r[m] == before[m]);
    } else if !is_passed_over(keys, far, query, earlier, before, c) {
        let after = taken(keys, far, query, s.take(i + 1));
        assert(after =~= before.push(c));
        assert(r[before.len() as int] == c);
    }
}

} // verus!
