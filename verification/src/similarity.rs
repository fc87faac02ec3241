//! Choosing among tracks that sound alike.
use crate::api::{clamp_usize, clamped};
use crate::catalog::{Track, TrackKey, TrackKeyModel, TrackModel};
use crate::find::{first_where, lemma_first_where_is};
use crate::library::{library_track, local_track, LibraryTrack, LibraryTrackRow};
use crate::merge::NameKeys;
use crate::names::{is_name_fn, key_of, keys_by};
use crate::sort::{
    in_order, is_order, lemma_sorted_views, sorting_is_a_permutation, sorting_orders, stable_sort,
    stable_sorted,
};
use crate::views::views;
use vstd::prelude::*;

verus! {

broadcast use crate::views::group_views;

/// At most so many tracks are chosen.
pub const SIMILARITY_RESULT_LIMIT: usize = 50;

/// Signatures this close count as the same recording.
pub const NEAR_DUPLICATE_DISTANCE: u32 = 8;

/// A track that sounds like the one asked for. The score is a number that
/// orders as the measured one does; the signature is a short sketch of the
/// sound.
#[derive(Debug, PartialEq)]
pub struct Candidate {
    pub track: Track,
    pub score: i32,
    pub signature: Option<[u8; 16]>,
}

pub struct CandidateModel {
    pub track: TrackModel,
    pub score: i32,
    pub signature: Option<Seq<u8>>,
}

/// The bytes of a signature, where there is one.
pub open spec fn sketch(signature: Option<[u8; 16]>) -> Option<Seq<u8>> {
    match signature {
        Some(signature) => Some(signature@),
        None => None,
    }
}

impl View for Candidate {
    type V = CandidateModel;

    open spec fn view(&self) -> CandidateModel {
        CandidateModel {
            track: self.track@,
            score: self.score,
            signature: sketch(self.signature),
        }
    }
}

/// A track of the library that sounds like the one asked for.
#[derive(Debug, PartialEq)]
pub struct LocalMatch {
    pub track: LibraryTrack,
    pub score: i32,
    pub signature: [u8; 16],
}

pub struct LocalMatchModel {
    pub track: LibraryTrackRow,
    pub score: i32,
    pub signature: Seq<u8>,
}

impl View for LocalMatch {
    type V = LocalMatchModel;

    open spec fn view(&self) -> LocalMatchModel {
        LocalMatchModel { track: self.track@, score: self.score, signature: self.signature@ }
    }
}

/// What the library found, as candidates.
pub open spec fn local_candidates(matches: Seq<LocalMatchModel>) -> Seq<CandidateModel> {
    Seq::new(
        matches.len(),
        |i: int|
            CandidateModel {
                track: local_track(matches[i].track, Seq::empty()),
                score: matches[i].score,
                signature: Some(matches[i].signature),
            },
    )
}

/// How far two signatures are apart, as the network measures it.
pub type Distances = spec_fn(Seq<u8>, Seq<u8>) -> u32;

/// `f` can be asked how far any two signatures are apart, and what it answers
/// depends on their bytes alone.
pub open spec fn is_distance_fn<D: Fn(&[u8; 16], &[u8; 16]) -> u32>(f: &D) -> bool {
    &&& forall|a: &[u8; 16], b: &[u8; 16]| #[trigger] f.requires((a, b))
    &&& forall|a: &[u8; 16], b: &[u8; 16], c: &[u8; 16], d: &[u8; 16], x: u32, y: u32|
        #[trigger] f.ensures((a, b), x) && #[trigger] f.ensures((c, d), y) && a@ == c@ && b@ == d@
            ==> x == y
}

/// Whether `f` answers `r` for some signatures with these bytes.
pub open spec fn measures<D: Fn(&[u8; 16], &[u8; 16]) -> u32>(
    f: &D,
    a: Seq<u8>,
    b: Seq<u8>,
    r: u32,
) -> bool {
    exists|x: &[u8; 16], y: &[u8; 16]| x@ == a && y@ == b && #[trigger] f.ensures((x, y), r)
}

/// What `f` measures, as a function of bytes.
pub open spec fn distances_by<D: Fn(&[u8; 16], &[u8; 16]) -> u32>(f: &D) -> Distances {
    |a: Seq<u8>, b: Seq<u8>| choose|r: u32| measures(f, a, b, r)
}

/// Asks `f` how far two signatures are apart.
pub(crate) fn distance_of<D: Fn(&[u8; 16], &[u8; 16]) -> u32>(
    f: &D,
    a: &[u8; 16],
    b: &[u8; 16],
) -> (r: u32)
    requires
        is_distance_fn(f),
    ensures
        r == distances_by(f)(a@, b@),
{
    let r = f(a, b);
    proof {
        assert(measures(f, a@, b@, r));
        let far = distances_by(f)(a@, b@);
        assert(measures(f, a@, b@, far));
        let (x, y) = choose|x: &[u8; 16], y: &[u8; 16]|
            x@ == a@ && y@ == b@ && #[trigger] f.ensures((x, y), far);
        assert(far == r);
    }
    r
}

/// What a track is told apart by: its content where that is known, else its
/// whole key.
pub open spec fn identity(key: TrackKeyModel) -> TrackKeyModel {
    match key.content_id {
        Some(id) => TrackKeyModel {
            local_id: None,
            content_id: Some(id),
            federation_identity: None,
        },
        None => key,
    }
}

/// The artist that counts for a track.
pub open spec fn leading_artist(keys: NameKeys, track: TrackModel) -> Seq<char> {
    if track.artists.len() > 0 {
        keys(track.artists[0].name)
    } else {
        keys(track.artist)
    }
}

pub open spec fn is_known(s: Seq<CandidateModel>, key: TrackKeyModel) -> bool {
    exists|i: int| 0 <= i < s.len() && identity((#[trigger] s[i]).track.key) == identity(key)
}

/// Whether two sketches are both there and close.
pub open spec fn sounds_the_same(far: Distances, a: Option<Seq<u8>>, b: Option<Seq<u8>>) -> bool {
    a is Some && b is Some && far(a->0, b->0) <= NEAR_DUPLICATE_DISTANCE
}

pub open spec fn is_near_duplicate(
    far: Distances,
    chosen: Seq<CandidateModel>,
    signature: Option<Seq<u8>>,
) -> bool {
    exists|i: int|
        0 <= i < chosen.len() && sounds_the_same(far, signature, (#[trigger] chosen[i]).signature)
}

pub open spec fn times_chosen(keys: NameKeys, chosen: Seq<CandidateModel>, artist: Seq<char>) -> nat
    decreases chosen.len(),
{
    if chosen.len() == 0 {
        0
    } else {
        times_chosen(keys, chosen.drop_last(), artist) + if leading_artist(
            keys,
            chosen.last().track,
        ) == artist {
            1nat
        } else {
            0nat
        }
    }
}

/// How many tracks of one artist are chosen at most.
pub open spec fn artist_limit(max_tracks_per_artist: usize) -> int {
    clamped(max_tracks_per_artist as int, 1, SIMILARITY_RESULT_LIMIT as int)
}

/// Whether the artist has as many tracks among the chosen as it may.
pub open spec fn is_exhausted(
    keys: NameKeys,
    chosen: Seq<CandidateModel>,
    artist: Seq<char>,
    max_tracks_per_artist: usize,
) -> bool {
    artist.len() > 0 && times_chosen(keys, chosen, artist) >= artist_limit(max_tracks_per_artist)
}

/// The candidates chosen from a list: each that is not the same track as an
/// earlier one, does not sound the same as a chosen one, and is not one too
/// many of its artist, until there are enough.
pub open spec fn chosen(keys: NameKeys, far: Distances, s: Seq<CandidateModel>, max_tracks_per_artist: usize) -> Seq<
    CandidateModel,
>
    decreases s.len(),
{
    if s.len() == 0 {
        Seq::empty()
    } else {
        let before = chosen(keys, far, s.drop_last(), max_tracks_per_artist);
        let candidate = s.last();
        if before.len() >= SIMILARITY_RESULT_LIMIT || is_known(
            s.drop_last(),
            candidate.track.key,
        ) || is_near_duplicate(far, before, candidate.signature) || is_exhausted(
            keys,
            before,
            leading_artist(keys, candidate.track),
            max_tracks_per_artist,
        ) {
            before
        } else {
            before.push(candidate)
        }
    }
}

pub open spec fn scores_higher() -> spec_fn(CandidateModel, CandidateModel) -> bool {
    |a: CandidateModel, b: CandidateModel| a.score > b.score
}

/// The candidates chosen, the best first.
pub open spec fn ranked(keys: NameKeys, far: Distances, s: Seq<CandidateModel>, max_tracks_per_artist: usize) -> Seq<
    CandidateModel,
> {
    chosen(keys, far, stable_sorted(s, scores_higher()), max_tracks_per_artist)
}

pub open spec fn candidate_tracks(s: Seq<CandidateModel>) -> Seq<TrackModel> {
    Seq::new(s.len(), |i: int| s[i].track)
}

fn same_identity(a: &TrackKey, b: &TrackKey) -> (r: bool)
    ensures
        r == (identity(a@) == identity(b@)),
{
    match (a.content_id(), b.content_id()) {
        (Some(a), Some(b)) => *a == *b,
        (None, None) => *a == *b,
        (Some(_), None) => {
            assert(identity(b@).content_id is None);
            false
        },
        (None, Some(_)) => {
            assert(identity(a@).content_id is None);
            false
        },
    }
}

fn artist_of<F: Fn(&str) -> String>(track: &Track, names: &F) -> (r: String)
    requires
        is_name_fn(names),
    ensures
        r@ == leading_artist(keys_by(names), track@),
{
    if track.artists.len() > 0 {
        key_of(names, track.artists[0].name.as_str())
    } else {
        key_of(names, track.artist.as_str())
    }
}

pub(crate) fn known_before(s: &Vec<Candidate>, n: usize) -> (r: bool)
    requires
        n < s.len(),
    ensures
        r == is_known(views(s@).take(n as int), s@[n as int]@.track.key),
{
    let ghost key = s@[n as int]@.track.key;
    let ghost before = views(s@).take(n as int);
    let mut i: usize = 0;
    while i < n
        invariant
            i <= n < s.len(),
            key == s@[n as int]@.track.key,
            before == views(s@).take(n as int),
            forall|j: int| 0 <= j < i ==> identity((#[trigger] before[j]).track.key) != identity(key),
        decreases n - i,
    {
        if same_identity(&s[i].track.key, &s[n].track.key) {
            assert(identity(before[i as int].track.key) == identity(key));
            return true;
        }
        i += 1;
    }
    false
}

pub(crate) fn sounds_like_one<D: Fn(&[u8; 16], &[u8; 16]) -> u32>(
    chosen: &Vec<Candidate>,
    signature: &Option<[u8; 16]>,
    distance: &D,
) -> (r: bool)
    requires
        is_distance_fn(distance),
    ensures
        r == is_near_duplicate(distances_by(distance), views(chosen@), sketch(*signature)),
{
    let ghost far = distances_by(distance);
    let ghost model = sketch(*signature);
    let mut i: usize = 0;
    while i < chosen.len()
        invariant
            is_distance_fn(distance),
            far == distances_by(distance),
            i <= chosen.len(),
            model == sketch(*signature),
            forall|j: int|
                0 <= j < i ==> !sounds_the_same(far, model, (#[trigger] views(chosen@)[j]).signature),
        decreases chosen.len() - i,
    {
        if let (Some(a), Some(b)) = (signature, &chosen[i].signature) {
            if distance_of(distance, a, b) <= NEAR_DUPLICATE_DISTANCE {
                assert(sounds_the_same(far, model, views(chosen@)[i as int].signature));
                return true;
            }
        }
        i += 1;
    }
    false
}

fn count_artist<F: Fn(&str) -> String>(chosen: &Vec<Candidate>, artist: &String, names: &F) -> (r:
    usize)
    requires
        is_name_fn(names),
    ensures
        r == times_chosen(keys_by(names), views(chosen@), artist@),
{
    let ghost all = views(chosen@);
    let mut r: usize = 0;
    let mut i: usize = 0;
    while i < chosen.len()
        invariant
            is_name_fn(names),
            r <= i <= chosen.len() == all.len(),
            all == views(chosen@),
            r == times_chosen(keys_by(names), all.take(i as int), artist@),
        decreases chosen.len() - i,
    {
        proof {
            assert(all.take(i + 1).drop_last() =~= all.take(i as int));
        }
        if artist_of(&chosen[i].track, names) == *artist {
            r += 1;
        }
        i += 1;
    }
    proof {
        assert(all.take(i as int) =~= all);
    }
    r
}

impl Clone for Candidate {
    fn clone(&self) -> (r: Self)
        ensures
            r@ == self@,
    {
        Candidate { track: self.track.clone(), score: self.score, signature: self.signature }
    }
}

/// Ranks the candidates and chooses among them.
pub fn rank_similarity_candidates<
    F: Fn(&str) -> String,
    D: Fn(&[u8; 16], &[u8; 16]) -> u32,
>(candidates: Vec<Candidate>, max_tracks_per_artist: usize, names: &F, distance: &D) -> (r: Vec<
    Track,
>)
    requires
        is_name_fn(names),
        is_distance_fn(distance),
    ensures
        views(r@) == candidate_tracks(
            ranked(keys_by(names), distances_by(distance), views(candidates@), max_tracks_per_artist),
        ),
{
    let ghost keys = keys_by(names);
    let ghost far = distances_by(distance);
    let ghost lt = |a: Candidate, b: Candidate| scores_higher()(a@, b@);
    let before = |a: &Candidate, b: &Candidate| -> (y: bool)
        ensures
            y == lt(*a, *b),
        { a.score > b.score };
    let ghost unsorted = candidates@;
    proof {
        lemma_sorted_views(unsorted, lt, scores_higher());
    }
    let sorted = stable_sort(candidates, before, Ghost(lt));
    let ghost all = views(sorted@);
    let limit: usize = clamp_usize(max_tracks_per_artist, 1, SIMILARITY_RESULT_LIMIT);
    let mut picked: Vec<Candidate> = Vec::new();
    let mut i: usize = 0;
    while i < sorted.len()
        invariant
            is_name_fn(names),
            is_distance_fn(distance),
            keys == keys_by(names),
            far == distances_by(distance),
            limit == artist_limit(max_tracks_per_artist),
            i <= sorted.len() == all.len(),
            all == views(sorted@),
            views(picked@) == chosen(keys, far, all.take(i as int), max_tracks_per_artist),
        decreases sorted.len() - i,
    {
        proof {
            assert(all.take(i + 1).drop_last() =~= all.take(i as int));
            assert(views(picked@).len() == picked.len());
        }
        let artist = artist_of(&sorted[i].track, names);
        let exhausted = !artist.as_str().is_empty() && count_artist(&picked, &artist, names)
            >= limit;
        if picked.len() < SIMILARITY_RESULT_LIMIT && !known_before(&sorted, i) && !sounds_like_one(
            &picked,
            &sorted[i].signature,
            distance,
        ) && !exhausted {
            picked.push(sorted[i].clone());
        }
        i += 1;
    }
    proof {
        assert(all.take(i as int) =~= all);
    }
    let ghost target = views(picked@);
    let mut r: Vec<Track> = Vec::new();
    let mut i: usize = 0;
    while i < picked.len()
        invariant
            i <= picked.len() == target.len(),
            target == views(picked@),
            views(r@) == candidate_tracks(target).take(i as int),
        decreases picked.len() - i,
    {
        r.push(picked[i].track.clone());
        i += 1;
        proof {
            assert(views(r@) =~= candidate_tracks(target).take(i as int));
        }
    }
    proof {
        assert(views(r@) =~= candidate_tracks(target));
    }
    r
}

proof fn lemma_chosen_from(keys: NameKeys, far: Distances, s: Seq<CandidateModel>, max: usize, k: int)
    requires
        0 <= k < chosen(keys, far, s, max).len(),
    ensures
        exists|i: int|
            0 <= i < s.len() && chosen(keys, far, s, max)[k] == #[trigger] s[i],
    decreases s.len(),
{
    let front = s.drop_last();
    let before = chosen(keys, far, front, max);
    if k < before.len() {
        lemma_chosen_from(keys, far, front, max, k);
        let i = choose|i: int| 0 <= i < front.len() && before[k] == #[trigger] front[i];
        assert(s[i] == chosen(keys, far, s, max)[k]);
    } else {
        assert(s[s.len() - 1] == chosen(keys, far, s, max)[k]);
    }
}

proof fn lemma_chosen(keys: NameKeys, far: Distances, s: Seq<CandidateModel>, max: usize)
    requires
        in_order(s, scores_higher()),
    ensures
        chosen(keys, far, s, max).len() <= SIMILARITY_RESULT_LIMIT,
        in_order(chosen(keys, far, s, max), scores_higher()),
        forall|i: int, j: int|
            #![trigger chosen(keys, far, s, max)[i], chosen(keys, far, s, max)[j]]
            0 <= i < j < chosen(keys, far, s, max).len() ==> {
                &&& identity(chosen(keys, far, s, max)[i].track.key) != identity(
                    chosen(keys, far, s, max)[j].track.key,
                )
                &&& !sounds_the_same(
                    far,
                    chosen(keys, far, s, max)[j].signature,
                    chosen(keys, far, s, max)[i].signature,
                )
            },
        forall|artist: Seq<char>|
            artist.len() > 0 ==> #[trigger] times_chosen(keys, chosen(keys, far, s, max), artist)
                <= artist_limit(max),
    decreases s.len(),
{
    if s.len() > 0 {
        let front = s.drop_last();
        let before = chosen(keys, far, front, max);
        let r = chosen(keys, far, s, max);
        lemma_chosen(keys, far, front, max);
        if r.len() > before.len() {
            assert(r =~= before.push(s.last()));
            assert(r.drop_last() =~= before);
            assert forall|i: int, j: int|
                #![trigger r[i], r[j]]
                0 <= i < j < r.len() implies identity(r[i].track.key) != identity(r[j].track.key)
                && !sounds_the_same(far, r[j].signature, r[i].signature) && !scores_higher()(
                r[j],
                r[i],
            ) by {
                if j == before.len() {
                    lemma_chosen_from(keys, far, front, max, i);
                    let k = choose|k: int| 0 <= k < front.len() && before[i] == #[trigger] front[k];
                    assert(front[k] == s[k]);
                    assert(!scores_higher()(s[s.len() - 1], s[k]));
                    assert(before[i] == r[i]);
                } else {
                    assert(before[i] == r[i] && before[j] == r[j]);
                }
            }
            assert forall|artist: Seq<char>| artist.len() > 0 implies #[trigger] times_chosen(
                keys,
                r,
                artist,
            ) <= artist_limit(max) by {
                assert(times_chosen(keys, before, artist) <= artist_limit(max));
            }
        }
    }
}

/// What the network offered; nothing where it was not asked or did not answer.
pub open spec fn offers(remote: Option<Vec<Candidate>>) -> Seq<CandidateModel> {
    match remote {
        Some(offered) => views(offered@),
        None => Seq::empty(),
    }
}

/// What is shown to sound like a track: the best of what the library found and
/// of what the network offered.
pub fn similar_tracks<F: Fn(&str) -> String, D: Fn(&[u8; 16], &[u8; 16]) -> u32>(
    local: Vec<LocalMatch>,
    remote: Option<Vec<Candidate>>,
    max_tracks_per_artist: usize,
    names: &F,
    distance: &D,
) -> (r: Vec<Track>)
    requires
        is_name_fn(names),
        is_distance_fn(distance),
    ensures
        views(r@) == candidate_tracks(
            ranked(
                keys_by(names),
                distances_by(distance),
                local_candidates(views(local@)) + offers(remote),
                max_tracks_per_artist,
            ),
        ),
{
    let ghost matches = views(local@);
    let ghost all = local_candidates(matches);
    let mut rest = local;
    let mut scored: Vec<Candidate> = Vec::new();
    while rest.len() > 0
        invariant
            scored.len() + rest.len() == all.len() == matches.len(),
            all == local_candidates(matches),
            views(rest@) == matches.skip(scored.len() as int),
            views(scored@) == all.take(scored.len() as int),
        decreases rest.len(),
    {
        let ghost done = scored.len() as int;
        let found = rest.remove(0);
        proof {
            assert(found@ == matches[done]);
            assert(views(rest@) =~= matches.skip(done + 1));
            reveal_strlit("");
            assert(""@ =~= Seq::<char>::empty());
        }
        scored.push(
            Candidate {
                track: library_track(found.track, ""),
                score: found.score,
                signature: Some(found.signature),
            },
        );
        proof {
            assert(views(scored@) =~= all.take(done + 1));
        }
    }
    assert(views(scored@) =~= all);
    if let Some(mut offered) = remote {
        let ghost more = offered@;
        scored.append(&mut offered);
        assert(views(scored@) =~= all + views(more));
    } else {
        assert(views(scored@) =~= all + offers(remote));
    }
    rank_similarity_candidates(scored, max_tracks_per_artist, names, distance)
}

/// Whatever the candidates: there are never too many, the scores never rise, no
/// track occurs twice, no two sound the same, and no artist has more tracks than
/// allowed.
pub proof fn ranking_keeps_its_promises(
    keys: NameKeys,
    far: Distances,
    s: Seq<CandidateModel>,
    max_tracks_per_artist: usize,
)
    ensures
        ({
            let r = ranked(keys, far, s, max_tracks_per_artist);
            &&& r.len() <= SIMILARITY_RESULT_LIMIT
            &&& forall|i: int, j: int|
                #![trigger r[i], r[j]]
                0 <= i < j < r.len() ==> r[i].score >= r[j].score && identity(r[i].track.key)
                    != identity(r[j].track.key) && !sounds_the_same(far, r[j].signature, r[i].signature)
            &&& forall|artist: Seq<char>|
                artist.len() > 0 ==> #[trigger] times_chosen(keys, r, artist) <= artist_limit(
                    max_tracks_per_artist,
                )
        }),
{
    let sorted = stable_sorted(s, scores_higher());
    assert(is_order(scores_higher()));
    sorting_orders(s, scores_higher());
    lemma_chosen(keys, far, sorted, max_tracks_per_artist);
    let r = ranked(keys, far, s, max_tracks_per_artist);
    assert forall|i: int, j: int|
        #![trigger r[i], r[j]]
        0 <= i < j < r.len() implies r[i].score >= r[j].score && identity(r[i].track.key)
        != identity(r[j].track.key) && !sounds_the_same(far, r[j].signature, r[i].signature) by {
        assert(!scores_higher()(r[j], r[i]));
    }
}

proof fn lemma_chosen_grows(
    keys: NameKeys,
    far: Distances,
    s: Seq<CandidateModel>,
    max: usize,
    k: int,
)
    requires
        0 <= k <= s.len(),
    ensures
        chosen(keys, far, s.take(k), max).len() <= chosen(keys, far, s, max).len(),
        forall|i: int|
            0 <= i < chosen(keys, far, s.take(k), max).len() ==> chosen(
                keys,
                far,
                s.take(k),
                max,
            )[i] == #[trigger] chosen(keys, far, s, max)[i],
    decreases s.len(),
{
    if k == s.len() {
        assert(s.take(k) =~= s);
    } else {
        assert(s.drop_last().take(k) =~= s.take(k));
        lemma_chosen_grows(keys, far, s.drop_last(), max, k);
    }
}

proof fn lemma_times_chosen_grow(
    keys: NameKeys,
    a: Seq<CandidateModel>,
    b: Seq<CandidateModel>,
    artist: Seq<char>,
)
    requires
        a.len() <= b.len(),
        forall|i: int| 0 <= i < a.len() ==> a[i] == #[trigger] b[i],
    ensures
        times_chosen(keys, a, artist) <= times_chosen(keys, b, artist),
    decreases b.len(),
{
    if a.len() == b.len() {
        assert(a =~= b);
    } else {
        lemma_times_chosen_grow(keys, a, b.drop_last(), artist);
    }
}

/// Why a candidate may be passed over, given what is chosen: another candidate
/// that scores no less is the same track, or it sounds the same as a chosen one,
/// or as many tracks of its artist are chosen as may be.
pub open spec fn may_be_passed_over(
    keys: NameKeys,
    far: Distances,
    s: Seq<CandidateModel>,
    i: int,
    chosen: Seq<CandidateModel>,
    max_tracks_per_artist: usize,
) -> bool {
    ||| exists|j: int|
        0 <= j < s.len() && j != i && (#[trigger] s[j]).score >= s[i].score && identity(
            s[j].track.key,
        ) == identity(s[i].track.key)
    ||| exists|k: int|
        0 <= k < chosen.len() && (#[trigger] chosen[k]).score >= s[i].score && sounds_the_same(
            far,
            s[i].signature,
            chosen[k].signature,
        )
    ||| leading_artist(keys, s[i].track).len() > 0 && times_chosen(
        keys,
        chosen,
        leading_artist(keys, s[i].track),
    ) == artist_limit(max_tracks_per_artist)
}

/// Nothing is passed over without need: where there is room for more, or a
/// chosen one scores less, each candidate is chosen unless another one is the
/// same track, a chosen one sounds the same, or its artist has enough. And
/// only candidates are chosen.
pub proof fn ranking_is_complete(
    keys: NameKeys,
    far: Distances,
    s: Seq<CandidateModel>,
    max_tracks_per_artist: usize,
    i: int,
)
    requires
        0 <= i < s.len(),
    ensures
        ({
            let r = ranked(keys, far, s, max_tracks_per_artist);
            &&& r.len() < SIMILARITY_RESULT_LIMIT || r.last().score < s[i].score ==> r.contains(
                s[i],
            ) || may_be_passed_over(keys, far, s, i, r, max_tracks_per_artist)
            &&& r.len() > 0
            &&& forall|k: int| 0 <= k < r.len() ==> s.contains(#[trigger] r[k])
        }),
{
    let max = max_tracks_per_artist;
    let sorted = stable_sorted(s, scores_higher());
    let r = ranked(keys, far, s, max);
    let c = s[i];
    assert(is_order(scores_higher()));
    sorting_orders(s, scores_higher());
    sorting_is_a_permutation(s, scores_higher());
    ranking_keeps_its_promises(keys, far, s, max);
    assert forall|x: CandidateModel| sorted.contains(x) == #[trigger] s.contains(x) by {
        broadcast use vstd::seq_lib::group_to_multiset_ensures;

        assert(sorted.to_multiset().count(x) == s.to_multiset().count(x));
    }
    assert forall|k: int| 0 <= k < r.len() implies s.contains(#[trigger] r[k]) by {
        lemma_chosen_from(keys, far, sorted, max, k);
        assert(sorted.contains(r[k]));
    }
    // There is always one to begin with.
    assert(sorted.take(1).drop_last() =~= Seq::empty());
    assert(chosen(keys, far, sorted.take(1), max).len() == 1) by {
        assert(chosen(keys, far, Seq::empty(), max) =~= Seq::empty());
    }
    lemma_chosen_grows(keys, far, sorted, max, 1);
    // Where the candidate first stands among the sorted ones.
    assert(s.contains(c));
    let p = |x: CandidateModel| x == c;
    let k = first_where(sorted, p);
    lemma_first_where_is(sorted, p);
    let at = choose|at: int| 0 <= at < sorted.len() && sorted[at] == c;
    assert(p(sorted[at]));
    let earlier = sorted.take(k);
    let before = chosen(keys, far, earlier, max);
    lemma_chosen_grows(keys, far, sorted, max, k);
    lemma_chosen_grows(keys, far, sorted, max, k + 1);
    assert(sorted.take(k + 1).drop_last() =~= earlier);
    let artist = leading_artist(keys, c.track);
    assert forall|j: int| 0 <= j < k implies (#[trigger] sorted[j]).score >= c.score by {
        assert(!scores_higher()(sorted[k], sorted[j]));
    }
    assert forall|j: int| 0 <= j < before.len() implies (#[trigger] before[j]).score >= c.score by {
        lemma_chosen_from(keys, far, earlier, max, j);
        let m = choose|m: int| 0 <= m < earlier.len() && before[j] == #[trigger] earlier[m];
        assert(earlier[m] == sorted[m]);
    }
    if r.len() < SIMILARITY_RESULT_LIMIT || r.last().score < c.score {
        if before.len() >= SIMILARITY_RESULT_LIMIT {
            assert(r.last() == before[r.len() - 1]);
        } else if is_known(earlier, c.track.key) {
            let m = choose|m: int|
                0 <= m < earlier.len() && identity((#[trigger] earlier[m]).track.key) == identity(
                    c.track.key,
                );
            assert(!p(sorted[m]));
            assert(sorted.contains(sorted[m]));
            assert(s.contains(sorted[m]));
            let j = choose|j: int| 0 <= j < s.len() && s[j] == sorted[m];
            assert(s[j].score >= c.score);
        } else if is_near_duplicate(far, before, c.signature) {
            let m = choose|m: int|
                0 <= m < before.len() && sounds_the_same(
                    far,
                    c.signature,
                    (#[trigger] before[m]).signature,
                );
            assert(r[m] == before[m]);
        } else if is_exhausted(keys, before, artist, max) {
            lemma_times_chosen_grow(keys, before, r, artist);
            assert(times_chosen(keys, r, artist) <= artist_limit(max));
        } else {
            let after = chosen(keys, far, sorted.take(k + 1), max);
            assert(after =~= before.push(c));
            assert(r[before.len() as int] == c);
        }
    }
}

} // verus!
