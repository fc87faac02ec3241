//! What holds of merged results, whatever the providers know.
use crate::api::SearchResultsModel;
use crate::catalog::{
    ArtistKeyModel, ArtistModel, ArtistRefModel, ReleaseKeyModel, ReleaseModel, TrackModel,
};
use crate::find::{first_where, found, lemma_first_where, lemma_first_where_is};
use crate::merge::{
    arranged, contributors, enriched, is_credited, lemma_credited_in_either, merged_artists,
    merged_refs, merged_release, merged_releases, merged_results, merged_tracks,
    merging_credits_again_changes_nothing, plays_before, populated, same_catalog, track_credits,
    with_artist, with_release, with_track, within_release, NameKeys,
};
use crate::sort::{sorting_is_a_permutation, stable_sorted};
use vstd::prelude::*;

verus! {

/// The disc a track is on; the first where nothing is said.
pub open spec fn disc(track: TrackModel) -> u32 {
    match track.disc_number {
        Some(n) => n,
        None => 1,
    }
}

/// Two records of one release tell of one track where they share an identifier,
/// a place on a disc, or a title.
pub open spec fn tells_of_one(keys: NameKeys) -> spec_fn(TrackModel, TrackModel) -> bool {
    |a: TrackModel, b: TrackModel|
        {
            ||| a.key.matches(b.key)
            ||| a.track_number is Some && a.track_number == b.track_number && disc(a) == disc(b)
            ||| keys(a.title) == keys(b.title)
        }
}

/// Whether `tracks` hold the track that `t` tells of: one of them is alike, a
/// local one where `t` is local; or, for a federated `t`, a local one took the
/// place of a known federated one that is alike to both.
pub open spec fn holds_track(
    alike: spec_fn(TrackModel, TrackModel) -> bool,
    known: spec_fn(TrackModel) -> bool,
    tracks: Seq<TrackModel>,
    t: TrackModel,
) -> bool {
    ||| exists|i: int|
        0 <= i < tracks.len() && alike(#[trigger] tracks[i], t) && (t.audio_source is LocalFile
            ==> tracks[i].audio_source is LocalFile)
    ||| t.audio_source is Federation && exists|i: int, e: TrackModel|
        0 <= i < tracks.len() && #[trigger] known(e) && e.audio_source is Federation && (
        #[trigger] tracks[i]).audio_source is LocalFile && alike(e, t) && alike(e, tracks[i])
}

/// Whether every one of the tracks is known.
pub open spec fn all_known(known: spec_fn(TrackModel) -> bool, tracks: Seq<TrackModel>) -> bool {
    forall|i: int| 0 <= i < tracks.len() ==> known(#[trigger] tracks[i])
}

proof fn lemma_with_track(
    same: spec_fn(TrackModel, TrackModel) -> bool,
    alike: spec_fn(TrackModel, TrackModel) -> bool,
    known: spec_fn(TrackModel) -> bool,
    tracks: Seq<TrackModel>,
    new: TrackModel,
)
    requires
        forall|a: TrackModel, b: TrackModel| #[trigger] same(a, b) ==> alike(a, b),
        forall|a: TrackModel| #[trigger] alike(a, a),
        all_known(known, tracks),
        known(new),
    ensures
        all_known(known, with_track(same, tracks, new)),
        holds_track(alike, known, with_track(same, tracks, new), new),
        forall|t: TrackModel|
            holds_track(alike, known, tracks, t) ==> #[trigger] holds_track(
                alike,
                known,
                with_track(same, tracks, new),
                t,
            ),
{
    let p = |item: TrackModel| same(item, new);
    let i = first_where(tracks, p);
    let after = with_track(same, tracks, new);
    lemma_first_where_is(tracks, p);
    assert(alike(new, new));
    if i == tracks.len() {
        assert(after[i] == new);
    } else {
        assert(p(tracks[i]));
        assert(alike(tracks[i], new));
        if tracks[i].audio_source is Federation && new.audio_source is LocalFile {
            assert(after[i] == new);
        } else {
            assert(alike(after[i], new));
        }
    }
    assert forall|t: TrackModel| holds_track(alike, known, tracks, t) implies #[trigger] holds_track(
        alike,
        known,
        after,
        t,
    ) by {
        if exists|k: int|
            0 <= k < tracks.len() && alike(#[trigger] tracks[k], t) && (t.audio_source is LocalFile
                ==> tracks[k].audio_source is LocalFile) {
            let k = choose|k: int|
                0 <= k < tracks.len() && alike(#[trigger] tracks[k], t) && (
                t.audio_source is LocalFile ==> tracks[k].audio_source is LocalFile);
            if after[k] == tracks[k] {
                assert(alike(after[k], t));
            } else {
                assert(known(tracks[k]));
                assert(after[k] == new);
                assert(alike(tracks[k], after[k]));
            }
        } else {
            let (k, e) = choose|k: int, e: TrackModel|
                0 <= k < tracks.len() && #[trigger] known(e) && e.audio_source is Federation && (
                #[trigger] tracks[k]).audio_source is LocalFile && alike(e, t) && alike(
                    e,
                    tracks[k],
                );
            assert(after[k] == tracks[k]);
        }
    }
}

proof fn lemma_merged_tracks(
    same: spec_fn(TrackModel, TrackModel) -> bool,
    alike: spec_fn(TrackModel, TrackModel) -> bool,
    known: spec_fn(TrackModel) -> bool,
    target: Seq<TrackModel>,
    incoming: Seq<TrackModel>,
)
    requires
        forall|a: TrackModel, b: TrackModel| #[trigger] same(a, b) ==> alike(a, b),
        forall|a: TrackModel| #[trigger] alike(a, a),
        all_known(known, target),
        all_known(known, incoming),
    ensures
        all_known(known, merged_tracks(same, target, incoming)),
        forall|t: TrackModel|
            target.contains(t) || incoming.contains(t) ==> #[trigger] holds_track(
                alike,
                known,
                merged_tracks(same, target, incoming),
                t,
            ),
    decreases incoming.len(),
{
    let after = merged_tracks(same, target, incoming);
    if incoming.len() == 0 {
        assert forall|t: TrackModel|
            target.contains(t) || incoming.contains(t) implies #[trigger] holds_track(
            alike,
            known,
            after,
            t,
        ) by {
            let i = choose|i: int| 0 <= i < target.len() && target[i] == t;
            assert(alike(after[i], t));
        }
    } else {
        let front = incoming.drop_last();
        assert forall|i: int| 0 <= i < front.len() implies known(#[trigger] front[i]) by {
            assert(known(incoming[i]));
        }
        lemma_merged_tracks(same, alike, known, target, front);
        let before = merged_tracks(same, target, front);
        let new = incoming.last();
        assert(new == incoming[incoming.len() - 1]);
        lemma_with_track(same, alike, known, before, new);
        assert forall|t: TrackModel|
            target.contains(t) || incoming.contains(t) implies #[trigger] holds_track(
            alike,
            known,
            after,
            t,
        ) by {
            if !target.contains(t) && t != new {
                let i = choose|i: int| 0 <= i < incoming.len() && incoming[i] == t;
                assert(front[i] == t);
                assert(front.contains(t));
            }
            if t != new {
                assert(holds_track(alike, known, before, t));
            }
        }
    }
}

proof fn lemma_sorting_keeps(tracks: Seq<TrackModel>)
    ensures
        forall|t: TrackModel| #[trigger]
            stable_sorted(tracks, plays_before()).contains(t) == tracks.contains(t),
{
    sorting_is_a_permutation(tracks, plays_before());
    let sorted = stable_sorted(tracks, plays_before());
    assert forall|t: TrackModel| #[trigger] sorted.contains(t) == tracks.contains(t) by {
        broadcast use vstd::seq_lib::group_to_multiset_ensures;

        assert(sorted.to_multiset().count(t) == tracks.to_multiset().count(t));
    }
}

proof fn lemma_held_by_the_same(
    alike: spec_fn(TrackModel, TrackModel) -> bool,
    known: spec_fn(TrackModel) -> bool,
    a: Seq<TrackModel>,
    b: Seq<TrackModel>,
    t: TrackModel,
)
    requires
        forall|t: TrackModel| #[trigger] b.contains(t) == a.contains(t),
        holds_track(alike, known, a, t),
    ensures
        holds_track(alike, known, b, t),
{
    if exists|i: int|
        0 <= i < a.len() && alike(#[trigger] a[i], t) && (t.audio_source is LocalFile
            ==> a[i].audio_source is LocalFile) {
        let i = choose|i: int|
            0 <= i < a.len() && alike(#[trigger] a[i], t) && (t.audio_source is LocalFile
                ==> a[i].audio_source is LocalFile);
        assert(a.contains(a[i]));
        assert(b.contains(a[i]));
        let j = choose|j: int| 0 <= j < b.len() && b[j] == a[i];
        assert(alike(b[j], t));
    } else {
        let (i, e) = choose|i: int, e: TrackModel|
            0 <= i < a.len() && #[trigger] known(e) && e.audio_source is Federation && (
            #[trigger] a[i]).audio_source is LocalFile && alike(e, t) && alike(e, a[i]);
        assert(a.contains(a[i]));
        assert(b.contains(a[i]));
        let j = choose|j: int| 0 <= j < b.len() && b[j] == a[i];
        assert(b[j].audio_source is LocalFile);
    }
}

proof fn lemma_enriched_tracks(
    keys: NameKeys,
    known: spec_fn(TrackModel) -> bool,
    target: ReleaseModel,
    incoming: ReleaseModel,
)
    requires
        all_known(known, target.tracks),
        all_known(known, incoming.tracks),
    ensures
        all_known(known, enriched(keys, target, incoming).tracks),
        forall|t: TrackModel|
            target.tracks.contains(t) || incoming.tracks.contains(t) ==> #[trigger] holds_track(
                tells_of_one(keys),
                known,
                enriched(keys, target, incoming).tracks,
                t,
            ),
{
    let alike = tells_of_one(keys);
    let merged = merged_tracks(within_release(keys), target.tracks, incoming.tracks);
    let sorted = enriched(keys, target, incoming).tracks;
    lemma_merged_tracks(within_release(keys), alike, known, target.tracks, incoming.tracks);
    lemma_sorting_keeps(merged);
    assert forall|i: int| 0 <= i < sorted.len() implies known(#[trigger] sorted[i]) by {
        assert(sorted.contains(sorted[i]));
        assert(merged.contains(sorted[i]));
        let j = choose|j: int| 0 <= j < merged.len() && merged[j] == sorted[i];
        assert(known(merged[j]));
    }
    assert forall|t: TrackModel|
        target.tracks.contains(t) || incoming.tracks.contains(t) implies #[trigger] holds_track(
        alike,
        known,
        sorted,
        t,
    ) by {
        assert(holds_track(alike, known, merged, t));
        lemma_held_by_the_same(alike, known, merged, sorted, t);
    }
}

/// Everyone a release names, main artists before featured ones.
pub open spec fn named(release: ReleaseModel) -> Seq<ArtistRefModel> {
    release.artists + release.featured_artists
}

/// Whether a release credits a name, itself or on one of its tracks.
pub open spec fn credits(keys: NameKeys, release: ReleaseModel, name: Seq<char>) -> bool {
    ||| is_credited(keys, release.artists, name)
    ||| is_credited(keys, release.featured_artists, name)
    ||| exists|i: int|
        0 <= i < release.tracks.len() && (is_credited(
            keys,
            (#[trigger] release.tracks[i]).artists,
            name,
        ) || is_credited(keys, release.tracks[i].featured_artists, name))
}

proof fn lemma_credit_carries(
    keys: NameKeys,
    from: Seq<ArtistRefModel>,
    to: Seq<ArtistRefModel>,
    name: Seq<char>,
)
    requires
        forall|i: int| 0 <= i < from.len() ==> is_credited(keys, to, (#[trigger] from[i]).name),
        is_credited(keys, from, name),
    ensures
        is_credited(keys, to, name),
{
    let i = choose|i: int| 0 <= i < from.len() && keys((#[trigger] from[i]).name) == keys(name);
    assert(is_credited(keys, to, from[i].name));
    let j = choose|j: int|
        0 <= j < to.len() && keys((#[trigger] to[j]).name) == keys(from[i].name);
    assert(keys(to[j].name) == keys(name));
}

proof fn lemma_contributors(
    keys: NameKeys,
    main: Seq<ArtistRefModel>,
    featured: Seq<ArtistRefModel>,
    more: Seq<ArtistRefModel>,
)
    ensures
        featured.len() <= contributors(keys, main, featured, more).len(),
        forall|i: int|
            0 <= i < featured.len() ==> contributors(keys, main, featured, more)[i]
                == #[trigger] featured[i],
        forall|i: int|
            0 <= i < more.len() ==> is_credited(
                keys,
                main + contributors(keys, main, featured, more),
                (#[trigger] more[i]).name,
            ),
    decreases more.len(),
{
    if more.len() > 0 {
        let front = more.drop_last();
        let so_far = contributors(keys, main, featured, front);
        let r = contributors(keys, main, featured, more);
        lemma_contributors(keys, main, featured, front);
        assert forall|i: int| 0 <= i < more.len() implies is_credited(
            keys,
            main + r,
            (#[trigger] more[i]).name,
        ) by {
            if i < front.len() {
                assert(is_credited(keys, main + so_far, front[i].name));
                let k = choose|k: int|
                    0 <= k < (main + so_far).len() && keys((#[trigger] (main + so_far)[k]).name)
                        == keys(more[i].name);
                assert((main + r)[k] == (main + so_far)[k]);
            } else if !is_credited(keys, main + so_far, more.last().name) {
                assert((main + r)[(main.len() + so_far.len()) as int] == more[i]);
            }
        }
    }
}

proof fn lemma_track_credits(keys: NameKeys, tracks: Seq<TrackModel>, i: int, name: Seq<char>)
    requires
        0 <= i < tracks.len(),
        is_credited(keys, tracks[i].artists, name) || is_credited(
            keys,
            tracks[i].featured_artists,
            name,
        ),
    ensures
        is_credited(keys, track_credits(tracks), name),
    decreases tracks.len(),
{
    let front = tracks.drop_last();
    let last = tracks.last().artists + tracks.last().featured_artists;
    lemma_credited_in_either(keys, tracks.last().artists, tracks.last().featured_artists, name);
    lemma_credited_in_either(keys, track_credits(front), last, name);
    if i < front.len() {
        lemma_track_credits(keys, front, i, name);
    }
}

proof fn lemma_populated(keys: NameKeys, release: ReleaseModel, name: Seq<char>)
    requires
        credits(keys, release, name),
    ensures
        is_credited(keys, named(populated(keys, release)), name),
{
    let main = release.artists;
    let featured = release.featured_artists;
    let more = track_credits(release.tracks);
    let r = contributors(keys, main, featured, more);
    lemma_contributors(keys, main, featured, more);
    lemma_credited_in_either(keys, main, r, name);
    if is_credited(keys, featured, name) {
        let i = choose|i: int|
            0 <= i < featured.len() && keys((#[trigger] featured[i]).name) == keys(name);
        assert(r[i] == featured[i]);
    } else if !is_credited(keys, main, name) {
        let i = choose|i: int|
            0 <= i < release.tracks.len() && (is_credited(
                keys,
                (#[trigger] release.tracks[i]).artists,
                name,
            ) || is_credited(keys, release.tracks[i].featured_artists, name));
        lemma_track_credits(keys, release.tracks, i, name);
        lemma_credit_carries(keys, more, main + r, name);
    }
}

proof fn lemma_merged_refs_credit(
    keys: NameKeys,
    target: Seq<ArtistRefModel>,
    incoming: Seq<ArtistRefModel>,
    name: Seq<char>,
)
    requires
        is_credited(keys, target, name) || is_credited(keys, incoming, name),
    ensures
        is_credited(keys, merged_refs(keys, target, incoming), name),
{
    let r = merged_refs(keys, target, incoming);
    merging_credits_again_changes_nothing(keys, target, incoming);
    if is_credited(keys, target, name) {
        let i = choose|i: int|
            0 <= i < target.len() && keys((#[trigger] target[i]).name) == keys(name);
        assert(target == r.take(target.len() as int));
        assert(r[i] == target[i]);
    } else {
        lemma_credit_carries(keys, incoming, r, name);
    }
}

proof fn lemma_enriched_credits(
    keys: NameKeys,
    target: ReleaseModel,
    incoming: ReleaseModel,
    name: Seq<char>,
)
    requires
        is_credited(keys, named(target), name) || is_credited(keys, named(incoming), name),
    ensures
        is_credited(keys, named(enriched(keys, target, incoming)), name),
{
    lemma_credited_in_either(keys, target.artists, target.featured_artists, name);
    lemma_credited_in_either(keys, incoming.artists, incoming.featured_artists, name);
    let before = ReleaseModel {
        artwork: if target.artwork is None {
            incoming.artwork
        } else {
            target.artwork
        },
        artists: merged_refs(keys, target.artists, incoming.artists),
        featured_artists: merged_refs(keys, target.featured_artists, incoming.featured_artists),
        tracks: stable_sorted(
            merged_tracks(within_release(keys), target.tracks, incoming.tracks),
            plays_before(),
        ),
        ..target
    };
    if is_credited(keys, target.artists, name) || is_credited(keys, incoming.artists, name) {
        lemma_merged_refs_credit(keys, target.artists, incoming.artists, name);
    } else {
        lemma_merged_refs_credit(keys, target.featured_artists, incoming.featured_artists, name);
    }
    assert(credits(keys, before, name));
    lemma_populated(keys, before, name);
    assert(enriched(keys, target, incoming) == populated(keys, before));
}

pub open spec fn has_release_key(key: ReleaseKeyModel) -> spec_fn(ReleaseModel) -> bool {
    |release: ReleaseModel| release.key == key
}

/// The first release with a key.
pub open spec fn release_of(releases: Seq<ReleaseModel>, key: ReleaseKeyModel) -> Option<
    ReleaseModel,
> {
    found(releases, has_release_key(key))
}

proof fn lemma_with_release(
    keys: NameKeys,
    releases: Seq<ReleaseModel>,
    release: ReleaseModel,
    key: ReleaseKeyModel,
)
    ensures
        release_of(with_release(keys, releases, release), key) == (if release.key != key {
            release_of(releases, key)
        } else {
            match release_of(releases, key) {
                None => Some(arranged(keys, release)),
                Some(present) => Some(merged_release(keys, present, arranged(keys, release))),
            }
        }),
{
    let q = |item: ReleaseModel| item.key == release.key;
    let p = has_release_key(key);
    let i = first_where(releases, q);
    let k = first_where(releases, p);
    let after = with_release(keys, releases, release);
    lemma_first_where_is(releases, q);
    lemma_first_where_is(releases, p);
    assert forall|j: int| 0 <= j < k implies !p(#[trigger] after[j]) by {
        assert(!p(releases[j]));
        if j == i {
            assert(q(releases[i]));
        }
    }
    if release.key == key {
        assert(i == k) by {
            assert forall|j: int| 0 <= j < i implies !p(#[trigger] releases[j]) by {
                assert(!q(releases[j]));
            }
            lemma_first_where(releases, p, i);
        }
        lemma_first_where(after, p, k);
    } else if k < releases.len() {
        assert(k != i) by {
            if i < releases.len() {
                assert(q(releases[i]));
            }
        }
        lemma_first_where(after, p, k);
    } else {
        assert forall|j: int| 0 <= j < after.len() implies !p(#[trigger] after[j]) by {
            if j < releases.len() {
                assert(!p(releases[j]));
                if j == i {
                    assert(q(releases[i]));
                }
            }
        }
        lemma_first_where(after, p, after.len() as int);
    }
}

proof fn lemma_step(
    keys: NameKeys,
    known: spec_fn(TrackModel) -> bool,
    present: ReleaseModel,
    release: ReleaseModel,
)
    requires
        present.key == release.key,
        all_known(known, present.tracks),
        all_known(known, release.tracks),
    ensures
        ({
            let m = merged_release(keys, present, arranged(keys, release));
            &&& m.key == release.key
            &&& all_known(known, m.tracks)
            &&& forall|t: TrackModel|
                present.tracks.contains(t) || release.tracks.contains(t) ==> #[trigger] holds_track(
                    tells_of_one(keys),
                    known,
                    m.tracks,
                    t,
                )
            &&& forall|name: Seq<char>|
                is_credited(keys, named(present), name) || credits(keys, release, name)
                    ==> #[trigger] is_credited(keys, named(m), name)
            &&& m.artwork is Some <==> present.artwork is Some || release.artwork is Some
            &&& m.artwork == present.artwork || m.artwork == release.artwork
        }),
{
    let new = arranged(keys, release);
    let m = merged_release(keys, present, new);
    lemma_sorting_keeps(release.tracks);
    assert forall|i: int| 0 <= i < new.tracks.len() implies known(#[trigger] new.tracks[i]) by {
        assert(new.tracks.contains(new.tracks[i]));
        assert(release.tracks.contains(new.tracks[i]));
        let j = choose|j: int| 0 <= j < release.tracks.len() && release.tracks[j] == new.tracks[i];
        assert(known(release.tracks[j]));
    }
    lemma_enriched_tracks(keys, known, present, new);
    lemma_enriched_tracks(keys, known, new, present);
    assert forall|t: TrackModel|
        present.tracks.contains(t) || release.tracks.contains(t) implies #[trigger] holds_track(
        tells_of_one(keys),
        known,
        m.tracks,
        t,
    ) by {
        assert(new.tracks.contains(t) == release.tracks.contains(t));
    }
    assert forall|name: Seq<char>|
        is_credited(keys, named(present), name) || credits(
            keys,
            release,
            name,
        ) implies #[trigger] is_credited(keys, named(m), name) by {
        if !is_credited(keys, named(present), name) {
            lemma_populated(keys, release, name);
            assert(named(new) == named(populated(keys, release)));
        }
        if present.source is Federation && new.source is Local {
            lemma_enriched_credits(keys, new, present, name);
        } else {
            lemma_enriched_credits(keys, present, new, name);
        }
    }
}

proof fn lemma_first_record(
    keys: NameKeys,
    known: spec_fn(TrackModel) -> bool,
    release: ReleaseModel,
)
    requires
        all_known(known, release.tracks),
    ensures
        ({
            let m = arranged(keys, release);
            &&& all_known(known, m.tracks)
            &&& forall|t: TrackModel| #[trigger] m.tracks.contains(t) == release.tracks.contains(t)
            &&& forall|name: Seq<char>|
                credits(keys, release, name) ==> #[trigger] is_credited(keys, named(m), name)
            &&& m.artwork == release.artwork
        }),
{
    let m = arranged(keys, release);
    lemma_sorting_keeps(release.tracks);
    assert forall|i: int| 0 <= i < m.tracks.len() implies known(#[trigger] m.tracks[i]) by {
        assert(m.tracks.contains(m.tracks[i]));
        let j = choose|j: int| 0 <= j < release.tracks.len() && release.tracks[j] == m.tracks[i];
        assert(known(release.tracks[j]));
    }
    assert forall|name: Seq<char>| credits(keys, release, name) implies #[trigger] is_credited(
        keys,
        named(m),
        name,
    ) by {
        lemma_populated(keys, release, name);
        assert(named(m) == named(populated(keys, release)));
    }
}

proof fn lemma_untouched(
    keys: NameKeys,
    target: Seq<ReleaseModel>,
    incoming: Seq<ReleaseModel>,
    key: ReleaseKeyModel,
)
    requires
        forall|j: int| 0 <= j < incoming.len() ==> (#[trigger] incoming[j]).key != key,
    ensures
        release_of(merged_releases(keys, target, incoming), key) == release_of(target, key),
    decreases incoming.len(),
{
    if incoming.len() > 0 {
        let front = incoming.drop_last();
        assert forall|j: int| 0 <= j < front.len() implies (#[trigger] front[j]).key != key by {
            assert(incoming[j].key != key);
        }
        lemma_untouched(keys, target, front, key);
        assert(incoming[incoming.len() - 1].key != key);
        lemma_with_release(keys, merged_releases(keys, target, front), incoming.last(), key);
    }
}

proof fn lemma_touched_once(
    keys: NameKeys,
    target: Seq<ReleaseModel>,
    incoming: Seq<ReleaseModel>,
    k: int,
)
    requires
        0 <= k < incoming.len(),
        forall|j: int|
            0 <= j < incoming.len() && j != k ==> (#[trigger] incoming[j]).key != incoming[k].key,
    ensures
        release_of(merged_releases(keys, target, incoming), incoming[k].key) == Some(
            match release_of(target, incoming[k].key) {
                None => arranged(keys, incoming[k]),
                Some(present) => merged_release(keys, present, arranged(keys, incoming[k])),
            },
        ),
    decreases incoming.len(),
{
    let front = incoming.drop_last();
    let key = incoming[k].key;
    assert forall|j: int| 0 <= j < front.len() && j != k implies (#[trigger] front[j]).key
        != key by {
        assert(incoming[j].key != key);
    }
    if k == incoming.len() - 1 {
        lemma_untouched(keys, target, front, key);
    } else {
        lemma_touched_once(keys, target, front, k);
        assert(incoming[incoming.len() - 1].key != key);
    }
    lemma_with_release(keys, merged_releases(keys, target, front), incoming.last(), key);
}

/// A release that another provider knows is merged whole. The merged results
/// hold a release with its key. In it every track of the two records is found
/// again, and no other track; everyone is credited whom one of the records
/// names, or the arriving one credits on a track; and there is artwork where one
/// of them has any.
pub proof fn a_release_is_merged_whole(
    keys: NameKeys,
    target: SearchResultsModel,
    incoming: SearchResultsModel,
    k: int,
)
    requires
        0 <= k < incoming.releases.len(),
        forall|j: int|
            0 <= j < incoming.releases.len() && j != k ==> (#[trigger] incoming.releases[j]).key
                != incoming.releases[k].key,
    ensures
        ({
            let release = incoming.releases[k];
            let present = release_of(target.releases, release.key);
            let known = |t: TrackModel|
                release.tracks.contains(t) || (present is Some && present->0.tracks.contains(t));
            let merged = release_of(merged_results(keys, target, incoming).releases, release.key);
            &&& merged is Some
            &&& merged->0.key == release.key
            &&& forall|t: TrackModel| #[trigger]
                known(t) ==> holds_track(tells_of_one(keys), known, merged->0.tracks, t)
            &&& all_known(known, merged->0.tracks)
            &&& forall|name: Seq<char>|
                credits(keys, release, name) || (present is Some && is_credited(
                    keys,
                    named(present->0),
                    name,
                )) ==> #[trigger] is_credited(keys, named(merged->0), name)
            &&& merged->0.artwork is Some <==> release.artwork is Some || (present is Some
                && present->0.artwork is Some)
        }),
{
    let release = incoming.releases[k];
    let present = release_of(target.releases, release.key);
    let known = |t: TrackModel|
        release.tracks.contains(t) || (present is Some && present->0.tracks.contains(t));
    let merged = release_of(merged_results(keys, target, incoming).releases, release.key);
    lemma_touched_once(keys, target.releases, incoming.releases, k);
    lemma_first_where_is(target.releases, has_release_key(release.key));
    assert forall|i: int| 0 <= i < release.tracks.len() implies known(
        #[trigger] release.tracks[i],
    ) by {
        assert(release.tracks.contains(release.tracks[i]));
    }
    match present {
        Some(held) => {
            assert forall|i: int| 0 <= i < held.tracks.len() implies known(
                #[trigger] held.tracks[i],
            ) by {
                assert(held.tracks.contains(held.tracks[i]));
            }
            lemma_step(keys, known, held, release);
            assert forall|t: TrackModel| #[trigger] known(t) implies holds_track(
                tells_of_one(keys),
                known,
                merged->0.tracks,
                t,
            ) by {
                assert(held.tracks.contains(t) || release.tracks.contains(t));
            }
        },
        None => {
            lemma_first_record(keys, known, release);
            assert forall|t: TrackModel| #[trigger] known(t) implies holds_track(
                tells_of_one(keys),
                known,
                merged->0.tracks,
                t,
            ) by {
                assert(merged->0.tracks.contains(t));
                let i = choose|i: int| 0 <= i < merged->0.tracks.len() && merged->0.tracks[i] == t;
                assert(tells_of_one(keys)(merged->0.tracks[i], t));
            }
        },
    }
}

/// A release that does not arrive stays as it is.
pub proof fn other_releases_stay(
    keys: NameKeys,
    target: SearchResultsModel,
    incoming: SearchResultsModel,
    key: ReleaseKeyModel,
)
    requires
        forall|j: int|
            0 <= j < incoming.releases.len() ==> (#[trigger] incoming.releases[j]).key != key,
    ensures
        release_of(merged_results(keys, target, incoming).releases, key) == release_of(
            target.releases,
            key,
        ),
{
    lemma_untouched(keys, target.releases, incoming.releases, key);
}

/// Whether a chain of known tracks, each alike to the next, leads from `t` into
/// `tracks`.
pub open spec fn leads_into(
    alike: spec_fn(TrackModel, TrackModel) -> bool,
    known: spec_fn(TrackModel) -> bool,
    path: Seq<TrackModel>,
    t: TrackModel,
    tracks: Seq<TrackModel>,
) -> bool {
    &&& path.len() > 0
    &&& path[0] == t
    &&& tracks.contains(path.last())
    &&& all_known(known, path)
    &&& forall|i: int, j: int|
        0 <= i && j == i + 1 && j < path.len() ==> alike(#[trigger] path[i], #[trigger] path[j])
}

pub open spec fn is_linked(
    alike: spec_fn(TrackModel, TrackModel) -> bool,
    known: spec_fn(TrackModel) -> bool,
    t: TrackModel,
    tracks: Seq<TrackModel>,
) -> bool {
    exists|path: Seq<TrackModel>| #[trigger] leads_into(alike, known, path, t, tracks)
}

proof fn lemma_linked_on(
    keys: NameKeys,
    known: spec_fn(TrackModel) -> bool,
    before: Seq<TrackModel>,
    after: Seq<TrackModel>,
    t: TrackModel,
)
    requires
        is_linked(tells_of_one(keys), known, t, before),
        all_known(known, after),
        forall|x: TrackModel|
            before.contains(x) ==> #[trigger] holds_track(tells_of_one(keys), known, after, x),
    ensures
        is_linked(tells_of_one(keys), known, t, after),
{
    let alike = tells_of_one(keys);
    let path = choose|path: Seq<TrackModel>| #[trigger]
        leads_into(alike, known, path, t, before);
    let y = path.last();
    assert(holds_track(alike, known, after, y));
    assert(alike(y, y));
    if exists|i: int|
        0 <= i < after.len() && alike(#[trigger] after[i], y) && (y.audio_source is LocalFile
            ==> after[i].audio_source is LocalFile) {
        let i = choose|i: int|
            0 <= i < after.len() && alike(#[trigger] after[i], y) && (y.audio_source is LocalFile
                ==> after[i].audio_source is LocalFile);
        let longer = path.push(after[i]);
        assert(alike(y, after[i]));
        assert(after.contains(longer.last()));
        assert(leads_into(alike, known, longer, t, after));
    } else {
        let (i, e) = choose|i: int, e: TrackModel|
            0 <= i < after.len() && #[trigger] known(e) && e.audio_source is Federation && (
            #[trigger] after[i]).audio_source is LocalFile && alike(e, y) && alike(e, after[i]);
        let longer = path.push(e).push(after[i]);
        assert(alike(y, e));
        assert(after.contains(longer.last()));
        assert(leads_into(alike, known, longer, t, after));
    }
}

/// Whether a track is on one of the records of a release: the one at hand, or
/// one that arrives.
pub open spec fn is_recorded(
    target: Seq<ReleaseModel>,
    incoming: Seq<ReleaseModel>,
    key: ReleaseKeyModel,
    t: TrackModel,
) -> bool {
    ||| release_of(target, key) is Some && release_of(target, key)->0.tracks.contains(t)
    ||| exists|j: int|
        0 <= j < incoming.len() && (#[trigger] incoming[j]).key == key
            && incoming[j].tracks.contains(t)
}

/// What holds of a release after several records of it have arrived.
pub open spec fn has_taken_in(
    keys: NameKeys,
    known: spec_fn(TrackModel) -> bool,
    target: Seq<ReleaseModel>,
    incoming: Seq<ReleaseModel>,
    merged: ReleaseModel,
) -> bool {
    let key = merged.key;
    &&& all_known(known, merged.tracks)
    &&& forall|t: TrackModel| #[trigger]
        is_recorded(target, incoming, key, t) ==> is_linked(
            tells_of_one(keys),
            known,
            t,
            merged.tracks,
        )
    &&& forall|j: int, name: Seq<char>|
        0 <= j < incoming.len() && incoming[j].key == key && #[trigger] credits(
            keys,
            incoming[j],
            name,
        ) ==> is_credited(keys, named(merged), name)
    &&& forall|j: int|
        0 <= j < incoming.len() && (#[trigger] incoming[j]).key == key && incoming[j].artwork is Some
            ==> merged.artwork is Some
    &&& release_of(target, key) matches Some(held) ==> {
        &&& held.artwork is Some ==> merged.artwork is Some
        &&& forall|name: Seq<char>|
            is_credited(keys, named(held), name) ==> #[trigger] is_credited(
                keys,
                named(merged),
                name,
            )
    }
}

proof fn lemma_takes_in(
    keys: NameKeys,
    known: spec_fn(TrackModel) -> bool,
    target: Seq<ReleaseModel>,
    incoming: Seq<ReleaseModel>,
    key: ReleaseKeyModel,
)
    requires
        forall|t: TrackModel| #[trigger] is_recorded(target, incoming, key, t) ==> known(t),
    ensures
        ({
            let merged = release_of(merged_releases(keys, target, incoming), key);
            &&& merged is Some <==> release_of(target, key) is Some || exists|j: int|
                0 <= j < incoming.len() && (#[trigger] incoming[j]).key == key
            &&& merged matches Some(m) ==> m.key == key && has_taken_in(
                keys,
                known,
                target,
                incoming,
                m,
            )
        }),
    decreases incoming.len(),
{
    let alike = tells_of_one(keys);
    let all = merged_releases(keys, target, incoming);
    let merged = release_of(all, key);
    lemma_first_where_is(all, has_release_key(key));
    lemma_first_where_is(target, has_release_key(key));
    if incoming.len() == 0 {
        if let Some(m) = merged {
            assert forall|i: int| 0 <= i < m.tracks.len() implies known(#[trigger] m.tracks[i]) by {
                assert(m.tracks.contains(m.tracks[i]));
                assert(is_recorded(target, incoming, key, m.tracks[i]));
            }
            assert forall|t: TrackModel| #[trigger]
                is_recorded(target, incoming, key, t) implies is_linked(
                alike,
                known,
                t,
                m.tracks,
            ) by {
                assert(m.tracks.contains(t));
                assert(leads_into(alike, known, seq![t], t, m.tracks));
            }
        }
    } else {
        let front = incoming.drop_last();
        let last = incoming.last();
        let so_far = release_of(merged_releases(keys, target, front), key);
        assert forall|t: TrackModel| #[trigger] is_recorded(target, front, key, t) implies known(
            t,
        ) && is_recorded(target, incoming, key, t) by {
            if !(release_of(target, key) is Some && release_of(target, key)->0.tracks.contains(t)) {
                let j = choose|j: int|
                    0 <= j < front.len() && (#[trigger] front[j]).key == key
                        && front[j].tracks.contains(t);
                assert(incoming[j] == front[j]);
            }
            assert(is_recorded(target, incoming, key, t));
        }
        lemma_takes_in(keys, known, target, front, key);
        lemma_with_release(keys, merged_releases(keys, target, front), last, key);
        assert(incoming[incoming.len() - 1] == last);
        if exists|j: int| 0 <= j < front.len() && (#[trigger] front[j]).key == key {
            let j = choose|j: int| 0 <= j < front.len() && (#[trigger] front[j]).key == key;
            assert(incoming[j].key == key);
        }
        assert forall|j: int| 0 <= j < incoming.len() && (#[trigger] incoming[j]).key == key
            && last.key != key implies exists|i: int|
            0 <= i < front.len() && (#[trigger] front[i]).key == key by {
            assert(front[j] == incoming[j]);
        }
        if last.key == key {
            assert forall|i: int| 0 <= i < last.tracks.len() implies known(
                #[trigger] last.tracks[i],
            ) by {
                assert(last.tracks.contains(last.tracks[i]));
                assert(is_recorded(target, incoming, key, last.tracks[i]));
            }
            let m = merged->0;
            match so_far {
                Some(present) => {
                    lemma_step(keys, known, present, last);
                },
                None => {
                    lemma_first_record(keys, known, last);
                },
            }
            assert forall|t: TrackModel| #[trigger]
                is_recorded(target, incoming, key, t) implies is_linked(
                alike,
                known,
                t,
                m.tracks,
            ) by {
                assert(known(t));
                assert(alike(t, t));
                if last.tracks.contains(t) {
                    match so_far {
                        Some(present) => {
                            assert(holds_track(alike, known, m.tracks, t));
                            assert(leads_into(alike, known, seq![t], t, seq![t])) by {
                                assert(seq![t].contains(seq![t].last())) by {
                                    assert(seq![t][0] == t);
                                }
                            }
                            assert forall|x: TrackModel|
                                seq![t].contains(x) implies #[trigger] holds_track(
                                alike,
                                known,
                                m.tracks,
                                x,
                            ) by {
                                assert(x == t);
                            }
                            lemma_linked_on(keys, known, seq![t], m.tracks, t);
                        },
                        None => {
                            assert(m.tracks.contains(t));
                            assert(leads_into(alike, known, seq![t], t, m.tracks));
                        },
                    }
                } else {
                    assert(is_recorded(target, front, key, t)) by {
                        if !(release_of(target, key) is Some
                            && release_of(target, key)->0.tracks.contains(t)) {
                            let j = choose|j: int|
                                0 <= j < incoming.len() && (#[trigger] incoming[j]).key == key
                                    && incoming[j].tracks.contains(t);
                            assert(front[j] == incoming[j]);
                        }
                    }
                    match so_far {
                        Some(present) => {
                            lemma_linked_on(keys, known, present.tracks, m.tracks, t);
                        },
                        None => {
                            assert(false);
                        },
                    }
                }
            }
            assert forall|j: int, name: Seq<char>|
                0 <= j < incoming.len() && incoming[j].key == key && #[trigger] credits(
                    keys,
                    incoming[j],
                    name,
                ) implies is_credited(keys, named(m), name) by {
                if j < front.len() {
                    assert(front[j] == incoming[j]);
                    assert(credits(keys, front[j], name));
                    assert(is_credited(keys, named(so_far->0), name));
                }
            }
            assert forall|j: int|
                0 <= j < incoming.len() && (#[trigger] incoming[j]).key == key
                    && incoming[j].artwork is Some implies m.artwork is Some by {
                if j < front.len() {
                    assert(front[j] == incoming[j]);
                }
            }
            assert(has_taken_in(keys, known, target, incoming, m));
        } else if let Some(m) = merged {
            assert forall|t: TrackModel| #[trigger]
                is_recorded(target, incoming, key, t) implies is_linked(
                alike,
                known,
                t,
                m.tracks,
            ) by {
                if !(release_of(target, key) is Some && release_of(target, key)->0.tracks.contains(
                    t,
                )) {
                    let j = choose|j: int|
                        0 <= j < incoming.len() && (#[trigger] incoming[j]).key == key
                            && incoming[j].tracks.contains(t);
                    assert(front[j] == incoming[j]);
                }
                assert(is_recorded(target, front, key, t));
            }
            assert forall|j: int, name: Seq<char>|
                0 <= j < incoming.len() && incoming[j].key == key && #[trigger] credits(
                    keys,
                    incoming[j],
                    name,
                ) implies is_credited(keys, named(m), name) by {
                assert(front[j] == incoming[j]);
                assert(credits(keys, front[j], name));
            }
            assert forall|j: int|
                0 <= j < incoming.len() && (#[trigger] incoming[j]).key == key
                    && incoming[j].artwork is Some implies m.artwork is Some by {
                assert(front[j] == incoming[j]);
            }
            assert(has_taken_in(keys, known, target, incoming, m));
        }
    }
}

/// However many records of a release arrive, the merged results hold one that
/// has taken them all in: from every track of theirs a chain of alike tracks,
/// each of them on one of the records, leads to a track of the merged release,
/// whose own tracks are all on one of the records; everyone is credited; and
/// there is artwork where any record has some.
pub proof fn every_release_is_taken_in(
    keys: NameKeys,
    target: SearchResultsModel,
    incoming: SearchResultsModel,
    key: ReleaseKeyModel,
)
    ensures
        ({
            let known = |t: TrackModel| is_recorded(target.releases, incoming.releases, key, t);
            let merged = release_of(merged_results(keys, target, incoming).releases, key);
            &&& merged is Some <==> release_of(target.releases, key) is Some || exists|j: int|
                0 <= j < incoming.releases.len() && (#[trigger] incoming.releases[j]).key == key
            &&& merged matches Some(m) ==> m.key == key && has_taken_in(
                keys,
                known,
                target.releases,
                incoming.releases,
                m,
            )
        }),
{
    let known = |t: TrackModel| is_recorded(target.releases, incoming.releases, key, t);
    lemma_takes_in(keys, known, target.releases, incoming.releases, key);
}

/// Every track that one of the providers found is found again among the merged
/// tracks, and no other track is.
pub proof fn every_track_is_found_again(
    keys: NameKeys,
    target: SearchResultsModel,
    incoming: SearchResultsModel,
)
    ensures
        ({
            let known = |t: TrackModel| target.tracks.contains(t) || incoming.tracks.contains(t);
            let alike = |a: TrackModel, b: TrackModel| a == b || a.same_catalog_track(b);
            let merged = merged_results(keys, target, incoming).tracks;
            &&& forall|t: TrackModel| #[trigger] known(t) ==> holds_track(alike, known, merged, t)
            &&& all_known(known, merged)
        }),
{
    let known = |t: TrackModel| target.tracks.contains(t) || incoming.tracks.contains(t);
    let alike = |a: TrackModel, b: TrackModel| a == b || a.same_catalog_track(b);
    assert forall|i: int| 0 <= i < target.tracks.len() implies known(
        #[trigger] target.tracks[i],
    ) by {
        assert(target.tracks.contains(target.tracks[i]));
    }
    assert forall|i: int| 0 <= i < incoming.tracks.len() implies known(
        #[trigger] incoming.tracks[i],
    ) by {
        assert(incoming.tracks.contains(incoming.tracks[i]));
    }
    lemma_merged_tracks(same_catalog(), alike, known, target.tracks, incoming.tracks);
}

/// What is held already adds nothing: where all tracks at hand are local, and
/// every arriving one counts as one of them, the tracks stay as they are.
pub proof fn known_tracks_add_nothing(
    same: spec_fn(TrackModel, TrackModel) -> bool,
    target: Seq<TrackModel>,
    incoming: Seq<TrackModel>,
)
    requires
        forall|i: int|
            0 <= i < target.len() ==> (#[trigger] target[i]).audio_source is LocalFile,
        forall|j: int|
            0 <= j < incoming.len() ==> exists|i: int|
                0 <= i < target.len() && same(#[trigger] target[i], #[trigger] incoming[j]),
    ensures
        merged_tracks(same, target, incoming) == target,
    decreases incoming.len(),
{
    if incoming.len() > 0 {
        let front = incoming.drop_last();
        let last = incoming[incoming.len() - 1];
        assert forall|j: int| 0 <= j < front.len() implies exists|i: int|
            0 <= i < target.len() && same(#[trigger] target[i], #[trigger] front[j]) by {
            let i = choose|i: int|
                0 <= i < target.len() && same(#[trigger] target[i], incoming[j]);
            assert(same(target[i], front[j]));
        }
        known_tracks_add_nothing(same, target, front);
        let p = |item: TrackModel| same(item, last);
        lemma_first_where_is(target, p);
        let i = choose|i: int| 0 <= i < target.len() && same(#[trigger] target[i], last);
        assert(p(target[i]));
    }
}

pub open spec fn has_artist_key(key: ArtistKeyModel) -> spec_fn(ArtistModel) -> bool {
    |artist: ArtistModel| artist.key == key
}

/// The first artist with a key.
pub open spec fn artist_of(artists: Seq<ArtistModel>, key: ArtistKeyModel) -> Option<ArtistModel> {
    found(artists, has_artist_key(key))
}

proof fn lemma_with_artist(artists: Seq<ArtistModel>, artist: ArtistModel, key: ArtistKeyModel)
    ensures
        ({
            let before = artist_of(artists, key);
            let after = artist_of(with_artist(artists, artist), key);
            &&& artist.key != key ==> after == before
            &&& artist.key == key && before is None ==> after == Some(artist)
            &&& artist.key == key && before is Some ==> after is Some && after->0.name
                == before->0.name && after->0.source == before->0.source && (after->0.artwork
                == if before->0.artwork is Some {
                before->0.artwork
            } else {
                artist.artwork
            }) && after->0.release_count >= artist.release_count && after->0.release_count
                >= before->0.release_count && (after->0.release_count == artist.release_count
                || after->0.release_count == before->0.release_count) && after->0.track_count
                >= artist.track_count && after->0.track_count >= before->0.track_count && (
            after->0.track_count == artist.track_count || after->0.track_count
                == before->0.track_count)
        }),
{
    let q = |item: ArtistModel| item.key == artist.key;
    let p = has_artist_key(key);
    let i = first_where(artists, q);
    let k = first_where(artists, p);
    let after = with_artist(artists, artist);
    lemma_first_where_is(artists, q);
    lemma_first_where_is(artists, p);
    assert forall|j: int| 0 <= j < k implies !p(#[trigger] after[j]) by {
        assert(!p(artists[j]));
        if j == i {
            assert(q(artists[i]));
        }
    }
    if artist.key == key {
        assert(i == k) by {
            assert forall|j: int| 0 <= j < i implies !p(#[trigger] artists[j]) by {
                assert(!q(artists[j]));
            }
            lemma_first_where(artists, p, i);
        }
        lemma_first_where(after, p, k);
    } else if k < artists.len() {
        assert(k != i) by {
            if i < artists.len() {
                assert(q(artists[i]));
            }
        }
        lemma_first_where(after, p, k);
    } else {
        assert forall|j: int| 0 <= j < after.len() implies !p(#[trigger] after[j]) by {
            if j < artists.len() {
                assert(!p(artists[j]));
                if j == i {
                    assert(q(artists[i]));
                }
            }
        }
        lemma_first_where(after, p, after.len() as int);
    }
}

proof fn lemma_merged_artists(
    target: Seq<ArtistModel>,
    incoming: Seq<ArtistModel>,
    key: ArtistKeyModel,
)
    ensures
        ({
            let held = artist_of(target, key);
            let merged = artist_of(merged_artists(target, incoming), key);
            &&& merged is Some <==> held is Some || exists|j: int|
                0 <= j < incoming.len() && (#[trigger] incoming[j]).key == key
            &&& forall|j: int|
                0 <= j < incoming.len() && (#[trigger] incoming[j]).key == key ==> {
                    &&& merged->0.release_count >= incoming[j].release_count
                    &&& merged->0.track_count >= incoming[j].track_count
                    &&& incoming[j].artwork is Some ==> merged->0.artwork is Some
                }
            &&& held is Some ==> {
                &&& merged->0.release_count >= held->0.release_count
                &&& merged->0.track_count >= held->0.track_count
                &&& held->0.artwork is Some ==> merged->0.artwork == held->0.artwork
                &&& merged->0.name == held->0.name
                &&& merged->0.source == held->0.source
            }
        }),
    decreases incoming.len(),
{
    if incoming.len() > 0 {
        let front = incoming.drop_last();
        let last = incoming[incoming.len() - 1];
        lemma_merged_artists(target, front, key);
        lemma_with_artist(merged_artists(target, front), last, key);
        let held = artist_of(target, key);
        let so_far = artist_of(merged_artists(target, front), key);
        let merged = artist_of(merged_artists(target, incoming), key);
        assert forall|j: int| 0 <= j < incoming.len() && (#[trigger] incoming[j]).key == key implies
            merged is Some && merged->0.release_count >= incoming[j].release_count
            && merged->0.track_count >= incoming[j].track_count && (incoming[j].artwork is Some
            ==> merged->0.artwork is Some) by {
            if j < front.len() {
                assert(front[j] == incoming[j]);
            }
        }
        if so_far is Some && held is None {
            let j = choose|j: int| 0 <= j < front.len() && (#[trigger] front[j]).key == key;
            assert(incoming[j].key == key);
        }
    }
}

/// Everyone whom one of the providers found is among the merged artists, with
/// counts that are no lower than anyone gave, and with artwork where anyone has
/// some. The artist at hand keeps the name, the source and the artwork.
pub proof fn every_artist_is_found_again(
    keys: NameKeys,
    target: SearchResultsModel,
    incoming: SearchResultsModel,
    key: ArtistKeyModel,
)
    ensures
        ({
            let held = artist_of(target.artists, key);
            let merged = artist_of(merged_results(keys, target, incoming).artists, key);
            &&& merged is Some <==> held is Some || exists|j: int|
                0 <= j < incoming.artists.len() && (#[trigger] incoming.artists[j]).key == key
            &&& forall|j: int|
                0 <= j < incoming.artists.len() && (#[trigger] incoming.artists[j]).key == key ==> {
                    &&& merged->0.release_count >= incoming.artists[j].release_count
                    &&& merged->0.track_count >= incoming.artists[j].track_count
                    &&& incoming.artists[j].artwork is Some ==> merged->0.artwork is Some
                }
            &&& held is Some ==> {
                &&& merged->0.release_count >= held->0.release_count
                &&& merged->0.track_count >= held->0.track_count
                &&& held->0.artwork is Some ==> merged->0.artwork == held->0.artwork
                &&& merged->0.name == held->0.name
                &&& merged->0.source == held->0.source
            }
        }),
{
    lemma_merged_artists(target.artists, incoming.artists, key);
}

} // verus!
