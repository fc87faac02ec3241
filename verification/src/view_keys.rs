//! Keys as the window hands them back: text that names an artist, a release, a
//! track, a playlist.
use crate::catalog::{
    content_ids_are_normalized, is_content_id, ArtistKey, ArtistKeyModel, ContentId, LocalTrackId,
    ReleaseKey, ReleaseKeyModel, TrackKey, TrackKeyModel,
};
use crate::text::{ascii_lower, chars_of, decimal, signed_decimal, signed_decimal_text, text_of};
use crate::views::opt_view;
use vstd::prelude::*;

verus! {

pub open spec fn is_digit(c: char) -> bool {
    '0' <= c <= '9'
}

pub open spec fn all_digits(s: Seq<char>) -> bool {
    s.len() > 0 && forall|i: int| 0 <= i < s.len() ==> is_digit(#[trigger] s[i])
}

/// The number that decimal digits stand for.
pub open spec fn number(s: Seq<char>) -> int
    decreases s.len(),
{
    if s.len() == 0 {
        0
    } else {
        number(s.drop_last()) * 10 + (s.last() as int - '0' as int)
    }
}

/// The number that a text stands for: decimal digits, with a sign before them
/// or without.
pub open spec fn signed_number(s: Seq<char>) -> Option<int> {
    if s.len() > 0 && s[0] == '-' {
        if all_digits(s.drop_first()) {
            Some(-number(s.drop_first()))
        } else {
            None
        }
    } else if s.len() > 0 && s[0] == '+' {
        if all_digits(s.drop_first()) {
            Some(number(s.drop_first()))
        } else {
            None
        }
    } else if all_digits(s) {
        Some(number(s))
    } else {
        None
    }
}

/// The number that a text stands for, where it fits.
pub open spec fn parsed(s: Seq<char>, min: int, max: int) -> Option<int> {
    match signed_number(s) {
        Some(n) => if min <= n <= max {
            Some(n)
        } else {
            None
        },
        None => None,
    }
}

proof fn lemma_number_grows(s: Seq<char>, i: int)
    requires
        0 <= i <= s.len(),
        forall|k: int| 0 <= k < s.len() ==> is_digit(#[trigger] s[k]),
    ensures
        0 <= number(s.take(i)) <= number(s),
    decreases s.len() - i,
{
    if i < s.len() {
        lemma_number_grows(s, i + 1);
        assert(s.take(i + 1).drop_last() =~= s.take(i));
        lemma_number_is_natural(s.take(i));
    } else {
        assert(s.take(i) =~= s);
        lemma_number_is_natural(s);
    }
}

proof fn lemma_number_is_natural(s: Seq<char>)
    requires
        forall|k: int| 0 <= k < s.len() ==> is_digit(#[trigger] s[k]),
    ensures
        number(s) >= 0,
    decreases s.len(),
{
    if s.len() > 0 {
        assert forall|k: int| 0 <= k < s.drop_last().len() implies is_digit(
            #[trigger] s.drop_last()[k],
        ) by {
            assert(is_digit(s[k]));
        }
        lemma_number_is_natural(s.drop_last());
        assert(is_digit(s[s.len() - 1]));
    }
}

/// Reads the digits from `from` on; nothing where they are none or too many.
fn read_digits(chars: &Vec<char>, from: usize) -> (r: Option<u64>)
    requires
        from <= chars.len(),
    ensures
        match r {
            Some(n) => all_digits(chars@.skip(from as int)) && n == number(chars@.skip(from as int)),
            None => !all_digits(chars@.skip(from as int)) || number(chars@.skip(from as int))
                > u64::MAX,
        },
{
    let ghost s = chars@.skip(from as int);
    if from == chars.len() {
        return None;
    }
    let mut n: u64 = 0;
    let mut i: usize = from;
    while i < chars.len()
        invariant
            from <= i <= chars.len(),
            s == chars@.skip(from as int),
            n == number(s.take(i - from)),
            forall|k: int| 0 <= k < i - from ==> is_digit(#[trigger] s[k]),
        decreases chars.len() - i,
    {
        let c = chars[i];
        assert(c == s[i - from]);
        if !('0' <= c && c <= '9') {
            assert(!is_digit(s[i - from]));
            return None;
        }
        let d: u64 = c as u64 - 48;
        proof {
            assert(s.take(i - from + 1).drop_last() =~= s.take(i - from));
        }
        if n > (u64::MAX - d) / 10 {
            proof {
                assert(number(s.take(i - from + 1)) > u64::MAX);
                if all_digits(s) {
                    lemma_number_grows(s, i - from + 1);
                }
            }
            return None;
        }
        n = n * 10 + d;
        i += 1;
    }
    proof {
        assert(s.take(i - from) =~= s);
    }
    Some(n)
}

/// Reads a whole number, as `str::parse` does.
pub fn parse_i64(text: &str) -> (r: Option<i64>)
    ensures
        match r {
            Some(n) => parsed(text@, i64::MIN as int, i64::MAX as int) == Some(n as int),
            None => parsed(text@, i64::MIN as int, i64::MAX as int) is None,
        },
{
    let chars = chars_of(text);
    if chars.len() == 0 {
        return None;
    }
    proof {
        assert(chars@.skip(1) =~= chars@.drop_first());
        assert(chars@.skip(0) =~= chars@);
    }
    if chars[0] == '-' {
        match read_digits(&chars, 1) {
            Some(n) => if n < 0x8000_0000_0000_0000 {
                Some(-(n as i64))
            } else if n == 0x8000_0000_0000_0000 {
                Some(i64::MIN)
            } else {
                None
            },
            None => None,
        }
    } else {
        let from: usize = if chars[0] == '+' {
            1
        } else {
            0
        };
        match read_digits(&chars, from) {
            Some(n) => if n < 0x8000_0000_0000_0000 {
                Some(n as i64)
            } else {
                None
            },
            None => None,
        }
    }
}

/// Reads a natural number, as `str::parse` does: a minus is refused even
/// before zero.
pub fn parse_u64(text: &str) -> (r: Option<u64>)
    ensures
        match r {
            Some(n) => text@[0] != '-' && signed_number(text@) == Some(n as int),
            None => text@.len() == 0 || text@[0] == '-' || parsed(text@, 0, u64::MAX as int) is None,
        },
{
    let chars = chars_of(text);
    if chars.len() == 0 || chars[0] == '-' {
        return None;
    }
    proof {
        assert(chars@.skip(1) =~= chars@.drop_first());
        assert(chars@.skip(0) =~= chars@);
    }
    let from: usize = if chars[0] == '+' {
        1
    } else {
        0
    };
    read_digits(&chars, from)
}

/// The text for an artist's key.
pub open spec fn artist_key_text(key: ArtistKeyModel) -> Seq<char> {
    match key {
        ArtistKeyModel::Local(id) => "local-artist:"@ + signed_decimal(id.0 as int),
        ArtistKeyModel::Federation { peer_id, id } => "fed-artist:"@ + peer_id + ":"@ + id,
    }
}

pub fn format_artist_key(key: &ArtistKey) -> (r: String)
    ensures
        r@ == artist_key_text(key@),
{
    match key {
        ArtistKey::Local(id) => {
            let mut r = "local-artist:".to_owned();
            r.push_str(signed_decimal_text(id.get()).as_str());
            r
        },
        ArtistKey::Federation { peer_id, id } => {
            let mut r = "fed-artist:".to_owned();
            r.push_str(peer_id.as_str());
            r.push_str(":");
            r.push_str(id.as_str());
            r
        },
    }
}

/// The text for a release's key.
pub open spec fn release_key_text(key: ReleaseKeyModel) -> Seq<char> {
    match key {
        ReleaseKeyModel::Local(id) => "local-release:"@ + signed_decimal(id.0 as int),
        ReleaseKeyModel::Federation { peer_id, id } => "fed-release:"@ + peer_id + ":"@ + id,
    }
}

pub fn format_release_key(key: &ReleaseKey) -> (r: String)
    ensures
        r@ == release_key_text(key@),
{
    match key {
        ReleaseKey::Local(id) => {
            let mut r = "local-release:".to_owned();
            r.push_str(signed_decimal_text(id.get()).as_str());
            r
        },
        ReleaseKey::Federation { peer_id, id } => {
            let mut r = "fed-release:".to_owned();
            r.push_str(peer_id.as_str());
            r.push_str(":");
            r.push_str(id.as_str());
            r
        },
    }
}

/// The text for a track's key: the local identifier where it has one, else what
/// a peer publishes it as, else its content.
pub open spec fn track_key_text(key: TrackKeyModel) -> Seq<char> {
    match key.local_id {
        Some(id) => "local:"@ + signed_decimal(id.0 as int),
        None => match key.federation_identity {
            Some((peer, item)) => "fed-track:"@ + peer + ":"@ + item + ":"@ + match key.content_id {
                Some(content) => content,
                None => Seq::empty(),
            },
            None => match key.content_id {
                Some(content) => content,
                None => Seq::empty(),
            },
        },
    }
}

pub fn format_track_key(key: &TrackKey) -> (r: String)
    ensures
        r@ == track_key_text(key@),
{
    if let Some(id) = key.local_id() {
        let mut r = "local:".to_owned();
        r.push_str(signed_decimal_text(id.get()).as_str());
        return r;
    }
    if let Some((peer, item)) = key.federation_id() {
        let mut r = "fed-track:".to_owned();
        r.push_str(peer);
        r.push_str(":");
        r.push_str(item);
        r.push_str(":");
        match key.content_id() {
            Some(content) => {
                r.push_str(content.as_str());
            },
            None => {
                proof {
                    assert(r@ + Seq::<char>::empty() =~= r@);
                }
            },
        }
        return r;
    }
    match key.content_id() {
        Some(content) => content.as_str().to_owned(),
        None => String::new(),
    }
}

pub open spec fn starts_with(s: Seq<char>, prefix: Seq<char>) -> bool {
    s.len() >= prefix.len() && s.take(prefix.len() as int) == prefix
}

/// Where a character first occurs, or the length of the text.
pub open spec fn index_of(s: Seq<char>, c: char) -> int
    decreases s.len(),
{
    if s.len() == 0 || s[0] == c {
        0
    } else {
        1 + index_of(s.drop_first(), c)
    }
}

/// The key that a text names.
pub open spec fn read_track_key(s: Seq<char>) -> Option<TrackKeyModel> {
    if starts_with(s, "local:"@) {
        match parsed(s.skip(6), i64::MIN as int, i64::MAX as int) {
            Some(n) => Some(
                TrackKeyModel {
                    local_id: Some(LocalTrackId(n as i64)),
                    content_id: None,
                    federation_identity: None,
                },
            ),
            None => None,
        }
    } else if starts_with(s, "fed-track:"@) {
        let rest = s.skip(10);
        let a = index_of(rest, ':');
        if a == rest.len() {
            None
        } else {
            let tail = rest.skip(a + 1);
            let b = index_of(tail, ':');
            let content = if b < tail.len() {
                tail.skip(b + 1)
            } else {
                Seq::empty()
            };
            Some(
                TrackKeyModel {
                    local_id: None,
                    content_id: if is_content_id(ascii_lower(content)) {
                        Some(ascii_lower(content))
                    } else {
                        None
                    },
                    federation_identity: Some((rest.take(a), tail.take(b))),
                },
            )
        }
    } else if is_content_id(ascii_lower(s)) {
        Some(
            TrackKeyModel {
                local_id: None,
                content_id: Some(ascii_lower(s)),
                federation_identity: None,
            },
        )
    } else {
        None
    }
}

pub(crate) fn has_prefix(chars: &Vec<char>, prefix: &Vec<char>) -> (r: bool)
    ensures
        r == starts_with(chars@, prefix@),
{
    if chars.len() < prefix.len() {
        return false;
    }
    let mut i: usize = 0;
    while i < prefix.len()
        invariant
            i <= prefix.len() <= chars.len(),
            forall|k: int| 0 <= k < i ==> chars@[k] == prefix@[k],
        decreases prefix.len() - i,
    {
        if chars[i] != prefix[i] {
            assert(chars@.take(prefix@.len() as int)[i as int] != prefix@[i as int]);
            return false;
        }
        i += 1;
    }
    assert(chars@.take(prefix@.len() as int) =~= prefix@);
    true
}

proof fn lemma_index_of(s: Seq<char>, c: char, i: int)
    requires
        0 <= i <= s.len(),
        i < s.len() ==> s[i] == c,
        forall|k: int| 0 <= k < i ==> s[k] != c,
    ensures
        index_of(s, c) == i,
    decreases s.len(),
{
    if i > 0 {
        assert forall|k: int| 0 <= k < i - 1 implies s.drop_first()[k] != c by {
            assert(s[k + 1] != c);
        }
        lemma_index_of(s.drop_first(), c, i - 1);
    }
}

/// Where the first colon is from `from` on, or the end.
fn colon_from(chars: &Vec<char>, from: usize) -> (r: usize)
    requires
        from <= chars.len(),
    ensures
        from <= r <= chars.len(),
        r - from == index_of(chars@.skip(from as int), ':'),
{
    let ghost s = chars@.skip(from as int);
    let mut i: usize = from;
    while i < chars.len()
        invariant
            from <= i <= chars.len(),
            s == chars@.skip(from as int),
            forall|k: int| 0 <= k < i - from ==> s[k] != ':',
        decreases chars.len() - i,
    {
        assert(s[i - from] == chars@[i as int]);
        if chars[i] == ':' {
            proof {
                lemma_index_of(s, ':', i - from);
            }
            return i;
        }
        i += 1;
    }
    proof {
        lemma_index_of(s, ':', i - from);
    }
    i
}

/// Reads the key that a text names.
pub fn parse_track_key(value: &str) -> (r: Option<TrackKey>)
    ensures
        opt_view(r) == read_track_key(value@),
{
    let chars = chars_of(value);
    let local = chars_of("local:");
    let federated = chars_of("fed-track:");
    proof {
        reveal_strlit("local:");
        reveal_strlit("fed-track:");
    }
    let len = chars.len();
    if has_prefix(&chars, &local) {
        proof {
            assert(chars@.subrange(6, len as int) =~= chars@.skip(6));
        }
        return match parse_i64(text_of(&chars, 6, len).as_str()) {
            Some(n) => Some(TrackKey::local(LocalTrackId::new(n))),
            None => None,
        };
    }
    if has_prefix(&chars, &federated) {
        let ghost rest = chars@.skip(10);
        let first = colon_from(&chars, 10);
        if first == len {
            return None;
        }
        let ghost a = first - 10;
        let ghost tail = rest.skip(a + 1);
        proof {
            assert(tail =~= chars@.skip(first + 1));
            assert(chars@.subrange(10, first as int) =~= rest.take(a));
        }
        let second = colon_from(&chars, first + 1);
        let ghost b = second - (first + 1);
        let peer = text_of(&chars, 10, first);
        proof {
            assert(chars@.subrange(first + 1, second as int) =~= tail.take(b));
        }
        let item = text_of(&chars, first + 1, second);
        let content = if second < len {
            proof {
                assert(chars@.subrange(second + 1, len as int) =~= tail.skip(b + 1));
            }
            text_of(&chars, second + 1, len)
        } else {
            String::new()
        };
        proof {
            if second == len {
                assert(content@ =~= Seq::empty());
            }
        }
        let content = match ContentId::parse(content.as_str()) {
            Ok(id) => Some(id),
            Err(_) => None,
        };
        return Some(TrackKey::federation(peer, item, content));
    }
    match ContentId::parse(value) {
        Ok(id) => Some(TrackKey::remote(id)),
        Err(_) => None,
    }
}

proof fn lemma_decimal_reads_back(n: nat)
    ensures
        all_digits(decimal(n)),
        number(decimal(n)) == n,
    decreases n,
{
    let s = decimal(n);
    if n < 10 {
        assert(s.drop_last() =~= Seq::empty());
        assert(number(s.drop_last()) == 0);
    } else {
        lemma_decimal_reads_back(n / 10);
        assert(s.drop_last() =~= decimal(n / 10));
        assert forall|i: int| 0 <= i < s.len() implies is_digit(#[trigger] s[i]) by {
            if i < decimal(n / 10).len() {
                assert(is_digit(decimal(n / 10)[i]));
            }
        }
    }
}

/// A number that was written reads as itself.
pub proof fn numbers_read_back(n: i64)
    ensures
        parsed(signed_decimal(n as int), i64::MIN as int, i64::MAX as int) == Some(n as int),
{
    let s = signed_decimal(n as int);
    if n < 0 {
        lemma_decimal_reads_back((-n) as nat);
        assert(s.drop_first() =~= decimal((-n) as nat));
        assert(s[0] == '-');
    } else {
        lemma_decimal_reads_back(n as nat);
        assert(is_digit(s[0]));
    }
}

/// The text of a track's key, handed back, names the track: the key that is
/// read matches the one that was shown, and for keys without a local
/// identifier it is the same. Keys that name nothing have no text, and the
/// parts of a federated key are told apart by colons.
pub proof fn shown_keys_find_their_tracks(key: TrackKeyModel)
    requires
        key.local_id is Some || key.federation_identity is Some || key.content_id is Some,
        key.content_id matches Some(id) ==> is_content_id(id),
        key.federation_identity matches Some((peer, item)) ==> !peer.contains(':')
            && !item.contains(':'),
    ensures
        read_track_key(track_key_text(key)) matches Some(read) && read.matches(key) && (
        key.local_id is None ==> read == key),
{
    reveal_strlit("local:");
    reveal_strlit("fed-track:");
    reveal_strlit(":");
    let s = track_key_text(key);
    if let Some(content) = key.content_id {
        content_ids_are_normalized(content);
    }
    if let Some(id) = key.local_id {
        assert(s.take(6) =~= "local:"@);
        assert(s.skip(6) =~= signed_decimal(id.0 as int));
        numbers_read_back(id.0);
    } else if let Some((peer, item)) = key.federation_identity {
        let content = match key.content_id {
            Some(content) => content,
            None => Seq::empty(),
        };
        assert(s.take(10) =~= "fed-track:"@);
        assert(s[0] == 'f');
        assert(s.take(6)[0] == 'f');
        assert("local:"@[0] == 'l');
        let rest = s.skip(10);
        assert(rest =~= peer + ":"@ + item + ":"@ + content);
        assert forall|k: int| 0 <= k < peer.len() implies rest[k] != ':' by {
            assert(peer.contains(peer[k]));
        }
        lemma_index_of(rest, ':', peer.len() as int);
        assert(rest.take(peer.len() as int) =~= peer);
        let tail = rest.skip(peer.len() as int + 1);
        assert(tail =~= item + ":"@ + content);
        assert forall|k: int| 0 <= k < item.len() implies tail[k] != ':' by {
            assert(item.contains(item[k]));
        }
        lemma_index_of(tail, ':', item.len() as int);
        assert(tail.take(item.len() as int) =~= item);
        assert(tail.skip(item.len() as int + 1) =~= content);
        if key.content_id is None {
            assert(ascii_lower(content).len() == 0);
        }
    } else {
        assert(s[0] == 'b');
        assert(s.take(6)[0] == 'b');
        assert("local:"@[0] == 'l');
        assert(s.take(10)[0] == 'b');
        assert("fed-track:"@[0] == 'f');
    }
}

} // verus!
