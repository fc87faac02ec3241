//! What the program says of itself, and what it makes of the machine it runs on.
use crate::api::{BuildInfoModel, BuildInfoSnapshot, VersionEntryModel, VersionEntrySnapshot};
use crate::clock::since_epoch;
use crate::streaming::AUDIO_PROTOCOL_VERSION;
use crate::text::{chars_of, decimal, decimal_text, text_of};
use crate::views::views;
use vstd::prelude::*;

verus! {

broadcast use crate::views::group_views;

/// Which versions the program was built from.
#[derive(Debug, Clone, Copy, PartialEq)]
pub struct SoftwareVersions<'a> {
    pub desktop: &'a str,
    pub library: &'a str,
    pub music_dht: &'a str,
    pub federation_net: &'a str,
}

/// Which versions of the protocols the network part speaks, where it says so.
#[derive(Debug, Clone, Copy, PartialEq, Eq, Structural)]
pub struct ProtocolVersions {
    pub federation_net: Option<u16>,
    pub ticket: Option<u16>,
    pub rendezvous: Option<u16>,
    pub music_dht: Option<u16>,
    pub catalog: Option<u16>,
    pub device_sync: Option<u16>,
}

pub open spec fn entry_of(name: Seq<char>, version: Seq<char>) -> VersionEntryModel {
    VersionEntryModel { name, version }
}

pub open spec fn protocol_entry(name: Seq<char>, version: Option<u16>) -> VersionEntryModel {
    entry_of(
        name,
        match version {
            Some(v) => decimal(v as nat),
            None => "unknown"@,
        },
    )
}

pub open spec fn build_info(
    software: SoftwareVersions<'_>,
    protocols: ProtocolVersions,
) -> BuildInfoModel {
    BuildInfoModel {
        software: seq![
            entry_of("furumi-desktop"@, software.desktop@),
            entry_of("furumi-library"@, software.library@),
            entry_of("music-dht"@, software.music_dht@),
            entry_of("federation-net"@, software.federation_net@),
        ],
        protocols: seq![
            protocol_entry("Federation transport"@, protocols.federation_net),
            protocol_entry("Peer ticket"@, protocols.ticket),
            protocol_entry("Rendezvous"@, protocols.rendezvous),
            protocol_entry("Music DHT"@, protocols.music_dht),
            protocol_entry("Catalog"@, protocols.catalog),
            protocol_entry("Audio transfer"@, Some(AUDIO_PROTOCOL_VERSION)),
            entry_of(
                "Connected devices"@,
                decimal(
                    match protocols.device_sync {
                        Some(v) => v as nat,
                        None => 0,
                    },
                ) + " · accepts v1"@,
            ),
        ],
    }
}

fn entry(name: &str, version: &str) -> (r: VersionEntrySnapshot)
    ensures
        r@ == entry_of(name@, version@),
{
    VersionEntrySnapshot { name: name.to_owned(), version: version.to_owned() }
}

fn protocol(name: &str, version: Option<u16>) -> (r: VersionEntrySnapshot)
    ensures
        r@ == protocol_entry(name@, version),
{
    match version {
        Some(v) => VersionEntrySnapshot { name: name.to_owned(), version: decimal_text(v as u64) },
        None => entry(name, "unknown"),
    }
}

/// What is shown of the program's parts.
pub fn runtime_build_info(software: SoftwareVersions<'_>, protocols: ProtocolVersions) -> (r:
    BuildInfoSnapshot)
    ensures
        r@ == build_info(software, protocols),
{
    let mut parts: Vec<VersionEntrySnapshot> = Vec::new();
    parts.push(entry("furumi-desktop", software.desktop));
    parts.push(entry("furumi-library", software.library));
    parts.push(entry("music-dht", software.music_dht));
    parts.push(entry("federation-net", software.federation_net));
    let mut spoken: Vec<VersionEntrySnapshot> = Vec::new();
    spoken.push(protocol("Federation transport", protocols.federation_net));
    spoken.push(protocol("Peer ticket", protocols.ticket));
    spoken.push(protocol("Rendezvous", protocols.rendezvous));
    spoken.push(protocol("Music DHT", protocols.music_dht));
    spoken.push(protocol("Catalog", protocols.catalog));
    spoken.push(protocol("Audio transfer", Some(AUDIO_PROTOCOL_VERSION)));
    let device_sync: u16 = match protocols.device_sync {
        Some(v) => v,
        None => 0,
    };
    let mut devices = decimal_text(device_sync as u64);
    devices.push_str(" · accepts v1");
    spoken.push(entry("Connected devices", devices.as_str()));
    let r = BuildInfoSnapshot { software: parts, protocols: spoken };
    proof {
        assert(r@.software =~= build_info(software, protocols).software);
        assert(r@.protocols =~= build_info(software, protocols).protocols);
    }
    r
}

/// The milliseconds of a moment after the epoch; before it there are none, and
/// none are counted beyond the largest number.
pub open spec fn milliseconds_at(since: Option<(u64, u32)>) -> int {
    match since {
        Some((secs, nanos)) => {
            let ms = secs * 1000 + nanos / 1_000_000;
            if ms > i64::MAX {
                i64::MAX as int
            } else {
                ms
            }
        },
        None => 0,
    }
}

pub fn milliseconds_of(since: Option<(u64, u32)>) -> (r: i64)
    ensures
        r == milliseconds_at(since),
{
    match since {
        Some((secs, nanos)) => {
            let ms: u128 = secs as u128 * 1000 + (nanos / 1_000_000) as u128;
            if ms > i64::MAX as u128 {
                i64::MAX
            } else {
                ms as i64
            }
        },
        None => 0,
    }
}

/// The milliseconds since the epoch by the clock of the machine, which nothing
/// else is said of.
pub fn unix_time_ms() -> (r: i64)
    ensures
        r >= 0,
{
    milliseconds_of(since_epoch())
}

/// A path below a directory, with `/` between the two where the directory does
/// not end in one. A path from the root stands for itself.
pub open spec fn path_below(directory: Seq<char>, rest: Seq<char>) -> Seq<char> {
    if rest.len() > 0 && rest[0] == '/' {
        rest
    } else if directory.len() == 0 || directory.last() == '/' {
        directory + rest
    } else {
        directory.push('/') + rest
    }
}

/// A path that starts at the home directory, written out.
pub open spec fn from_home(value: Seq<char>, home: Option<Seq<char>>) -> Seq<char> {
    match home {
        None => value,
        Some(home) => if value == seq!['~'] {
            home
        } else if value.len() >= 2 && value[0] == '~' && value[1] == '/' {
            path_below(home, value.skip(2))
        } else {
            value
        },
    }
}

/// Writes a path out that starts at the home directory; where no home directory
/// is known, it stays as it is.
pub fn expand_tilde(value: &str, home: Option<&str>) -> (r: String)
    ensures
        r@ == from_home(
            value@,
            match home {
                Some(home) => Some(home@),
                None => None,
            },
        ),
{
    let Some(home) = home else {
        return value.to_owned();
    };
    let chars = chars_of(value);
    if chars.len() == 0 || chars[0] != '~' {
        return value.to_owned();
    }
    if chars.len() == 1 {
        assert(value@ =~= seq!['~']);
        return home.to_owned();
    }
    if chars[1] != '/' {
        return value.to_owned();
    }
    let rest = text_of(&chars, 2, chars.len());
    assert(rest@ =~= value@.skip(2));
    if chars.len() > 2 && chars[2] == '/' {
        return rest;
    }
    let parts = chars_of(home);
    let mut r = home.to_owned();
    if parts.len() > 0 && parts[parts.len() - 1] != '/' {
        r.push('/');
    }
    r.push_str(rest.as_str());
    r
}

/// A path that does not start at the home directory stays as it is.
pub proof fn other_paths_stay(value: Seq<char>, home: Option<Seq<char>>)
    requires
        value.len() == 0 || value[0] != '~',
    ensures
        from_home(value, home) == value,
{
    if value == seq!['~'] {
        assert(value[0] == '~');
    }
}

} // verus!
