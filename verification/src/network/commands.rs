//! The payloads of the commands that the server sends to a device.
use vstd::prelude::*;
use vstd::utf8::encode_utf8;
use crate::net::io::{lemma_string_roundtrip, parse_string, string_frame, ProtocolWriteExt};

verus! {

/// Largest volume level a device accepts, in percent.
pub const MAX_VOLUME_LEVEL: u8 = 100;

/// A command for a device. Commands that name something carry it as a
/// length-prefixed UTF-8 string.
#[derive(Debug)]
pub enum DeviceCommand {
    LaunchApp(String),
    ExecuteShell(String),
    InstallApk(String),
    InstallLocalApk(String),
    UninstallApp(String),
    /// Volume level in percent; larger values are sent as 100.
    SetVolume(u8),
    /// A ping carrying the sender's clock in milliseconds since the Unix
    /// epoch.
    Ping(u64),
    RequestBattery,
    RequestInstalledApps,
    Shutdown,
    GetVolume,
}

/// The big-endian bytes of a 64-bit value.
pub open spec fn u64_be_bytes(v: u64) -> Seq<u8> {
    seq![
        ((v / 0x100000000000000) % 256) as u8,
        ((v / 0x1000000000000) % 256) as u8,
        ((v / 0x10000000000) % 256) as u8,
        ((v / 0x100000000) % 256) as u8,
        ((v / 0x1000000) % 256) as u8,
        ((v / 0x10000) % 256) as u8,
        ((v / 0x100) % 256) as u8,
        (v % 256) as u8,
    ]
}

/// The text a command carries, if any.
pub open spec fn command_text(c: DeviceCommand) -> Option<Seq<char>> {
    match c {
        DeviceCommand::LaunchApp(s) => Some(s@),
        DeviceCommand::ExecuteShell(s) => Some(s@),
        DeviceCommand::InstallApk(s) => Some(s@),
        DeviceCommand::InstallLocalApk(s) => Some(s@),
        DeviceCommand::UninstallApp(s) => Some(s@),
        _ => None,
    }
}

/// The payload of a command.
pub open spec fn command_payload(c: DeviceCommand) -> Seq<u8> {
    match c {
        DeviceCommand::SetVolume(level) => seq![
            if level > MAX_VOLUME_LEVEL {
                MAX_VOLUME_LEVEL
            } else {
                level
            },
        ],
        DeviceCommand::Ping(ms) => u64_be_bytes(ms),
        _ => match command_text(c) {
            Some(t) => string_frame(t),
            None => Seq::empty(),
        },
    }
}

/// The big-endian bytes of `v`.
pub fn u64_to_be(v: u64) -> (b: Vec<u8>)
    ensures
        b@ == u64_be_bytes(v),
{
    let mut b: Vec<u8> = Vec::new();
    b.push(((v / 0x100000000000000) % 256) as u8);
    b.push(((v / 0x1000000000000) % 256) as u8);
    b.push(((v / 0x10000000000) % 256) as u8);
    b.push(((v / 0x100000000) % 256) as u8);
    b.push(((v / 0x1000000) % 256) as u8);
    b.push(((v / 0x10000) % 256) as u8);
    b.push(((v / 0x100) % 256) as u8);
    b.push((v % 256) as u8);
    proof {
        assert(b@ =~= u64_be_bytes(v));
    }
    b
}

impl DeviceCommand {
    /// The command's payload: the carried text framed as a string, the
    /// volume level capped at 100, the ping time in big-endian order, or
    /// nothing.
    pub fn payload(&self) -> (p: Vec<u8>)
        requires
            command_text(*self) matches Some(t) ==> encode_utf8(t).len() <= u32::MAX,
        ensures
            p@ == command_payload(*self),
    {
        match self {
            DeviceCommand::LaunchApp(s) | DeviceCommand::ExecuteShell(s)
            | DeviceCommand::InstallApk(s) | DeviceCommand::InstallLocalApk(s)
            | DeviceCommand::UninstallApp(s) => {
                let mut p: Vec<u8> = Vec::new();
                p.write_string(s.as_str());
                assert(p@ =~= string_frame(s@));
                p
            },
            DeviceCommand::SetVolume(level) => {
                let v = if *level > MAX_VOLUME_LEVEL {
                    MAX_VOLUME_LEVEL
                } else {
                    *level
                };
                let mut p: Vec<u8> = Vec::new();
                p.push(v);
                p
            },
            DeviceCommand::Ping(ms) => u64_to_be(*ms),
            _ => Vec::new(),
        }
    }
}

/// A command that carries text sends it as a string the device reads
/// back: the payload parses as exactly that text, using all of it.
pub proof fn law_text_payload_reads_back(c: DeviceCommand)
    requires
        command_text(c) matches Some(t) ==> encode_utf8(t).len() <= u32::MAX,
    ensures
        command_text(c) matches Some(t) ==> parse_string(command_payload(c)) == Ok::<
            (Seq<char>, nat),
            crate::net::io::PacketReadError,
        >((t, command_payload(c).len())),
{
    if let Some(t) = command_text(c) {
        lemma_string_roundtrip(t, Seq::empty());
        assert(string_frame(t) + Seq::<u8>::empty() =~= string_frame(t));
    }
}

/// A volume command sends one byte: the level, capped at 100.
pub proof fn law_volume_payload(level: u8)
    ensures
        command_payload(DeviceCommand::SetVolume(level)).len() == 1,
        command_payload(DeviceCommand::SetVolume(level))[0] <= 100,
        level <= 100 ==> command_payload(DeviceCommand::SetVolume(level))[0] == level,
        level > 100 ==> command_payload(DeviceCommand::SetVolume(level))[0] == 100,
{
}

/// A ping sends its time as eight bytes, most significant first, from
/// which the time is recovered.
pub proof fn law_ping_payload(ms: u64)
    ensures
        command_payload(DeviceCommand::Ping(ms)).len() == 8,
        ({
            let p = command_payload(DeviceCommand::Ping(ms));
            p[0] as u64 * 0x100000000000000 + p[1] as u64 * 0x1000000000000 + p[2] as u64
                * 0x10000000000 + p[3] as u64 * 0x100000000 + p[4] as u64 * 0x1000000 + p[5] as u64
                * 0x10000 + p[6] as u64 * 0x100 + p[7] as u64 == ms
        }),
{
    let p = command_payload(DeviceCommand::Ping(ms));
    assert(p[0] == ((ms / 0x100000000000000) % 256) as u8);
    assert(p[7] == (ms % 256) as u8);
    assert(((ms / 0x100000000000000) % 256) as u8 as u64 * 0x100000000000000 + ((ms
        / 0x1000000000000) % 256) as u8 as u64 * 0x1000000000000 + ((ms / 0x10000000000) % 256)
        as u8 as u64 * 0x10000000000 + ((ms / 0x100000000) % 256) as u8 as u64 * 0x100000000 + ((ms
        / 0x1000000) % 256) as u8 as u64 * 0x1000000 + ((ms / 0x10000) % 256) as u8 as u64
        * 0x10000 + ((ms / 0x100) % 256) as u8 as u64 * 0x100 + (ms % 256) as u8 as u64 == ms)
        by (bit_vector);
}

} // verus!
