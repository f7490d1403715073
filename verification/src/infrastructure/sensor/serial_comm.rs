//! The device information that a XIAO board reports over its serial port
//! in answer to the `INFO` command, and the retry decisions of reading it.
use vstd::prelude::*;
use crate::infrastructure::sensor::SensorError;
use crate::words::{chars_of, range_equals, range_has_prefix, trim_range, trim_spec};

verus! {

/// The command line that asks a board for its information: `INFO` and a
/// line break.
pub fn info_command() -> (c: &'static str)
    ensures
        c@ == "INFO\n"@,
{
    "INFO\n"
}

/// Baud rate of the board's serial console.
pub const SERIAL_BAUD_RATE: u32 = 115200;

/// `str::to_uppercase` of a string: the Unicode uppercase mapping of each
/// character, concatenated.
pub uninterp spec fn uppercase_spec(s: Seq<char>) -> Seq<char>;

/// The standard library's `str::to_uppercase`. Its result is named by
/// `uppercase_spec`: the same characters give the same result.
#[verifier::external_body]
fn to_uppercase(s: &str) -> (r: String)
    ensures
        r@ == uppercase_spec(s@),
{
    s.to_uppercase()
}

/// Device information read from a sensor.
#[derive(Debug, Clone, Default)]
pub struct SensorInfo {
    /// Hardware serial number (from nRF52840 FICR).
    pub serial_number: Option<String>,
    /// Hardware MAC address.
    pub mac_address: Option<String>,
    /// BLE MAC address.
    pub ble_mac_address: Option<String>,
    /// Current device name (if readable).
    pub device_name: Option<String>,
    /// Firmware version.
    pub firmware_version: Option<String>,
}

/// The fields of a `SensorInfo` as character sequences.
pub struct SensorInfoView {
    pub serial_number: Option<Seq<char>>,
    pub mac_address: Option<Seq<char>>,
    pub ble_mac_address: Option<Seq<char>>,
    pub device_name: Option<Seq<char>>,
    pub firmware_version: Option<Seq<char>>,
}

/// An optional string as characters.
pub open spec fn opt_chars(o: Option<String>) -> Option<Seq<char>> {
    match o {
        Some(s) => Some(s@),
        None => None,
    }
}

impl View for SensorInfo {
    type V = SensorInfoView;

    open spec fn view(&self) -> SensorInfoView {
        SensorInfoView {
            serial_number: opt_chars(self.serial_number),
            mac_address: opt_chars(self.mac_address),
            ble_mac_address: opt_chars(self.ble_mac_address),
            device_name: opt_chars(self.device_name),
            firmware_version: opt_chars(self.firmware_version),
        }
    }
}

/// Nothing known yet.
pub open spec fn empty_info() -> SensorInfoView {
    SensorInfoView {
        serial_number: None,
        mac_address: None,
        ble_mac_address: None,
        device_name: None,
        firmware_version: None,
    }
}

/// The trimmed value after prefix `p` of a trimmed line `t`, if `t` starts
/// with `p`.
pub open spec fn prefixed_value(t: Seq<char>, p: Seq<char>) -> Option<Seq<char>> {
    if p.len() <= t.len() && t.subrange(0, p.len() as int) == p {
        Some(trim_spec(t.subrange(p.len() as int, t.len() as int)))
    } else {
        None
    }
}

/// A hardware identifier value is taken when it is neither empty nor
/// "Not available".
pub open spec fn reported(v: Seq<char>) -> bool {
    v.len() > 0 && v != "Not available"@
}

/// The information after one more response line: a line (trimmed) of the
/// form `Key: value` sets the field of that key when the trimmed value is
/// reported; the hardware identifiers are kept in upper case. Other lines
/// change nothing; a later line overrides an earlier one.
pub open spec fn apply_info_line(info: SensorInfoView, line: Seq<char>) -> SensorInfoView {
    let t = trim_spec(line);
    match prefixed_value(t, "Device Name:"@) {
        Some(v) => if v.len() > 0 {
            SensorInfoView { device_name: Some(v), ..info }
        } else {
            info
        },
        None => match prefixed_value(t, "Firmware:"@) {
            Some(v) => if v.len() > 0 {
                SensorInfoView { firmware_version: Some(v), ..info }
            } else {
                info
            },
            None => match prefixed_value(t, "SERIAL:"@) {
                Some(v) => if reported(v) {
                    SensorInfoView { serial_number: Some(uppercase_spec(v)), ..info }
                } else {
                    info
                },
                None => match prefixed_value(t, "MAC:"@) {
                    Some(v) => if reported(v) {
                        SensorInfoView { mac_address: Some(uppercase_spec(v)), ..info }
                    } else {
                        info
                    },
                    None => match prefixed_value(t, "BLE_MAC:"@) {
                        Some(v) => if reported(v) {
                            SensorInfoView { ble_mac_address: Some(uppercase_spec(v)), ..info }
                        } else {
                            info
                        },
                        None => info,
                    },
                },
            },
        },
    }
}

/// The information from the complete lines of `s`, and the text after the
/// last line break.
pub open spec fn info_scan(s: Seq<char>) -> (SensorInfoView, Seq<char>)
    decreases s.len(),
{
    if s.len() == 0 {
        (empty_info(), Seq::empty())
    } else {
        let (info, cur) = info_scan(s.drop_last());
        if s.last() == '\n' {
            (apply_info_line(info, cur), Seq::empty())
        } else {
            (info, cur.push(s.last()))
        }
    }
}

/// The information in a whole response: each line in turn.
pub open spec fn parse_info_spec(s: Seq<char>) -> SensorInfoView {
    apply_info_line(info_scan(s).0, info_scan(s).1)
}

/// The keys of the response lines, as characters.
struct InfoKeys {
    name: Vec<char>,
    firmware: Vec<char>,
    serial: Vec<char>,
    mac: Vec<char>,
    ble_mac: Vec<char>,
    not_available: Vec<char>,
}

impl InfoKeys {
    spec fn wf(&self) -> bool {
        &&& self.name@ == "Device Name:"@
        &&& self.firmware@ == "Firmware:"@
        &&& self.serial@ == "SERIAL:"@
        &&& self.mac@ == "MAC:"@
        &&& self.ble_mac@ == "BLE_MAC:"@
        &&& self.not_available@ == "Not available"@
    }

    fn new() -> (k: Self)
        ensures
            k.wf(),
    {
        InfoKeys {
            name: chars_of("Device Name:"),
            firmware: chars_of("Firmware:"),
            serial: chars_of("SERIAL:"),
            mac: chars_of("MAC:"),
            ble_mac: chars_of("BLE_MAC:"),
            not_available: chars_of("Not available"),
        }
    }
}

/// The trimmed value after key `p` in the trimmed line `s[a..b]`.
fn value_after(s: &Vec<char>, a: usize, b: usize, p: &Vec<char>) -> (r: Option<(usize, usize)>)
    requires
        a <= b <= s@.len(),
    ensures
        r is None <==> prefixed_value(s@.subrange(a as int, b as int), p@) is None,
        r matches Some((x, y)) ==> x <= y <= s@.len() && Some(s@.subrange(x as int, y as int))
            == prefixed_value(s@.subrange(a as int, b as int), p@),
{
    if range_has_prefix(s, a, b, p) {
        let r = trim_range(s, a + p.len(), b);
        proof {
            let t = s@.subrange(a as int, b as int);
            assert(t.subrange(p@.len() as int, t.len() as int) =~= s@.subrange(
                a + p@.len(),
                b as int,
            ));
        }
        Some(r)
    } else {
        None
    }
}

impl SensorInfo {
    /// Apply the response line `s[a..b]`.
    fn apply_line(&mut self, text: &str, s: &Vec<char>, a: usize, b: usize, keys: &InfoKeys)
        requires
            keys.wf(),
            s@ == text@,
            a <= b <= s@.len(),
        ensures
            final(self)@ == apply_info_line(old(self)@, s@.subrange(a as int, b as int)),
    {
        let (ta, tb) = trim_range(s, a, b);
        proof {
            reveal_strlit("Device Name:");
            reveal_strlit("Firmware:");
            reveal_strlit("SERIAL:");
            reveal_strlit("MAC:");
            reveal_strlit("BLE_MAC:");
            reveal_strlit("Not available");
        }
        if let Some((x, y)) = value_after(s, ta, tb, &keys.name) {
            if x < y {
                self.device_name = Some(text.substring_char(x, y).to_owned());
            }
        } else if let Some((x, y)) = value_after(s, ta, tb, &keys.firmware) {
            if x < y {
                self.firmware_version = Some(text.substring_char(x, y).to_owned());
            }
        } else if let Some((x, y)) = value_after(s, ta, tb, &keys.serial) {
            if x < y && !range_equals(s, x, y, &keys.not_available) {
                self.serial_number = Some(to_uppercase(text.substring_char(x, y)));
            }
        } else if let Some((x, y)) = value_after(s, ta, tb, &keys.mac) {
            if x < y && !range_equals(s, x, y, &keys.not_available) {
                self.mac_address = Some(to_uppercase(text.substring_char(x, y)));
            }
        } else if let Some((x, y)) = value_after(s, ta, tb, &keys.ble_mac) {
            if x < y && !range_equals(s, x, y, &keys.not_available) {
                self.ble_mac_address = Some(to_uppercase(text.substring_char(x, y)));
            }
        }
    }

    /// Read the answer to `INFO`: each line (trimmed) of the form
    /// `Device Name: ..`, `Firmware: ..`, `SERIAL: ..`, `MAC: ..` or
    /// `BLE_MAC: ..` sets that field; other lines are ignored.
    pub fn parse_info_response(response: &str) -> (info: SensorInfo)
        ensures
            info@ == parse_info_spec(response@),
    {
        let keys = InfoKeys::new();
        let s = chars_of(response);
        let mut info = SensorInfo {
            serial_number: None,
            mac_address: None,
            ble_mac_address: None,
            device_name: None,
            firmware_version: None,
        };
        let mut start: usize = 0;
        let mut i: usize = 0;
        while i < s.len()
            invariant
                keys.wf(),
                s@ == response@,
                start <= i <= s@.len(),
                info_scan(s@.subrange(0, i as int)) == (info@, s@.subrange(start as int, i as int)),
            decreases s@.len() - i,
        {
            let ghost before = s@.subrange(0, i as int);
            assert(s@.subrange(0, i + 1).drop_last() =~= before);
            if s[i] == '\n' {
                info.apply_line(response, &s, start, i, &keys);
                start = i + 1;
                assert(s@.subrange(start as int, i + 1) =~= Seq::<char>::empty());
            } else {
                assert(s@.subrange(start as int, i + 1) =~= s@.subrange(start as int, i as int).push(
                    s@[i as int],
                ));
            }
            i = i + 1;
        }
        assert(s@.subrange(0, s@.len() as int) =~= response@);
        info.apply_line(response, &s, start, s.len(), &keys);
        info
    }
}

/// What one attempt at reading the information gave.
#[derive(Debug)]
pub enum InfoAttempt {
    /// The port could not be opened.
    OpenFailed(SensorError),
    /// The port opened but the exchange failed.
    ReadFailed(SensorError),
    /// A response was read and parsed.
    Read(SensorInfo),
}

/// What to do after an attempt.
#[derive(Debug)]
pub enum InfoStep {
    /// Reading is over, with this outcome.
    Done(Result<SensorInfo, SensorError>),
    /// Wait this many seconds and try again.
    RetryAfterSecs(u64),
}

/// An attempt succeeds when it read a serial number.
pub open spec fn attempt_succeeded(outcome: InfoAttempt) -> bool {
    outcome matches InfoAttempt::Read(info) && info.serial_number is Some
}

/// The last error after an attempt: the attempt's own failure, if it
/// failed.
pub open spec fn remembered(last: Option<SensorError>, outcome: InfoAttempt) -> Option<SensorError> {
    match outcome {
        InfoAttempt::OpenFailed(e) => Some(e),
        InfoAttempt::ReadFailed(e) => Some(e),
        InfoAttempt::Read(_) => last,
    }
}

/// The error that ends the reading when no attempt succeeded: the last
/// failure, else a parse error.
pub open spec fn gave_up_with(last: Option<SensorError>, e: SensorError) -> bool {
    match last {
        Some(l) => e == l,
        None => e matches SensorError::ParseError(m) && m@
            == "Could not read device info after retries"@,
    }
}

/// The retry state of reading a board's information: the last error seen.
pub struct InfoRetry {
    last_error: Option<SensorError>,
}

impl View for InfoRetry {
    type V = Option<SensorError>;

    closed spec fn view(&self) -> Option<SensorError> {
        self.last_error
    }
}

impl InfoRetry {
    /// Before the first attempt.
    pub fn new() -> (r: Self)
        ensures
            r@ is None,
    {
        InfoRetry { last_error: None }
    }

    /// The error to report when no attempt succeeded.
    pub fn give_up(self) -> (e: SensorError)
        ensures
            gave_up_with(self@, e),
    {
        match self.last_error {
            Some(e) => e,
            None => {
                proof {
                    reveal_strlit("Could not read device info after retries");
                }
                SensorError::ParseError("Could not read device info after retries".to_owned())
            },
        }
    }

    /// The decision after attempt number `attempt` (from 0) of
    /// `max_retries`: an answer with a serial number ends the reading; a
    /// failure is remembered; another attempt follows after one second,
    /// unless this was the last one.
    pub fn after_attempt(&mut self, attempt: u32, max_retries: u32, outcome: InfoAttempt) -> (step:
        InfoStep)
        requires
            attempt < max_retries,
        ensures
            attempt_succeeded(outcome) ==> (outcome matches InfoAttempt::Read(info) && step
                == InfoStep::Done(Ok(info))),
            !attempt_succeeded(outcome) && attempt + 1 < max_retries ==> step
                == InfoStep::RetryAfterSecs(1) && final(self)@ == remembered(old(self)@, outcome),
            !attempt_succeeded(outcome) && attempt + 1 >= max_retries ==> (step matches InfoStep::Done(Err(e))
                && gave_up_with(remembered(old(self)@, outcome), e)),
    {
        match outcome {
            InfoAttempt::Read(info) => {
                if info.serial_number.is_some() {
                    return InfoStep::Done(Ok(info));
                }
            },
            InfoAttempt::OpenFailed(e) => {
                self.last_error = Some(e);
            },
            InfoAttempt::ReadFailed(e) => {
                self.last_error = Some(e);
            },
        }
        if attempt < max_retries - 1 {
            InfoStep::RetryAfterSecs(1)
        } else {
            let last = InfoRetry { last_error: self.last_error.take() };
            let e = last.give_up();
            InfoStep::Done(Err(e))
        }
    }
}

} // verus!
