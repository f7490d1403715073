//! USB device detection for XIAO BLE nRF52840 boards: which serial ports
//! are XIAO boards, and in which mode.
use vstd::prelude::*;
use crate::infrastructure::sensor::{SensorError, XIAO_BOOTLOADER_PID, XIAO_NORMAL_PID, XIAO_VID};

verus! {

/// Operating mode of a XIAO board.
#[derive(Debug, Clone, Copy, PartialEq, Eq, Structural)]
pub enum XiaoMode {
    /// Normal application mode: serial communication available.
    Normal,
    /// DFU bootloader mode: serial DFU upload available.
    Bootloader,
}

/// A detected XIAO port.
#[derive(Debug)]
pub struct XiaoPort {
    /// Serial port path (e.g. "/dev/ttyACM0" or "COM3").
    pub port: String,
    /// Operating mode.
    pub mode: XiaoMode,
}

/// A serial port as the operating system lists it: its name, and the USB
/// vendor and product ids when it is a USB port.
#[derive(Debug)]
pub struct SerialPortListing {
    pub port_name: String,
    pub usb_ids: Option<(u16, u16)>,
}

/// The mode of a USB device with these ids, if it is a XIAO board.
pub open spec fn xiao_mode_of(vid: u16, pid: u16) -> Option<XiaoMode> {
    if vid != XIAO_VID {
        None
    } else if pid == XIAO_NORMAL_PID {
        Some(XiaoMode::Normal)
    } else if pid == XIAO_BOOTLOADER_PID {
        Some(XiaoMode::Bootloader)
    } else {
        None
    }
}

/// The mode of a listed port, if it is a XIAO board.
pub open spec fn listing_mode(l: SerialPortListing) -> Option<XiaoMode> {
    match l.usb_ids {
        Some((vid, pid)) => xiao_mode_of(vid, pid),
        None => None,
    }
}

/// The XIAO boards among `ports`, in order.
pub open spec fn xiao_ports_spec(ports: Seq<SerialPortListing>) -> Seq<(Seq<char>, XiaoMode)>
    decreases ports.len(),
{
    if ports.len() == 0 {
        Seq::empty()
    } else {
        let rest = xiao_ports_spec(ports.drop_last());
        match listing_mode(ports.last()) {
            Some(m) => rest.push((ports.last().port_name@, m)),
            None => rest,
        }
    }
}

/// The ports of `ports` in `mode`, in order.
pub open spec fn ports_in_mode(ports: Seq<(Seq<char>, XiaoMode)>, mode: XiaoMode) -> Seq<Seq<char>>
    decreases ports.len(),
{
    if ports.len() == 0 {
        Seq::empty()
    } else {
        let rest = ports_in_mode(ports.drop_last(), mode);
        if ports.last().1 == mode {
            rest.push(ports.last().0)
        } else {
            rest
        }
    }
}

/// Ports with their modes, as names and modes.
pub open spec fn ports_view(ports: Seq<XiaoPort>) -> Seq<(Seq<char>, XiaoMode)> {
    ports.map_values(|p: XiaoPort| (p.port@, p.mode))
}

/// Detects connected XIAO BLE nRF52840 boards.
pub struct XiaoDetector;

impl XiaoDetector {
    /// The mode of a USB device, if it is a XIAO board.
    pub fn classify(vid: u16, pid: u16) -> (m: Option<XiaoMode>)
        ensures
            m == xiao_mode_of(vid, pid),
    {
        if vid != XIAO_VID {
            None
        } else if pid == XIAO_NORMAL_PID {
            Some(XiaoMode::Normal)
        } else if pid == XIAO_BOOTLOADER_PID {
            Some(XiaoMode::Bootloader)
        } else {
            None
        }
    }

    /// All XIAO boards among the listed serial ports, in listing order.
    pub fn find_all(ports: Vec<SerialPortListing>) -> (found: Vec<XiaoPort>)
        ensures
            ports_view(found@) == xiao_ports_spec(ports@),
    {
        let ghost all = ports@;
        let mut ports = ports;
        let mut rev: Vec<XiaoPort> = Vec::new();
        // take ports from the back, then restore listing order
        while ports.len() > 0
            invariant
                ports@.len() <= all.len(),
                ports@ == all.subrange(0, ports@.len() as int),
                xiao_ports_spec(all) == xiao_ports_spec(ports@) + ports_view(rev@).reverse(),
            decreases ports@.len(),
        {
            let ghost before = ports@;
            let listing = ports.pop().unwrap();
            assert(before.drop_last() =~= ports@);
            match listing.usb_ids {
                Some((vid, pid)) => match Self::classify(vid, pid) {
                    Some(mode) => {
                        let ghost old_rev = ports_view(rev@);
                        rev.push(XiaoPort { port: listing.port_name, mode });
                        assert(ports_view(rev@) =~= old_rev.push((listing.port_name@, mode)));
                        assert(ports_view(rev@).reverse() =~= seq![(listing.port_name@, mode)]
                            + old_rev.reverse());
                    },
                    None => {},
                },
                None => {},
            }
        }
        let mut found: Vec<XiaoPort> = Vec::new();
        while rev.len() > 0
            invariant
                xiao_ports_spec(all) == ports_view(found@) + ports_view(rev@).reverse(),
            decreases rev@.len(),
        {
            let ghost old_rev = ports_view(rev@);
            let ghost old_found = ports_view(found@);
            let p = rev.pop().unwrap();
            found.push(p);
            assert(ports_view(found@) =~= old_found.push(old_rev.last()));
            assert(old_rev.reverse() =~= seq![old_rev.last()] + ports_view(rev@).reverse());
        }
        assert(ports_view(found@) =~= ports_view(found@) + ports_view(rev@).reverse());
        found
    }

    /// The boards in `mode`, in order.
    fn find_in_mode(all: Vec<XiaoPort>, mode: XiaoMode) -> (normal: Vec<XiaoPort>)
        ensures
            forall|i: int| 0 <= i < normal@.len() ==> #[trigger] normal@[i].mode == mode,
            normal@.map_values(|p: XiaoPort| p.port@) == ports_in_mode(
                ports_view(all@),
                mode,
            ),
    {
        let ghost all_view = ports_view(all@);
        let n = all.len();
        let mut all = all;
        let mut rev: Vec<XiaoPort> = Vec::new();
        while all.len() > 0
            invariant
                all@.len() <= n,
                ports_view(all@) == all_view.subrange(0, all@.len() as int),
                all_view.len() == n,
                forall|i: int| 0 <= i < rev@.len() ==> #[trigger] rev@[i].mode == mode,
                ports_in_mode(all_view, mode) == ports_in_mode(
                    ports_view(all@),
                    mode,
                ) + rev@.map_values(|p: XiaoPort| p.port@).reverse(),
            decreases all@.len(),
        {
            let ghost before = ports_view(all@);
            let p = all.pop().unwrap();
            assert(before.drop_last() =~= ports_view(all@));
            assert(before.last() == (p.port@, p.mode));
            if p.mode == mode {
                let ghost old_rev = rev@.map_values(|q: XiaoPort| q.port@);
                rev.push(p);
                assert(rev@.map_values(|q: XiaoPort| q.port@) =~= old_rev.push(p.port@));
                assert(rev@.map_values(|q: XiaoPort| q.port@).reverse() =~= seq![p.port@]
                    + old_rev.reverse());
            }
        }
        let mut normal: Vec<XiaoPort> = Vec::new();
        assert(ports_in_mode(ports_view(all@), mode) =~= Seq::<Seq<char>>::empty());
        while rev.len() > 0
            invariant
                forall|i: int| 0 <= i < rev@.len() ==> #[trigger] rev@[i].mode == mode,
                forall|i: int|
                    0 <= i < normal@.len() ==> #[trigger] normal@[i].mode == mode,
                ports_in_mode(all_view, mode) == normal@.map_values(
                    |p: XiaoPort| p.port@,
                ) + rev@.map_values(|p: XiaoPort| p.port@).reverse(),
            decreases rev@.len(),
        {
            let ghost old_rev = rev@.map_values(|q: XiaoPort| q.port@);
            let ghost old_normal = normal@.map_values(|q: XiaoPort| q.port@);
            let p = rev.pop().unwrap();
            normal.push(p);
            assert(normal@.map_values(|q: XiaoPort| q.port@) =~= old_normal.push(old_rev.last()));
            assert(old_rev.reverse() =~= seq![old_rev.last()] + rev@.map_values(
                |q: XiaoPort| q.port@,
            ).reverse());
        }
        assert(normal@.map_values(|q: XiaoPort| q.port@) =~= normal@.map_values(
            |q: XiaoPort| q.port@,
        ) + rev@.map_values(|q: XiaoPort| q.port@).reverse());
        normal
    }

    /// The boards in normal (application) mode, in order.
    pub fn find_normal(all: Vec<XiaoPort>) -> (normal: Vec<XiaoPort>)
        ensures
            forall|i: int| 0 <= i < normal@.len() ==> #[trigger] normal@[i].mode == XiaoMode::Normal,
            normal@.map_values(|p: XiaoPort| p.port@) == ports_in_mode(
                ports_view(all@),
                XiaoMode::Normal,
            ),
    {
        Self::find_in_mode(all, XiaoMode::Normal)
    }

    /// The first board in bootloader mode, if there is one.
    pub fn find_bootloader(all: Vec<XiaoPort>) -> (res: Option<XiaoPort>)
        ensures
            res is None <==> ports_in_mode(ports_view(all@), XiaoMode::Bootloader).len() == 0,
            res matches Some(p) ==> p.mode == XiaoMode::Bootloader && p.port@ == ports_in_mode(
                ports_view(all@),
                XiaoMode::Bootloader,
            )[0],
    {
        let mut found = Self::find_in_mode(all, XiaoMode::Bootloader);
        if found.len() == 0 {
            proof {
                assert(found@.map_values(|q: XiaoPort| q.port@).len() == 0);
            }
            return None;
        }
        let ghost names = found@.map_values(|q: XiaoPort| q.port@);
        let first = found.remove(0);
        assert(names[0] == first.port@);
        Some(first)
    }

    /// The first board in normal mode, or `NoDeviceFound`.
    pub fn find_first(all: Vec<XiaoPort>) -> (res: Result<XiaoPort, SensorError>)
        ensures
            ports_in_mode(ports_view(all@), XiaoMode::Normal).len() == 0 ==> res == Err::<
                XiaoPort,
                SensorError,
            >(SensorError::NoDeviceFound),
            ports_in_mode(ports_view(all@), XiaoMode::Normal).len() > 0 ==> (res matches Ok(p)
                && p.mode == XiaoMode::Normal && p.port@ == ports_in_mode(
                ports_view(all@),
                XiaoMode::Normal,
            )[0]),
    {
        let mut normal = Self::find_normal(all);
        if normal.len() == 0 {
            proof {
                assert(normal@.map_values(|q: XiaoPort| q.port@).len() == 0);
            }
            return Err(SensorError::NoDeviceFound);
        }
        let ghost names = normal@.map_values(|q: XiaoPort| q.port@);
        let first = normal.remove(0);
        assert(names[0] == first.port@);
        Ok(first)
    }
}

} // verus!
