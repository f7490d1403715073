//! The in-memory device repository: the connected devices by id, with a
//! secondary index from serial number to id, and a capacity limit.
use vstd::prelude::*;
use dashmap::DashMap;

verus! {

/// `dashmap::DashMap`, a concurrent hash map.
#[verifier::external_type_specification]
#[verifier::external_body]
#[verifier::reject_recursive_types(K)]
#[verifier::reject_recursive_types(V)]
#[verifier::reject_recursive_types(S)]
pub struct ExDashMap<K, V, S>(DashMap<K, V, S>);

/// A connected device as the repository stores it.
#[derive(Debug, Clone)]
pub struct Device {
    pub id: u128,
    pub serial: String,
    pub model: String,
    pub ip_address: String,
    pub custom_name: Option<String>,
    /// The client version the device reported, once it has.
    pub version: Option<String>,
    /// The volume level and the top of the device's volume scale, once
    /// known.
    pub volume: Option<(u8, u8)>,
    /// The battery level in percent and whether it is charging, once
    /// reported.
    pub battery: Option<(u8, bool)>,
    /// The name of the app in the foreground, once reported.
    pub running_app: Option<String>,
}

impl Device {
    /// A device without a custom name, reported version or volume.
    pub fn new(id: u128, serial: String, model: String, ip_address: String) -> (d: Device)
        ensures
            d == (Device {
                id,
                serial,
                model,
                ip_address,
                custom_name: None,
                version: None,
                volume: None,
                battery: None,
                running_app: None,
            }),
    {
        Device {
            id,
            serial,
            model,
            ip_address,
            custom_name: None,
            version: None,
            volume: None,
            battery: None,
            running_app: None,
        }
    }

    /// The same device with a battery report.
    pub fn with_battery(self, level: u8, is_charging: bool) -> (d: Device)
        ensures
            d == (Device { battery: Some((level, is_charging)), ..self }),
    {
        Device { battery: Some((level, is_charging)), ..self }
    }

    /// The same device with the app now in the foreground.
    pub fn with_running_app(self, app_name: String) -> (d: Device)
        ensures
            d == (Device { running_app: Some(app_name), ..self }),
    {
        Device { running_app: Some(app_name), ..self }
    }

    /// The same device with its reported client version.
    pub fn with_version(self, version: String) -> (d: Device)
        ensures
            d == (Device { version: Some(version), ..self }),
    {
        Device { version: Some(version), ..self }
    }

    /// The same device with a volume level on a scale up to `max`.
    pub fn with_volume(self, current: u8, max: u8) -> (d: Device)
        ensures
            d == (Device { volume: Some((current, max)), ..self }),
    {
        Device { volume: Some((current, max)), ..self }
    }

    /// The same device with a custom name set or cleared.
    pub fn with_custom_name(self, name: Option<String>) -> (d: Device)
        ensures
            d == (Device { custom_name: name, ..self }),
    {
        Device { custom_name: name, ..self }
    }

    /// An equal copy of the device.
    pub fn duplicate(&self) -> (d: Device)
        ensures
            d == *self,
    {
        let custom_name = match &self.custom_name {
            Some(n) => Some(n.clone()),
            None => None,
        };
        let version = match &self.version {
            Some(v) => Some(v.clone()),
            None => None,
        };
        let running_app = match &self.running_app {
            Some(a) => Some(a.clone()),
            None => None,
        };
        Device {
            id: self.id,
            serial: self.serial.clone(),
            model: self.model.clone(),
            ip_address: self.ip_address.clone(),
            custom_name,
            version,
            volume: self.volume,
            battery: self.battery,
            running_app,
        }
    }
}

/// What a `DashMap` from device ids to devices holds.
pub uninterp spec fn devices_of(m: DashMap<u128, Device>) -> Map<u128, Device>;

/// What a `DashMap` from serial numbers to device ids holds, keyed by the
/// serial's characters.
pub uninterp spec fn serial_ids_of(m: DashMap<String, u128>) -> Map<Seq<char>, u128>;

/// `DashMap::new` for devices: an empty map.
#[verifier::external_body]
fn new_device_map() -> (m: DashMap<u128, Device>)
    ensures
        devices_of(m) =~= Map::empty(),
{
    DashMap::new()
}

/// `DashMap::new` for the serial index: an empty map.
#[verifier::external_body]
fn new_serial_map() -> (m: DashMap<String, u128>)
    ensures
        serial_ids_of(m) =~= Map::empty(),
{
    DashMap::new()
}

/// `DashMap::len`: the number of entries, summed over the shards.
#[verifier::external_body]
fn device_count(m: &DashMap<u128, Device>) -> (n: usize)
    ensures
        n == devices_of(*m).len(),
{
    m.len()
}

/// `DashMap::contains_key`.
#[verifier::external_body]
fn device_present(m: &DashMap<u128, Device>, id: u128) -> (b: bool)
    ensures
        b == devices_of(*m).contains_key(id),
{
    m.contains_key(&id)
}

/// `DashMap::get`, the found device copied out of the map (by the derived
/// `Clone`, which copies every field).
#[verifier::external_body]
fn device_get(m: &DashMap<u128, Device>, id: u128) -> (r: Option<Device>)
    ensures
        r is Some <==> devices_of(*m).contains_key(id),
        r matches Some(d) ==> d == devices_of(*m)[id],
{
    match m.get(&id) {
        Some(entry) => Some(entry.value().clone()),
        None => None,
    }
}

/// `DashMap::insert`: the entry for `id` is set (replaced if present).
#[verifier::external_body]
fn device_insert(m: &mut DashMap<u128, Device>, id: u128, d: Device)
    ensures
        devices_of(*final(m)) == devices_of(*old(m)).insert(id, d),
{
    m.insert(id, d);
}

/// `DashMap::remove`: the entry for `id` is removed and handed out.
#[verifier::external_body]
fn device_remove(m: &mut DashMap<u128, Device>, id: u128) -> (r: Option<Device>)
    ensures
        devices_of(*final(m)) == devices_of(*old(m)).remove(id),
        r is Some <==> devices_of(*old(m)).contains_key(id),
        r matches Some(d) ==> d == devices_of(*old(m))[id],
{
    match m.remove(&id) {
        Some((_, d)) => Some(d),
        None => None,
    }
}

/// `DashMap::iter`: every entry once, in the map's own order, the devices
/// copied out.
#[verifier::external_body]
fn device_entries(m: &DashMap<u128, Device>) -> (r: Vec<(u128, Device)>)
    ensures
        r@.len() == devices_of(*m).len(),
        forall|i: int|
            0 <= i < r@.len() ==> devices_of(*m).contains_key(#[trigger] r@[i].0) && devices_of(
                *m,
            )[r@[i].0] == r@[i].1,
        forall|i: int, j: int|
            0 <= i < r@.len() && 0 <= j < r@.len() && i != j ==> #[trigger] r@[i].0 != #[trigger] r@[j].0,
{
    let mut out = Vec::new();
    for entry in m.iter() {
        out.push((*entry.key(), entry.value().clone()));
    }
    out
}

/// `DashMap::get` on the serial index.
#[verifier::external_body]
fn serial_get(m: &DashMap<String, u128>, serial: &String) -> (r: Option<u128>)
    ensures
        r is Some <==> serial_ids_of(*m).contains_key(serial@),
        r matches Some(id) ==> id == serial_ids_of(*m)[serial@],
{
    match m.get(serial) {
        Some(entry) => Some(*entry.value()),
        None => None,
    }
}

/// `DashMap::insert` on the serial index.
#[verifier::external_body]
fn serial_insert(m: &mut DashMap<String, u128>, serial: String, id: u128)
    ensures
        serial_ids_of(*final(m)) == serial_ids_of(*old(m)).insert(serial@, id),
{
    m.insert(serial, id);
}

/// `DashMap::remove` on the serial index.
#[verifier::external_body]
fn serial_remove(m: &mut DashMap<String, u128>, serial: &String)
    ensures
        serial_ids_of(*final(m)) == serial_ids_of(*old(m)).remove(serial@),
{
    m.remove(serial);
}

/// Errors of the repositories.
#[derive(Debug, PartialEq, Eq)]
pub enum RepositoryError {
    /// A new device would exceed the repository's capacity.
    CapacityExceeded { current: usize, max: usize },
    IoError(String),
    DatabaseError(String),
    SerializationError(String),
}

/// Default capacity of the repository.
pub const DEFAULT_DEVICE_CAPACITY: usize = 100;

/// The repository's state: the devices by id, the serial index, and the
/// capacity.
pub struct DeviceRepoView {
    pub devices: Map<u128, Device>,
    pub serial_index: Map<Seq<char>, u128>,
    pub max_capacity: usize,
}

/// Both maps are finite, every device is stored under its own id, and
/// every serial in the index leads to a stored device with that serial.
pub open spec fn repo_consistent(v: DeviceRepoView) -> bool {
    &&& v.devices.dom().finite()
    &&& v.serial_index.dom().finite()
    &&& forall|id: u128| #[trigger] v.devices.contains_key(id) ==> v.devices[id].id == id
    &&& forall|s: Seq<char>|
        #[trigger] v.serial_index.contains_key(s) ==> v.devices.contains_key(v.serial_index[s])
            && v.devices[v.serial_index[s]].serial@ == s
}

/// The repository holds no more devices than its capacity.
pub open spec fn within_capacity(v: DeviceRepoView) -> bool {
    v.devices.len() <= v.max_capacity
}

/// The serial index after saving `d`: an existing device's old serial
/// leaves the index when the serial changes, and the new serial leads to
/// `d`.
pub open spec fn index_after_save(v: DeviceRepoView, d: Device) -> Map<Seq<char>, u128> {
    let base = if v.devices.contains_key(d.id) && v.devices[d.id].serial@ != d.serial@ {
        v.serial_index.remove(v.devices[d.id].serial@)
    } else {
        v.serial_index
    };
    base.insert(d.serial@, d.id)
}

/// In-memory device repository: devices by id, a secondary index from
/// serial number to id, and a capacity limit on the number of devices.
pub struct InMemoryDeviceRepository {
    by_id: DashMap<u128, Device>,
    by_serial: DashMap<String, u128>,
    max_capacity: usize,
}

impl View for InMemoryDeviceRepository {
    type V = DeviceRepoView;

    closed spec fn view(&self) -> DeviceRepoView {
        DeviceRepoView {
            devices: devices_of(self.by_id),
            serial_index: serial_ids_of(self.by_serial),
            max_capacity: self.max_capacity,
        }
    }
}

impl InMemoryDeviceRepository {
    #[verifier::type_invariant]
    spec fn inv(self) -> bool {
        repo_consistent(self@) && within_capacity(self@)
    }

    /// An empty repository with the default capacity (100 devices).
    pub fn new() -> (r: Self)
        ensures
            r@.devices == Map::<u128, Device>::empty(),
            r@.serial_index == Map::<Seq<char>, u128>::empty(),
            r@.max_capacity == DEFAULT_DEVICE_CAPACITY,
            repo_consistent(r@),
            within_capacity(r@),
    {
        Self::with_capacity(DEFAULT_DEVICE_CAPACITY)
    }

    /// An empty repository with a given capacity.
    pub fn with_capacity(max_capacity: usize) -> (r: Self)
        ensures
            r@.devices == Map::<u128, Device>::empty(),
            r@.serial_index == Map::<Seq<char>, u128>::empty(),
            r@.max_capacity == max_capacity,
            repo_consistent(r@),
            within_capacity(r@),
    {
        proof {
            assert(Map::<u128, Device>::empty().dom() =~= Set::<u128>::empty());
            assert(Map::<Seq<char>, u128>::empty().dom() =~= Set::<Seq<char>>::empty());
        }
        InMemoryDeviceRepository {
            by_id: new_device_map(),
            by_serial: new_serial_map(),
            max_capacity,
        }
    }

    /// The device with this id.
    pub fn find_by_id(&self, id: u128) -> (r: Option<Device>)
        ensures
            r is Some <==> self@.devices.contains_key(id),
            r matches Some(d) ==> d == self@.devices[id] && d.id == id,
    {
        proof {
            use_type_invariant(self);
        }
        device_get(&self.by_id, id)
    }

    /// The device that the serial index leads to.
    pub fn find_by_serial(&self, serial: &String) -> (r: Option<Device>)
        ensures
            r is Some <==> self@.serial_index.contains_key(serial@),
            r matches Some(d) ==> d == self@.devices[self@.serial_index[serial@]] && d.serial@
                == serial@,
    {
        proof {
            use_type_invariant(self);
        }
        match serial_get(&self.by_serial, serial) {
            Some(id) => device_get(&self.by_id, id),
            None => None,
        }
    }

    /// All devices, each once, in no particular order.
    pub fn find_all(&self) -> (r: Vec<Device>)
        ensures
            r@.len() == self@.devices.len(),
            forall|i: int|
                0 <= i < r@.len() ==> self@.devices.contains_key(#[trigger] r@[i].id)
                    && self@.devices[r@[i].id] == r@[i],
            forall|i: int, j: int|
                0 <= i < r@.len() && 0 <= j < r@.len() && i != j ==> #[trigger] r@[i].id
                    != #[trigger] r@[j].id,
    {
        proof {
            use_type_invariant(self);
        }
        let entries = device_entries(&self.by_id);
        let mut out: Vec<Device> = Vec::new();
        let mut entries = entries;
        let ghost all = entries@;
        let mut rev: Vec<Device> = Vec::new();
        while entries.len() > 0
            invariant
                repo_consistent(self@),
                all.len() == self@.devices.len(),
                forall|i: int|
                    0 <= i < all.len() ==> self@.devices.contains_key(#[trigger] all[i].0)
                        && self@.devices[all[i].0] == all[i].1,
                forall|i: int, j: int|
                    0 <= i < all.len() && 0 <= j < all.len() && i != j ==> #[trigger] all[i].0
                        != #[trigger] all[j].0,
                entries@.len() <= all.len(),
                entries@ == all.subrange(0, entries@.len() as int),
                rev@.len() == all.len() - entries@.len(),
                forall|k: int|
                    0 <= k < rev@.len() ==> #[trigger] rev@[k] == all[all.len() - 1 - k].1,
            decreases entries@.len(),
        {
            let (_, d) = entries.pop().unwrap();
            rev.push(d);
        }
        while rev.len() > 0
            invariant
                rev@.len() + out@.len() == all.len(),
                forall|k: int|
                    0 <= k < rev@.len() ==> #[trigger] rev@[k] == all[all.len() - 1 - k].1,
                forall|k: int| 0 <= k < out@.len() ==> #[trigger] out@[k] == all[k].1,
            decreases rev@.len(),
        {
            let d = rev.pop().unwrap();
            out.push(d);
        }
        proof {
            assert forall|i: int| 0 <= i < out@.len() implies self@.devices.contains_key(
                #[trigger] out@[i].id,
            ) && self@.devices[out@[i].id] == out@[i] by {
                assert(out@[i] == all[i].1);
                assert(self@.devices[all[i].0].id == all[i].0);
            }
            assert forall|i: int, j: int|
                0 <= i < out@.len() && 0 <= j < out@.len() && i != j implies #[trigger] out@[i].id
                != #[trigger] out@[j].id by {
                assert(out@[i] == all[i].1 && out@[j] == all[j].1);
                assert(self@.devices[all[i].0].id == all[i].0);
                assert(self@.devices[all[j].0].id == all[j].0);
            }
        }
        out
    }

    /// The number of devices.
    pub fn count(&self) -> (n: usize)
        ensures
            n == self@.devices.len(),
    {
        device_count(&self.by_id)
    }

    /// Store a device, replacing the one with the same id. A new device is
    /// refused when the repository is at capacity. The serial index then
    /// leads from the device's serial to it; when an existing device's
    /// serial changed, its old serial leaves the index.
    pub fn save(&mut self, device: Device) -> (res: Result<(), RepositoryError>)
        ensures
            !old(self)@.devices.contains_key(device.id) && old(self)@.devices.len()
                >= old(self)@.max_capacity ==> res == Err::<(), RepositoryError>(
                RepositoryError::CapacityExceeded {
                    current: old(self)@.devices.len() as usize,
                    max: old(self)@.max_capacity,
                },
            ) && final(self)@ == old(self)@,
            old(self)@.devices.contains_key(device.id) || old(self)@.devices.len()
                < old(self)@.max_capacity ==> res is Ok && final(self)@ == saved(old(self)@, device)
                && final(self)@.devices.len() == old(self)@.devices.len() + (if old(
                self,
            )@.devices.contains_key(device.id) {
                0int
            } else {
                1int
            }),
            repo_consistent(final(self)@),
            within_capacity(final(self)@),
    {
        proof {
            use_type_invariant(&*self);
        }
        let id = device.id;
        let current = device_count(&self.by_id);
        if !device_present(&self.by_id, id) && current >= self.max_capacity {
            return Err(RepositoryError::CapacityExceeded { current, max: self.max_capacity });
        }
        let ghost v0 = self@;
        let serial = device.serial.clone();
        let mut taken = Self::with_capacity(0);
        std::mem::swap(&mut taken, self);
        proof {
            use_type_invariant(&taken);
        }
        let InMemoryDeviceRepository { mut by_id, mut by_serial, max_capacity } = taken;
        match device_get(&by_id, id) {
            Some(existing) => {
                if existing.serial != serial {
                    serial_remove(&mut by_serial, &existing.serial);
                }
            },
            None => {},
        }
        device_insert(&mut by_id, id, device);
        serial_insert(&mut by_serial, serial, id);
        proof {
            let d = devices_of(by_id);
            let ix = serial_ids_of(by_serial);
            assert(ix =~= index_after_save(v0, device));
            law_save_then_find(v0, device);
            law_save_within_capacity(v0, device);
            assert forall|k: u128| #[trigger] d.contains_key(k) implies d[k].id == k by {
                if k != id {
                    assert(v0.devices.contains_key(k));
                }
            }
            assert forall|s: Seq<char>| #[trigger] ix.contains_key(s) implies d.contains_key(ix[s])
                && d[ix[s]].serial@ == s by {
                if s != device.serial@ {
                    assert(v0.serial_index.contains_key(s));
                    let j = v0.serial_index[s];
                    assert(ix[s] == j);
                    if j == id {
                        assert(v0.devices.contains_key(id));
                        assert(v0.devices[id].serial@ == s);
                    }
                }
            }
        }
        *self = InMemoryDeviceRepository { by_id, by_serial, max_capacity };
        Ok(())
    }

    /// Remove a device and its serial from the index; nothing happens for
    /// an unknown id.
    pub fn remove(&mut self, id: u128) -> (res: Result<(), RepositoryError>)
        ensures
            res is Ok,
            final(self)@ == removed(old(self)@, id),
            repo_consistent(final(self)@),
            within_capacity(final(self)@),
    {
        proof {
            use_type_invariant(&*self);
        }
        let ghost v0 = self@;
        let mut taken = Self::with_capacity(0);
        std::mem::swap(&mut taken, self);
        proof {
            use_type_invariant(&taken);
        }
        let InMemoryDeviceRepository { mut by_id, mut by_serial, max_capacity } = taken;
        match device_remove(&mut by_id, id) {
            Some(d) => {
                serial_remove(&mut by_serial, &d.serial);
            },
            None => {
                assert(devices_of(by_id) =~= v0.devices);
            },
        }
        proof {
            let dm = devices_of(by_id);
            let ix = serial_ids_of(by_serial);
            assert forall|k: u128| #[trigger] dm.contains_key(k) implies dm[k].id == k by {
                assert(v0.devices.contains_key(k));
            }
            assert forall|s: Seq<char>| #[trigger] ix.contains_key(s) implies dm.contains_key(ix[s])
                && dm[ix[s]].serial@ == s by {
                assert(v0.serial_index.contains_key(s));
                let j = v0.serial_index[s];
                if j == id {
                    assert(v0.devices[id].serial@ == s);
                }
            }
        }
        *self = InMemoryDeviceRepository { by_id, by_serial, max_capacity };
        Ok(())
    }
}

/// The state after a successful save of `d`.
pub open spec fn saved(v: DeviceRepoView, d: Device) -> DeviceRepoView {
    DeviceRepoView {
        devices: v.devices.insert(d.id, d),
        serial_index: index_after_save(v, d),
        max_capacity: v.max_capacity,
    }
}

/// The state after removing the device `id`.
pub open spec fn removed(v: DeviceRepoView, id: u128) -> DeviceRepoView {
    if v.devices.contains_key(id) {
        DeviceRepoView {
            devices: v.devices.remove(id),
            serial_index: v.serial_index.remove(v.devices[id].serial@),
            max_capacity: v.max_capacity,
        }
    } else {
        v
    }
}

/// Saving keeps the repository consistent, and the saved device is then
/// found both by its id and by its serial.
pub proof fn law_save_then_find(v: DeviceRepoView, d: Device)
    requires
        repo_consistent(v),
    ensures
        repo_consistent(saved(v, d)),
        saved(v, d).devices.contains_key(d.id),
        saved(v, d).devices[d.id] == d,
        saved(v, d).serial_index.contains_key(d.serial@),
        saved(v, d).devices[saved(v, d).serial_index[d.serial@]] == d,
        saved(v, d).devices.len() == v.devices.len() + (if v.devices.contains_key(d.id) {
            0int
        } else {
            1int
        }),
{
    let w = saved(v, d);
    assert(w.devices.dom() =~= v.devices.dom().insert(d.id));
    let base = if v.devices.contains_key(d.id) && v.devices[d.id].serial@ != d.serial@ {
        v.serial_index.remove(v.devices[d.id].serial@)
    } else {
        v.serial_index
    };
    assert(base.dom().finite()) by {
        if v.devices.contains_key(d.id) && v.devices[d.id].serial@ != d.serial@ {
            assert(base.dom() =~= v.serial_index.dom().remove(v.devices[d.id].serial@));
        }
    }
    assert(w.serial_index.dom() =~= base.dom().insert(d.serial@));
    assert forall|s: Seq<char>| #[trigger] w.serial_index.contains_key(s) implies w.devices.contains_key(
        w.serial_index[s],
    ) && w.devices[w.serial_index[s]].serial@ == s by {
        if s != d.serial@ {
            let j = v.serial_index[s];
            if j == d.id {
                assert(v.devices[d.id].serial@ == s);
            }
        }
    }
}

/// Removing keeps the repository consistent, and the removed device is
/// then found neither by its id nor by its serial.
pub proof fn law_remove_then_absent(v: DeviceRepoView, id: u128)
    requires
        repo_consistent(v),
    ensures
        repo_consistent(removed(v, id)),
        !removed(v, id).devices.contains_key(id),
        removed(v, id).devices.len() == v.devices.len() - (if v.devices.contains_key(id) {
            1int
        } else {
            0int
        }),
        forall|s: Seq<char>|
            #[trigger] removed(v, id).serial_index.contains_key(s) ==> removed(
                v,
                id,
            ).serial_index[s] != id,
{
    let w = removed(v, id);
    if v.devices.contains_key(id) {
        assert(w.devices.dom() =~= v.devices.dom().remove(id));
        assert(w.serial_index.dom() =~= v.serial_index.dom().remove(v.devices[id].serial@));
        assert forall|s: Seq<char>| #[trigger] w.serial_index.contains_key(s) implies w.devices.contains_key(
            w.serial_index[s],
        ) && w.devices[w.serial_index[s]].serial@ == s && w.serial_index[s] != id by {
            let j = v.serial_index[s];
            if j == id {
                assert(v.devices[id].serial@ == s);
            }
        }
    } else {
        assert forall|s: Seq<char>| #[trigger] w.serial_index.contains_key(s) implies w.serial_index[s]
            != id by {
            assert(v.devices.contains_key(v.serial_index[s]));
        }
    }
}

/// A save that the repository accepts (the device is known, or there is
/// room for a new one) keeps it within its capacity; so does a removal.
pub proof fn law_save_within_capacity(v: DeviceRepoView, d: Device)
    requires
        repo_consistent(v),
        within_capacity(v),
        v.devices.contains_key(d.id) || v.devices.len() < v.max_capacity,
    ensures
        within_capacity(saved(v, d)),
        within_capacity(removed(v, d.id)),
{
    law_save_then_find(v, d);
    law_remove_then_absent(v, d.id);
}

} // verus!
