//! Custom display names of devices, keyed by serial number.
use vstd::prelude::*;

verus! {

/// Custom device names by serial number.
pub struct DeviceNamesStore {
    entries: Vec<(String, String)>,
}

/// The entries' keys are pairwise distinct.
pub open spec fn keys_unique(e: Seq<(String, String)>) -> bool {
    forall|i: int, j: int|
        0 <= i < e.len() && 0 <= j < e.len() && i != j ==> #[trigger] e[i].0@ != #[trigger] e[j].0@
}

/// Some entry has key `k`.
pub open spec fn has_key(e: Seq<(String, String)>, k: Seq<char>) -> bool {
    exists|i: int| 0 <= i < e.len() && #[trigger] e[i].0@ == k
}

/// The map that a list of entries with distinct keys stands for.
pub open spec fn entries_map(e: Seq<(String, String)>) -> Map<Seq<char>, Seq<char>> {
    Map::new(
        |k: Seq<char>| has_key(e, k),
        |k: Seq<char>| e[choose|i: int| 0 <= i < e.len() && #[trigger] e[i].0@ == k].1@,
    )
}

proof fn lemma_entries_map_at(e: Seq<(String, String)>, i: int)
    requires
        keys_unique(e),
        0 <= i < e.len(),
    ensures
        entries_map(e).contains_key(e[i].0@),
        entries_map(e)[e[i].0@] == e[i].1@,
{
    let k = e[i].0@;
    assert(has_key(e, k));
    let j = choose|j: int| 0 <= j < e.len() && #[trigger] e[j].0@ == k;
    assert(j == i);
}

impl View for DeviceNamesStore {
    type V = Map<Seq<char>, Seq<char>>;

    closed spec fn view(&self) -> Map<Seq<char>, Seq<char>> {
        entries_map(self.entries@)
    }
}

impl DeviceNamesStore {
    #[verifier::type_invariant]
    spec fn inv(self) -> bool {
        keys_unique(self.entries@)
    }

    /// An empty store.
    pub fn new() -> (s: Self)
        ensures
            s@ == Map::<Seq<char>, Seq<char>>::empty(),
    {
        let s = DeviceNamesStore { entries: Vec::new() };
        assert(s@ =~= Map::<Seq<char>, Seq<char>>::empty());
        s
    }

    /// Position of the entry for `serial`.
    fn index_of(&self, serial: &str) -> (res: Option<usize>)
        ensures
            res matches Some(i) ==> i < self.entries@.len() && self.entries@[i as int].0@
                == serial@,
            res is None ==> !has_key(self.entries@, serial@),
    {
        let key = serial.to_owned();
        let mut i: usize = 0;
        while i < self.entries.len()
            invariant
                key@ == serial@,
                i <= self.entries@.len(),
                forall|j: int| 0 <= j < i ==> #[trigger] self.entries@[j].0@ != serial@,
            decreases self.entries@.len() - i,
        {
            if self.entries[i].0 == key {
                return Some(i);
            }
            i = i + 1;
        }
        None
    }

    /// The custom name of `serial`, if one is set.
    pub fn get_name(&self, serial: &str) -> (res: Option<String>)
        ensures
            res is Some <==> self@.contains_key(serial@),
            res matches Some(n) ==> n@ == self@[serial@],
    {
        proof {
            use_type_invariant(self);
        }
        match self.index_of(serial) {
            Some(i) => {
                proof {
                    lemma_entries_map_at(self.entries@, i as int);
                }
                Some(self.entries[i].1.clone())
            },
            None => None,
        }
    }

    /// Set the custom name of `serial`.
    pub fn set_name(&mut self, serial: String, name: String)
        ensures
            final(self)@ == old(self)@.insert(serial@, name@),
    {
        proof {
            use_type_invariant(&*self);
        }
        let ghost old_entries = self.entries@;
        let found = self.index_of(serial.as_str());
        let ghost k = serial@;
        let ghost v = name@;
        match found {
            Some(i) => {
                let mut entries: Vec<(String, String)> = Vec::new();
                std::mem::swap(&mut entries, &mut self.entries);
                entries.set(i, (serial, name));
                proof {
                    assert(keys_unique(entries@));
                }
                self.entries = entries;
                proof {
                    let e = self.entries@;
                    assert forall|key: Seq<char>|
                        #![auto]
                        entries_map(e).contains_key(key) <==> entries_map(old_entries).insert(
                            k,
                            v,
                        ).contains_key(key) by {
                        if has_key(e, key) {
                            let j = choose|j: int| 0 <= j < e.len() && #[trigger] e[j].0@ == key;
                            if j != i {
                                assert(old_entries[j].0@ == key);
                            }
                        }
                        if has_key(old_entries, key) {
                            let j = choose|j: int|
                                0 <= j < old_entries.len() && #[trigger] old_entries[j].0@ == key;
                            if j != i {
                                assert(e[j].0@ == key);
                            } else {
                                assert(e[i as int].0@ == k);
                            }
                        }
                        if key == k {
                            assert(e[i as int].0@ == k);
                        }
                    }
                    assert forall|key: Seq<char>|
                        entries_map(e).contains_key(key) implies #[trigger] entries_map(e)[key]
                        == entries_map(old_entries).insert(k, v)[key] by {
                        let j = choose|j: int| 0 <= j < e.len() && #[trigger] e[j].0@ == key;
                        lemma_entries_map_at(e, j);
                        if j != i {
                            lemma_entries_map_at(old_entries, j);
                        }
                    }
                    assert(entries_map(e) =~= entries_map(old_entries).insert(k, v));
                }
            },
            None => {
                let mut entries: Vec<(String, String)> = Vec::new();
                std::mem::swap(&mut entries, &mut self.entries);
                entries.push((serial, name));
                proof {
                    assert(keys_unique(entries@)) by {
                        assert forall|a: int, b: int|
                            0 <= a < entries@.len() && 0 <= b < entries@.len() && a != b
                                implies #[trigger] entries@[a].0@ != #[trigger] entries@[b].0@ by {
                            if a == old_entries.len() as int {
                                assert(old_entries[b].0@ != k);
                            } else if b == old_entries.len() as int {
                                assert(old_entries[a].0@ != k);
                            }
                        }
                    }
                }
                self.entries = entries;
                proof {
                    let e = self.entries@;
                    let n = old_entries.len() as int;
                    assert forall|key: Seq<char>|
                        #![auto]
                        entries_map(e).contains_key(key) <==> entries_map(old_entries).insert(
                            k,
                            v,
                        ).contains_key(key) by {
                        if has_key(e, key) {
                            let j = choose|j: int| 0 <= j < e.len() && #[trigger] e[j].0@ == key;
                            if j != n {
                                assert(old_entries[j].0@ == key);
                            }
                        }
                        if has_key(old_entries, key) {
                            let j = choose|j: int|
                                0 <= j < old_entries.len() && #[trigger] old_entries[j].0@ == key;
                            assert(e[j].0@ == key);
                        }
                        if key == k {
                            assert(e[n].0@ == k);
                        }
                    }
                    assert forall|key: Seq<char>|
                        entries_map(e).contains_key(key) implies #[trigger] entries_map(e)[key]
                        == entries_map(old_entries).insert(k, v)[key] by {
                        let j = choose|j: int| 0 <= j < e.len() && #[trigger] e[j].0@ == key;
                        lemma_entries_map_at(e, j);
                        if j != n {
                            lemma_entries_map_at(old_entries, j);
                        }
                    }
                    assert(entries_map(e) =~= entries_map(old_entries).insert(k, v));
                }
            },
        }
    }

    /// Remove the custom name of `serial`.
    pub fn remove_name(&mut self, serial: &str)
        ensures
            final(self)@ == old(self)@.remove(serial@),
    {
        proof {
            use_type_invariant(&*self);
        }
        let ghost old_entries = self.entries@;
        let ghost k = serial@;
        match self.index_of(serial) {
            Some(i) => {
                let mut entries: Vec<(String, String)> = Vec::new();
                std::mem::swap(&mut entries, &mut self.entries);
                entries.remove(i);
                proof {
                    assert(keys_unique(entries@)) by {
                        assert forall|a: int, b: int|
                            0 <= a < entries@.len() && 0 <= b < entries@.len() && a != b
                                implies #[trigger] entries@[a].0@ != #[trigger] entries@[b].0@ by {
                            let oa = if a < i {
                                a
                            } else {
                                a + 1
                            };
                            let ob = if b < i {
                                b
                            } else {
                                b + 1
                            };
                            assert(entries@[a] == old_entries[oa]);
                            assert(entries@[b] == old_entries[ob]);
                        }
                    }
                }
                self.entries = entries;
                proof {
                    let e = self.entries@;
                    assert forall|key: Seq<char>|
                        #![auto]
                        entries_map(e).contains_key(key) <==> entries_map(old_entries).remove(
                            k,
                        ).contains_key(key) by {
                        if has_key(e, key) {
                            let j = choose|j: int| 0 <= j < e.len() && #[trigger] e[j].0@ == key;
                            let oj = if j < i {
                                j
                            } else {
                                j + 1
                            };
                            assert(old_entries[oj].0@ == key);
                            assert(oj != i);
                        }
                        if has_key(old_entries, key) && key != k {
                            let j = choose|j: int|
                                0 <= j < old_entries.len() && #[trigger] old_entries[j].0@ == key;
                            assert(j != i);
                            let nj = if j < i {
                                j
                            } else {
                                j - 1
                            };
                            assert(e[nj].0@ == key);
                        }
                    }
                    assert forall|key: Seq<char>|
                        entries_map(e).contains_key(key) implies #[trigger] entries_map(e)[key]
                        == entries_map(old_entries).remove(k)[key] by {
                        let j = choose|j: int| 0 <= j < e.len() && #[trigger] e[j].0@ == key;
                        lemma_entries_map_at(e, j);
                        let oj = if j < i {
                            j
                        } else {
                            j + 1
                        };
                        assert(e[j] == old_entries[oj]);
                        lemma_entries_map_at(old_entries, oj);
                    }
                    assert(entries_map(e) =~= entries_map(old_entries).remove(k));
                }
            },
            None => {
                assert(entries_map(old_entries) =~= entries_map(old_entries).remove(k));
            },
        }
    }
}

/// Name shown for a device without a custom name.
pub open spec fn default_display_name() -> Seq<char> {
    "Quest"@
}

/// Looks up and changes the custom names of devices.
pub struct DeviceNameManager {
    device_names_store: DeviceNamesStore,
}

impl DeviceNameManager {
    pub fn new(device_names_store: DeviceNamesStore) -> (m: Self)
        ensures
            m.names() == device_names_store@,
    {
        DeviceNameManager { device_names_store }
    }

    /// The stored custom names.
    pub closed spec fn names(&self) -> Map<Seq<char>, Seq<char>> {
        self.device_names_store@
    }

    /// The custom name of the device, or "Quest" when it has none.
    pub fn get_display_name(&self, serial: &str) -> (name: String)
        ensures
            name@ == (if self.names().contains_key(serial@) {
                self.names()[serial@]
            } else {
                default_display_name()
            }),
    {
        match self.device_names_store.get_name(serial) {
            Some(n) => n,
            None => "Quest".to_owned(),
        }
    }

    /// The custom name of the device, if it has one.
    pub fn load_custom_name(&self, serial: &str) -> (name: Option<String>)
        ensures
            name is Some <==> self.names().contains_key(serial@),
            name matches Some(n) ==> n@ == self.names()[serial@],
    {
        self.device_names_store.get_name(serial)
    }

    /// Set the custom name of a device, or clear it with `None`.
    pub fn set_custom_name(&mut self, serial: String, name: Option<String>)
        ensures
            name matches Some(n) ==> final(self).names() == old(self).names().insert(serial@, n@),
            name is None ==> final(self).names() == old(self).names().remove(serial@),
    {
        match name {
            Some(n) => self.device_names_store.set_name(serial, n),
            None => self.device_names_store.remove_name(serial.as_str()),
        }
    }

    /// Whether a device is seen for the first time: it has no custom name.
    pub fn ensure_device_registered(&self, serial: &str) -> (is_new: bool)
        ensures
            is_new == !self.names().contains_key(serial@),
    {
        self.device_names_store.get_name(serial).is_none()
    }
}

/// A name that was set is read back, for that device only.
pub proof fn lemma_name_read_after_write(
    names: Map<Seq<char>, Seq<char>>,
    serial: Seq<char>,
    name: Seq<char>,
    other: Seq<char>,
)
    ensures
        names.insert(serial, name).contains_key(serial),
        names.insert(serial, name)[serial] == name,
        other != serial ==> names.insert(serial, name).contains_key(other) == names.contains_key(
            other,
        ),
        other != serial ==> names.insert(serial, name)[other] == names[other],
        !names.remove(serial).contains_key(serial),
{
}

} // verus!
