//! The audio device manager: a registry of capture devices by identifier.
//!
//! Enumeration of the hardware is the host's job; it hands the discovered
//! devices in through [`DeviceManager::add_device`]. The registry keeps one
//! entry per identifier, in insertion order.

use vstd::prelude::*;
use crate::text::str_eq;

verus! {

/// The first position at or after `k` whose pair carries the identifier.
pub open spec fn id_index_from(pairs: Seq<(String, String)>, id: Seq<char>, k: int) -> Option<int>
    decreases pairs.len() - k,
{
    if k < 0 || k >= pairs.len() {
        None
    } else if pairs[k].0@ == id {
        Some(k)
    } else {
        id_index_from(pairs, id, k + 1)
    }
}

/// The position of the entry with the given identifier, if any.
pub open spec fn id_index(pairs: Seq<(String, String)>, id: Seq<char>) -> Option<int> {
    id_index_from(pairs, id, 0)
}

proof fn lemma_id_index_from(pairs: Seq<(String, String)>, id: Seq<char>, m: int, k: int)
    requires
        0 <= m <= k <= pairs.len(),
        forall|j: int| m <= j < k ==> (#[trigger] pairs[j]).0@ != id,
        k < pairs.len() ==> pairs[k].0@ == id,
    ensures
        id_index_from(pairs, id, m) == if k < pairs.len() {
            Some(k)
        } else {
            None::<int>
        },
    decreases k - m,
{
    if m < k {
        lemma_id_index_from(pairs, id, m + 1, k);
    }
}

/// Audio device manager: input devices as (identifier, name) pairs, one per
/// identifier, plus the default device's identifier.
pub struct DeviceManager {
    /// Input devices, in insertion order.
    input_devices: Vec<(String, String)>,
    /// Default input device identifier.
    default_input_device: Option<String>,
}

impl DeviceManager {
    /// The registered (identifier, name) pairs.
    pub closed spec fn devices(&self) -> Seq<(String, String)> {
        self.input_devices@
    }

    /// The default device identifier.
    pub closed spec fn default_id(&self) -> Option<Seq<char>> {
        match self.default_input_device {
            Some(d) => Some(d@),
            None => None,
        }
    }

    /// Creates an empty manager; the host fills it from its enumeration of
    /// the hardware.
    pub fn new() -> (r: Self)
        ensures
            r.devices().len() == 0,
            r.default_id() is None,
    {
        DeviceManager { input_devices: Vec::new(), default_input_device: None }
    }

    /// Registers a device: an existing entry with the same identifier gets
    /// the new name; otherwise the pair is appended.
    pub fn add_device(&mut self, id: &str, name: &str)
        ensures
            final(self).default_id() == old(self).default_id(),
            ({
                let pairs = old(self).devices();
                let after = final(self).devices();
                match id_index(pairs, id@) {
                    Some(k) => after.len() == pairs.len() && (forall|j: int|
                        0 <= j < pairs.len() && j != k ==> #[trigger] after[j] == pairs[j])
                        && after[k].0@ == id@ && after[k].1@ == name@,
                    None => after.len() == pairs.len() + 1 && (forall|j: int|
                        0 <= j < pairs.len() ==> #[trigger] after[j] == pairs[j])
                        && after.last().0@ == id@ && after.last().1@ == name@,
                }
            }),
    {
        let ghost pairs = self.input_devices@;
        let n = self.input_devices.len();
        let mut k: usize = 0;
        while k < n
            invariant
                k <= n,
                n == self.input_devices@.len(),
                pairs == self.input_devices@,
                pairs == old(self).devices(),
                self.default_input_device == old(self).default_input_device,
                forall|j: int| 0 <= j < k ==> (#[trigger] pairs[j]).0@ != id@,
            decreases n - k,
        {
            if str_eq(self.input_devices[k].0.as_str(), id) {
                proof {
                    lemma_id_index_from(pairs, id@, 0, k as int);
                }
                let entry = (String::from_str(id), String::from_str(name));
                self.input_devices.set(k, entry);
                return ;
            }
            k = k + 1;
        }
        proof {
            lemma_id_index_from(pairs, id@, 0, pairs.len() as int);
        }
        self.input_devices.push((String::from_str(id), String::from_str(name)));
    }

    /// Sets (or clears) the default device identifier.
    pub fn set_default_device(&mut self, id: Option<String>)
        ensures
            final(self).devices() == old(self).devices(),
            final(self).default_id() == (match id {
                Some(d) => Some(d@),
                None => None::<Seq<char>>,
            }),
    {
        self.default_input_device = id;
    }

    /// Registers the mock device used in headless environments, and makes it
    /// the default when none is set.
    pub fn add_mock_device_for_testing(&mut self)
        ensures
            ({
                let pairs = old(self).devices();
                let after = final(self).devices();
                match id_index(pairs, "mock-device-id"@) {
                    Some(k) => after.len() == pairs.len(),
                    None => after.len() == pairs.len() + 1,
                }
            }),
            old(self).default_id() is Some ==> final(self).default_id() == old(self).default_id(),
            old(self).default_id() is None ==> final(self).default_id() == Some(
                "mock-device-id"@,
            ),
    {
        self.add_device("mock-device-id", "Mock Audio Input (Testing Only)");
        if self.default_input_device.is_none() {
            self.default_input_device = Some(String::from_str("mock-device-id"));
        }
    }

    /// All input devices as (identifier, name) pairs.
    pub fn get_input_devices(&self) -> (r: Vec<(String, String)>)
        ensures
            r@.len() == self.devices().len(),
            forall|j: int|
                0 <= j < r@.len() ==> (#[trigger] r@[j]).0@ == self.devices()[j].0@ && r@[j].1@
                    == self.devices()[j].1@,
    {
        let mut r: Vec<(String, String)> = Vec::new();
        let mut k: usize = 0;
        while k < self.input_devices.len()
            invariant
                k <= self.input_devices@.len(),
                r@.len() == k,
                forall|j: int|
                    0 <= j < k ==> (#[trigger] r@[j]).0@ == self.input_devices@[j].0@ && r@[j].1@
                        == self.input_devices@[j].1@,
            decreases self.input_devices@.len() - k,
        {
            let id = self.input_devices[k].0.clone();
            let name = self.input_devices[k].1.clone();
            r.push((id, name));
            k = k + 1;
        }
        r
    }

    /// The device with the given identifier, as an (identifier, name) pair.
    pub fn get_input_device(&self, id: &str) -> (r: Option<(String, String)>)
        ensures
            match r {
                Some(pair) => id_index(self.devices(), id@) matches Some(k) && pair.0@ == id@
                    && pair.1@ == self.devices()[k].1@,
                None => id_index(self.devices(), id@) is None,
            },
    {
        let ghost pairs = self.input_devices@;
        let n = self.input_devices.len();
        let mut k: usize = 0;
        while k < n
            invariant
                k <= n,
                n == self.input_devices@.len(),
                pairs == self.input_devices@,
                forall|j: int| 0 <= j < k ==> (#[trigger] pairs[j]).0@ != id@,
            decreases n - k,
        {
            if str_eq(self.input_devices[k].0.as_str(), id) {
                proof {
                    lemma_id_index_from(pairs, id@, 0, k as int);
                }
                return Some((String::from_str(id), self.input_devices[k].1.clone()));
            }
            k = k + 1;
        }
        proof {
            lemma_id_index_from(pairs, id@, 0, pairs.len() as int);
        }
        None
    }

    /// The default input device: the entry the default identifier names, or
    /// the first registered device when no default is set.
    pub fn get_default_input_device(&self) -> (r: Option<(String, String)>)
        ensures
            match self.default_id() {
                Some(d) => (match r {
                    Some(pair) => id_index(self.devices(), d) matches Some(k) && pair.0@ == d
                        && pair.1@ == self.devices()[k].1@,
                    None => id_index(self.devices(), d) is None,
                }),
                None => (match r {
                    Some(pair) => self.devices().len() > 0 && pair.0@ == self.devices()[0].0@
                        && pair.1@ == self.devices()[0].1@,
                    None => self.devices().len() == 0,
                }),
            },
    {
        match &self.default_input_device {
            Some(d) => {
                let d = d.clone();
                self.get_input_device(d.as_str())
            },
            None => {
                if self.input_devices.len() == 0 {
                    None
                } else {
                    Some((self.input_devices[0].0.clone(), self.input_devices[0].1.clone()))
                }
            },
        }
    }

    /// The name of the device with the given identifier.
    pub fn get_device_name(&self, id: &str) -> (r: Option<String>)
        ensures
            match r {
                Some(name) => id_index(self.devices(), id@) matches Some(k) && name@
                    == self.devices()[k].1@,
                None => id_index(self.devices(), id@) is None,
            },
    {
        match self.get_input_device(id) {
            Some(pair) => Some(pair.1),
            None => None,
        }
    }
}

} // verus!

verus! {

/// A formatted description of an audio device: the name, marked when it is
/// the default input device.
pub fn get_device_description(name: &str, is_default: bool) -> (r: String)
    ensures
        is_default ==> r@ == name@ + " (Default)"@,
        !is_default ==> r@ == name@,
{
    let mut description = String::from_str(name);
    if is_default {
        description.append(" (Default)");
    }
    description
}

} // verus!
