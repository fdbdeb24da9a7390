//! The device registry: the in-memory mapping from device address to the
//! last-known state snapshot of the device at that address.
//!
//! A device's identity is its source network address (as a `host:port`
//! string) at the time of its first observed report; an address change
//! produces a new, separate entry, and entries live for the process
//! lifetime. Entries are only ever created or updated through the merge
//! operations below: a write carrying a subset of fields never clears the
//! rest.

use vstd::prelude::*;
use crate::light::{Light, LightModel};

verus! {

/// The state a reader sees for an address: the stored record, or — for an
/// address never reported — the empty record every new entry starts from.
pub open spec fn state_of(m: Map<Seq<char>, LightModel>, addr: Seq<char>) -> LightModel {
    if m.contains_key(addr) {
        m[addr]
    } else {
        LightModel::empty()
    }
}

struct Entry {
    addr: String,
    light: Light,
}

/// The registry, modelled as a finite map from address to device state.
pub struct Registry {
    entries: Vec<Entry>,
}

spec fn keys_distinct(s: Seq<Entry>) -> bool {
    forall|i: int, j: int| 0 <= i < j < s.len() ==> s[i].addr@ != s[j].addr@
}

spec fn map_of(s: Seq<Entry>) -> Map<Seq<char>, LightModel>
    decreases s.len(),
{
    if s.len() == 0 {
        Map::empty()
    } else {
        map_of(s.drop_last()).insert(s.last().addr@, s.last().light@)
    }
}

proof fn lemma_map_of_contains(s: Seq<Entry>, k: Seq<char>)
    ensures
        map_of(s).contains_key(k) <==> exists|i: int| 0 <= i < s.len() && s[i].addr@ == k,
    decreases s.len(),
{
    if s.len() == 0 {
    } else {
        lemma_map_of_contains(s.drop_last(), k);
        if s.last().addr@ == k {
            assert(s[s.len() - 1].addr@ == k);
        } else {
            if map_of(s).contains_key(k) {
                let i = choose|i: int| 0 <= i < s.drop_last().len() && s.drop_last()[i].addr@ == k;
                assert(s[i].addr@ == k);
            }
            if exists|i: int| 0 <= i < s.len() && s[i].addr@ == k {
                let i = choose|i: int| 0 <= i < s.len() && s[i].addr@ == k;
                assert(i < s.len() - 1);
                assert(s.drop_last()[i].addr@ == k);
            }
        }
    }
}

proof fn lemma_map_of_get(s: Seq<Entry>, i: int)
    requires
        keys_distinct(s),
        0 <= i < s.len(),
    ensures
        map_of(s).contains_key(s[i].addr@),
        map_of(s)[s[i].addr@] == s[i].light@,
    decreases s.len(),
{
    if i == s.len() - 1 {
    } else {
        assert(keys_distinct(s.drop_last()));
        assert(s.drop_last()[i] == s[i]);
        lemma_map_of_get(s.drop_last(), i);
        assert(s.last().addr@ != s[i].addr@);
    }
}

proof fn lemma_map_of_len(s: Seq<Entry>)
    requires
        keys_distinct(s),
    ensures
        map_of(s).dom().finite(),
        map_of(s).dom().len() == s.len(),
    decreases s.len(),
{
    if s.len() == 0 {
        assert(map_of(s).dom() =~= Set::<Seq<char>>::empty());
    } else {
        assert(keys_distinct(s.drop_last()));
        lemma_map_of_len(s.drop_last());
        lemma_map_of_contains(s.drop_last(), s.last().addr@);
        assert(!map_of(s.drop_last()).contains_key(s.last().addr@));
        assert(map_of(s).dom() =~= map_of(s.drop_last()).dom().insert(s.last().addr@));
        vstd::set::axiom_set_insert_len(map_of(s.drop_last()).dom(), s.last().addr@);
    }
}

proof fn lemma_map_of_update(s: Seq<Entry>, i: int, e: Entry)
    requires
        keys_distinct(s),
        0 <= i < s.len(),
        e.addr@ == s[i].addr@,
    ensures
        map_of(s.update(i, e)) =~= map_of(s).insert(e.addr@, e.light@),
    decreases s.len(),
{
    let t = s.update(i, e);
    if i == s.len() - 1 {
        assert(t.drop_last() =~= s.drop_last());
        assert(t.last() == e);
    } else {
        assert(keys_distinct(s.drop_last()));
        assert(s.drop_last()[i] == s[i]);
        lemma_map_of_update(s.drop_last(), i, e);
        assert(t.drop_last() =~= s.drop_last().update(i, e));
        assert(t.last() == s.last());
        assert(s.last().addr@ != e.addr@);
    }
}

proof fn lemma_map_of_push(s: Seq<Entry>, e: Entry)
    ensures
        map_of(s.push(e)) =~= map_of(s).insert(e.addr@, e.light@),
{
    assert(s.push(e).drop_last() =~= s);
    assert(s.push(e).last() == e);
}

impl View for Registry {
    type V = Map<Seq<char>, LightModel>;

    closed spec fn view(&self) -> Map<Seq<char>, LightModel> {
        map_of(self.entries@)
    }
}

impl Registry {
    /// Well-formedness: no address owns two entries. Constructors establish
    /// it and every operation preserves it.
    pub closed spec fn wf(&self) -> bool {
        keys_distinct(self.entries@)
    }

    /// An empty registry: no device has reported yet.
    pub fn new() -> (r: Registry)
        ensures
            r.wf(),
            r@ == Map::<Seq<char>, LightModel>::empty(),
    {
        Registry { entries: Vec::new() }
    }

    fn find_index(&self, addr: &String) -> (r: Option<usize>)
        ensures
            match r {
                Some(i) => i < self.entries@.len() && self.entries@[i as int].addr@ == addr@,
                None => forall|i: int|
                    0 <= i < self.entries@.len() ==> self.entries@[i].addr@ != addr@,
            },
    {
        let n = self.entries.len();
        let mut j: usize = 0;
        while j < n
            invariant
                n == self.entries@.len(),
                j <= n,
                forall|i: int| 0 <= i < j ==> self.entries@[i].addr@ != addr@,
            decreases n - j,
        {
            if self.entries[j].addr == *addr {
                return Some(j);
            }
            j = j + 1;
        }
        None
    }

    /// Whether a device at this address has an entry.
    pub fn contains(&self, addr: &String) -> (r: bool)
        requires
            self.wf(),
        ensures
            r == self@.contains_key(addr@),
    {
        proof {
            lemma_map_of_contains(self.entries@, addr@);
        }
        match self.find_index(addr) {
            Some(i) => {
                proof {
                    lemma_map_of_get(self.entries@, i as int);
                }
                true
            },
            None => false,
        }
    }

    /// The state snapshot for one address, if that device has an entry;
    /// reads return a consistent snapshot of one address's fields, never a
    /// global snapshot across addresses.
    pub fn get(&self, addr: &String) -> (r: Option<&Light>)
        requires
            self.wf(),
        ensures
            match r {
                Some(l) => self@.contains_key(addr@) && l@ == self@[addr@],
                None => !self@.contains_key(addr@),
            },
    {
        proof {
            lemma_map_of_contains(self.entries@, addr@);
        }
        match self.find_index(addr) {
            Some(i) => {
                proof {
                    lemma_map_of_get(self.entries@, i as int);
                }
                Some(&self.entries[i].light)
            },
            None => None,
        }
    }

    /// Creates the default (all-absent) entry for this address if none
    /// exists; an existing entry is left untouched.
    pub fn ensure_entry(&mut self, addr: &String)
        requires
            old(self).wf(),
        ensures
            final(self).wf(),
            old(self)@.contains_key(addr@) ==> final(self)@ == old(self)@,
            !old(self)@.contains_key(addr@) ==> final(self)@ == old(self)@.insert(
                addr@,
                LightModel::empty(),
            ),
    {
        proof {
            lemma_map_of_contains(self.entries@, addr@);
        }
        match self.find_index(addr) {
            Some(i) => {
                proof {
                    lemma_map_of_get(self.entries@, i as int);
                }
            },
            None => {
                let e = Entry { addr: addr.clone(), light: Light::default() };
                proof {
                    lemma_map_of_push(self.entries@, e);
                }
                self.entries.push(e);
            },
        }
    }

    /// Merges a label report: the label is replaced, every other field of
    /// the entry keeps its value; an absent entry is created first.
    pub fn merge_label(&mut self, addr: &String, label: String)
        requires
            old(self).wf(),
        ensures
            final(self).wf(),
            final(self)@ == old(self)@.insert(addr@, state_of(old(self)@, addr@).with_label(label@)),
    {
        proof {
            lemma_map_of_contains(self.entries@, addr@);
        }
        match self.find_index(addr) {
            Some(i) => {
                proof {
                    lemma_map_of_get(self.entries@, i as int);
                }
                let e = &mut self.entries[i];
                e.light.label = Some(label);
                proof {
                    lemma_map_of_update(old(self).entries@, i as int, self.entries@[i as int]);
                }
            },
            None => {
                let mut light = Light::default();
                light.label = Some(label);
                let e = Entry { addr: addr.clone(), light };
                proof {
                    lemma_map_of_push(self.entries@, e);
                }
                self.entries.push(e);
            },
        }
    }

    /// Merges a firmware report: the firmware version is replaced, every
    /// other field keeps its value; an absent entry is created first.
    pub fn merge_firmware(&mut self, addr: &String, version: String)
        requires
            old(self).wf(),
        ensures
            final(self).wf(),
            final(self)@ == old(self)@.insert(
                addr@,
                state_of(old(self)@, addr@).with_firmware_version(version@),
            ),
    {
        proof {
            lemma_map_of_contains(self.entries@, addr@);
        }
        match self.find_index(addr) {
            Some(i) => {
                proof {
                    lemma_map_of_get(self.entries@, i as int);
                }
                let e = &mut self.entries[i];
                e.light.firmware_version = Some(version);
                proof {
                    lemma_map_of_update(old(self).entries@, i as int, self.entries@[i as int]);
                }
            },
            None => {
                let mut light = Light::default();
                light.firmware_version = Some(version);
                let e = Entry { addr: addr.clone(), light };
                proof {
                    lemma_map_of_push(self.entries@, e);
                }
                self.entries.push(e);
            },
        }
    }

    /// Merges a full light-state report in one atomic step: color channels,
    /// power and label are all replaced, the firmware version keeps its
    /// value; an absent entry is created first.
    pub fn merge_light_state(
        &mut self,
        addr: &String,
        hue: u16,
        saturation: u16,
        brightness: u16,
        kelvin: u16,
        power: u16,
        label: String,
    )
        requires
            old(self).wf(),
        ensures
            final(self).wf(),
            final(self)@ == old(self)@.insert(
                addr@,
                state_of(old(self)@, addr@).with_light_state(
                    hue,
                    saturation,
                    brightness,
                    kelvin,
                    power,
                    label@,
                ),
            ),
    {
        proof {
            lemma_map_of_contains(self.entries@, addr@);
        }
        match self.find_index(addr) {
            Some(i) => {
                proof {
                    lemma_map_of_get(self.entries@, i as int);
                }
                let e = &mut self.entries[i];
                e.light.label = Some(label);
                e.light.hue = Some(hue);
                e.light.saturation = Some(saturation);
                e.light.brightness = Some(brightness);
                e.light.kelvin = Some(kelvin);
                e.light.power = Some(power);
                proof {
                    lemma_map_of_update(old(self).entries@, i as int, self.entries@[i as int]);
                }
            },
            None => {
                let light = Light {
                    label: Some(label),
                    firmware_version: None,
                    power: Some(power),
                    hue: Some(hue),
                    saturation: Some(saturation),
                    brightness: Some(brightness),
                    kelvin: Some(kelvin),
                };
                let e = Entry { addr: addr.clone(), light };
                proof {
                    lemma_map_of_push(self.entries@, e);
                }
                self.entries.push(e);
            },
        }
    }

    /// Sets the power level of an existing entry; the control path never
    /// fabricates an entry, so the device must already be known.
    pub fn set_power(&mut self, addr: &String, level: u16)
        requires
            old(self).wf(),
            old(self)@.contains_key(addr@),
        ensures
            final(self).wf(),
            final(self)@ == old(self)@.insert(addr@, old(self)@[addr@].with_power(level)),
    {
        proof {
            lemma_map_of_contains(self.entries@, addr@);
        }
        match self.find_index(addr) {
            Some(i) => {
                proof {
                    lemma_map_of_get(self.entries@, i as int);
                }
                let e = &mut self.entries[i];
                e.light.power = Some(level);
                proof {
                    lemma_map_of_update(old(self).entries@, i as int, self.entries@[i as int]);
                }
            },
            None => {
                // unreachable: the precondition says the entry exists
                proof {
                    assert(false);
                }
            },
        }
    }

    /// Sets the four color channels of an existing entry.
    pub fn set_color(&mut self, addr: &String, hue: u16, saturation: u16, brightness: u16, kelvin: u16)
        requires
            old(self).wf(),
            old(self)@.contains_key(addr@),
        ensures
            final(self).wf(),
            final(self)@ == old(self)@.insert(
                addr@,
                old(self)@[addr@].with_color(hue, saturation, brightness, kelvin),
            ),
    {
        proof {
            lemma_map_of_contains(self.entries@, addr@);
        }
        match self.find_index(addr) {
            Some(i) => {
                proof {
                    lemma_map_of_get(self.entries@, i as int);
                }
                let e = &mut self.entries[i];
                e.light.hue = Some(hue);
                e.light.saturation = Some(saturation);
                e.light.brightness = Some(brightness);
                e.light.kelvin = Some(kelvin);
                proof {
                    lemma_map_of_update(old(self).entries@, i as int, self.entries@[i as int]);
                }
            },
            None => {
                // unreachable: the precondition says the entry exists
                proof {
                    assert(false);
                }
            },
        }
    }

    /// Sets the label of an existing entry.
    pub fn set_label(&mut self, addr: &String, label: String)
        requires
            old(self).wf(),
            old(self)@.contains_key(addr@),
        ensures
            final(self).wf(),
            final(self)@ == old(self)@.insert(addr@, old(self)@[addr@].with_label(label@)),
    {
        proof {
            lemma_map_of_contains(self.entries@, addr@);
        }
        match self.find_index(addr) {
            Some(i) => {
                proof {
                    lemma_map_of_get(self.entries@, i as int);
                }
                let e = &mut self.entries[i];
                e.light.label = Some(label);
                proof {
                    lemma_map_of_update(old(self).entries@, i as int, self.entries@[i as int]);
                }
            },
            None => {
                // unreachable: the precondition says the entry exists
                proof {
                    assert(false);
                }
            },
        }
    }

    /// A copy of every entry, address paired with state. Each address in
    /// the registry appears exactly once, with a clone of its record.
    pub fn snapshot(&self) -> (r: Vec<(String, Light)>)
        requires
            self.wf(),
        ensures
            self@.dom().finite(),
            r@.len() == self@.dom().len(),
            forall|i: int|
                0 <= i < r@.len() ==> self@.contains_key(#[trigger] r@[i].0@) && r@[i].1@
                    == self@[r@[i].0@],
            forall|k: Seq<char>|
                self@.contains_key(k) ==> exists|i: int| 0 <= i < r@.len() && r@[i].0@ == k,
    {
        proof {
            lemma_map_of_len(self.entries@);
        }
        let n = self.entries.len();
        let mut r: Vec<(String, Light)> = Vec::new();
        let mut j: usize = 0;
        while j < n
            invariant
                n == self.entries@.len(),
                keys_distinct(self.entries@),
                j <= n,
                r@.len() == j,
                forall|i: int| 0 <= i < j ==> #[trigger] r@[i].0@ == self.entries@[i].addr@,
                forall|i: int| 0 <= i < j ==> #[trigger] r@[i].1@ == self.entries@[i].light@,
            decreases n - j,
        {
            let e = &self.entries[j];
            r.push((e.addr.clone(), e.light.clone()));
            j = j + 1;
        }
        proof {
            assert forall|i: int|
                0 <= i < r@.len() implies self@.contains_key(#[trigger] r@[i].0@) && r@[i].1@
                    == self@[r@[i].0@] by {
                lemma_map_of_get(self.entries@, i);
            }
            assert forall|k: Seq<char>| self@.contains_key(k) implies exists|i: int|
                0 <= i < r@.len() && r@[i].0@ == k by {
                lemma_map_of_contains(self.entries@, k);
                let i = choose|i: int| 0 <= i < self.entries@.len() && self.entries@[i].addr@ == k;
                assert(r@[i].0@ == k);
            }
        }
        r
    }
}

} // verus!
