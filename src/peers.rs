//! The peer table: what this peer knows of the others, keyed by fingerprint.
use vstd::prelude::*;
use crate::device::DeviceInfoV2;
use crate::keyed::{
    Keyed, keyed_map, unique_keys, lemma_keyed_map_at, lemma_keyed_map_dom, lemma_keyed_map_push,
    lemma_keyed_map_update, lemma_keyed_map_remove,
};
use crate::text::str_eq;

verus! {

/// A network address: an IPv4 address as a big-endian number, and a port.
#[derive(Clone, Copy, Debug, PartialEq, Eq, Structural)]
pub struct PeerAddress {
    pub ip: u32,
    pub port: u16,
}

/// What is known of one peer: its last record, the address it was last heard
/// from and when.
#[derive(Clone, Debug)]
pub struct PeerEntry {
    pub device: DeviceInfoV2,
    pub address: PeerAddress,
    pub last_seen: u64,
}

impl Keyed for PeerEntry {
    open spec fn key(&self) -> Seq<char> {
        self.device.fingerprint@
    }
}

impl PeerEntry {
    pub fn duplicate(&self) -> (r: PeerEntry)
        ensures
            r == *self,
    {
        PeerEntry { device: self.device.duplicate(), address: self.address, last_seen: self.last_seen }
    }
}

/// The peers this instance knows, never holding an entry under its own
/// fingerprint.
pub struct PeerTable {
    self_fingerprint: String,
    entries: Vec<PeerEntry>,
}

impl View for PeerTable {
    type V = Map<Seq<char>, PeerEntry>;

    closed spec fn view(&self) -> Map<Seq<char>, PeerEntry> {
        keyed_map(self.entries@)
    }
}

impl PeerTable {
    /// The fingerprint of this instance, which the table never holds.
    pub closed spec fn self_fp(&self) -> Seq<char> {
        self.self_fingerprint@
    }

    pub closed spec fn wf(&self) -> bool {
        &&& unique_keys(self.entries@)
        &&& !keyed_map(self.entries@).contains_key(self.self_fingerprint@)
    }

    /// Every entry is filed under its own fingerprint.
    pub proof fn lemma_entries_keyed(&self)
        requires
            self.wf(),
        ensures
            forall|k: Seq<char>| #[trigger] self@.contains_key(k) ==> self@[k].device.fingerprint@ == k,
    {
        assert forall|k: Seq<char>| #[trigger] self@.contains_key(k) implies self@[k].device.fingerprint@ == k by {
            lemma_keyed_map_dom(self.entries@, k);
            let i = choose|i: int| 0 <= i < self.entries@.len() && #[trigger] self.entries@[i].key() == k;
            lemma_keyed_map_at(self.entries@, i);
        }
    }

    /// No peer in a well-formed table carries this instance's fingerprint.
    pub proof fn lemma_no_self_entry(&self)
        requires
            self.wf(),
        ensures
            forall|k: Seq<char>| #[trigger] self@.contains_key(k) ==> self@[k].device.fingerprint@ != self.self_fp(),
            !self@.contains_key(self.self_fp()),
    {
        self.lemma_entries_keyed();
    }

    pub fn new(self_fingerprint: String) -> (r: PeerTable)
        ensures
            r.wf(),
            r@ == Map::<Seq<char>, PeerEntry>::empty(),
            r.self_fp() == self_fingerprint@,
    {
        PeerTable { self_fingerprint, entries: Vec::new() }
    }

    fn position(&self, fingerprint: &str) -> (r: Option<usize>)
        requires
            self.wf(),
        ensures
            match r {
                Some(i) => i < self.entries@.len() && self.entries@[i as int].key() == fingerprint@,
                None => !self@.contains_key(fingerprint@),
            },
    {
        let mut i: usize = 0;
        while i < self.entries.len()
            invariant
                i <= self.entries@.len(),
                forall|j: int| 0 <= j < i ==> #[trigger] self.entries@[j].key() != fingerprint@,
            decreases self.entries@.len() - i,
        {
            if str_eq(self.entries[i].device.fingerprint.as_str(), fingerprint) {
                return Some(i);
            }
            i += 1;
        }
        proof {
            lemma_keyed_map_dom(self.entries@, fingerprint@);
        }
        None
    }

    /// Records `device` as last heard from `address` at `now`, replacing what
    /// was known under its fingerprint. A record under this instance's own
    /// fingerprint leaves the table unchanged. Returns whether it was stored.
    pub fn upsert(&mut self, device: DeviceInfoV2, address: PeerAddress, now: u64) -> (stored: bool)
        requires
            old(self).wf(),
        ensures
            final(self).wf(),
            final(self).self_fp() == old(self).self_fp(),
            stored == (device.fingerprint@ != old(self).self_fp()),
            stored ==> final(self)@ == old(self)@.insert(
                device.fingerprint@,
                PeerEntry { device, address, last_seen: now },
            ),
            !stored ==> final(self)@ == old(self)@,
    {
        if str_eq(device.fingerprint.as_str(), self.self_fingerprint.as_str()) {
            return false;
        }
        let pos = self.position(device.fingerprint.as_str());
        let ghost fp = device.fingerprint@;
        let entry = PeerEntry { device, address, last_seen: now };
        match pos {
            Some(i) => {
                proof {
                    lemma_keyed_map_update(self.entries@, i as int, entry);
                }
                self.entries.set(i, entry);
            },
            None => {
                proof {
                    lemma_keyed_map_push(self.entries@, entry);
                }
                self.entries.push(entry);
            },
        }
        assert(!self@.contains_key(self.self_fingerprint@));
        true
    }

    /// Forgets the peer with the given fingerprint, if known.
    pub fn remove(&mut self, fingerprint: &str)
        requires
            old(self).wf(),
        ensures
            final(self).wf(),
            final(self).self_fp() == old(self).self_fp(),
            final(self)@ == old(self)@.remove(fingerprint@),
    {
        match self.position(fingerprint) {
            Some(i) => {
                proof {
                    lemma_keyed_map_remove(self.entries@, i as int);
                }
                self.entries.remove(i);
            },
            None => {
                assert(self@.remove(fingerprint@) =~= self@);
            },
        }
    }

    /// Forgets every peer.
    pub fn clear(&mut self)
        requires
            old(self).wf(),
        ensures
            final(self).wf(),
            final(self).self_fp() == old(self).self_fp(),
            final(self)@ == Map::<Seq<char>, PeerEntry>::empty(),
    {
        self.entries.clear();
        assert(self.entries@ =~= Seq::<PeerEntry>::empty());
    }

    /// What is known of the peer with the given fingerprint.
    pub fn get(&self, fingerprint: &str) -> (r: Option<&PeerEntry>)
        requires
            self.wf(),
        ensures
            match r {
                Some(e) => self@.contains_key(fingerprint@) && *e == self@[fingerprint@],
                None => !self@.contains_key(fingerprint@),
            },
    {
        match self.position(fingerprint) {
            Some(i) => {
                proof {
                    lemma_keyed_map_at(self.entries@, i as int);
                }
                Some(&self.entries[i])
            },
            None => None,
        }
    }

    /// A copy of every entry, each fingerprint once.
    pub fn snapshot(&self) -> (r: Vec<PeerEntry>)
        requires
            self.wf(),
        ensures
            unique_keys(r@),
            keyed_map(r@) == self@,
    {
        let mut out: Vec<PeerEntry> = Vec::new();
        let mut i: usize = 0;
        while i < self.entries.len()
            invariant
                i <= self.entries@.len(),
                out@ == self.entries@.subrange(0, i as int),
            decreases self.entries@.len() - i,
        {
            out.push(self.entries[i].duplicate());
            i += 1;
            assert(out@ =~= self.entries@.subrange(0, i as int));
        }
        assert(out@ =~= self.entries@);
        out
    }
}

} // verus!
