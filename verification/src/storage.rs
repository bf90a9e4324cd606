//! Persistence of announcements, nonce indexes and attestation signatures.
//!
//! A store keeps a sequence of events and a monotonic nonce-index counter.
//! The counter never hands out the same index twice: that is the anti-reuse
//! invariant on which the oracle's security rests. An event, once it holds
//! any signature, never accepts another set.

use vstd::prelude::*;
use vstd::string::StringExecFns;
use crate::error::Error;
use crate::messages::{copy_bytes, copy_u32s, OracleAnnouncement, OracleAnnouncementView};

verus! {

/// Everything persisted for one announced event.
#[derive(Debug)]
pub struct OracleEventData {
    /// The store-assigned identifier.
    pub id: Option<u32>,
    /// The announcement itself.
    pub announcement: OracleAnnouncement,
    /// The nonce indexes from which the announcement's nonces were derived.
    pub indexes: Vec<u32>,
    /// The outcome and signature for each nonce, empty until attested.
    pub signatures: Vec<(String, Vec<u8>)>,
    /// Identifier of the publication-layer announcement event, if published.
    pub announcement_event_id: Option<String>,
    /// Identifier of the publication-layer attestation event, if published.
    pub attestation_event_id: Option<String>,
}

#[verifier::ext_equal]
pub ghost struct OracleEventDataView {
    pub id: Option<u32>,
    pub announcement: OracleAnnouncementView,
    pub indexes: Seq<u32>,
    pub signatures: Seq<(Seq<char>, Seq<u8>)>,
    pub announcement_event_id: Option<Seq<char>>,
    pub attestation_event_id: Option<Seq<char>>,
}

/// The mathematical contents of a signature list.
pub open spec fn sigs_view(v: Seq<(String, Vec<u8>)>) -> Seq<(Seq<char>, Seq<u8>)> {
    Seq::new(v.len(), |i: int| (v[i].0@, v[i].1@))
}

impl View for OracleEventData {
    type V = OracleEventDataView;

    open spec fn view(&self) -> OracleEventDataView {
        OracleEventDataView {
            id: self.id,
            announcement: self.announcement@,
            indexes: self.indexes@,
            signatures: sigs_view(self.signatures@),
            announcement_event_id: match self.announcement_event_id {
                Some(ref s) => Some(s@),
                None => None,
            },
            attestation_event_id: match self.attestation_event_id {
                Some(ref s) => Some(s@),
                None => None,
            },
        }
    }
}

impl DeepView for OracleEventData {
    type V = OracleEventDataView;

    open spec fn deep_view(&self) -> OracleEventDataView {
        self@
    }
}

/// A fresh list of outcome/signature pairs with the same contents.
pub fn copy_sigs(v: &Vec<(String, Vec<u8>)>) -> (r: Vec<(String, Vec<u8>)>)
    ensures
        sigs_view(r@) == sigs_view(v@),
{
    let mut out: Vec<(String, Vec<u8>)> = Vec::new();
    let mut i: usize = 0;
    while i < v.len()
        invariant
            i <= v.len(),
            sigs_view(out@) =~= sigs_view(v@).take(i as int),
        decreases v.len() - i,
    {
        let ghost out0 = out@;
        let outcome = v[i].0.clone();
        let sig = copy_bytes(&v[i].1);
        out.push((outcome, sig));
        proof {
            assert(sigs_view(out@) =~= sigs_view(out0).push((v@[i as int].0@, v@[i as int].1@)));
            assert(sigs_view(v@).take(i + 1) =~= sigs_view(v@).take(i as int).push(
                sigs_view(v@)[i as int],
            ));
        }
        i += 1;
    }
    proof {
        assert(sigs_view(v@).take(v@.len() as int) =~= sigs_view(v@));
    }
    out
}

/// A fresh copy of a stored event.
pub fn copy_event_data(ev: &OracleEventData) -> (r: OracleEventData)
    ensures
        r@ == ev@,
{
    let r = OracleEventData {
        id: ev.id,
        announcement: ev.announcement.duplicate(),
        indexes: copy_u32s(&ev.indexes),
        signatures: copy_sigs(&ev.signatures),
        announcement_event_id: match &ev.announcement_event_id {
            Some(s) => Some(s.clone()),
            None => None,
        },
        attestation_event_id: match &ev.attestation_event_id {
            Some(s) => Some(s.clone()),
            None => None,
        },
    };
    assert(r@ =~~= ev@);
    r
}

/// What a freshly saved event looks like: the announcement and indexes as
/// given, no signatures, no publication identifiers.
pub open spec fn is_fresh_event(
    e: OracleEventDataView,
    announcement: OracleAnnouncementView,
    indexes: Seq<u32>,
    id: u32,
) -> bool {
    &&& e.id == Some(id)
    &&& e.announcement == announcement
    &&& e.indexes == indexes
    &&& e.signatures.len() == 0
    &&& e.announcement_event_id is None
    &&& e.attestation_event_id is None
}

/// The store as the oracle sees it: a monotonic nonce-index counter and a
/// sequence of events keyed by position.
pub trait Storage: Sized {
    /// The next nonce index that will be handed out.
    spec fn counter(&self) -> u32;

    /// The stored events, in insertion order; an event's id is its position.
    spec fn events(&self) -> Seq<OracleEventDataView>;

    /// Hand out the next `num` nonce indexes: consecutive, starting at the
    /// counter, each strictly greater than every index handed out before.
    fn get_next_nonce_indexes(&mut self, num: usize) -> (r: Result<Vec<u32>, Error>)
        ensures
            final(self).events() == old(self).events(),
            r matches Ok(idx) ==> ({
                &&& old(self).counter() + num <= u32::MAX
                &&& idx@.len() == num
                &&& forall|i: int| 0 <= i < num ==> idx@[i] == old(self).counter() + i
                &&& final(self).counter() == old(self).counter() + num
            }),
            r is Err ==> final(self).counter() == old(self).counter() && (r == Err::<
                Vec<u32>,
                Error,
            >(Error::StorageFailure) || r == Err::<Vec<u32>, Error>(Error::Internal)),
            r == Err::<Vec<u32>, Error>(Error::Internal) ==> old(self).counter() + num
                > u32::MAX,
    ;

    /// Persist an announcement with the indexes its nonces were derived
    /// from; the new event is appended and its position is its id.
    fn save_announcement(&mut self, announcement: OracleAnnouncement, indexes: Vec<u32>) -> (r:
        Result<u32, Error>)
        ensures
            final(self).counter() == old(self).counter(),
            r matches Ok(id) ==> ({
                &&& old(self).events().len() < 0xFFFFFFFF
                &&& id == old(self).events().len() as u32
                &&& final(self).events() == old(self).events().push(
                    final(self).events().last(),
                )
                &&& is_fresh_event(final(self).events().last(), announcement@, indexes@, id)
            }),
            r is Err ==> final(self).events() == old(self).events() && r == Err::<u32, Error>(
                Error::StorageFailure,
            ),
    ;

    /// Store an attestation's outcomes and signatures onto an announced
    /// event; fails if the event is unknown, already signed, or handed the
    /// wrong number of signatures.
    fn save_signatures(&mut self, id: u32, sigs: Vec<(String, Vec<u8>)>) -> (r: Result<
        OracleEventData,
        Error,
    >)
        ensures
            final(self).counter() == old(self).counter(),
            r matches Ok(ev) ==> ({
                &&& id < old(self).events().len()
                &&& old(self).events()[id as int].signatures.len() == 0
                &&& sigs@.len() == old(self).events()[id as int].indexes.len()
                &&& ev@ == OracleEventDataView {
                    signatures: sigs_view(sigs@),
                    ..old(self).events()[id as int]
                }
                &&& final(self).events() == old(self).events().update(id as int, ev@)
            }),
            r is Err ==> final(self).events() == old(self).events() && (r == Err::<
                OracleEventData,
                Error,
            >(Error::NotFound) || r == Err::<OracleEventData, Error>(Error::EventAlreadySigned)
                || r == Err::<OracleEventData, Error>(Error::Internal) || r == Err::<
                OracleEventData,
                Error,
            >(Error::StorageFailure)),
            r == Err::<OracleEventData, Error>(Error::NotFound) ==> id >= old(
                self,
            ).events().len(),
            r == Err::<OracleEventData, Error>(Error::EventAlreadySigned) ==> id < old(
                self,
            ).events().len() && old(self).events()[id as int].signatures.len() > 0,
            r == Err::<OracleEventData, Error>(Error::Internal) ==> id < old(
                self,
            ).events().len() && sigs@.len() != old(self).events()[id as int].indexes.len(),
    ;

    /// Look an event up by its id. Reads return a consistent snapshot and
    /// have no failure mode; an implementation over fallible I/O must retry
    /// or buffer until it can answer.
    fn get_event(&self, id: u32) -> (r: Result<Option<OracleEventData>, Error>)
        ensures
            r is Ok,
            r matches Ok(Some(ev)) ==> id < self.events().len() && ev@ == self.events()[id as int],
            r matches Ok(None) ==> id >= self.events().len(),
    ;
}

/// An in-memory store.
#[derive(Debug)]
pub struct MemoryStorage {
    current_index: u32,
    data: Vec<OracleEventData>,
}

impl MemoryStorage {
    /// An empty store whose counter starts at zero.
    pub fn new() -> (r: Self)
        ensures
            r.counter() == 0,
            r.events().len() == 0,
    {
        MemoryStorage { current_index: 0, data: Vec::new() }
    }

    /// Reopen a store over existing events, as after a restart: the counter
    /// resumes strictly above every index ever handed out (one past the
    /// largest stored index, or zero if none is stored).
    pub fn from_events(data: Vec<OracleEventData>) -> (r: Result<Self, Error>)
        ensures
            r matches Ok(s) ==> ({
                &&& s.events() == data.deep_view()
                &&& forall|i: int, j: int|
                    0 <= i < s.events().len() && 0 <= j < s.events()[i].indexes.len()
                        ==> #[trigger] s.events()[i].indexes[j] < s.counter()
                &&& (s.counter() == 0 || exists|i: int, j: int|
                    0 <= i < s.events().len() && 0 <= j < s.events()[i].indexes.len()
                        && #[trigger] s.events()[i].indexes[j] == s.counter() - 1)
            }),
            r is Err ==> r == Err::<Self, Error>(Error::Internal) && (exists|i: int, j: int|
                0 <= i < data.deep_view().len() && 0 <= j < data.deep_view()[i].indexes.len()
                    && #[trigger] data.deep_view()[i].indexes[j] == u32::MAX),
    {
        let mut next: u32 = 0;
        let mut i: usize = 0;
        while i < data.len()
            invariant
                i <= data.len(),
                forall|a: int, b: int|
                    0 <= a < i && 0 <= b < data.deep_view()[a].indexes.len()
                        ==> #[trigger] data.deep_view()[a].indexes[b] < next,
                next == 0 || exists|a: int, b: int|
                    0 <= a < i && 0 <= b < data.deep_view()[a].indexes.len()
                        && #[trigger] data.deep_view()[a].indexes[b] == next - 1,
            decreases data.len() - i,
        {
            let ev = &data[i];
            let mut j: usize = 0;
            while j < ev.indexes.len()
                invariant
                    i < data.len(),
                    j <= ev.indexes.len(),
                    ev == &data[i as int],
                    forall|a: int, b: int|
                        0 <= a < i && 0 <= b < data.deep_view()[a].indexes.len()
                            ==> #[trigger] data.deep_view()[a].indexes[b] < next,
                    forall|b: int|
                        0 <= b < j ==> #[trigger] data.deep_view()[i as int].indexes[b] < next,
                    next == 0 || exists|a: int, b: int|
                        0 <= a <= i && 0 <= b < data.deep_view()[a].indexes.len()
                            && #[trigger] data.deep_view()[a].indexes[b] == next - 1,
                decreases ev.indexes.len() - j,
            {
                let idx = ev.indexes[j];
                assert(data.deep_view()[i as int].indexes[j as int] == idx);
                if idx >= next {
                    if idx == u32::MAX {
                        return Err(Error::Internal);
                    }
                    next = idx + 1;
                }
                j += 1;
            }
            i += 1;
        }
        Ok(MemoryStorage { current_index: next, data })
    }
}

impl MemoryStorage {
    /// The next nonce index that will be handed out.
    pub fn current_counter(&self) -> (r: u32)
        ensures
            r == self.counter(),
    {
        self.current_index
    }

    /// A copy of every stored event, in insertion order; never fails.
    pub fn list_events(&self) -> (r: Result<Vec<OracleEventData>, Error>)
        ensures
            r is Ok,
            r matches Ok(v) ==> v.deep_view() == self.events(),
    {
        let mut out: Vec<OracleEventData> = Vec::new();
        let mut i: usize = 0;
        while i < self.data.len()
            invariant
                i <= self.data@.len(),
                out.deep_view() =~= self.data.deep_view().take(i as int),
            decreases self.data@.len() - i,
        {
            let ghost out0 = out.deep_view();
            out.push(copy_event_data(&self.data[i]));
            proof {
                assert(out.deep_view() =~~= out0.push(self.data.deep_view()[i as int]));
                assert(self.data.deep_view().take(i + 1) =~= self.data.deep_view().take(
                    i as int,
                ).push(self.data.deep_view()[i as int]));
            }
            i += 1;
        }
        proof {
            assert(self.data.deep_view().take(self.data@.len() as int) =~= self.data.deep_view());
        }
        Ok(out)
    }

    /// Look an event up by its user-chosen name; never fails.
    pub fn get_event_by_event_id(&self, event_id: &String) -> (r: Result<
        Option<OracleEventData>,
        Error,
    >)
        ensures
            r is Ok,
            r matches Ok(Some(ev)) ==> (exists|i: int|
                0 <= i < self.events().len() && #[trigger] self.events()[i] == ev@
                    && ev@.announcement.oracle_event.event_id == event_id@),
            r matches Ok(None) ==> (forall|i: int|
                0 <= i < self.events().len()
                    ==> (#[trigger] self.events()[i]).announcement.oracle_event.event_id
                    != event_id@),
    {
        let mut i: usize = 0;
        while i < self.data.len()
            invariant
                i <= self.data@.len(),
                forall|k: int|
                    0 <= k < i
                        ==> (#[trigger] self.events()[k]).announcement.oracle_event.event_id
                        != event_id@,
            decreases self.data@.len() - i,
        {
            if self.data[i].announcement.oracle_event.event_id.eq(event_id) {
                let ev = copy_event_data(&self.data[i]);
                assert(self.events()[i as int] == ev@);
                return Ok(Some(ev));
            }
            i += 1;
        }
        Ok(None)
    }

    /// Record the publication identifier of the announcement event; a later
    /// call overwrites it.
    pub fn add_announcement_event_id(&mut self, id: u32, nostr_event_id: String) -> (r: Result<
        (),
        Error,
    >)
        ensures
            final(self).counter() == old(self).counter(),
            r is Ok ==> id < old(self).events().len() && final(self).events() == old(
                self,
            ).events().update(
                id as int,
                OracleEventDataView {
                    announcement_event_id: Some(nostr_event_id@),
                    ..old(self).events()[id as int]
                },
            ),
            r is Ok <==> id < old(self).events().len(),
            r is Err ==> final(self).events() == old(self).events() && r == Err::<(), Error>(
                Error::NotFound,
            ),
    {
        let idu = id as usize;
        if idu >= self.data.len() {
            return Err(Error::NotFound);
        }
        let ghost data0 = self.data.deep_view();
        let old_ev = self.data.remove(idu);
        let new_ev = OracleEventData {
            id: old_ev.id,
            announcement: old_ev.announcement,
            indexes: old_ev.indexes,
            signatures: old_ev.signatures,
            announcement_event_id: Some(nostr_event_id),
            attestation_event_id: old_ev.attestation_event_id,
        };
        self.data.insert(idu, new_ev);
        proof {
            assert(self.data.deep_view() =~= data0.update(
                id as int,
                self.data.deep_view()[id as int],
            ));
            assert(self.data.deep_view()[id as int] =~~= OracleEventDataView {
                announcement_event_id: Some(nostr_event_id@),
                ..data0[id as int]
            });
        }
        Ok(())
    }

    /// Record the publication identifier of the attestation event; a later
    /// call overwrites it.
    pub fn add_attestation_event_id(&mut self, id: u32, nostr_event_id: String) -> (r: Result<
        (),
        Error,
    >)
        ensures
            final(self).counter() == old(self).counter(),
            r is Ok ==> id < old(self).events().len() && final(self).events() == old(
                self,
            ).events().update(
                id as int,
                OracleEventDataView {
                    attestation_event_id: Some(nostr_event_id@),
                    ..old(self).events()[id as int]
                },
            ),
            r is Ok <==> id < old(self).events().len(),
            r is Err ==> final(self).events() == old(self).events() && r == Err::<(), Error>(
                Error::NotFound,
            ),
    {
        let idu = id as usize;
        if idu >= self.data.len() {
            return Err(Error::NotFound);
        }
        let ghost data0 = self.data.deep_view();
        let old_ev = self.data.remove(idu);
        let new_ev = OracleEventData {
            id: old_ev.id,
            announcement: old_ev.announcement,
            indexes: old_ev.indexes,
            signatures: old_ev.signatures,
            announcement_event_id: old_ev.announcement_event_id,
            attestation_event_id: Some(nostr_event_id),
        };
        self.data.insert(idu, new_ev);
        proof {
            assert(self.data.deep_view() =~= data0.update(
                id as int,
                self.data.deep_view()[id as int],
            ));
            assert(self.data.deep_view()[id as int] =~~= OracleEventDataView {
                attestation_event_id: Some(nostr_event_id@),
                ..data0[id as int]
            });
        }
        Ok(())
    }
}

impl Storage for MemoryStorage {
    closed spec fn counter(&self) -> u32 {
        self.current_index
    }

    closed spec fn events(&self) -> Seq<OracleEventDataView> {
        self.data.deep_view()
    }

    fn get_next_nonce_indexes(&mut self, num: usize) -> (r: Result<Vec<u32>, Error>)
        ensures
            r is Ok <==> old(self).counter() + num <= u32::MAX,
            r is Err ==> r == Err::<Vec<u32>, Error>(Error::Internal),
    {
        if num > (u32::MAX - self.current_index) as usize {
            return Err(Error::Internal);
        }
        let mut indexes: Vec<u32> = Vec::new();
        let mut i: usize = 0;
        while i < num
            invariant
                i <= num,
                self == old(self),
                old(self).current_index + num <= u32::MAX,
                indexes@.len() == i,
                forall|k: int| 0 <= k < i ==> indexes@[k] == old(self).current_index + k,
            decreases num - i,
        {
            indexes.push(self.current_index + i as u32);
            i += 1;
        }
        self.current_index = self.current_index + num as u32;
        Ok(indexes)
    }

    fn save_announcement(&mut self, announcement: OracleAnnouncement, indexes: Vec<u32>) -> (r:
        Result<u32, Error>)
        ensures
            r is Ok <==> old(self).events().len() < 0xFFFFFFFF,
            r is Err ==> r == Err::<u32, Error>(Error::StorageFailure),
    {
        if self.data.len() >= 0xFFFFFFFFusize {
            return Err(Error::StorageFailure);
        }
        let id = self.data.len() as u32;
        let ev = OracleEventData {
            id: Some(id),
            announcement,
            indexes,
            signatures: Vec::new(),
            announcement_event_id: None,
            attestation_event_id: None,
        };
        self.data.push(ev);
        proof {
            assert(self.data.deep_view() =~= old(self).data.deep_view().push(
                self.data.deep_view().last(),
            ));
        }
        Ok(id)
    }

    fn save_signatures(&mut self, id: u32, sigs: Vec<(String, Vec<u8>)>) -> (r: Result<
        OracleEventData,
        Error,
    >)
        ensures
            r is Ok <==> (id < old(self).events().len() && old(self).events()[
                id as int
            ].signatures.len() == 0 && sigs@.len() == old(self).events()[
                id as int
            ].indexes.len()),
            r == Err::<OracleEventData, Error>(Error::NotFound) <==> id >= old(
                self,
            ).events().len(),
            r == Err::<OracleEventData, Error>(Error::EventAlreadySigned) <==> (id < old(
                self,
            ).events().len() && old(self).events()[id as int].signatures.len() > 0),
            r == Err::<OracleEventData, Error>(Error::Internal) <==> (id < old(
                self,
            ).events().len() && old(self).events()[id as int].signatures.len() == 0 && sigs@.len()
                != old(self).events()[id as int].indexes.len()),
    {
        let idu = id as usize;
        if idu >= self.data.len() {
            return Err(Error::NotFound);
        }
        if self.data[idu].signatures.len() > 0 {
            return Err(Error::EventAlreadySigned);
        }
        if sigs.len() != self.data[idu].indexes.len() {
            return Err(Error::Internal);
        }
        let ghost data0 = self.data.deep_view();
        let old_ev = self.data.remove(idu);
        let new_ev = OracleEventData {
            id: old_ev.id,
            announcement: old_ev.announcement,
            indexes: old_ev.indexes,
            signatures: sigs,
            announcement_event_id: old_ev.announcement_event_id,
            attestation_event_id: old_ev.attestation_event_id,
        };
        let ret = copy_event_data(&new_ev);
        self.data.insert(idu, new_ev);
        proof {
            assert(self.data.deep_view() =~= data0.update(id as int, ret@));
            assert(ret@ =~~= OracleEventDataView {
                signatures: sigs_view(sigs@),
                ..data0[id as int]
            });
        }
        Ok(ret)
    }

    fn get_event(&self, id: u32) -> (r: Result<Option<OracleEventData>, Error>)
        ensures
            r is Ok,
    {
        let idu = id as usize;
        if idu >= self.data.len() {
            return Ok(None);
        }
        Ok(Some(copy_event_data(&self.data[idu])))
    }
}

/// The key a stored event lives under in a flat key-value store: a fixed
/// prefix, then the event's name.
pub fn get_oracle_data_key(event_id: String) -> (r: String)
    ensures
        r@ == "oracle_data/"@ + event_id@,
{
    let mut key = "oracle_data/".to_owned();
    key.append(event_id.as_str());
    key
}

} // verus!
