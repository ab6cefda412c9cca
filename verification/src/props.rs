//! Peripheral properties: the snapshot of advertisement data reported by
//! discovery events, and the merge rule by which later snapshots accumulate
//! into the cached state.

use vstd::prelude::*;
use crate::addr::BDAddr;
use crate::assoc::{
    keys_unique, kv_view, lemma_kv_view_congruence, lemma_kv_view_push, lemma_kv_view_take_step,
    lemma_kv_view_update,
};
use crate::copy_vec;
use crate::gatt::Uuid;
use vstd::pervasive::VecAdditionalExecFns;

verus! {

/// A discovery snapshot for one remote device: optional name and transmit
/// power, manufacturer payloads keyed by 16-bit identifier, service
/// payloads keyed by 128-bit UUID, the advertised service identifiers in
/// first-seen order, a discovery counter, and whether a scan-response
/// packet contributed.
#[derive(Debug, Clone, PartialEq, Eq)]
pub struct PeripheralProperties {
    pub address: BDAddr,
    pub local_name: Option<String>,
    pub tx_power_level: Option<i8>,
    pub manufacturer_data: Vec<(u16, Vec<u8>)>,
    pub service_data: Vec<(Uuid, Vec<u8>)>,
    pub services: Vec<Uuid>,
    pub discovery_count: u64,
    pub has_scan_response: bool,
}

/// The mathematical model of a properties snapshot.
#[verifier::ext_equal]
pub struct PropsModel {
    pub address: BDAddr,
    pub local_name: Option<Seq<char>>,
    pub tx_power_level: Option<i8>,
    pub manufacturer_data: Map<u16, Seq<u8>>,
    pub service_data: Map<Uuid, Seq<u8>>,
    pub services: Seq<Uuid>,
    pub discovery_count: nat,
    pub has_scan_response: bool,
}

/// Key of a manufacturer-data entry.
pub open spec fn man_keyf() -> spec_fn((u16, Vec<u8>)) -> u16 {
    |e: (u16, Vec<u8>)| e.0
}

/// Modelled payload of a manufacturer-data entry.
pub open spec fn man_valf() -> spec_fn((u16, Vec<u8>)) -> Seq<u8> {
    |e: (u16, Vec<u8>)| e.1@
}

/// Key of a service-data entry.
pub open spec fn svc_keyf() -> spec_fn((Uuid, Vec<u8>)) -> Uuid {
    |e: (Uuid, Vec<u8>)| e.0
}

/// Modelled payload of a service-data entry.
pub open spec fn svc_valf() -> spec_fn((Uuid, Vec<u8>)) -> Seq<u8> {
    |e: (Uuid, Vec<u8>)| e.1@
}

/// The map view of a manufacturer-data list.
pub open spec fn man_view(s: Seq<(u16, Vec<u8>)>) -> Map<u16, Seq<u8>> {
    kv_view(s, man_keyf(), man_valf())
}

/// The map view of a service-data list.
pub open spec fn svc_view(s: Seq<(Uuid, Vec<u8>)>) -> Map<Uuid, Seq<u8>> {
    kv_view(s, svc_keyf(), svc_valf())
}

/// Whether a service list names each identifier at most once.
pub open spec fn services_unique(s: Seq<Uuid>) -> bool {
    forall|i: int, j: int| #![trigger s[i], s[j]] 0 <= i < j < s.len() ==> s[i] != s[j]
}

/// The predicate selecting identifiers not yet in `have`.
pub open spec fn not_yet_advertised(have: Seq<Uuid>) -> spec_fn(Uuid) -> bool {
    |u: Uuid| !have.contains(u)
}

/// The merge rule of the property model: a later snapshot updates the
/// fields it carries, preserves the fields it lacks, accumulates
/// manufacturer-data and service-data keys (the new report winning on a
/// shared key), appends newly advertised service identifiers in order, ors
/// the scan-response flag, and increments the discovery counter (saturating
/// at the largest representable value).
pub open spec fn merge_props(cur: PropsModel, new: PropsModel) -> PropsModel {
    PropsModel {
        address: cur.address,
        local_name: if new.local_name is Some {
            new.local_name
        } else {
            cur.local_name
        },
        tx_power_level: if new.tx_power_level is Some {
            new.tx_power_level
        } else {
            cur.tx_power_level
        },
        manufacturer_data: cur.manufacturer_data.union_prefer_right(new.manufacturer_data),
        service_data: cur.service_data.union_prefer_right(new.service_data),
        services: cur.services + new.services.filter(not_yet_advertised(cur.services)),
        discovery_count: if cur.discovery_count < u64::MAX {
            (cur.discovery_count + 1) as nat
        } else {
            cur.discovery_count
        },
        has_scan_response: cur.has_scan_response || new.has_scan_response,
    }
}

/// The model of a snapshot nothing has been reported into.
pub open spec fn empty_props(address: BDAddr) -> PropsModel {
    PropsModel {
        address,
        local_name: None,
        tx_power_level: None,
        manufacturer_data: Map::empty(),
        service_data: Map::empty(),
        services: Seq::empty(),
        discovery_count: 0,
        has_scan_response: false,
    }
}

/// The result of merging a whole sequence of reports, oldest first.
pub open spec fn merge_props_all(init: PropsModel, reports: Seq<PropsModel>) -> PropsModel
    decreases reports.len(),
{
    if reports.len() == 0 {
        init
    } else {
        merge_props(merge_props_all(init, reports.drop_last()), reports.last())
    }
}

impl View for PeripheralProperties {
    type V = PropsModel;

    open spec fn view(&self) -> PropsModel {
        PropsModel {
            address: self.address,
            local_name: match self.local_name {
                Some(n) => Some(n@),
                None => None,
            },
            tx_power_level: self.tx_power_level,
            manufacturer_data: man_view(self.manufacturer_data@),
            service_data: svc_view(self.service_data@),
            services: self.services@,
            discovery_count: self.discovery_count as nat,
            has_scan_response: self.has_scan_response,
        }
    }
}

impl PeripheralProperties {
    /// Well-formed: both data lists carry pairwise distinct keys and the
    /// service list is duplicate-free.
    pub open spec fn wf(self) -> bool {
        &&& keys_unique(self.manufacturer_data@, man_keyf())
        &&& keys_unique(self.service_data@, svc_keyf())
        &&& services_unique(self.services@)
    }

    /// A snapshot nothing has been reported into.
    pub fn new(address: BDAddr) -> (r: PeripheralProperties)
        ensures
            r@ == empty_props(address),
            r.wf(),
            r.address == address,
            r.local_name is None,
            r.tx_power_level is None,
            r.manufacturer_data@.len() == 0,
            r.service_data@.len() == 0,
            r.services@.len() == 0,
            r.discovery_count == 0,
            !r.has_scan_response,
    {
        let r = PeripheralProperties {
            address,
            local_name: None,
            tx_power_level: None,
            manufacturer_data: Vec::new(),
            service_data: Vec::new(),
            services: Vec::new(),
            discovery_count: 0,
            has_scan_response: false,
        };
        proof {
            assert(r@ =~= empty_props(address));
        }
        r
    }

    /// An independent copy with the same model.
    pub fn duplicate(&self) -> (r: PeripheralProperties)
        requires
            self.wf(),
        ensures
            r@ == self@,
            r.wf(),
    {
        let local_name = match &self.local_name {
            Some(n) => Some(n.clone()),
            None => None,
        };
        let manufacturer_data = copy_pairs(&self.manufacturer_data);
        let service_data = copy_pairs(&self.service_data);
        let services = copy_vec(&self.services);
        let r = PeripheralProperties {
            address: self.address,
            local_name,
            tx_power_level: self.tx_power_level,
            manufacturer_data,
            service_data,
            services,
            discovery_count: self.discovery_count,
            has_scan_response: self.has_scan_response,
        };
        proof {
            lemma_kv_view_congruence(
                r.manufacturer_data@,
                self.manufacturer_data@,
                man_keyf(),
                man_valf(),
            );
            lemma_kv_view_congruence(r.service_data@, self.service_data@, svc_keyf(), svc_valf());
            assert forall|a: int, b: int| 0 <= a < b < r.manufacturer_data@.len() implies man_keyf()(
                r.manufacturer_data@[a],
            ) != man_keyf()(r.manufacturer_data@[b]) by {
                assert(man_keyf()(self.manufacturer_data@[a]) != man_keyf()(
                    self.manufacturer_data@[b],
                ));
            }
            assert forall|a: int, b: int| 0 <= a < b < r.service_data@.len() implies svc_keyf()(
                r.service_data@[a],
            ) != svc_keyf()(r.service_data@[b]) by {
                assert(svc_keyf()(self.service_data@[a]) != svc_keyf()(self.service_data@[b]));
            }
            assert(r@ =~= self@);
        }
        r
    }

    /// Sets the payload under a manufacturer identifier, replacing any
    /// earlier payload under the same identifier; nothing else changes.
    pub fn insert_manufacturer_data(&mut self, key: u16, value: Vec<u8>)
        requires
            old(self).wf(),
        ensures
            final(self).wf(),
            final(self)@ == (PropsModel {
                manufacturer_data: old(self)@.manufacturer_data.insert(key, value@),
                ..old(self)@
            }),
    {
        let ghost value_model = value@;
        upsert_man(&mut self.manufacturer_data, key, value);
        proof {
            assert(self@ =~= (PropsModel {
                manufacturer_data: old(self)@.manufacturer_data.insert(key, value_model),
                ..old(self)@
            }));
        }
    }

    /// Sets the payload under a service identifier, replacing any earlier
    /// payload under the same identifier; nothing else changes.
    pub fn insert_service_data(&mut self, key: Uuid, value: Vec<u8>)
        requires
            old(self).wf(),
        ensures
            final(self).wf(),
            final(self)@ == (PropsModel {
                service_data: old(self)@.service_data.insert(key, value@),
                ..old(self)@
            }),
    {
        let ghost value_model = value@;
        upsert_svc(&mut self.service_data, key, value);
        proof {
            assert(self@ =~= (PropsModel {
                service_data: old(self)@.service_data.insert(key, value_model),
                ..old(self)@
            }));
        }
    }

    /// Records an advertised service identifier, keeping the list
    /// duplicate-free and in first-seen order; nothing else changes.
    pub fn add_service(&mut self, service: Uuid)
        requires
            old(self).wf(),
        ensures
            final(self).wf(),
            old(self).services@.contains(service) ==> final(self)@ == old(self)@,
            !old(self).services@.contains(service) ==> final(self)@ == (PropsModel {
                services: old(self)@.services.push(service),
                ..old(self)@
            }),
    {
        if !contains_uuid(&self.services, service) {
            self.services.push(service);
            proof {
                assert forall|a: int, b: int|
                    0 <= a < b < self.services@.len() implies self.services@[a]
                    != self.services@[b] by {
                    if b < self.services@.len() - 1 {
                        assert(old(self).services@[a] != old(self).services@[b]);
                    } else {
                        assert(old(self).services@[a] == self.services@[a]);
                        assert(!old(self).services@.contains(service));
                        assert(old(self).services@[a] != service);
                    }
                }
                assert(self@ =~= (PropsModel {
                    services: old(self)@.services.push(service),
                    ..old(self)@
                }));
            }
        } else {
            proof {
                assert(self@ =~= old(self)@);
            }
        }
    }

    /// Merge-updates this snapshot from a newly reported one, per the merge
    /// rule: the cached state afterwards is exactly `merge_props` of the
    /// two models.
    #[verifier::loop_isolation(false)]
    pub fn merge_from(&mut self, report: &PeripheralProperties)
        requires
            old(self).wf(),
            report.wf(),
        ensures
            final(self).wf(),
            final(self)@ == merge_props(old(self)@, report@),
    {
        let ghost cur0 = old(self)@;
        match &report.local_name {
            Some(n) => { self.local_name = Some(n.clone()); },
            None => {},
        }
        if report.tx_power_level.is_some() {
            self.tx_power_level = report.tx_power_level;
        }
        let mut i: usize = 0;
        while i < report.manufacturer_data.len()
            invariant
                i <= report.manufacturer_data.len(),
                report.wf(),
                self.address == old(self).address,
                self@.local_name == merge_props(cur0, report@).local_name,
                self@.tx_power_level == merge_props(cur0, report@).tx_power_level,
                keys_unique(self.manufacturer_data@, man_keyf()),
                man_view(self.manufacturer_data@) == cur0.manufacturer_data.union_prefer_right(
                    man_view(report.manufacturer_data@.take(i as int)),
                ),
                self.service_data == old(self).service_data,
                self.services == old(self).services,
                self.discovery_count == old(self).discovery_count,
                self.has_scan_response == old(self).has_scan_response,
            decreases report.manufacturer_data.len() - i,
        {
            let k = report.manufacturer_data[i].0;
            let bytes = copy_vec(&report.manufacturer_data[i].1);
            proof {
                lemma_kv_view_take_step(
                    report.manufacturer_data@,
                    man_keyf(),
                    man_valf(),
                    i as int,
                );
            }
            upsert_man(&mut self.manufacturer_data, k, bytes);
            proof {
                assert(cur0.manufacturer_data.union_prefer_right(
                    man_view(report.manufacturer_data@.take(i + 1)),
                ) =~= cur0.manufacturer_data.union_prefer_right(
                    man_view(report.manufacturer_data@.take(i as int)),
                ).insert(k, report.manufacturer_data@[i as int].1@));
            }
            i = i + 1;
        }
        proof {
            assert(report.manufacturer_data@.take(report.manufacturer_data@.len() as int)
                =~= report.manufacturer_data@);
        }
        let mut j: usize = 0;
        while j < report.service_data.len()
            invariant
                j <= report.service_data.len(),
                report.wf(),
                self.address == old(self).address,
                self@.local_name == merge_props(cur0, report@).local_name,
                self@.tx_power_level == merge_props(cur0, report@).tx_power_level,
                keys_unique(self.manufacturer_data@, man_keyf()),
                man_view(self.manufacturer_data@) == merge_props(cur0, report@).manufacturer_data,
                keys_unique(self.service_data@, svc_keyf()),
                svc_view(self.service_data@) == cur0.service_data.union_prefer_right(
                    svc_view(report.service_data@.take(j as int)),
                ),
                self.services == old(self).services,
                self.discovery_count == old(self).discovery_count,
                self.has_scan_response == old(self).has_scan_response,
            decreases report.service_data.len() - j,
        {
            let k = report.service_data[j].0;
            let bytes = copy_vec(&report.service_data[j].1);
            proof {
                lemma_kv_view_take_step(report.service_data@, svc_keyf(), svc_valf(), j as int);
            }
            upsert_svc(&mut self.service_data, k, bytes);
            proof {
                assert(cur0.service_data.union_prefer_right(
                    svc_view(report.service_data@.take(j + 1)),
                ) =~= cur0.service_data.union_prefer_right(
                    svc_view(report.service_data@.take(j as int)),
                ).insert(k, report.service_data@[j as int].1@));
            }
            j = j + 1;
        }
        proof {
            assert(report.service_data@.take(report.service_data@.len() as int)
                =~= report.service_data@);
        }
        let mut t: usize = 0;
        while t < report.services.len()
            invariant
                t <= report.services.len(),
                report.wf(),
                self.address == old(self).address,
                self@.local_name == merge_props(cur0, report@).local_name,
                self@.tx_power_level == merge_props(cur0, report@).tx_power_level,
                keys_unique(self.manufacturer_data@, man_keyf()),
                man_view(self.manufacturer_data@) == merge_props(cur0, report@).manufacturer_data,
                keys_unique(self.service_data@, svc_keyf()),
                svc_view(self.service_data@) == merge_props(cur0, report@).service_data,
                services_unique(self.services@),
                self.services@ == cur0.services + report.services@.take(t as int).filter(
                    not_yet_advertised(cur0.services),
                ),
                self.discovery_count == old(self).discovery_count,
                self.has_scan_response == old(self).has_scan_response,
            decreases report.services.len() - t,
        {
            let u = report.services[t];
            let ghost prefix = report.services@.take(t as int);
            let ghost pred = not_yet_advertised(cur0.services);
            proof {
                assert(report.services@.take(t + 1) =~= prefix.push(u));
                assert(prefix.push(u).drop_last() =~= prefix);
                if prefix.filter(pred).contains(u) {
                    lemma_filter_elements(prefix, pred, u);
                    let w = choose|w: int| 0 <= w < prefix.len() && prefix[w] == u;
                    assert(report.services@[w] == report.services@[t as int]);
                    assert(false);
                }
            }
            if !contains_uuid(&self.services, u) {
                proof {
                    reveal_with_fuel(Seq::filter, 2);
                    if cur0.services.contains(u) {
                        let w = choose|w: int|
                            0 <= w < cur0.services.len() && cur0.services[w] == u;
                        assert(self.services@[w] == u);
                        assert(self.services@.contains(u));
                        assert(false);
                    }
                    assert(pred(u));
                    assert(report.services@.take(t + 1).filter(pred) =~= prefix.filter(pred).push(
                        u,
                    ));
                }
                self.services.push(u);
                proof {
                    assert(self.services@ =~= cur0.services + report.services@.take(t + 1).filter(
                        pred,
                    ));
                }
            } else {
                proof {
                    reveal_with_fuel(Seq::filter, 2);
                    assert(self.services@.contains(u));
                    let w = choose|w: int| 0 <= w < self.services@.len() && self.services@[w] == u;
                    if w < cur0.services.len() {
                        assert(cur0.services[w] == u);
                        assert(cur0.services.contains(u));
                    } else {
                        assert(prefix.filter(pred)[w - cur0.services.len()] == u);
                        assert(prefix.filter(pred).contains(u));
                        assert(false);
                    }
                    assert(!pred(u));
                    assert(report.services@.take(t + 1).filter(pred) =~= prefix.filter(pred));
                }
            }
            t = t + 1;
        }
        proof {
            assert(report.services@.take(report.services@.len() as int) =~= report.services@);
        }
        if self.discovery_count < u64::MAX {
            self.discovery_count = self.discovery_count + 1;
        }
        self.has_scan_response = self.has_scan_response || report.has_scan_response;
        proof {
            assert(self@ =~= merge_props(cur0, report@));
        }
    }
}

/// Decodes the transmit-power field of a native report, where the
/// platform uses the smallest 32-bit value to mean "not present" and the
/// low byte carries the level otherwise.
pub fn tx_power_from_raw(raw: i32) -> (r: Option<i8>)
    ensures
        raw == i32::MIN ==> r is None,
        raw != i32::MIN ==> r == Some(raw as i8),
{
    if raw == i32::MIN {
        None
    } else {
        Some(#[verifier::truncate] (raw as i8))
    }
}

/// Every element of a filtered sequence is an element of the original that
/// satisfies the predicate.
proof fn lemma_filter_elements<A>(s: Seq<A>, pred: spec_fn(A) -> bool, x: A)
    requires
        s.filter(pred).contains(x),
    ensures
        s.contains(x),
        pred(x),
    decreases s.len(),
{
    reveal_with_fuel(Seq::filter, 2);
    if s.len() > 0 {
        if s.drop_last().filter(pred).contains(x) {
            lemma_filter_elements(s.drop_last(), pred, x);
            let w = choose|w: int| 0 <= w < s.drop_last().len() && s.drop_last()[w] == x;
            assert(s[w] == x);
        } else {
            assert(x == s.last());
            assert(s[s.len() - 1] == x);
        }
    }
}

/// Membership check over a service list.
fn contains_uuid(v: &Vec<Uuid>, u: Uuid) -> (r: bool)
    ensures
        r == v@.contains(u),
{
    let mut i: usize = 0;
    while i < v.len()
        invariant
            i <= v.len(),
            forall|t: int| 0 <= t < i ==> v@[t] != u,
        decreases v.len() - i,
    {
        if v[i] == u {
            return true;
        }
        i = i + 1;
    }
    false
}

/// An element-wise copy of a key/payload list; keys and payload contents
/// carry over position by position.
fn copy_pairs<K: Copy>(v: &Vec<(K, Vec<u8>)>) -> (r: Vec<(K, Vec<u8>)>)
    ensures
        r@.len() == v@.len(),
        forall|i: int|
            0 <= i < v@.len() ==> (#[trigger] r@[i]).0 == v@[i].0 && r@[i].1@ == v@[i].1@,
{
    let mut r: Vec<(K, Vec<u8>)> = Vec::new();
    let mut i: usize = 0;
    while i < v.len()
        invariant
            i <= v.len(),
            r@.len() == i,
            forall|t: int| 0 <= t < i ==> (#[trigger] r@[t]).0 == v@[t].0 && r@[t].1@ == v@[t].1@,
        decreases v.len() - i,
    {
        let payload = copy_vec(&v[i].1);
        r.push((v[i].0, payload));
        i = i + 1;
    }
    r
}

/// Inserts or replaces the payload under `k`, keeping keys unique; the map
/// view afterwards is the old view with `k` bound to the payload.
#[verifier::loop_isolation(false)]
fn upsert_man(data: &mut Vec<(u16, Vec<u8>)>, k: u16, v: Vec<u8>)
    requires
        keys_unique(old(data)@, man_keyf()),
    ensures
        keys_unique(final(data)@, man_keyf()),
        man_view(final(data)@) == man_view(old(data)@).insert(k, v@),
{
    let mut j: usize = 0;
    while j < data.len()
        invariant
            j <= data.len(),
            *data == *old(data),
            forall|t: int| 0 <= t < j ==> (#[trigger] data@[t]).0 != k,
        decreases data.len() - j,
    {
        if data[j].0 == k {
            data.set(j, (k, v));
            proof {
                lemma_kv_view_update(old(data)@, man_keyf(), man_valf(), j as int, (k, v));
                assert forall|a: int, b: int| 0 <= a < b < data@.len() implies man_keyf()(
                    data@[a],
                ) != man_keyf()(data@[b]) by {
                    assert(man_keyf()(old(data)@[a]) != man_keyf()(old(data)@[b]));
                }
            }
            return ;
        }
        j = j + 1;
    }
    data.push((k, v));
    proof {
        lemma_kv_view_push(old(data)@, man_keyf(), man_valf(), (k, v));
    }
}

/// Inserts or replaces the payload under `k`, keeping keys unique; the map
/// view afterwards is the old view with `k` bound to the payload.
#[verifier::loop_isolation(false)]
fn upsert_svc(data: &mut Vec<(Uuid, Vec<u8>)>, k: Uuid, v: Vec<u8>)
    requires
        keys_unique(old(data)@, svc_keyf()),
    ensures
        keys_unique(final(data)@, svc_keyf()),
        svc_view(final(data)@) == svc_view(old(data)@).insert(k, v@),
{
    let mut j: usize = 0;
    while j < data.len()
        invariant
            j <= data.len(),
            *data == *old(data),
            forall|t: int| 0 <= t < j ==> (#[trigger] data@[t]).0 != k,
        decreases data.len() - j,
    {
        if data[j].0 == k {
            data.set(j, (k, v));
            proof {
                lemma_kv_view_update(old(data)@, svc_keyf(), svc_valf(), j as int, (k, v));
                assert forall|a: int, b: int| 0 <= a < b < data@.len() implies svc_keyf()(
                    data@[a],
                ) != svc_keyf()(data@[b]) by {
                    assert(svc_keyf()(old(data)@[a]) != svc_keyf()(old(data)@[b]));
                }
            }
            return ;
        }
        j = j + 1;
    }
    data.push((k, v));
    proof {
        lemma_kv_view_push(old(data)@, svc_keyf(), svc_valf(), (k, v));
    }
}

/// Law: over any sequence of property reports merged into a snapshot, the
/// discovery counter counts the reports (while it stays in range), and
/// every manufacturer-data or service-data key present in any individual
/// report is present in the final merged snapshot.
pub proof fn lemma_merge_all_accumulates(init: PropsModel, reports: Seq<PropsModel>)
    requires
        init.discovery_count + reports.len() <= u64::MAX,
    ensures
        merge_props_all(init, reports).discovery_count == init.discovery_count + reports.len(),
        forall|i: int, k: u16|
            0 <= i < reports.len() && (#[trigger] reports[i].manufacturer_data.dom().contains(k))
                ==> merge_props_all(init, reports).manufacturer_data.dom().contains(k),
        forall|i: int, u: Uuid|
            0 <= i < reports.len() && (#[trigger] reports[i].service_data.dom().contains(u))
                ==> merge_props_all(init, reports).service_data.dom().contains(u),
    decreases reports.len(),
{
    if reports.len() > 0 {
        lemma_merge_all_accumulates(init, reports.drop_last());
        assert forall|i: int, k: u16|
            0 <= i < reports.len() && (#[trigger] reports[i].manufacturer_data.dom().contains(k))
                implies merge_props_all(init, reports).manufacturer_data.dom().contains(
            k,
        ) by {
            if i < reports.len() - 1 {
                assert(reports.drop_last()[i].manufacturer_data.dom().contains(k));
            }
        }
        assert forall|i: int, u: Uuid|
            0 <= i < reports.len() && (#[trigger] reports[i].service_data.dom().contains(u))
                implies merge_props_all(init, reports).service_data.dom().contains(u) by {
            if i < reports.len() - 1 {
                assert(reports.drop_last()[i].service_data.dom().contains(u));
            }
        }
    }
}

} // verus!
