//! The hardware-device registry: the roster of connected signing devices,
//! each identified by its stable fingerprint, with its registration state
//! and the set of fingerprints that have an operation in flight.
//!
//! Enumeration happens outside; the registry is handed what was found and
//! rebuilds its roster, preserving registration state by fingerprint — a
//! device that reconnects keeps its attestation, a new fingerprint starts
//! unregistered. At most one operation per fingerprint may be in flight:
//! a second request is refused as busy instead of being queued.

use vstd::prelude::*;

verus! {

/// How a device-registry or key-import operation failed.
#[derive(Clone, Copy, Debug, PartialEq, Eq, Structural)]
pub enum DeviceError {
    /// The device vanished mid-operation; recoverable by re-enumeration.
    Disconnected,
    /// The device user declined; retryable by re-invocation.
    UserRejected,
    /// No response within the bounded probe window; recoverable.
    Timeout,
    /// Malformed device response; recoverable but unexpected.
    Protocol,
    /// An operation for this fingerprint is already in flight.
    Busy,
}

/// What enumeration reports for one attached device.
#[derive(Clone, Copy, Debug, PartialEq, Eq, Structural)]
pub struct DeviceInfo {
    /// Vendor/model tag.
    pub kind: u16,
    /// Stable fingerprint derived from the device's master key.
    pub fingerprint: u32,
}

/// One device in the roster.
#[derive(Clone, Copy, Debug, PartialEq, Eq)]
pub struct Device {
    pub kind: u16,
    pub fingerprint: u32,
    /// The attestation the device returned when it confirmed and stored
    /// the active descriptor, if it has.
    pub registered: Option<u64>,
}

/// Some device in `ds` carries fingerprint `fp`.
pub open spec fn has_fp(ds: Seq<Device>, fp: u32) -> bool {
    exists|i: int| 0 <= i < ds.len() && ds[i].fingerprint == fp
}

/// The registration state of the first device in `ds` with fingerprint
/// `fp`, or `None` when no device carries it.
pub open spec fn reg_of(ds: Seq<Device>, fp: u32) -> Option<u64>
    decreases ds.len(),
{
    if ds.len() == 0 {
        None
    } else if ds[0].fingerprint == fp {
        ds[0].registered
    } else {
        reg_of(ds.drop_first(), fp)
    }
}

/// No two devices share a fingerprint.
pub open spec fn fps_unique(ds: Seq<Device>) -> bool {
    forall|i: int, j: int|
        0 <= i < j < ds.len() ==> ds[i].fingerprint != ds[j].fingerprint
}

/// The roster a refresh builds from what enumeration found: first
/// occurrence of each fingerprint wins, order of discovery is kept, and
/// the registration state is looked up by fingerprint in the old roster.
pub open spec fn spec_roster(found: Seq<DeviceInfo>, old_ds: Seq<Device>) -> Seq<Device>
    decreases found.len(),
{
    if found.len() == 0 {
        Seq::empty()
    } else {
        let prev = spec_roster(found.drop_last(), old_ds);
        let f = found.last();
        if has_fp(prev, f.fingerprint) {
            prev
        } else {
            prev.push(
                Device {
                    kind: f.kind,
                    fingerprint: f.fingerprint,
                    registered: reg_of(old_ds, f.fingerprint),
                },
            )
        }
    }
}

/// The rebuilt roster has unique fingerprints, and holds a fingerprint
/// exactly when enumeration reported it.
pub proof fn lemma_roster_shape(found: Seq<DeviceInfo>, old_ds: Seq<Device>)
    ensures
        fps_unique(spec_roster(found, old_ds)),
        forall|fp: u32|
            has_fp(spec_roster(found, old_ds), fp) <==> (exists|k: int|
                0 <= k < found.len() && found[k].fingerprint == fp),
    decreases found.len(),
{
    if found.len() > 0 {
        lemma_roster_shape(found.drop_last(), old_ds);
        let prev = spec_roster(found.drop_last(), old_ds);
        let r = spec_roster(found, old_ds);
        let f = found.last();
        assert forall|fp: u32| has_fp(r, fp) implies (exists|k: int|
            0 <= k < found.len() && found[k].fingerprint == fp) by {
            let i = choose|i: int| 0 <= i < r.len() && r[i].fingerprint == fp;
            if i < prev.len() {
                assert(has_fp(prev, fp));
                let k = choose|k: int|
                    0 <= k < found.drop_last().len() && found.drop_last()[k].fingerprint == fp;
                assert(found[k].fingerprint == fp);
            } else {
                assert(found[found.len() - 1].fingerprint == fp);
            }
        }
        assert forall|fp: u32|
            (exists|k: int| 0 <= k < found.len() && found[k].fingerprint == fp) implies has_fp(
            r,
            fp,
        ) by {
            let k = choose|k: int| 0 <= k < found.len() && found[k].fingerprint == fp;
            if k < found.len() - 1 {
                assert(found.drop_last()[k].fingerprint == fp);
                assert(has_fp(prev, fp));
                let i = choose|i: int| 0 <= i < prev.len() && prev[i].fingerprint == fp;
                assert(r[i].fingerprint == fp);
            } else {
                if has_fp(prev, f.fingerprint) {
                    let i = choose|i: int|
                        0 <= i < prev.len() && prev[i].fingerprint == f.fingerprint;
                    assert(r[i].fingerprint == fp);
                } else {
                    assert(r[r.len() - 1].fingerprint == fp);
                }
            }
        }
    }
}

/// The fingerprints of the devices in `ds` that carry an attestation, in
/// order.
pub open spec fn spec_registered(ds: Seq<Device>) -> Seq<u32>
    decreases ds.len(),
{
    if ds.len() == 0 {
        Seq::empty()
    } else {
        spec_registered(ds.drop_last()) + (if ds.last().registered is Some {
            seq![ds.last().fingerprint]
        } else {
            Seq::empty()
        })
    }
}

/// The in-flight set after releasing `fp`: everything but `fp`, in order.
pub open spec fn busy_without(s: Seq<u32>, fp: u32) -> Seq<u32> {
    s.filter(|x: u32| x != fp)
}

/// Releasing a fingerprint keeps every other member, keeps no copy of the
/// released one, and preserves uniqueness.
pub proof fn lemma_busy_without(s: Seq<u32>, fp: u32)
    ensures
        forall|i: int|
            0 <= i < busy_without(s, fp).len() ==> s.contains(#[trigger] busy_without(s, fp)[i])
                && busy_without(s, fp)[i] != fp,
        (forall|i: int, j: int| 0 <= i < j < s.len() ==> s[i] != s[j]) ==> (forall|i: int, j: int|
            0 <= i < j < busy_without(s, fp).len() ==> busy_without(s, fp)[i] != busy_without(
                s,
                fp,
            )[j]),
    decreases s.len(),
{
    reveal(Seq::filter);
    if s.len() > 0 {
        let s0 = s.drop_last();
        lemma_busy_without(s0, fp);
        let r = busy_without(s, fp);
        let r0 = busy_without(s0, fp);
        assert forall|i: int|
            0 <= i < r.len() implies s.contains(#[trigger] r[i]) && r[i] != fp by {
            if i < r0.len() {
                assert(s0.contains(r0[i]));
                let w = choose|w: int| 0 <= w < s0.len() && s0[w] == r0[i];
                assert(s[w] == r[i]);
            } else {
                assert(r[i] == s.last());
                assert(s[s.len() - 1] == r[i]);
            }
        }
        if forall|i: int, j: int| 0 <= i < j < s.len() ==> s[i] != s[j] {
            assert(forall|i: int, j: int| 0 <= i < j < s0.len() ==> s0[i] != s0[j]) by {
                assert(forall|i: int| 0 <= i < s0.len() ==> s0[i] == s[i]);
            }
            assert forall|i: int, j: int|
                0 <= i < j < r.len() implies r[i] != r[j] by {
                if j == r.len() - 1 && r.len() > r0.len() {
                    assert(r[j] == s.last());
                    assert(s0.contains(r0[i]));
                    let w = choose|w: int| 0 <= w < s0.len() && s0[w] == r0[i];
                    assert(s[w] == r[i]);
                    assert(s[s.len() - 1] == r[j]);
                } else {
                    assert(r[i] == r0[i] && r[j] == r0[j]);
                }
            }
        }
    }
}

/// The registry. Keeps the roster and the set of fingerprints with an
/// operation in flight.
pub struct DeviceRegistry {
    devices: Vec<Device>,
    busy: Vec<u32>,
}

impl DeviceRegistry {
    pub closed spec fn devices(self) -> Seq<Device> {
        self.devices@
    }

    pub closed spec fn busy(self) -> Seq<u32> {
        self.busy@
    }

    /// Fingerprints are unique in the roster, busy entries are unique,
    /// and every busy fingerprint names a device of the roster.
    pub open spec fn inv(self) -> bool {
        &&& fps_unique(self.devices())
        &&& (forall|i: int, j: int|
            0 <= i < j < self.busy().len() ==> self.busy()[i] != self.busy()[j])
        &&& (forall|i: int|
            0 <= i < self.busy().len() ==> has_fp(self.devices(), #[trigger] self.busy()[i]))
    }

    pub fn new() -> (r: DeviceRegistry)
        ensures
            r.inv(),
            r.devices() == Seq::<Device>::empty(),
            r.busy() == Seq::<u32>::empty(),
    {
        DeviceRegistry { devices: Vec::new(), busy: Vec::new() }
    }

    pub fn device_count(&self) -> (r: usize)
        ensures
            r == self.devices().len(),
    {
        self.devices.len()
    }

    /// A copy of the device at position `i` of the roster.
    pub fn get(&self, i: usize) -> (r: Device)
        requires
            i < self.devices().len(),
        ensures
            r == self.devices()[i as int],
    {
        self.devices[i]
    }

    /// A copy of the whole roster, published into the snapshot so nothing
    /// outside ever holds a live reference into the registry.
    pub fn roster_copy(&self) -> (r: Vec<Device>)
        ensures
            r@ == self.devices(),
    {
        let mut out: Vec<Device> = Vec::new();
        let n = self.devices.len();
        let mut i: usize = 0;
        while i < n
            invariant
                0 <= i <= n,
                n == self.devices().len(),
                out@ == self.devices().subrange(0, i as int),
            decreases n - i,
        {
            out.push(self.devices[i]);
            proof {
                assert(out@ =~= self.devices().subrange(0, i + 1));
            }
            i = i + 1;
        }
        proof {
            assert(self.devices().subrange(0, n as int) =~= self.devices());
        }
        out
    }

    /// Whether an operation is in flight for `fp`.
    pub fn is_busy(&self, fp: u32) -> (r: bool)
        ensures
            r == self.busy().contains(fp),
    {
        let n = self.busy.len();
        let mut i: usize = 0;
        while i < n
            invariant
                0 <= i <= n,
                n == self.busy().len(),
                forall|j: int| 0 <= j < i ==> self.busy()[j] != fp,
            decreases n - i,
        {
            if self.busy[i] == fp {
                return true;
            }
            i = i + 1;
        }
        false
    }

    /// The position of the device with fingerprint `fp`, if any.
    pub fn find(&self, fp: u32) -> (r: Option<usize>)
        ensures
            (r matches Some(i) ==> i < self.devices().len() && self.devices()[
                i as int
            ].fingerprint == fp),
            r is None ==> !has_fp(self.devices(), fp),
    {
        let n = self.devices.len();
        let mut i: usize = 0;
        while i < n
            invariant
                0 <= i <= n,
                n == self.devices().len(),
                forall|j: int| 0 <= j < i ==> self.devices()[j].fingerprint != fp,
            decreases n - i,
        {
            if self.devices[i].fingerprint == fp {
                return Some(i);
            }
            i = i + 1;
        }
        None
    }

    /// Rebuilds the roster from a fresh enumeration. Registration state is
    /// preserved by fingerprint lookup, never by list position; in-flight
    /// marks survive only for fingerprints still present.
    pub fn refresh(&mut self, found: &Vec<DeviceInfo>)
        requires
            old(self).inv(),
        ensures
            final(self).inv(),
            final(self).devices() == spec_roster(found@, old(self).devices()),
            forall|i: int|
                0 <= i < final(self).busy().len() ==> old(self).busy().contains(
                    #[trigger] final(self).busy()[i],
                ),
    {
        let ghost old_ds = self.devices@;
        let mut roster: Vec<Device> = Vec::new();
        let n = found.len();
        let mut i: usize = 0;
        while i < n
            invariant
                0 <= i <= n,
                n == found@.len(),
                roster@ == spec_roster(found@.subrange(0, i as int), old_ds),
                old_ds == old(self).devices(),
                self.devices@ == old_ds,
            decreases n - i,
        {
            let f = found[i];
            proof {
                assert(found@.subrange(0, i + 1).drop_last() =~= found@.subrange(0, i as int));
                assert(found@.subrange(0, i + 1).last() == found@[i as int]);
            }
            let mut seen = false;
            let m = roster.len();
            let mut k: usize = 0;
            while k < m
                invariant
                    0 <= k <= m,
                    m == roster@.len(),
                    seen == (exists|j: int|
                        0 <= j < k && roster@[j].fingerprint == f.fingerprint),
                decreases m - k,
            {
                if roster[k].fingerprint == f.fingerprint {
                    seen = true;
                }
                k = k + 1;
            }
            if !seen {
                let reg = self.reg_lookup(f.fingerprint);
                roster.push(Device { kind: f.kind, fingerprint: f.fingerprint, registered: reg });
            }
            i = i + 1;
        }
        proof {
            assert(found@.subrange(0, n as int) =~= found@);
        }
        let mut kept: Vec<u32> = Vec::new();
        let b = self.busy.len();
        let mut k: usize = 0;
        while k < b
            invariant
                0 <= k <= b,
                b == self.busy@.len(),
                roster@ == spec_roster(found@, old_ds),
                self.busy@ == old(self).busy(),
                forall|i: int| 0 <= i < kept@.len() ==> old(self).busy().contains(
                    #[trigger] kept@[i],
                ),
                forall|i: int| 0 <= i < kept@.len() ==> has_fp(roster@, #[trigger] kept@[i]),
                forall|i: int, j: int| 0 <= i < j < kept@.len() ==> kept@[i] != kept@[j],
            decreases b - k,
        {
            let fp = self.busy[k];
            let mut present = false;
            let m = roster.len();
            let mut t: usize = 0;
            while t < m
                invariant
                    0 <= t <= m,
                    m == roster@.len(),
                    present == (exists|j: int|
                        0 <= j < t && roster@[j].fingerprint == fp),
                decreases m - t,
            {
                if roster[t].fingerprint == fp {
                    present = true;
                }
                t = t + 1;
            }
            let mut dup = false;
            let kl = kept.len();
            let mut t2: usize = 0;
            while t2 < kl
                invariant
                    0 <= t2 <= kl,
                    kl == kept@.len(),
                    dup == (exists|j: int| 0 <= j < t2 && kept@[j] == fp),
                decreases kl - t2,
            {
                if kept[t2] == fp {
                    dup = true;
                }
                t2 = t2 + 1;
            }
            if present && !dup {
                kept.push(fp);
                proof {
                    assert(self.busy@.contains(fp)) by {
                        assert(self.busy@[k as int] == fp);
                    }
                }
            }
            k = k + 1;
        }
        self.devices = roster;
        self.busy = kept;
        proof {
            lemma_roster_shape(found@, old_ds);
        }
    }

    /// Registration state for `fp` in the current roster.
    fn reg_lookup(&self, fp: u32) -> (r: Option<u64>)
        ensures
            r == reg_of(self.devices(), fp),
    {
        let n = self.devices.len();
        let mut i: usize = 0;
        proof {
            assert(self.devices().subrange(0, n as int) =~= self.devices());
        }
        while i < n
            invariant
                0 <= i <= n,
                n == self.devices().len(),
                reg_of(self.devices(), fp) == reg_of(
                    self.devices().subrange(i as int, n as int),
                    fp,
                ),
            decreases n - i,
        {
            proof {
                assert(self.devices().subrange(i as int, n as int).drop_first() =~= self.devices(
                ).subrange(i + 1, n as int));
            }
            if self.devices[i].fingerprint == fp {
                return self.devices[i].registered;
            }
            i = i + 1;
        }
        None
    }

    /// The fingerprints of the devices that completed registration, in
    /// roster order.
    pub fn registered_fingerprints(&self) -> (r: Vec<u32>)
        ensures
            r@ == spec_registered(self.devices()),
    {
        let mut out: Vec<u32> = Vec::new();
        let n = self.devices.len();
        let mut i: usize = 0;
        while i < n
            invariant
                0 <= i <= n,
                n == self.devices().len(),
                out@ == spec_registered(self.devices().subrange(0, i as int)),
            decreases n - i,
        {
            proof {
                assert(self.devices().subrange(0, i + 1).drop_last() =~= self.devices().subrange(
                    0,
                    i as int,
                ));
                assert(self.devices().subrange(0, i + 1).last() == self.devices()[i as int]);
            }
            let d = self.devices[i];
            if d.registered.is_some() {
                out.push(d.fingerprint);
            }
            i = i + 1;
        }
        proof {
            assert(self.devices().subrange(0, n as int) =~= self.devices());
        }
        out
    }

    /// Claims the single in-flight slot for `fp`. A second concurrent
    /// request for the same device is refused as busy, never queued; an
    /// unknown fingerprint is reported as disconnected.
    pub fn begin_op(&mut self, fp: u32) -> (r: Result<(), DeviceError>)
        requires
            old(self).inv(),
        ensures
            final(self).inv(),
            final(self).devices() == old(self).devices(),
            r == Err::<(), DeviceError>(DeviceError::Busy) <==> old(self).busy().contains(fp),
            (r matches Err(e) ==> final(self).busy() == old(self).busy() && (e is Busy || e
                is Disconnected)),
            r == Err::<(), DeviceError>(DeviceError::Disconnected) <==> (!old(
                self,
            ).busy().contains(fp) && !has_fp(old(self).devices(), fp)),
            r is Ok <==> (!old(self).busy().contains(fp) && has_fp(old(self).devices(), fp)),
            r is Ok ==> final(self).busy() == old(self).busy().push(fp),
    {
        if self.is_busy(fp) {
            return Err(DeviceError::Busy);
        }
        match self.find(fp) {
            Some(_) => {
                self.busy.push(fp);
                proof {
                    assert forall|i: int, j: int|
                        0 <= i < j < self.busy@.len() implies self.busy@[i] != self.busy@[j] by {
                        if j == self.busy@.len() - 1 {
                            assert(old(self).busy().contains(self.busy@[i])) by {
                                assert(old(self).busy()[i] == self.busy@[i]);
                            }
                        }
                    }
                }
                Ok(())
            },
            None => Err(DeviceError::Disconnected),
        }
    }

    /// Applies the completion of an operation on `fp`: the in-flight mark
    /// is released, and a successful attestation is recorded on the device
    /// if it is still present. A completion for a fingerprint with nothing
    /// in flight is discarded. Returns whether an attestation was stored.
    pub fn complete_op(&mut self, fp: u32, attestation: Option<u64>) -> (applied: bool)
        requires
            old(self).inv(),
        ensures
            final(self).inv(),
            final(self).busy() == busy_without(old(self).busy(), fp),
            final(self).devices().len() == old(self).devices().len(),
            forall|i: int|
                0 <= i < old(self).devices().len() ==> {
                    let od = old(self).devices()[i];
                    let nd = #[trigger] final(self).devices()[i];
                    &&& nd.kind == od.kind
                    &&& nd.fingerprint == od.fingerprint
                    &&& nd.registered == (if od.fingerprint == fp && old(self).busy().contains(fp)
                        && attestation is Some {
                        attestation
                    } else {
                        od.registered
                    })
                },
            applied == (old(self).busy().contains(fp) && has_fp(old(self).devices(), fp)
                && attestation is Some),
    {
        let was_busy = self.is_busy(fp);
        let mut kept: Vec<u32> = Vec::new();
        let b = self.busy.len();
        let mut k: usize = 0;
        while k < b
            invariant
                0 <= k <= b,
                b == self.busy@.len(),
                self.busy@ == old(self).busy(),
                self.devices@ == old(self).devices(),
                kept@ == busy_without(self.busy@.subrange(0, k as int), fp),
            decreases b - k,
        {
            let x = self.busy[k];
            proof {
                assert(self.busy@.subrange(0, k + 1).drop_last() =~= self.busy@.subrange(
                    0,
                    k as int,
                ));
                assert(self.busy@.subrange(0, k + 1).last() == x);
                reveal(Seq::filter);
            }
            if x != fp {
                kept.push(x);
            }
            k = k + 1;
        }
        proof {
            assert(self.busy@.subrange(0, b as int) =~= self.busy@);
        }
        self.busy = kept;
        let mut applied = false;
        if was_busy {
            if let Some(att) = attestation {
                match self.find(fp) {
                    Some(i) => {
                        let d = self.devices[i];
                        self.devices[i] = Device {
                            kind: d.kind,
                            fingerprint: d.fingerprint,
                            registered: Some(att),
                        };
                        applied = true;
                    },
                    None => {},
                }
            }
        }
        proof {
            lemma_busy_without(old(self).busy(), fp);
            assert forall|i: int|
                0 <= i < self.busy@.len() implies has_fp(self.devices@, #[trigger] self.busy@[i])
                by {
                let x = self.busy@[i];
                assert(old(self).busy().contains(x));
                let w = choose|w: int| 0 <= w < old(self).busy().len() && old(self).busy()[w] == x;
                assert(has_fp(old(self).devices(), x));
                let v = choose|v: int|
                    0 <= v < old(self).devices().len() && old(self).devices()[v].fingerprint == x;
                assert(self.devices@[v].fingerprint == x);
            }
        }
        applied
    }
}

} // verus!
