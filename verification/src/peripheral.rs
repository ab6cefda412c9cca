//! The peripheral state model: one remote device's address, its cached
//! advertisement properties, its connection state machine, and its
//! characteristic cache. Connection transitions are driven by native
//! confirmation, which a platform backend reports into this model; the
//! model decides, the backend performs.

use vstd::prelude::*;
use crate::addr::BDAddr;
use crate::Error;
use crate::gatt::{char_lt, chars_sorted, Characteristic, Uuid};
use crate::props::{empty_props, merge_props, PeripheralProperties, PropsModel};
use crate::copy_vec;

verus! {

/// The connection state machine of one peripheral. Transitions follow
/// native confirmation, not the caller's request alone.
#[derive(Debug, Clone, Copy, PartialEq, Eq, Structural)]
pub enum ConnState {
    Disconnected,
    Connecting,
    Connected,
    Disconnecting,
}

/// How a platform backend classifies a failed native operation before
/// handing it back to this core.
#[derive(Debug, Clone, PartialEq, Eq)]
pub enum BridgeFault {
    /// The native layer reported the peripheral is not connected.
    NotConnected,
    /// The native layer rejected the operation on authorization grounds.
    PermissionDenied,
    /// Any other native failure, with its description.
    Unclassified(String),
}

/// How a write hands its payload to the peripheral.
#[derive(Debug, Clone, Copy, PartialEq, Eq, Structural)]
pub enum WriteType {
    WithResponse,
    WithoutResponse,
}

/// What a `disconnect` request asks of the backend.
#[derive(Debug, Clone, Copy, PartialEq, Eq, Structural)]
pub enum DisconnectPlan {
    /// Already disconnected: complete successfully without a native call.
    AlreadyDisconnected,
    /// Ask the native layer to drop the connection.
    CallNative,
}

/// One value pushed by a subscribed characteristic.
#[derive(Debug, Clone, PartialEq, Eq)]
pub struct ValueNotification {
    pub uuid: Uuid,
    pub value: Vec<u8>,
}

/// The mathematical model of a peripheral.
#[verifier::ext_equal]
pub struct PeripheralModel {
    pub addr: BDAddr,
    pub props: PropsModel,
    pub state: ConnState,
    pub chars: Seq<Characteristic>,
}

/// One remote device as seen by the local adapter: immutable address,
/// merge-accumulated properties, connection state, and the characteristic
/// cache (empty until a discovery succeeds, cleared on disconnect).
#[derive(Debug)]
pub struct Peripheral {
    pub addr: BDAddr,
    pub props: PeripheralProperties,
    pub state: ConnState,
    pub characteristics: Vec<Characteristic>,
}

impl View for Peripheral {
    type V = PeripheralModel;

    open spec fn view(&self) -> PeripheralModel {
        PeripheralModel {
            addr: self.addr,
            props: self.props@,
            state: self.state,
            chars: self.characteristics@,
        }
    }
}

/// The model of a peripheral just created for `addr`: disconnected, empty
/// cache, nothing reported yet.
pub open spec fn fresh_peripheral(addr: BDAddr) -> PeripheralModel {
    PeripheralModel {
        addr,
        props: empty_props(addr),
        state: ConnState::Disconnected,
        chars: Seq::empty(),
    }
}

impl Peripheral {
    /// Well-formed: the cached properties are well-formed and carry this
    /// peripheral's address, the characteristic cache is sorted and
    /// duplicate-free, and the cache is empty while no connection has been
    /// established (disconnected or still connecting).
    pub open spec fn wf(self) -> bool {
        &&& self.props.wf()
        &&& self.props.address == self.addr
        &&& chars_sorted(self.characteristics@)
        &&& (self.state is Disconnected || self.state is Connecting)
            ==> self.characteristics@.len() == 0
    }

    /// Creates the entry for a first-seen address.
    pub fn new(addr: BDAddr) -> (r: Peripheral)
        ensures
            r@ == fresh_peripheral(addr),
            r.wf(),
    {
        let r = Peripheral {
            addr,
            props: PeripheralProperties::new(addr),
            state: ConnState::Disconnected,
            characteristics: Vec::new(),
        };
        proof {
            assert(r@ =~= fresh_peripheral(addr));
        }
        r
    }

    /// An independent copy with the same model.
    pub fn duplicate(&self) -> (r: Peripheral)
        requires
            self.wf(),
        ensures
            r@ == self@,
            r.wf(),
    {
        let r = Peripheral {
            addr: self.addr,
            props: self.props.duplicate(),
            state: self.state,
            characteristics: copy_vec(&self.characteristics),
        };
        proof {
            assert(r@ =~= self@);
        }
        r
    }

    /// The immutable address.
    pub fn address(&self) -> (r: BDAddr)
        ensures
            r == self.addr,
    {
        self.addr
    }

    /// The current property snapshot, or `None` while no discovery has
    /// been reported for this peripheral.
    pub fn properties(&self) -> (r: Option<PeripheralProperties>)
        requires
            self.wf(),
        ensures
            r is Some <==> self@.props.discovery_count > 0,
            r matches Some(p) ==> p@ == self@.props && p.wf(),
    {
        if self.props.discovery_count > 0 {
            Some(self.props.duplicate())
        } else {
            None
        }
    }

    /// The current characteristic cache: sorted, duplicate-free, and empty
    /// until a discovery has completed since the last disconnect.
    pub fn characteristics(&self) -> (r: Vec<Characteristic>)
        ensures
            r@ == self@.chars,
    {
        copy_vec(&self.characteristics)
    }

    /// Whether the native layer last confirmed this peripheral connected.
    pub fn is_connected(&self) -> (r: bool)
        ensures
            r == (self.state is Connected),
    {
        matches!(self.state, ConnState::Connected)
    }

    /// Merge-updates the cached properties from a discovery report. The
    /// discovery counter never decreases.
    pub fn report_properties(&mut self, report: &PeripheralProperties)
        requires
            old(self).wf(),
            report.wf(),
        ensures
            final(self).wf(),
            final(self)@.props == merge_props(old(self)@.props, report@),
            final(self).addr == old(self).addr,
            final(self).state == old(self).state,
            final(self).characteristics == old(self).characteristics,
            final(self)@.props.discovery_count >= old(self)@.props.discovery_count,
    {
        self.props.merge_from(report);
    }

    /// The bridge accepted a connect request: the peripheral is now
    /// connecting.
    pub fn on_connect_accepted(&mut self)
        requires
            old(self).wf(),
            old(self).state is Disconnected,
        ensures
            final(self).wf(),
            final(self)@ == (PeripheralModel { state: ConnState::Connecting, ..old(self)@ }),
    {
        self.state = ConnState::Connecting;
        proof {
            assert(self@ =~= (PeripheralModel { state: ConnState::Connecting, ..old(self)@ }));
        }
    }

    /// The native layer confirmed the connection.
    pub fn on_connect_confirmed(&mut self)
        requires
            old(self).wf(),
            old(self).state is Connecting,
        ensures
            final(self).wf(),
            final(self)@ == (PeripheralModel { state: ConnState::Connected, ..old(self)@ }),
    {
        self.state = ConnState::Connected;
        proof {
            assert(self@ =~= (PeripheralModel { state: ConnState::Connected, ..old(self)@ }));
        }
    }

    /// The native layer refused the connection: back to disconnected.
    pub fn on_connect_failed(&mut self)
        requires
            old(self).wf(),
            old(self).state is Connecting,
        ensures
            final(self).wf(),
            final(self)@ == (PeripheralModel { state: ConnState::Disconnected, ..old(self)@ }),
    {
        self.state = ConnState::Disconnected;
        proof {
            assert(self@ =~= (PeripheralModel { state: ConnState::Disconnected, ..old(self)@ }));
        }
    }

    /// What a disconnect request should do. Calling `disconnect` on a
    /// peripheral that was never connected (or is already disconnected) is
    /// safe: it completes successfully without involving the native layer.
    pub fn plan_disconnect(&self) -> (r: DisconnectPlan)
        ensures
            r is AlreadyDisconnected <==> self.state is Disconnected,
    {
        match self.state {
            ConnState::Disconnected => DisconnectPlan::AlreadyDisconnected,
            _ => DisconnectPlan::CallNative,
        }
    }

    /// The bridge accepted a disconnect request for a connected peripheral.
    pub fn on_disconnect_accepted(&mut self)
        requires
            old(self).wf(),
            old(self).state is Connected,
        ensures
            final(self).wf(),
            final(self)@ == (PeripheralModel { state: ConnState::Disconnecting, ..old(self)@ }),
    {
        self.state = ConnState::Disconnecting;
        proof {
            assert(self@ =~= (PeripheralModel { state: ConnState::Disconnecting, ..old(self)@ }));
        }
    }

    /// The native layer confirmed the connection is gone — whether after a
    /// requested disconnect or because the remote side or the radio dropped
    /// it. Re-entering `Disconnected` invalidates the characteristic cache.
    pub fn on_disconnected(&mut self)
        requires
            old(self).wf(),
        ensures
            final(self).wf(),
            final(self)@ == (PeripheralModel {
                state: ConnState::Disconnected,
                chars: Seq::empty(),
                ..old(self)@
            }),
    {
        self.state = ConnState::Disconnected;
        self.characteristics.clear();
        proof {
            assert(self@ =~= (PeripheralModel {
                state: ConnState::Disconnected,
                chars: Seq::empty(),
                ..old(self)@
            }));
        }
    }

    /// A characteristic discovery completed while connected: the cache now
    /// holds exactly the reported characteristics, as an ordered set.
    pub fn on_characteristics_discovered(&mut self, found: &Vec<Characteristic>)
        requires
            old(self).wf(),
            old(self).state is Connected,
        ensures
            final(self).wf(),
            final(self).addr == old(self).addr,
            final(self).props == old(self).props,
            final(self).state == old(self).state,
            chars_sorted(final(self).characteristics@),
            forall|c: Characteristic|
                final(self).characteristics@.contains(c) <==> found@.contains(c),
    {
        self.characteristics.clear();
        let mut i: usize = 0;
        while i < found.len()
            invariant
                old(self).wf(),
                old(self).state is Connected,
                i <= found.len(),
                self.addr == old(self).addr,
                self.props == old(self).props,
                self.state == old(self).state,
                chars_sorted(self.characteristics@),
                forall|c: Characteristic|
                    self.characteristics@.contains(c) <==> found@.take(i as int).contains(c),
            decreases found.len() - i,
        {
            let ghost prev = self.characteristics@;
            insert_char_sorted(&mut self.characteristics, found[i]);
            proof {
                assert(found@.take(i + 1) =~= found@.take(i as int).push(found@[i as int]));
                assert forall|c: Characteristic|
                    #![trigger self.characteristics@.contains(c)]
                    self.characteristics@.contains(c) <==> found@.take(i + 1).contains(c) by {
                    if found@.take(i + 1).contains(c) {
                        let w = choose|w: int|
                            0 <= w < found@.take(i + 1).len() && #[trigger] found@.take(i + 1)[w]
                                == c;
                        if w < i {
                            assert(found@.take(i as int)[w] == c);
                            assert(found@.take(i as int).contains(c));
                        }
                    }
                    if self.characteristics@.contains(c) {
                        if prev.contains(c) {
                            assert(found@.take(i as int).contains(c));
                            let w = choose|w: int|
                                0 <= w < found@.take(i as int).len() && #[trigger] found@.take(
                                    i as int,
                                )[w] == c;
                            assert(found@.take(i + 1)[w] == c);
                            assert(found@.take(i + 1).contains(c));
                        } else {
                            assert(c == found@[i as int]);
                            assert(found@.take(i + 1)[i as int] == c);
                            assert(found@.take(i + 1).contains(c));
                        }
                    }
                }
            }
            i = i + 1;
        }
        proof {
            assert(found@.take(found@.len() as int) =~= found@);
        }
    }

    /// Guard for characteristic I/O (`read`, `write`, `subscribe`,
    /// `unsubscribe`): the operation may proceed exactly when the
    /// peripheral is connected and the characteristic is in the cache. Off
    /// a connection the error is `NotConnected`; connected but with the
    /// characteristic absent from the cache (discovery never run, or the
    /// peripheral lacks it) the error is `NotSupported` naming the cause.
    pub fn check_characteristic(&self, c: &Characteristic) -> (r: Result<(), Error>)
        ensures
            r is Ok <==> (self.state is Connected) && self@.chars.contains(*c),
            !(self.state is Connected) ==> r == Err::<(), Error>(Error::NotConnected),
            (self.state is Connected) && !self@.chars.contains(*c) ==> (r matches Err(e)
                && e matches Error::NotSupported(m) && m@ == "characteristic not discovered"@),
    {
        if !matches!(self.state, ConnState::Connected) {
            Err(Error::NotConnected)
        } else if contains_char(&self.characteristics, *c) {
            Ok(())
        } else {
            Err(Error::NotSupported("characteristic not discovered".to_owned()))
        }
    }
}

/// Maps a backend-classified native fault to the caller-facing error kind:
/// each classification to its own kind, everything unclassified carried as
/// `Other` with its cause.
pub fn classify_fault(fault: BridgeFault) -> (e: Error)
    ensures
        e == match fault {
            BridgeFault::NotConnected => Error::NotConnected,
            BridgeFault::PermissionDenied => Error::PermissionDenied,
            BridgeFault::Unclassified(cause) => Error::Other(cause),
        },
{
    match fault {
        BridgeFault::NotConnected => Error::NotConnected,
        BridgeFault::PermissionDenied => Error::PermissionDenied,
        BridgeFault::Unclassified(cause) => Error::Other(cause),
    }
}

/// The native code a write kind is marshalled to.
pub fn write_type_code(w: WriteType) -> (r: i32)
    ensures
        w is WithResponse ==> r == 2,
        w is WithoutResponse ==> r == 1,
{
    match w {
        WriteType::WithResponse => 2,
        WriteType::WithoutResponse => 1,
    }
}

/// Membership check over a characteristic cache.
fn contains_char(v: &Vec<Characteristic>, c: Characteristic) -> (r: bool)
    ensures
        r == v@.contains(c),
{
    let mut i: usize = 0;
    while i < v.len()
        invariant
            i <= v.len(),
            forall|t: int| 0 <= t < i ==> v@[t] != c,
        decreases v.len() - i,
    {
        if v[i] == c {
            return true;
        }
        i = i + 1;
    }
    false
}

/// Inserts `c` into a sorted duplicate-free cache, keeping it so; a
/// characteristic already present is left alone.
#[verifier::loop_isolation(false)]
fn insert_char_sorted(v: &mut Vec<Characteristic>, c: Characteristic)
    requires
        chars_sorted(old(v)@),
    ensures
        chars_sorted(final(v)@),
        forall|x: Characteristic| final(v)@.contains(x) <==> old(v)@.contains(x) || x == c,
{
    let mut i: usize = 0;
    while i < v.len() && v[i].comes_before(&c)
        invariant
            i <= v.len(),
            *v == *old(v),
            forall|t: int| 0 <= t < i ==> char_lt(v@[t], c),
        decreases v.len() - i,
    {
        i = i + 1;
    }
    if i < v.len() && v[i] == c {
        proof {
            assert(old(v)@.contains(c));
        }
        return ;
    }
    v.insert(i, c);
    proof {
        old(v)@.insert_ensures(i as int, c);
        assert forall|a: int, b: int| 0 <= a < b < v@.len() implies char_lt(v@[a], v@[b]) by {
            if b < i {
                assert(char_lt(old(v)@[a], old(v)@[b]));
            } else if a < i && b == i {
                assert(char_lt(old(v)@[a], c));
            } else if a < i && b > i {
                assert(char_lt(old(v)@[a], old(v)@[b - 1]));
            } else if a == i && b > i {
                assert(!char_lt(old(v)@[i as int], c));
                assert(old(v)@[i as int] != c);
                assert(char_lt(c, old(v)@[i as int]));
                if b - 1 > i {
                    assert(char_lt(old(v)@[i as int], old(v)@[b - 1]));
                }
            } else {
                assert(char_lt(old(v)@[a - 1], old(v)@[b - 1]));
            }
        }
        assert forall|x: Characteristic| v@.contains(x) <==> old(v)@.contains(x) || x == c by {
            if v@.contains(x) {
                let w = choose|w: int| 0 <= w < v@.len() && v@[w] == x;
                if w < i {
                    assert(old(v)@[w] == x);
                } else if w > i {
                    assert(old(v)@[w - 1] == x);
                }
            }
            if old(v)@.contains(x) {
                let w = choose|w: int| 0 <= w < old(v)@.len() && old(v)@[w] == x;
                if w < i {
                    assert(v@[w] == x);
                } else {
                    assert(v@[w + 1] == x);
                }
            }
        }
    }
}

} // verus!
