//! The per-peer session state machine.
//!
//! A peer goes from first contact through reading the host information,
//! writing its record, writing its identifier, to having its virtual
//! devices built and being ready to stream. Each transition is guarded:
//! asked for in another state it fails with `WrongState` and changes
//! nothing. Where a transition needs the data store or the device builder,
//! the caller makes that call between a check here and the completion here,
//! and hands its outcome back; a failed call leaves the session where it
//! was, so the peer may retry.

use vstd::prelude::*;

use crate::addr_map::AddrMap;
use crate::app_data::{MobileSchema, VideoProp};
use crate::mobile_sdp_types::{CameraSdp, MobileSdpAnswer};

verus! {

/// A virtual capture device built for one camera of a mobile.
#[derive(Debug)]
pub struct VDeviceEntry {
    /// The camera the device shows.
    pub camera: String,
    /// The handle under which the device builder knows the device.
    pub handle: u64,
    /// The host's SDP answer for the camera's stream.
    pub sdp_answer: String,
}

/// Where a peer stands in its session.
#[derive(Debug)]
pub enum SessionState {
    /// First contact made; the host information has not been read yet.
    AwaitingHostInfoRead,
    /// The host information was read; the mobile's record is expected.
    AwaitingMobileInfoWrite,
    /// The record was stored; the mobile's identifier is expected.
    AwaitingMobileIdWrite,
    /// The mobile is known; its camera offer is expected.
    Registered { mobile: MobileSchema },
    /// The virtual devices are built, in the order they were acquired.
    ReadyToStream { mobile: MobileSchema, vdevices: Vec<VDeviceEntry> },
}

/// Why a request of a peer failed.
#[derive(Debug, Clone, Copy, PartialEq, Eq, Structural)]
pub enum CommError {
    /// The request is not valid in the peer's current state.
    WrongState,
    /// No session exists for the peer.
    AddressNotFound,
    /// A chunked write grew past the configured limit and was given up.
    BufferLimitExceeded,
    /// The data store or the device builder failed.
    CollaboratorFailure,
    /// Nobody subscribed to the topic yet.
    TopicNotFound,
    /// A chunk size of zero bytes was asked for.
    InvalidChunkSize,
}

/// The handles of the devices of a session, in the order they are to be
/// released: the reverse of the order they were acquired.
pub open spec fn release_order(s: SessionState) -> Seq<u64> {
    match s {
        SessionState::ReadyToStream { vdevices, .. } => device_handles(vdevices@).reverse(),
        _ => Seq::empty(),
    }
}

pub open spec fn device_handles(d: Seq<VDeviceEntry>) -> Seq<u64> {
    d.map_values(|e: VDeviceEntry| e.handle)
}

/// The format reported for a camera in an answer: none is negotiated, so
/// every field is zero.
pub open spec fn unset_format() -> VideoProp {
    VideoProp { resolution: (0, 0), fps: 0 }
}

/// `a` answers the devices `d` one for one, in order: each entry names the
/// device's camera, reports the unset format and carries the device's SDP
/// answer.
pub open spec fn answers_devices(a: Seq<CameraSdp>, d: Seq<VDeviceEntry>) -> bool {
    &&& a.len() == d.len()
    &&& forall|i: int|
        0 <= i < a.len() ==> {
            &&& #[trigger] a[i].name == d[i].camera
            &&& a[i].format == unset_format()
            &&& a[i].sdp == d[i].sdp_answer
        }
}

/// The sessions of all peers.
pub struct MobileComm {
    mobiles_connected: AddrMap<SessionState>,
}

impl MobileComm {
    pub closed spec fn wf(&self) -> bool {
        self.mobiles_connected.wf()
    }

    pub closed spec fn view(&self) -> Map<Seq<char>, SessionState> {
        self.mobiles_connected.view()
    }

    /// No session.
    pub fn new() -> (r: Self)
        ensures
            r.wf(),
            r.view() == Map::<Seq<char>, SessionState>::empty(),
    {
        MobileComm { mobiles_connected: AddrMap::new() }
    }

    /// The session of `addr`, if there is one.
    pub fn state(&self, addr: &str) -> (r: Option<&SessionState>)
        requires
            self.wf(),
        ensures
            r == (if self.view().contains_key(addr@) {
                Some(&self.view()[addr@])
            } else {
                None
            }),
    {
        self.mobiles_connected.get(addr)
    }

    /// Opens a session for `addr` on first contact; an open session is kept.
    pub fn ensure_session(&mut self, addr: &str)
        requires
            old(self).wf(),
        ensures
            final(self).wf(),
            final(self).view() == (if old(self).view().contains_key(addr@) {
                old(self).view()
            } else {
                old(self).view().insert(addr@, SessionState::AwaitingHostInfoRead)
            }),
    {
        if !self.mobiles_connected.contains(addr) {
            self.mobiles_connected.insert(addr, SessionState::AwaitingHostInfoRead);
        }
    }

    /// The host information was read to its end by `addr`: a session that
    /// waited for it moves on; any other stays as it is.
    pub fn host_info_read(&mut self, addr: &str)
        requires
            old(self).wf(),
        ensures
            final(self).wf(),
            final(self).view() == (if old(self).view().contains_key(addr@)
                && old(self).view()[addr@] is AwaitingHostInfoRead {
                old(self).view().insert(addr@, SessionState::AwaitingMobileInfoWrite)
            } else {
                old(self).view()
            }),
    {
        if let Some(SessionState::AwaitingHostInfoRead) = self.mobiles_connected.get(addr) {
            self.mobiles_connected.insert(addr, SessionState::AwaitingMobileInfoWrite);
        }
    }

    /// Whether `addr` may register its record now: only once it has read
    /// the host information to its end. The record goes to the data store
    /// only on `Ok`; the outcome is then reported with `mobile_registered`.
    pub fn register_mobile(&self, addr: &str) -> (r: Result<(), CommError>)
        requires
            self.wf(),
        ensures
            r is Ok <==> self.view().contains_key(addr@)
                && self.view()[addr@] is AwaitingMobileInfoWrite,
            r is Err ==> r == Err::<(), CommError>(CommError::WrongState),
    {
        match self.mobiles_connected.get(addr) {
            Some(SessionState::AwaitingMobileInfoWrite) => Ok(()),
            _ => Err(CommError::WrongState),
        }
    }

    /// The record of `addr` was handed to the data store, which stored it
    /// when `stored` holds.
    pub fn mobile_registered(&mut self, addr: &str, stored: bool) -> (r: Result<(), CommError>)
        requires
            old(self).wf(),
        ensures
            final(self).wf(),
            ({
                let valid = old(self).view().contains_key(addr@)
                    && old(self).view()[addr@] is AwaitingMobileInfoWrite;
                &&& !valid ==> r == Err::<(), CommError>(CommError::WrongState)
                &&& valid && !stored ==> r == Err::<(), CommError>(CommError::CollaboratorFailure)
                &&& valid && stored ==> r is Ok
                &&& final(self).view() == (if valid && stored {
                    old(self).view().insert(addr@, SessionState::AwaitingMobileIdWrite)
                } else {
                    old(self).view()
                })
            }),
    {
        self.register_mobile(addr)?;
        if !stored {
            return Err(CommError::CollaboratorFailure);
        }
        self.mobiles_connected.insert(addr, SessionState::AwaitingMobileIdWrite);
        Ok(())
    }

    /// Whether `addr` may give its identifier now.
    pub fn check_mobile_id(&self, addr: &str) -> (r: Result<(), CommError>)
        requires
            self.wf(),
        ensures
            r is Ok <==> self.view().contains_key(addr@)
                && self.view()[addr@] is AwaitingMobileIdWrite,
            r is Err ==> r == Err::<(), CommError>(CommError::WrongState),
    {
        match self.mobiles_connected.get(addr) {
            Some(SessionState::AwaitingMobileIdWrite) => Ok(()),
            _ => Err(CommError::WrongState),
        }
    }

    /// The identifier of `addr` was looked up in the data store, which
    /// found `found`.
    pub fn mobile_identified(&mut self, addr: &str, found: Option<MobileSchema>) -> (r: Result<
        (),
        CommError,
    >)
        requires
            old(self).wf(),
        ensures
            final(self).wf(),
            ({
                let valid = old(self).view().contains_key(addr@)
                    && old(self).view()[addr@] is AwaitingMobileIdWrite;
                &&& !valid ==> r == Err::<(), CommError>(CommError::WrongState)
                &&& valid && found is None ==> r == Err::<(), CommError>(
                    CommError::CollaboratorFailure,
                )
                &&& valid && found is Some ==> r is Ok
                &&& final(self).view() == (if valid && found is Some {
                    old(self).view().insert(
                        addr@,
                        SessionState::Registered { mobile: found->Some_0 },
                    )
                } else {
                    old(self).view()
                })
            }),
    {
        self.check_mobile_id(addr)?;
        match found {
            Some(mobile) => {
                self.mobiles_connected.insert(addr, SessionState::Registered { mobile });
                Ok(())
            },
            None => Err(CommError::CollaboratorFailure),
        }
    }

    /// The mobile of `addr`, once it is registered and while its devices are
    /// not built yet: what the device builder is to be called with.
    pub fn registered_mobile(&self, addr: &str) -> (r: Result<&MobileSchema, CommError>)
        requires
            self.wf(),
        ensures
            match r {
                Ok(m) => self.view().contains_key(addr@) && self.view()[addr@]
                    == SessionState::Registered { mobile: *m },
                Err(e) => e == CommError::WrongState && !(self.view().contains_key(addr@)
                    && self.view()[addr@] is Registered),
            },
    {
        match self.mobiles_connected.get(addr) {
            Some(SessionState::Registered { mobile }) => Ok(mobile),
            _ => Err(CommError::WrongState),
        }
    }

    /// The device builder was called for the mobile of `addr` and built
    /// `built`, in order of acquisition, or failed.
    pub fn devices_ready(&mut self, addr: &str, built: Option<Vec<VDeviceEntry>>) -> (r: Result<
        (),
        CommError,
    >)
        requires
            old(self).wf(),
        ensures
            final(self).wf(),
            ({
                let valid = old(self).view().contains_key(addr@)
                    && old(self).view()[addr@] is Registered;
                &&& !valid ==> r == Err::<(), CommError>(CommError::WrongState)
                &&& valid && built is None ==> r == Err::<(), CommError>(
                    CommError::CollaboratorFailure,
                )
                &&& valid && built is Some ==> r is Ok
                &&& final(self).view() == (if valid && built is Some {
                    old(self).view().insert(
                        addr@,
                        SessionState::ReadyToStream {
                            mobile: old(self).view()[addr@]->Registered_mobile,
                            vdevices: built->Some_0,
                        },
                    )
                } else {
                    old(self).view()
                })
            }),
    {
        match self.mobiles_connected.get(addr) {
            Some(SessionState::Registered { .. }) => {},
            _ => return Err(CommError::WrongState),
        }
        let vdevices = match built {
            Some(v) => v,
            None => return Err(CommError::CollaboratorFailure),
        };
        match self.mobiles_connected.remove(addr) {
            Some(SessionState::Registered { mobile }) => {
                self.mobiles_connected.insert(addr, SessionState::ReadyToStream { mobile, vdevices });
                assert(self.view() =~= old(self).view().insert(
                    addr@,
                    SessionState::ReadyToStream {
                        mobile: old(self).view()[addr@]->Registered_mobile,
                        vdevices,
                    },
                ));
                Ok(())
            },
            _ => Err(CommError::WrongState),
        }
    }

    /// Whether `addr` is ready to stream, which an SDP response needs.
    pub fn check_streaming(&self, addr: &str) -> (r: Result<(), CommError>)
        requires
            self.wf(),
        ensures
            r is Ok <==> self.view().contains_key(addr@) && self.view()[addr@] is ReadyToStream,
            r is Err ==> r == Err::<(), CommError>(CommError::WrongState),
    {
        match self.mobiles_connected.get(addr) {
            Some(SessionState::ReadyToStream { .. }) => Ok(()),
            _ => Err(CommError::WrongState),
        }
    }

    /// The host's answer to the camera offer of `addr`: one entry per
    /// virtual device, in order of acquisition, with the camera's name and
    /// the device's SDP answer. Only a peer ready to stream has one.
    pub fn get_sdp_answer(&self, addr: &str) -> (r: Result<MobileSdpAnswer, CommError>)
        requires
            self.wf(),
        ensures
            !self.view().contains_key(addr@) ==> r == Err::<MobileSdpAnswer, CommError>(
                CommError::AddressNotFound,
            ),
            self.view().contains_key(addr@) && !(self.view()[addr@] is ReadyToStream) ==> r
                == Err::<MobileSdpAnswer, CommError>(CommError::WrongState),
            r matches Ok(answer) ==> self.view().contains_key(addr@) && answers_devices(
                answer.camera_answer@,
                self.view()[addr@]->ReadyToStream_vdevices@,
            ),
            self.view().contains_key(addr@) && self.view()[addr@] is ReadyToStream ==> r is Ok,
    {
        match self.mobiles_connected.get(addr) {
            Some(SessionState::ReadyToStream { vdevices, .. }) => {
                let mut camera_answer: Vec<CameraSdp> = Vec::new();
                let mut i: usize = 0;
                while i < vdevices.len()
                    invariant
                        i <= vdevices@.len(),
                        answers_devices(camera_answer@, vdevices@.subrange(0, i as int)),
                    decreases vdevices@.len() - i,
                {
                    let d = &vdevices[i];
                    let entry = CameraSdp {
                        name: d.camera.clone(),
                        format: VideoProp { resolution: (0, 0), fps: 0 },
                        sdp: d.sdp_answer.clone(),
                    };
                    camera_answer.push(entry);
                    i = i + 1;
                    assert(vdevices@.subrange(0, i as int).drop_last() =~= vdevices@.subrange(0, i - 1));
                }
                assert(vdevices@.subrange(0, i as int) =~= vdevices@);
                Ok(MobileSdpAnswer { camera_answer })
            },
            Some(_) => Err(CommError::WrongState),
            None => Err(CommError::AddressNotFound),
        }
    }

    /// The peer `addr` left: its session is dropped, and the handles of its
    /// virtual devices are returned in the order they are to be released,
    /// the reverse of the order they were acquired. A peer without a session
    /// gives `AddressNotFound` and changes nothing.
    pub fn mobile_disconnected(&mut self, addr: &str) -> (r: Result<Vec<u64>, CommError>)
        requires
            old(self).wf(),
        ensures
            final(self).wf(),
            final(self).view() == old(self).view().remove(addr@),
            match r {
                Ok(h) => old(self).view().contains_key(addr@) && h@ == release_order(
                    old(self).view()[addr@],
                ),
                Err(e) => e == CommError::AddressNotFound && !old(self).view().contains_key(addr@),
            },
    {
        match self.mobiles_connected.remove(addr) {
            Some(SessionState::ReadyToStream { vdevices, .. }) => Ok(release_handles(&vdevices)),
            Some(_) => Ok(Vec::new()),
            None => {
                assert(old(self).view().remove(addr@) =~= old(self).view());
                Err(CommError::AddressNotFound)
            },
        }
    }
}

/// The handles of `d`, last acquired first.
fn release_handles(d: &Vec<VDeviceEntry>) -> (r: Vec<u64>)
    ensures
        r@ == device_handles(d@).reverse(),
{
    let mut r: Vec<u64> = Vec::new();
    let mut i: usize = d.len();
    while i > 0
        invariant
            i <= d@.len(),
            r@.len() == d@.len() - i,
            forall|j: int| 0 <= j < r@.len() ==> #[trigger] r@[j] == d@[d@.len() - 1 - j].handle,
        decreases i,
    {
        i = i - 1;
        r.push(d[i].handle);
    }
    assert(r@ =~= device_handles(d@).reverse());
    r
}

/// Disconnecting a peer that is ready to stream releases the handle of each
/// of its virtual devices exactly once, and leaves no session behind, so
/// that a second disconnect of the same peer finds nothing; the sessions of
/// other peers are kept.
pub proof fn lemma_disconnect_cleanup(
    sessions: Map<Seq<char>, SessionState>,
    addr: Seq<char>,
    other: Seq<char>,
)
    requires
        sessions.contains_key(addr),
        sessions[addr] is ReadyToStream,
        other != addr,
    ensures
        release_order(sessions[addr]).to_multiset() == device_handles(
            sessions[addr]->ReadyToStream_vdevices@,
        ).to_multiset(),
        !sessions.remove(addr).contains_key(addr),
        sessions.remove(addr).remove(addr) == sessions.remove(addr),
        sessions.contains_key(other) ==> sessions.remove(addr).contains_key(other)
            && sessions.remove(addr)[other] == sessions[other],
{
    device_handles(sessions[addr]->ReadyToStream_vdevices@).lemma_reverse_to_multiset();
    assert(sessions.remove(addr).remove(addr) =~= sessions.remove(addr));
}

} // verus!
