//! The request dispatcher: the one owner of the chunk cursors, the topic
//! table and the sessions.
//!
//! Each GATT request of a peer becomes one call here, made by a single
//! consumer in the order the requests were queued. A call first opens a
//! session for a peer not seen yet, then moves the chunked transfer along
//! and, once a payload is complete, applies the session's guard. What needs
//! the data store, the device builder or the broadcast channels is returned
//! to the caller as a step to perform; the caller hands its outcome back to
//! the session machine.

use vstd::prelude::*;

use vstd::string::StringSliceAdditionalSpecFns;

use crate::ble_cmd_api::{ChunkView, CmdApi, CommandReq, DataChunk, PubSubTopic, QueryReq, SubReq};
use crate::mobile_buffer::{
    accumulate_result, chunk_at, chunk_views, cursor_of, read_after, reader_at, resume_point,
    split_chunks, split_payload, write_after, writer_at, BufferError, CursorView, MobileBufferMap,
};
use crate::mobile_comm::{release_order, CommError, MobileComm, SessionState, VDeviceEntry};

verus! {

/// What the caller is to do once a write has been handled.
#[derive(Debug)]
pub enum CommandStep {
    /// More fragments are expected; nothing to do.
    Incomplete,
    /// The peer left; release these device handles, in this order.
    Disconnected(Vec<u64>),
    /// Decode this mobile record, store it, and report with
    /// `MobileComm::mobile_registered`.
    StoreMobile(Vec<u8>),
    /// Look up the mobile with this identifier and report with
    /// `MobileComm::mobile_identified`.
    LookupMobile(Vec<u8>),
    /// Decode this camera offer, build the virtual devices for the
    /// registered mobile, and report with
    /// `BleServerCommHandler::devices_ready`.
    BuildDevices(Vec<u8>),
    /// Forward this SDP response to the peer's virtual devices.
    SdpResponse(Vec<u8>),
}

/// The session map once `addr` has made contact.
pub open spec fn contacted(m: Map<Seq<char>, SessionState>, addr: Seq<char>) -> Map<
    Seq<char>,
    SessionState,
> {
    if m.contains_key(addr) {
        m
    } else {
        m.insert(addr, SessionState::AwaitingHostInfoRead)
    }
}

/// What a complete write of kind `kind` with payload `p` gives for a peer
/// in state `s`.
pub open spec fn command_result(
    r: Result<CommandStep, CommError>,
    s: SessionState,
    kind: CmdApi,
    p: Seq<u8>,
) -> bool {
    match kind {
        CmdApi::MobileDisconnected => match r {
            Ok(CommandStep::Disconnected(h)) => h@ == release_order(s),
            _ => false,
        },
        CmdApi::RegisterMobile => if s is AwaitingMobileInfoWrite {
            match r {
                Ok(CommandStep::StoreMobile(b)) => b@ == p,
                _ => false,
            }
        } else {
            r == Err::<CommandStep, CommError>(CommError::WrongState)
        },
        CmdApi::MobilePnpId => if s is AwaitingMobileIdWrite {
            match r {
                Ok(CommandStep::LookupMobile(b)) => b@ == p,
                _ => false,
            }
        } else {
            r == Err::<CommandStep, CommError>(CommError::WrongState)
        },
        CmdApi::SdpOffer => if s is Registered {
            match r {
                Ok(CommandStep::BuildDevices(b)) => b@ == p,
                _ => false,
            }
        } else {
            r == Err::<CommandStep, CommError>(CommError::WrongState)
        },
        CmdApi::MobileSdpResponse => if s is ReadyToStream {
            match r {
                Ok(CommandStep::SdpResponse(b)) => b@ == p,
                _ => false,
            }
        } else {
            r == Err::<CommandStep, CommError>(CommError::WrongState)
        },
    }
}

impl PubSubTopic {
    pub open spec fn spec_slot(self) -> int {
        match self {
            PubSubTopic::SdpCall => 0,
        }
    }

    fn slot(&self) -> (r: usize)
        ensures
            r == self.spec_slot(),
    {
        match self {
            PubSubTopic::SdpCall => 0,
        }
    }
}

/// A peer that has not finished reading the host information, or has made
/// no contact at all, cannot register: its completed `RegisterMobile` write
/// fails with `WrongState` and asks for no store, and its session stays as
/// it was.
pub proof fn lemma_register_needs_host_info(
    sessions: Map<Seq<char>, SessionState>,
    addr: Seq<char>,
    r: Result<CommandStep, CommError>,
    p: Seq<u8>,
)
    requires
        !sessions.contains_key(addr) || sessions[addr] is AwaitingHostInfoRead,
        command_result(r, contacted(sessions, addr)[addr], CmdApi::RegisterMobile, p),
    ensures
        r == Err::<CommandStep, CommError>(CommError::WrongState),
        !(r matches Ok(CommandStep::StoreMobile(_))),
        contacted(sessions, addr)[addr] is AwaitingHostInfoRead,
{
}

/// Transfers of different peers do not interfere: a read or a write by one
/// peer leaves the cursors of every other peer, and so what that peer's
/// next read or write returns, unchanged.
pub proof fn lemma_peers_independent(
    buffers: Map<Seq<char>, CursorView>,
    addr: Seq<char>,
    other: Seq<char>,
    after: CursorView,
)
    requires
        addr != other,
    ensures
        cursor_of(buffers.insert(addr, after), other) == cursor_of(buffers, other),
{
}

/// Number of topics, hence of slots in the topic table.
pub const TOPIC_KINDS: usize = 1;

/// The protocol state of all peers.
pub struct BleServerCommHandler {
    buffer_map: MobileBufferMap,
    sessions: MobileComm,
    /// The chunk size of each topic, one slot per topic; a topic is created
    /// by its first subscription and kept from then on.
    pubsub_topics_map: Vec<Option<usize>>,
}

impl BleServerCommHandler {
    pub closed spec fn wf(&self) -> bool {
        &&& self.buffer_map.wf()
        &&& self.sessions.wf()
        &&& self.pubsub_topics_map@.len() == TOPIC_KINDS
        &&& forall|i: int|
            0 <= i < TOPIC_KINDS && #[trigger] self.pubsub_topics_map@[i] is Some
                ==> self.pubsub_topics_map@[i]->Some_0 > 0
    }

    /// The open chunk transfers of each peer.
    pub closed spec fn buffers(&self) -> Map<Seq<char>, CursorView> {
        self.buffer_map.view()
    }

    /// The bound on chunk sizes asked for and on payloads written.
    pub closed spec fn limit(&self) -> nat {
        self.buffer_map.limit()
    }

    /// The session of each peer.
    pub closed spec fn sessions(&self) -> Map<Seq<char>, SessionState> {
        self.sessions.view()
    }

    /// The chunk size of each topic created so far.
    pub closed spec fn topics(&self) -> Map<PubSubTopic, nat> {
        Map::new(
            |t: PubSubTopic| self.pubsub_topics_map@[t.spec_slot()] is Some,
            |t: PubSubTopic| self.pubsub_topics_map@[t.spec_slot()]->Some_0 as nat,
        )
    }

    /// No peer, no topic; chunked transfers bounded by `buffer_size_limit`
    /// bytes.
    pub fn new(buffer_size_limit: usize) -> (r: Self)
        ensures
            r.wf(),
            r.buffers() == Map::<Seq<char>, CursorView>::empty(),
            r.sessions() == Map::<Seq<char>, SessionState>::empty(),
            r.topics() == Map::<PubSubTopic, nat>::empty(),
            r.limit() == buffer_size_limit,
    {
        let mut topics: Vec<Option<usize>> = Vec::new();
        topics.push(None);
        let r = BleServerCommHandler {
            buffer_map: MobileBufferMap::new(buffer_size_limit),
            sessions: MobileComm::new(),
            pubsub_topics_map: topics,
        };
        assert(r.topics() =~= Map::<PubSubTopic, nat>::empty());
        r
    }

    /// The session machine, for reporting the outcome of a step.
    pub fn sessions_mut(&mut self) -> (r: &mut MobileComm)
        requires
            old(self).wf(),
        ensures
            r.wf(),
            r.view() == old(self).sessions(),
            final(r).wf() ==> final(self).wf(),
            final(self).sessions() == final(r).view(),
            final(self).buffers() == old(self).buffers(),
            final(self).limit() == old(self).limit(),
            final(self).topics() == old(self).topics(),
    {
        &mut self.sessions
    }

    /// The session machine, to read a session.
    pub fn sessions_ref(&self) -> (r: &MobileComm)
        requires
            self.wf(),
        ensures
            r.wf(),
            r.view() == self.sessions(),
    {
        &self.sessions
    }

    /// Whether a read asking for chunks of `max_len` bytes exceeds the
    /// limit; see `MobileBufferMap::oversized_chunk`.
    pub fn oversized_chunk(&self, max_len: usize) -> (r: bool)
        requires
            self.wf(),
        ensures
            r == (max_len > self.limit()),
    {
        self.buffer_map.oversized_chunk(max_len)
    }

    /// Serves the next fragment of `data`, the answer to `query`, to `addr`.
    /// Sending the last fragment of the host information moves a session
    /// that waited for it on.
    pub fn handle_query(&mut self, addr: &str, query: &QueryReq, data: &[u8]) -> (r: DataChunk)
        requires
            old(self).wf(),
        ensures
            final(self).wf(),
            final(self).limit() == old(self).limit(),
            final(self).topics() == old(self).topics(),
            ({
                let c = cursor_of(old(self).buffers(), addr@);
                let k = query.query_type;
                let s0 = contacted(old(self).sessions(), addr@);
                &&& r@ == chunk_at(
                    data@,
                    query.max_buffer_len as nat,
                    resume_point(reader_at(c, k), data@.len()),
                )
                &&& final(self).buffers() == old(self).buffers().insert(
                    addr@,
                    read_after(c, k, query.max_buffer_len as nat, old(self).limit(), r.remain_len as nat),
                )
                &&& final(self).sessions() == (if r.remain_len == 0 && s0[addr@] is AwaitingHostInfoRead {
                    s0.insert(addr@, SessionState::AwaitingMobileInfoWrite)
                } else {
                    s0
                })
            }),
    {
        self.sessions.ensure_session(addr);
        let chunk = self.buffer_map.get_next_data_chunk(addr, query, data);
        if chunk.remain_len == 0 {
            self.sessions.host_info_read(addr);
        }
        chunk
    }

    /// Takes the fragment written by `addr` in `cmd`. Once the payload is
    /// complete, it is checked against the session's state for its kind and
    /// returned as the step to perform; in the wrong state the write fails
    /// with `WrongState` and the session is left as it was. A disconnect
    /// drops the peer's transfers and session.
    pub fn handle_command(&mut self, addr: &str, cmd: &CommandReq) -> (r: Result<CommandStep, CommError>)
        requires
            old(self).wf(),
        ensures
            final(self).wf(),
            final(self).limit() == old(self).limit(),
            final(self).topics() == old(self).topics(),
            ({
                let c = cursor_of(old(self).buffers(), addr@);
                let k = cmd.cmd_type;
                let s0 = contacted(old(self).sessions(), addr@);
                let acc = accumulate_result(writer_at(c, k), cmd.payload@, old(self).limit());
                let b1 = old(self).buffers().insert(addr@, write_after(c, k, cmd.payload@, old(self).limit()));
                match acc {
                    Err(_) => {
                        &&& r == Err::<CommandStep, CommError>(CommError::BufferLimitExceeded)
                        &&& final(self).sessions() == s0
                        &&& final(self).buffers() == b1
                    },
                    Ok(None) => {
                        &&& r matches Ok(CommandStep::Incomplete)
                        &&& final(self).sessions() == s0
                        &&& final(self).buffers() == b1
                    },
                    Ok(Some(p)) => {
                        &&& command_result(r, s0[addr@], k, p)
                        &&& if k is MobileDisconnected {
                            &&& final(self).sessions() == s0.remove(addr@)
                            &&& final(self).buffers() == b1.remove(addr@)
                        } else {
                            &&& final(self).sessions() == s0
                            &&& final(self).buffers() == b1
                        }
                    },
                }
            }),
    {
        self.sessions.ensure_session(addr);
        let payload = match self.buffer_map.accumulate(addr, cmd) {
            Err(BufferError::BufferLimitExceeded) => return Err(CommError::BufferLimitExceeded),
            Ok(None) => return Ok(CommandStep::Incomplete),
            Ok(Some(p)) => p,
        };
        match cmd.cmd_type {
            CmdApi::MobileDisconnected => {
                self.buffer_map.remove_mobile(addr);
                match self.sessions.mobile_disconnected(addr) {
                    Ok(h) => Ok(CommandStep::Disconnected(h)),
                    Err(e) => Err(e),
                }
            },
            CmdApi::RegisterMobile => {
                self.sessions.register_mobile(addr)?;
                Ok(CommandStep::StoreMobile(payload))
            },
            CmdApi::MobilePnpId => {
                self.sessions.check_mobile_id(addr)?;
                Ok(CommandStep::LookupMobile(payload))
            },
            CmdApi::SdpOffer => {
                self.sessions.registered_mobile(addr)?;
                Ok(CommandStep::BuildDevices(payload))
            },
            CmdApi::MobileSdpResponse => {
                self.sessions.check_streaming(addr)?;
                Ok(CommandStep::SdpResponse(payload))
            },
        }
    }

    /// Subscribes `addr` to a topic, creating the topic with the chunk size
    /// asked for on its first subscription. Only a registered peer may
    /// subscribe; a chunk size of zero is refused.
    pub fn handle_sub(&mut self, addr: &str, sub: &SubReq) -> (r: Result<(), CommError>)
        requires
            old(self).wf(),
        ensures
            final(self).wf(),
            final(self).limit() == old(self).limit(),
            final(self).buffers() == old(self).buffers(),
            ({
                let s0 = contacted(old(self).sessions(), addr@);
                let registered = s0[addr@] is Registered || s0[addr@] is ReadyToStream;
                &&& final(self).sessions() == s0
                &&& sub.max_buffer_len == 0 ==> r == Err::<(), CommError>(CommError::InvalidChunkSize)
                &&& sub.max_buffer_len > 0 && !registered ==> r == Err::<(), CommError>(
                    CommError::WrongState,
                )
                &&& sub.max_buffer_len > 0 && registered ==> r is Ok
                &&& final(self).topics() == (if r is Ok && !old(self).topics().contains_key(sub.topic) {
                    old(self).topics().insert(sub.topic, sub.max_buffer_len as nat)
                } else {
                    old(self).topics()
                })
            }),
    {
        self.sessions.ensure_session(addr);
        if sub.max_buffer_len == 0 {
            return Err(CommError::InvalidChunkSize);
        }
        match self.sessions.state(addr) {
            Some(SessionState::Registered { .. }) => {},
            Some(SessionState::ReadyToStream { .. }) => {},
            _ => return Err(CommError::WrongState),
        }
        let slot = sub.topic.slot();
        if self.pubsub_topics_map[slot].is_none() {
            let ghost before = self.topics();
            self.pubsub_topics_map.set(slot, Some(sub.max_buffer_len));
            assert(self.topics() =~= before.insert(sub.topic, sub.max_buffer_len as nat));
        }
        Ok(())
    }

    /// Cuts `payload` into the fragments to broadcast on `topic`, at the
    /// topic's chunk size. A topic nobody subscribed to gives
    /// `TopicNotFound`.
    pub fn handle_pub(&self, topic: PubSubTopic, payload: &[u8]) -> (r: Result<Vec<DataChunk>, CommError>)
        requires
            self.wf(),
        ensures
            match r {
                Ok(chunks) => self.topics().contains_key(topic) && chunk_views(chunks@)
                    == split_chunks(payload@, self.topics()[topic], payload@.len()),
                Err(e) => e == CommError::TopicNotFound && !self.topics().contains_key(topic),
            },
    {
        match self.pubsub_topics_map[topic.slot()] {
            Some(max) => Ok(split_payload(payload, max)),
            None => Err(CommError::TopicNotFound),
        }
    }

    /// The device builder was called for the registered peer `addr` and
    /// built `built`, or failed; see `MobileComm::devices_ready`. Once the
    /// peer is ready to stream, its address is announced on the `SdpCall`
    /// topic: the fragments to broadcast to the topic's subscribers are
    /// returned, none when nobody subscribed yet.
    pub fn devices_ready(&mut self, addr: &str, built: Option<Vec<VDeviceEntry>>) -> (r: Result<
        Vec<DataChunk>,
        CommError,
    >)
        requires
            old(self).wf(),
        ensures
            final(self).wf(),
            final(self).limit() == old(self).limit(),
            final(self).topics() == old(self).topics(),
            final(self).buffers() == old(self).buffers(),
            ({
                let valid = old(self).sessions().contains_key(addr@)
                    && old(self).sessions()[addr@] is Registered;
                &&& !valid ==> r == Err::<Vec<DataChunk>, CommError>(CommError::WrongState)
                &&& valid && built is None ==> r == Err::<Vec<DataChunk>, CommError>(
                    CommError::CollaboratorFailure,
                )
                &&& valid && built is Some ==> (r matches Ok(chunks) && chunk_views(chunks@) == (
                if old(self).topics().contains_key(PubSubTopic::SdpCall) {
                    split_chunks(
                        addr.spec_bytes(),
                        old(self).topics()[PubSubTopic::SdpCall],
                        addr.spec_bytes().len(),
                    )
                } else {
                    Seq::empty()
                }))
                &&& final(self).sessions() == (if valid && built is Some {
                    old(self).sessions().insert(
                        addr@,
                        SessionState::ReadyToStream {
                            mobile: old(self).sessions()[addr@]->Registered_mobile,
                            vdevices: built->Some_0,
                        },
                    )
                } else {
                    old(self).sessions()
                })
            }),
    {
        self.sessions.devices_ready(addr, built)?;
        match self.pubsub_topics_map[PubSubTopic::SdpCall.slot()] {
            Some(max) => Ok(split_payload(addr.as_bytes(), max)),
            None => {
                let none: Vec<DataChunk> = Vec::new();
                assert(chunk_views(none@) =~= Seq::<ChunkView>::empty());
                Ok(none)
            },
        }
    }

    /// The peer `addr` left: its transfers and session are dropped, and the
    /// handles of its devices are returned in the order to release them. A
    /// peer without a session gives `AddressNotFound`; other peers are not
    /// touched either way.
    pub fn mobile_disconnected(&mut self, addr: &str) -> (r: Result<Vec<u64>, CommError>)
        requires
            old(self).wf(),
        ensures
            final(self).wf(),
            final(self).limit() == old(self).limit(),
            final(self).topics() == old(self).topics(),
            final(self).buffers() == old(self).buffers().remove(addr@),
            final(self).sessions() == old(self).sessions().remove(addr@),
            match r {
                Ok(h) => old(self).sessions().contains_key(addr@) && h@ == release_order(
                    old(self).sessions()[addr@],
                ),
                Err(e) => e == CommError::AddressNotFound && !old(self).sessions().contains_key(
                    addr@,
                ),
            },
    {
        self.buffer_map.remove_mobile(addr);
        self.sessions.mobile_disconnected(addr)
    }
}

} // verus!
