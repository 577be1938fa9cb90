//! Request and payload types exchanged between the GATT layer and the
//! request dispatcher.

use vstd::prelude::*;

verus! {

/// One fragment of a larger payload, tagged with the number of bytes of the
/// payload that follow it.
#[derive(Debug, Clone, PartialEq, Eq, Default)]
pub struct DataChunk {
    /// Bytes of the whole payload that come after this fragment.
    pub remain_len: usize,
    /// The fragment itself.
    pub buffer: Vec<u8>,
}

/// Kinds of command a mobile writes to the host.
#[derive(Debug, Clone, Copy, PartialEq, Eq, Structural)]
pub enum CmdApi {
    /// The mobile announces that it leaves.
    MobileDisconnected,
    /// The mobile sends its record for registration.
    RegisterMobile,
    /// The mobile sends its registered identifier.
    MobilePnpId,
    /// The mobile sends a fragment of its SDP offer.
    SdpOffer,
    /// The mobile sends its SDP response.
    MobileSdpResponse,
}

/// Kinds of query a mobile reads from the host.
#[derive(Debug, Clone, Copy, PartialEq, Eq, Structural)]
pub enum QueryApi {
    /// The host's provisioning information.
    HostInfo,
}

/// Topics that mobiles can subscribe to.
#[derive(Debug, Clone, Copy, PartialEq, Eq, Structural)]
pub enum PubSubTopic {
    /// The host's SDP answer is ready.
    SdpCall,
}

/// A read request: which query, and how many bytes fit in one reply.
#[derive(Debug, Clone, Copy, PartialEq, Eq, Structural)]
pub struct QueryReq {
    pub query_type: QueryApi,
    pub max_buffer_len: usize,
}

/// A write request: which command, and the fragment written.
#[derive(Debug, Clone)]
pub struct CommandReq {
    pub cmd_type: CmdApi,
    pub payload: DataChunk,
}

/// A subscription request: which topic, and how many bytes fit in one
/// notification.
#[derive(Debug, Clone, Copy, PartialEq, Eq, Structural)]
pub struct SubReq {
    pub topic: PubSubTopic,
    pub max_buffer_len: usize,
}

/// A publish request: which topic, and the payload to broadcast.
#[derive(Debug, Clone)]
pub struct PubReq {
    pub topic: PubSubTopic,
    pub payload: DataChunk,
}

/// The mathematical value of a chunk.
pub struct ChunkView {
    pub remain_len: nat,
    pub buffer: Seq<u8>,
}

impl View for DataChunk {
    type V = ChunkView;

    open spec fn view(&self) -> ChunkView {
        ChunkView { remain_len: self.remain_len as nat, buffer: self.buffer@ }
    }
}

} // verus!
