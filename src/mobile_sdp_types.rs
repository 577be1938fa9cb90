//! Session descriptions exchanged with a mobile to set up its camera
//! streams.

use vstd::prelude::*;

use crate::app_data::VideoProp;

verus! {

/// The session description of one camera.
#[derive(Debug, Clone)]
pub struct CameraSdp {
    pub name: String,
    pub format: VideoProp,
    pub sdp: String,
}

/// The offer a mobile sends for its cameras.
#[derive(Debug, Clone)]
pub struct MobileSdpOffer {
    pub mobile_id: String,
    pub camera_offer: Vec<CameraSdp>,
}

/// The answer the host returns for the cameras offered.
#[derive(Debug, Clone)]
pub struct MobileSdpAnswer {
    pub camera_answer: Vec<CameraSdp>,
}

} // verus!
