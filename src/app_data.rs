//! Records that the host keeps about itself and about the mobiles it has
//! registered.

use vstd::prelude::*;

verus! {

/// How the host reaches the network.
#[derive(Debug, Clone, Copy, PartialEq, Eq, Structural)]
pub enum ConnectionType {
    WLAN,
    AP,
}

/// A registered mobile.
#[derive(Debug, Clone)]
pub struct MobileSchema {
    pub id: String,
    pub name: String,
}

/// The host's own record, with the identifiers of the mobiles registered
/// with it.
#[derive(Debug, Clone)]
pub struct HostSchema {
    pub id: String,
    pub name: String,
    pub connection_type: ConnectionType,
    pub registered_mobiles: Vec<String>,
}

/// What the host is configured with before it has an identifier.
#[derive(Debug, Clone)]
pub struct HostInfo {
    pub name: String,
    pub connection_type: ConnectionType,
}

/// The host information a mobile reads while provisioning.
#[derive(Debug, Clone)]
pub struct HostProvInfo {
    pub id: String,
    pub name: String,
    pub connection_type: String,
}

/// Picture format of one camera stream.
#[derive(Debug, Clone, Copy, PartialEq, Eq, Default)]
pub struct VideoProp {
    pub resolution: (u32, u32),
    pub fps: u32,
}

/// A camera of a mobile and the formats it offers.
#[derive(Debug, Clone)]
pub struct CameraInfo {
    pub name: String,
    pub video_format: Vec<VideoProp>,
}

/// A mobile with its cameras.
#[derive(Debug, Clone)]
pub struct MobileInfo {
    pub id: String,
    pub name: String,
    pub cameras: Vec<CameraInfo>,
}

impl HostSchema {
    /// A fresh host record with identifier `id` and no registered mobile.
    pub fn from_info(id: String, info: HostInfo) -> (r: Self)
        ensures
            r.id == id,
            r.name == info.name,
            r.connection_type == info.connection_type,
            r.registered_mobiles@.len() == 0,
    {
        HostSchema {
            id,
            name: info.name,
            connection_type: info.connection_type,
            registered_mobiles: Vec::new(),
        }
    }

    /// Records that the mobile with identifier `mobile_id` is registered.
    pub fn register_mobile(&mut self, mobile_id: String)
        ensures
            final(self).id == old(self).id,
            final(self).name == old(self).name,
            final(self).connection_type == old(self).connection_type,
            final(self).registered_mobiles@ == old(self).registered_mobiles@.push(mobile_id),
    {
        self.registered_mobiles.push(mobile_id);
    }

    /// The information a mobile reads while provisioning: the identifier,
    /// the name, and the connection type as `"WLAN"` or `"AP"`.
    pub fn prov_info(&self) -> (r: HostProvInfo)
        ensures
            r.id == self.id,
            r.name == self.name,
            r.connection_type@ == connection_type_name(self.connection_type),
    {
        let connection_type = match self.connection_type {
            ConnectionType::WLAN => String::from_str("WLAN"),
            ConnectionType::AP => String::from_str("AP"),
        };
        HostProvInfo { id: self.id.clone(), name: self.name.clone(), connection_type }
    }
}

/// The name under which a connection type is reported.
pub open spec fn connection_type_name(c: ConnectionType) -> Seq<char> {
    match c {
        ConnectionType::WLAN => "WLAN"@,
        ConnectionType::AP => "AP"@,
    }
}

} // verus!
