//! Control of the host's access point: the wireless link, the DHCP server
//! and the WiFi broadcast, each behind an interface that the platform
//! implements.

use vstd::prelude::*;

use crate::interface_index::InterfaceIndex;
use crate::ip_range::{parse_ipv4, range_check, router_text, DhcpIpRange, IpRangeError};
use vstd::string::StringSliceAdditionalSpecFns;
use vstd::utf8::encode_utf8;

verus! {

/// Why an access-point operation failed.
#[derive(Debug, Clone, PartialEq, Eq)]
pub enum ApError {
    /// No physical device supports access-point mode.
    NoApPhy,
    /// The driver did not create the link.
    LinkNotCreated,
    /// The interface already has an address.
    AddressExists,
    /// The interface name is empty.
    InvalidInterfaceName,
    /// A platform operation failed; the text says why.
    Failed(String),
}

/// Name and passphrase of the network broadcast.
#[derive(Debug, PartialEq, Eq)]
pub struct WifiCredentials {
    pub ssid: String,
    pub password: String,
}

impl Clone for WifiCredentials {
    fn clone(&self) -> (r: Self)
        ensures
            r == *self,
    {
        WifiCredentials { ssid: self.ssid.clone(), password: self.password.clone() }
    }
}

/// The platform's wireless driver.
pub trait WirelessDriver {
    /// The physical device that supports access-point mode, if any.
    fn get_ap_wiphy_indx(&self) -> Result<Option<InterfaceIndex>, ApError>;

    /// Creates a link named `name` on the physical device `phy_idx`; its
    /// index, or `None` when no link was created.
    fn create_new_link(&self, name: &str, phy_idx: InterfaceIndex) -> Result<
        Option<InterfaceIndex>,
        ApError,
    >;

    /// Gives the interface `ifindex` the address `addr`, on a /24 prefix.
    fn add_ipv4_addr(&self, ifindex: InterfaceIndex, addr: &str) -> Result<(), ApError>;

    /// Deletes the link `ifindex`.
    fn delete_link(&self, ifindex: InterfaceIndex) -> Result<(), ApError>;
}

/// A wireless link that can be given one address.
pub trait IwLinkHandler {
    /// The link's interface name.
    spec fn name_view(&self) -> Seq<char>;

    /// The address the link was given, if any.
    spec fn addr_view(&self) -> Option<Seq<char>>;

    /// Gives the link the address `addr`: refused with `AddressExists` when
    /// it already has one, and kept only on success.
    fn add_ipv4_addr(&mut self, addr: &str) -> (r: Result<(), ApError>)
        ensures
            final(self).name_view() == old(self).name_view(),
            old(self).addr_view() is Some ==> r == Err::<(), ApError>(ApError::AddressExists),
            r is Ok ==> final(self).addr_view() == Some(addr@),
            r is Err ==> final(self).addr_view() == old(self).addr_view();

    /// The link's interface name.
    fn get_if_name(&self) -> (r: &str)
        ensures
            r@ == self.name_view();
}

/// The DHCP server.
pub trait DhcpServerCtl {
    /// Serves the addresses of `ip_range` on the interface `iw_name`.
    fn start(&mut self, iw_name: &str, ip_range: DhcpIpRange) -> Result<(), ApError>;

    /// Stops serving.
    fn stop(&mut self) -> Result<(), ApError>;
}

/// The WiFi broadcast.
pub trait WifiManagerCtl {
    /// Hides the network.
    fn pause(&mut self) -> Result<(), ApError>;

    /// Shows the network.
    fn resume(&mut self) -> Result<(), ApError>;

    /// Broadcasts under new credentials.
    fn change_creds(&mut self, creds: WifiCredentials) -> Result<(), ApError>;

    /// Stops the broadcast for good.
    fn turnoff(&mut self) -> Result<(), ApError>;
}

/// Control of the access point as a whole.
pub trait AccessPointCtl {
    /// The credentials last set successfully.
    spec fn creds(&self) -> Option<WifiCredentials>;

    /// The address the DHCP server's interface was last given.
    spec fn router_addr(&self) -> Option<Seq<char>>;

    /// What the link answered when last asked for the router's address.
    spec fn last_addr_result(&self) -> Option<Result<(), ApError>>;

    /// How many times the DHCP server was asked to start.
    spec fn dhcp_starts(&self) -> nat;

    /// What the DHCP server answered when last asked to start.
    spec fn last_dhcp_result(&self) -> Option<Result<(), ApError>>;

    /// Starts the WiFi broadcast.
    fn start_wifi(&mut self) -> (r: Result<(), ApError>)
        ensures
            final(self).creds() == old(self).creds(),
            final(self).router_addr() == old(self).router_addr(),
            final(self).last_addr_result() == old(self).last_addr_result(),
            final(self).dhcp_starts() == old(self).dhcp_starts(),
            final(self).last_dhcp_result() == old(self).last_dhcp_result();

    /// Stops the WiFi broadcast.
    fn stop_wifi(&mut self) -> (r: Result<(), ApError>)
        ensures
            final(self).creds() == old(self).creds(),
            final(self).router_addr() == old(self).router_addr(),
            final(self).last_addr_result() == old(self).last_addr_result(),
            final(self).dhcp_starts() == old(self).dhcp_starts(),
            final(self).last_dhcp_result() == old(self).last_dhcp_result();

    /// Gives the interface the router's address of `ip_range`, then serves
    /// the range on it. When the link refuses the address, its error is
    /// returned and the DHCP server is not asked to start; otherwise the
    /// server is asked once and its answer is returned.
    fn start_dhcp_server(&mut self, ip_range: DhcpIpRange) -> (r: Result<(), ApError>)
        ensures
            final(self).creds() == old(self).creds(),
            match final(self).last_addr_result() {
                Some(Err(e)) => {
                    &&& r == Err::<(), ApError>(e)
                    &&& final(self).router_addr() == old(self).router_addr()
                    &&& final(self).dhcp_starts() == old(self).dhcp_starts()
                    &&& final(self).last_dhcp_result() == old(self).last_dhcp_result()
                },
                Some(Ok(())) => {
                    &&& final(self).router_addr() == Some(
                        router_text(parse_ipv4(encode_utf8(ip_range.start_view()))->Some_0),
                    )
                    &&& final(self).dhcp_starts() == old(self).dhcp_starts() + 1
                    &&& final(self).last_dhcp_result() == Some(r)
                },
                None => false,
            };

    /// Broadcasts under `creds`; they are kept only when the change took.
    fn set_creds(&mut self, creds: WifiCredentials) -> (r: Result<(), ApError>)
        ensures
            r is Ok ==> final(self).creds() == Some(creds),
            r is Err ==> final(self).creds() == old(self).creds(),
            final(self).router_addr() == old(self).router_addr(),
            final(self).last_addr_result() == old(self).last_addr_result(),
            final(self).dhcp_starts() == old(self).dhcp_starts(),
            final(self).last_dhcp_result() == old(self).last_dhcp_result();

    /// The credentials last set successfully.
    fn get_creds(&mut self) -> (r: Option<WifiCredentials>)
        ensures
            r == old(self).creds(),
            final(self).creds() == old(self).creds(),
            final(self).router_addr() == old(self).router_addr(),
            final(self).last_addr_result() == old(self).last_addr_result(),
            final(self).dhcp_starts() == old(self).dhcp_starts(),
            final(self).last_dhcp_result() == old(self).last_dhcp_result();
}

/// The hostapd configuration for broadcasting `creds` on the interface
/// `iw_name`, with its control socket under `control_dir`.
pub open spec fn hostapd_config_text(
    ssid: Seq<char>,
    password: Seq<char>,
    iw_name: Seq<char>,
    control_dir: Seq<char>,
) -> Seq<char> {
    "ctrl_interface="@ + control_dir + "\ninterface="@ + iw_name + "\ndriver=nl80211\nssid="@ + ssid
        + "\nhw_mode=g\nchannel=6\nwpa=2\nwpa_passphrase="@ + password
        + "\nwpa_key_mgmt=WPA-PSK\nrsn_pairwise=CCMP\nieee80211n=1\nwmm_enabled=1\n"@
}

/// The text of the hostapd configuration file; see `hostapd_config_text`.
pub fn hostapd_config(creds: &WifiCredentials, iw_name: &str, control_dir: &str) -> (r: String)
    ensures
        r@ == hostapd_config_text(creds.ssid@, creds.password@, iw_name@, control_dir@),
{
    let mut r = String::from_str("ctrl_interface=");
    r.append(control_dir);
    r.append("\ninterface=");
    r.append(iw_name);
    r.append("\ndriver=nl80211\nssid=");
    r.append(creds.ssid.as_str());
    r.append("\nhw_mode=g\nchannel=6\nwpa=2\nwpa_passphrase=");
    r.append(creds.password.as_str());
    r.append("\nwpa_key_mgmt=WPA-PSK\nrsn_pairwise=CCMP\nieee80211n=1\nwmm_enabled=1\n");
    assert(r@ =~= hostapd_config_text(creds.ssid@, creds.password@, iw_name@, control_dir@));
    r
}

/// The arguments of dnsmasq serving `start..end` on `iw_name`: no DNS,
/// bound to the interface, in the foreground.
pub open spec fn dnsmasq_args_text(iw_name: Seq<char>, start: Seq<char>, end: Seq<char>) -> Seq<
    Seq<char>,
> {
    seq!["-p"@, "0"@, "-i"@, iw_name, "-F"@, start + ","@ + end, "-n"@, "-d"@]
}

/// The arguments to run dnsmasq with for `ip_range` on `iw_name`; an empty
/// interface name is refused.
pub fn dnsmasq_args(iw_name: &str, ip_range: &DhcpIpRange) -> (r: Result<Vec<String>, ApError>)
    ensures
        iw_name@.len() == 0 ==> r == Err::<Vec<String>, ApError>(ApError::InvalidInterfaceName),
        iw_name@.len() > 0 ==> (r matches Ok(args) && args@.map_values(|a: String| a@)
            == dnsmasq_args_text(iw_name@, ip_range.start_view(), ip_range.end_view())),
{
    if iw_name.is_empty() {
        return Err(ApError::InvalidInterfaceName);
    }
    let mut range = String::from_str(ip_range.get_start_ip());
    range.append(",");
    range.append(ip_range.get_end_ip());
    let mut args: Vec<String> = Vec::new();
    args.push(String::from_str("-p"));
    args.push(String::from_str("0"));
    args.push(String::from_str("-i"));
    args.push(String::from_str(iw_name));
    args.push(String::from_str("-F"));
    args.push(range);
    args.push(String::from_str("-n"));
    args.push(String::from_str("-d"));
    assert(args@.map_values(|a: String| a@) =~= dnsmasq_args_text(
        iw_name@,
        ip_range.start_view(),
        ip_range.end_view(),
    ));
    Ok(args)
}

/// The access point built from a wireless link, a DHCP server and a WiFi
/// broadcast.
pub struct ApController<I: IwLinkHandler, D: DhcpServerCtl, W: WifiManagerCtl> {
    iw_link: I,
    dhcp_server: D,
    wifi_manager: W,
    creds: Option<WifiCredentials>,
    router_addr: Ghost<Option<Seq<char>>>,
    addr_result: Ghost<Option<Result<(), ApError>>>,
    dhcp_starts: Ghost<nat>,
    dhcp_result: Ghost<Option<Result<(), ApError>>>,
}

impl<I: IwLinkHandler, D: DhcpServerCtl, W: WifiManagerCtl> ApController<I, D, W> {
    /// An access point over the given link, DHCP server and WiFi
    /// broadcast, with no credentials set yet and no call made to any of
    /// them.
    pub fn new(iw_link: I, dhcp_server: D, wifi_manager: W) -> (r: Self)
        ensures
            r.link() == iw_link,
            r.dhcp() == dhcp_server,
            r.wifi() == wifi_manager,
            r.creds() == None::<WifiCredentials>,
            r.router_addr() == None::<Seq<char>>,
            r.last_addr_result() == None::<Result<(), ApError>>,
            r.dhcp_starts() == 0,
            r.last_dhcp_result() == None::<Result<(), ApError>>,
    {
        ApController {
            iw_link,
            wifi_manager,
            dhcp_server,
            creds: None,
            router_addr: Ghost(None),
            addr_result: Ghost(None),
            dhcp_starts: Ghost(0),
            dhcp_result: Ghost(None),
        }
    }

    /// The wireless link.
    pub closed spec fn link(&self) -> I {
        self.iw_link
    }

    /// The DHCP server.
    pub closed spec fn dhcp(&self) -> D {
        self.dhcp_server
    }

    /// The WiFi broadcast.
    pub closed spec fn wifi(&self) -> W {
        self.wifi_manager
    }
}

impl<I: IwLinkHandler, D: DhcpServerCtl, W: WifiManagerCtl> AccessPointCtl for ApController<
    I,
    D,
    W,
> {
    closed spec fn creds(&self) -> Option<WifiCredentials> {
        self.creds
    }

    closed spec fn router_addr(&self) -> Option<Seq<char>> {
        self.router_addr@
    }

    closed spec fn last_addr_result(&self) -> Option<Result<(), ApError>> {
        self.addr_result@
    }

    closed spec fn dhcp_starts(&self) -> nat {
        self.dhcp_starts@
    }

    closed spec fn last_dhcp_result(&self) -> Option<Result<(), ApError>> {
        self.dhcp_result@
    }

    fn start_wifi(&mut self) -> (r: Result<(), ApError>) {
        self.wifi_manager.resume()
    }

    fn stop_wifi(&mut self) -> (r: Result<(), ApError>) {
        self.wifi_manager.pause()
    }

    fn set_creds(&mut self, creds: WifiCredentials) -> (r: Result<(), ApError>) {
        let kept = creds.clone();
        self.wifi_manager.change_creds(creds)?;
        self.creds = Some(kept);
        Ok(())
    }

    fn get_creds(&mut self) -> (r: Option<WifiCredentials>) {
        match &self.creds {
            Some(c) => Some(c.clone()),
            None => None,
        }
    }

    fn start_dhcp_server(&mut self, ip_range: DhcpIpRange) -> (r: Result<(), ApError>) {
        let router_ip = ip_range.get_router_ip();
        let assigned = self.iw_link.add_ipv4_addr(router_ip.as_str());
        let ghost answered = assigned;
        self.addr_result = Ghost(Some(answered));
        if let Err(e) = assigned {
            return Err(e);
        }
        self.router_addr = Ghost(Some(router_ip@));
        let if_name = self.iw_link.get_if_name();
        let served = self.dhcp_server.start(if_name, ip_range);
        let ghost started = served;
        self.dhcp_starts = Ghost(self.dhcp_starts@ + 1);
        self.dhcp_result = Ghost(Some(started));
        served
    }
}

/// Why setting the access point up failed.
#[derive(Debug, Clone, PartialEq, Eq)]
pub enum ApSetupError {
    /// A platform operation failed.
    Ap(ApError),
    /// The DHCP range given is not a valid one.
    Range(IpRangeError),
}

/// Sets the access point up: creates the link `if_name` through `driver`,
/// checks the range `start..end`, gives the link the range's router address
/// and serves the range on it, then starts the WiFi broadcast. Fails at the
/// first step that fails; an invalid range fails before any address is
/// assigned or any server started.
pub fn setup_access_point<T: WirelessDriver, D: DhcpServerCtl, W: WifiManagerCtl>(
    driver: T,
    dhcp_server: D,
    wifi_manager: W,
    if_name: &str,
    start: &str,
    end: &str,
) -> (r: Result<ApController<IwLink<T>, D, W>, ApSetupError>)
    ensures
        range_check(parse_ipv4(start.spec_bytes()), parse_ipv4(end.spec_bytes())) is Err ==> r is Err,
        r matches Err(ApSetupError::Range(e)) ==> range_check(
            parse_ipv4(start.spec_bytes()),
            parse_ipv4(end.spec_bytes()),
        ) == Err::<(), IpRangeError>(e),
        r matches Ok(ap) ==> {
            &&& range_check(parse_ipv4(start.spec_bytes()), parse_ipv4(end.spec_bytes())) is Ok
            &&& ap.creds() == None::<WifiCredentials>
            &&& ap.router_addr() == Some(router_text(parse_ipv4(start.spec_bytes())->Some_0))
            &&& ap.last_addr_result() matches Some(Ok(_))
            &&& ap.dhcp_starts() == 1
            &&& ap.last_dhcp_result() matches Some(Ok(_))
        },
{
    let link = match IwLink::new(driver, if_name) {
        Ok(l) => l,
        Err(e) => return Err(ApSetupError::Ap(e)),
    };
    let mut ap = ApController::new(link, dhcp_server, wifi_manager);
    let range = match DhcpIpRange::new(start, end) {
        Ok(r) => r,
        Err(e) => return Err(ApSetupError::Range(e)),
    };
    match ap.start_dhcp_server(range) {
        Ok(()) => {},
        Err(e) => return Err(ApSetupError::Ap(e)),
    }
    match ap.start_wifi() {
        Ok(()) => {},
        Err(e) => return Err(ApSetupError::Ap(e)),
    }
    Ok(ap)
}

/// A wireless link in access-point mode, created through a driver.
pub struct IwLink<T: WirelessDriver> {
    driver: T,
    if_name: String,
    current_addr: Option<String>,
    if_idx: InterfaceIndex,
}

impl<T: WirelessDriver> IwLink<T> {
    /// Creates the link `if_name` on the physical device that supports
    /// access-point mode: asks the driver for that device (see `ap_phy`),
    /// then, only when there is one, asks it to create the link there (see
    /// `from_created`). On success the link has the name given and no
    /// address yet.
    pub fn new(driver: T, if_name: &str) -> (r: Result<Self, ApError>)
        ensures
            r matches Ok(link) ==> link.if_name_view() == if_name@ && link.current_addr_view()
                is None,
    {
        let phy = ap_phy(driver.get_ap_wiphy_indx())?;
        let created = driver.create_new_link(if_name, phy);
        Self::from_created(driver, if_name, created)
    }

    /// The link `if_name` once the driver answered `created` to the request
    /// to create it: the index it created, or `LinkNotCreated` when it
    /// created none, or its error.
    pub fn from_created(driver: T, if_name: &str, created: Result<Option<InterfaceIndex>, ApError>) -> (r:
        Result<Self, ApError>)
        ensures
            match created {
                Ok(Some(i)) => r matches Ok(link) && link.if_name_view() == if_name@
                    && link.current_addr_view() is None && link.if_index_view() == i,
                Ok(None) => r == Err::<Self, ApError>(ApError::LinkNotCreated),
                Err(e) => r == Err::<Self, ApError>(e),
            },
    {
        match created {
            Ok(Some(if_idx)) => Ok(IwLink { driver, if_name: if_name.to_owned(), current_addr: None, if_idx }),
            Ok(None) => Err(ApError::LinkNotCreated),
            Err(e) => Err(e),
        }
    }

    pub closed spec fn if_name_view(&self) -> Seq<char> {
        self.if_name@
    }

    /// The address the link was given, if any.
    pub closed spec fn current_addr_view(&self) -> Option<Seq<char>> {
        match self.current_addr {
            Some(a) => Some(a@),
            None => None,
        }
    }

    /// Deletes the link.
    pub fn delete(self) -> (r: Result<(), ApError>) {
        self.driver.delete_link(self.if_idx)
    }

    /// Gives the link the address `addr`: refused with `AddressExists` when
    /// it already has one; kept only when the driver took it.
    pub fn set_addr(&mut self, addr: &str) -> (r: Result<(), ApError>)
        ensures
            final(self).if_name_view() == old(self).if_name_view(),
            old(self).current_addr_view() is Some ==> r == Err::<(), ApError>(ApError::AddressExists),
            r is Ok ==> final(self).current_addr_view() == Some(addr@),
            r is Err ==> final(self).current_addr_view() == old(self).current_addr_view(),
    {
        if self.current_addr.is_some() {
            return Err(ApError::AddressExists);
        }
        self.driver.add_ipv4_addr(self.if_idx, addr)?;
        self.current_addr = Some(addr.to_owned());
        Ok(())
    }

    /// The index of the link.
    pub fn if_index(&self) -> (r: InterfaceIndex)
        ensures
            r == self.if_index_view(),
    {
        self.if_idx
    }

    pub closed spec fn if_index_view(&self) -> InterfaceIndex {
        self.if_idx
    }

    /// The address the link was given, if any.
    pub fn current_addr(&self) -> (r: Option<&str>)
        ensures
            match r {
                Some(a) => self.current_addr_view() == Some(a@),
                None => self.current_addr_view() is None,
            },
    {
        match &self.current_addr {
            Some(a) => Some(a.as_str()),
            None => None,
        }
    }

    /// The link's interface name.
    pub fn if_name(&self) -> (r: &str)
        ensures
            r@ == self.if_name_view(),
    {
        self.if_name.as_str()
    }
}

/// The physical device to create an access-point link on, from the
/// driver's answer `found`: the device it found, or `NoApPhy` when it found
/// none, or its error.
pub fn ap_phy(found: Result<Option<InterfaceIndex>, ApError>) -> (r: Result<InterfaceIndex, ApError>)
    ensures
        r == match found {
            Ok(Some(i)) => Ok::<InterfaceIndex, ApError>(i),
            Ok(None) => Err(ApError::NoApPhy),
            Err(e) => Err(e),
        },
{
    match found {
        Ok(Some(i)) => Ok(i),
        Ok(None) => Err(ApError::NoApPhy),
        Err(e) => Err(e),
    }
}

impl<T: WirelessDriver> IwLinkHandler for IwLink<T> {
    closed spec fn name_view(&self) -> Seq<char> {
        self.if_name_view()
    }

    closed spec fn addr_view(&self) -> Option<Seq<char>> {
        self.current_addr_view()
    }

    fn add_ipv4_addr(&mut self, addr: &str) -> (r: Result<(), ApError>) {
        self.set_addr(addr)
    }

    fn get_if_name(&self) -> (r: &str) {
        self.if_name()
    }
}

} // verus!
