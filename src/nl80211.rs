//! Reading the attributes of nl80211 replies.
//!
//! A generic netlink message carries, after its header, a run of attributes:
//! each starts with its total length and its type, two 16-bit integers in
//! the host's byte order (little-endian on the hosts this library serves),
//! followed by its payload and padded to a multiple of four bytes. The two
//! top bits of the type are flags.

use vstd::prelude::*;

use vstd::slice::{slice_subrange, slice_to_vec};

use crate::interface_index::InterfaceIndex;

verus! {

/// The nl80211 commands the host sends.
#[derive(Debug, Clone, Copy, PartialEq, Eq, Structural)]
pub enum Nl80211Command {
    Unspecified,
    GetWiPhy,
    NewInterface,
    DelInterface,
}

/// The nl80211 attributes the host reads or writes.
#[derive(Debug, Clone, Copy, PartialEq, Eq, Structural)]
pub enum Nl80211Attribute {
    Unspecified,
    Wiphy,
    WiphyName,
    Ifindex,
    Ifname,
    Iftype,
    SupportedIftypes,
    InterfaceCombinations,
    SoftwareIftypes,
}

/// The nl80211 interface types.
#[derive(Debug, Clone, Copy, PartialEq, Eq, Structural)]
pub enum Nl80211Iftype {
    IftypeUnspecified,
    IftypeAdhoc,
    IftypeStation,
    IftypeAp,
    IftypeApVlan,
    IftypeWds,
    IftypeMonitor,
    IftypeMeshPoint,
    IftypeP2pClient,
    IftypeP2pGo,
    IftypeP2pDevice,
    IftypeOcb,
    IftypeNan,
    NumIftypes,
}

impl Nl80211Command {
    pub open spec fn spec_code(self) -> u8 {
        match self {
            Nl80211Command::Unspecified => 0,
            Nl80211Command::GetWiPhy => 1,
            Nl80211Command::NewInterface => 7,
            Nl80211Command::DelInterface => 8,
        }
    }

    /// The command's number on the wire.
    pub fn code(&self) -> (r: u8)
        ensures
            r == self.spec_code(),
    {
        match self {
            Nl80211Command::Unspecified => 0,
            Nl80211Command::GetWiPhy => 1,
            Nl80211Command::NewInterface => 7,
            Nl80211Command::DelInterface => 8,
        }
    }
}

impl Nl80211Attribute {
    pub open spec fn spec_code(self) -> u16 {
        match self {
            Nl80211Attribute::Unspecified => 0,
            Nl80211Attribute::Wiphy => 1,
            Nl80211Attribute::WiphyName => 2,
            Nl80211Attribute::Ifindex => 3,
            Nl80211Attribute::Ifname => 4,
            Nl80211Attribute::Iftype => 5,
            Nl80211Attribute::SupportedIftypes => 32,
            Nl80211Attribute::InterfaceCombinations => 120,
            Nl80211Attribute::SoftwareIftypes => 121,
        }
    }

    /// The attribute's type number on the wire.
    pub fn code(&self) -> (r: u16)
        ensures
            r == self.spec_code(),
    {
        match self {
            Nl80211Attribute::Unspecified => 0,
            Nl80211Attribute::Wiphy => 1,
            Nl80211Attribute::WiphyName => 2,
            Nl80211Attribute::Ifindex => 3,
            Nl80211Attribute::Ifname => 4,
            Nl80211Attribute::Iftype => 5,
            Nl80211Attribute::SupportedIftypes => 32,
            Nl80211Attribute::InterfaceCombinations => 120,
            Nl80211Attribute::SoftwareIftypes => 121,
        }
    }
}

impl Nl80211Iftype {
    pub open spec fn spec_code(self) -> u16 {
        match self {
            Nl80211Iftype::IftypeUnspecified => 0,
            Nl80211Iftype::IftypeAdhoc => 1,
            Nl80211Iftype::IftypeStation => 2,
            Nl80211Iftype::IftypeAp => 3,
            Nl80211Iftype::IftypeApVlan => 4,
            Nl80211Iftype::IftypeWds => 5,
            Nl80211Iftype::IftypeMonitor => 6,
            Nl80211Iftype::IftypeMeshPoint => 7,
            Nl80211Iftype::IftypeP2pClient => 8,
            Nl80211Iftype::IftypeP2pGo => 9,
            Nl80211Iftype::IftypeP2pDevice => 10,
            Nl80211Iftype::IftypeOcb => 11,
            Nl80211Iftype::IftypeNan => 12,
            Nl80211Iftype::NumIftypes => 13,
        }
    }

    /// The interface type's number on the wire.
    pub fn code(&self) -> (r: u16)
        ensures
            r == self.spec_code(),
    {
        match self {
            Nl80211Iftype::IftypeUnspecified => 0,
            Nl80211Iftype::IftypeAdhoc => 1,
            Nl80211Iftype::IftypeStation => 2,
            Nl80211Iftype::IftypeAp => 3,
            Nl80211Iftype::IftypeApVlan => 4,
            Nl80211Iftype::IftypeWds => 5,
            Nl80211Iftype::IftypeMonitor => 6,
            Nl80211Iftype::IftypeMeshPoint => 7,
            Nl80211Iftype::IftypeP2pClient => 8,
            Nl80211Iftype::IftypeP2pGo => 9,
            Nl80211Iftype::IftypeP2pDevice => 10,
            Nl80211Iftype::IftypeOcb => 11,
            Nl80211Iftype::IftypeNan => 12,
            Nl80211Iftype::NumIftypes => 13,
        }
    }
}

/// One attribute: its type, without the flag bits, and its payload.
pub struct AttrView {
    pub kind: nat,
    pub payload: Seq<u8>,
}

pub open spec fn le16(b: Seq<u8>, at: int) -> nat {
    b[at] as nat + 256 * (b[at + 1] as nat)
}

pub open spec fn align4(n: nat) -> nat {
    (n + 3) / 4 * 4
}

/// The attributes of `b` in order, when `b` is a well-formed run of them.
pub open spec fn parse_attrs(b: Seq<u8>) -> Option<Seq<AttrView>>
    decreases b.len(),
{
    if b.len() == 0 {
        Some(Seq::empty())
    } else if b.len() < 4 || le16(b, 0) < 4 || le16(b, 0) > b.len() {
        None
    } else {
        let len = le16(b, 0);
        let next = if align4(len) < b.len() { align4(len) } else { b.len() as nat };
        match parse_attrs(b.subrange(next as int, b.len() as int)) {
            Some(rest) => Some(
                seq![AttrView { kind: le16(b, 2) % 0x4000, payload: b.subrange(4, len as int) }]
                    + rest,
            ),
            None => None,
        }
    }
}

/// Why a reply could not be read.
#[derive(Debug, Clone, Copy, PartialEq, Eq, Structural)]
pub enum Nl80211Error {
    /// The attributes are not a well-formed run.
    MalformedAttributes,
    /// An index attribute holds fewer than two bytes.
    ShortPayload,
}

/// What a reply says of a wireless device.
#[derive(Debug, Clone, Copy, PartialEq, Eq, Structural, Default)]
pub struct WiPhyProps {
    pub phy_idx: Option<InterfaceIndex>,
    pub ap_supported: Option<bool>,
    pub if_idx: Option<InterfaceIndex>,
}

/// Whether one of the interface types of `types` is an access-point mode.
pub open spec fn lists_ap_mode(types: Seq<AttrView>) -> bool {
    exists|i: int|
        0 <= i < types.len() && (#[trigger] types[i].kind == Nl80211Iftype::IftypeAp.spec_code()
            || types[i].kind == Nl80211Iftype::IftypeApVlan.spec_code())
}

/// The properties after reading attribute `a`: a device or interface index
/// is its payload's first two bytes; a list of software interface types
/// tells whether access-point mode is supported (and `None` when it is not
/// listed); any other attribute changes nothing.
pub open spec fn apply_attr(p: WiPhyProps, a: AttrView) -> Result<WiPhyProps, Nl80211Error> {
    if a.kind == Nl80211Attribute::Wiphy.spec_code() || a.kind
        == Nl80211Attribute::Ifindex.spec_code() {
        if a.payload.len() < 2 {
            Err(Nl80211Error::ShortPayload)
        } else {
            let idx = Some(InterfaceIndex(le16(a.payload, 0) as u16));
            if a.kind == Nl80211Attribute::Wiphy.spec_code() {
                Ok(WiPhyProps { phy_idx: idx, ..p })
            } else {
                Ok(WiPhyProps { if_idx: idx, ..p })
            }
        }
    } else if a.kind == Nl80211Attribute::SoftwareIftypes.spec_code() {
        match parse_attrs(a.payload) {
            Some(types) => Ok(
                WiPhyProps {
                    ap_supported: if lists_ap_mode(types) {
                        Some(true)
                    } else {
                        None
                    },
                    ..p
                },
            ),
            None => Err(Nl80211Error::MalformedAttributes),
        }
    } else {
        Ok(p)
    }
}

/// The properties after reading `attrs` in order from `p`.
pub open spec fn apply_attrs(p: WiPhyProps, attrs: Seq<AttrView>) -> Result<WiPhyProps, Nl80211Error>
    decreases attrs.len(),
{
    if attrs.len() == 0 {
        Ok(p)
    } else {
        match apply_attrs(p, attrs.drop_last()) {
            Ok(q) => apply_attr(q, attrs.last()),
            Err(e) => Err(e),
        }
    }
}

/// What a reply whose attributes are the bytes `b` says.
pub open spec fn props_of(b: Seq<u8>) -> Result<WiPhyProps, Nl80211Error> {
    match parse_attrs(b) {
        Some(attrs) => apply_attrs(WiPhyProps { phy_idx: None, ap_supported: None, if_idx: None }, attrs),
        None => Err(Nl80211Error::MalformedAttributes),
    }
}

/// One attribute as read.
struct Attr {
    kind: u16,
    payload: Vec<u8>,
}

spec fn attr_views(v: Seq<Attr>) -> Seq<AttrView> {
    v.map_values(|a: Attr| AttrView { kind: a.kind as nat, payload: a.payload@ })
}

spec fn after(read: Seq<AttrView>, rest: Option<Seq<AttrView>>) -> Option<Seq<AttrView>> {
    match rest {
        Some(r) => Some(read + r),
        None => None,
    }
}

/// The attributes of `b`; see `parse_attrs`.
fn read_attrs(b: &[u8]) -> (r: Option<Vec<Attr>>)
    ensures
        match r {
            Some(v) => parse_attrs(b@) == Some(attr_views(v@)),
            None => parse_attrs(b@) is None,
        },
{
    let total = b.len();
    let mut out: Vec<Attr> = Vec::new();
    let mut off: usize = 0;
    assert(b@.subrange(0, total as int) =~= b@);
    loop
        invariant
            total == b@.len(),
            off <= total,
            parse_attrs(b@) == after(attr_views(out@), parse_attrs(b@.subrange(off as int, total as int))),
        decreases total - off,
    {
        let ghost s = b@.subrange(off as int, total as int);
        if off == total {
            assert(attr_views(out@) + Seq::<AttrView>::empty() =~= attr_views(out@));
            return Some(out);
        }
        if total - off < 4 {
            return None;
        }
        let len = b[off] as usize + 256 * (b[off + 1] as usize);
        assert(len == le16(s, 0));
        if len < 4 || len > total - off {
            return None;
        }
        let kind = ((b[off + 2] as usize + 256 * (b[off + 3] as usize)) % 0x4000) as u16;
        assert(kind == le16(s, 2) % 0x4000);
        let payload = slice_to_vec(slice_subrange(b, off + 4, off + len));
        assert(payload@ =~= s.subrange(4, len as int));
        let aligned = (len + 3) / 4 * 4;
        let next = if aligned < total - off { aligned } else { total - off };
        assert(s.subrange(next as int, s.len() as int) =~= b@.subrange(off + next, total as int));
        let ghost before = attr_views(out@);
        out.push(Attr { kind, payload });
        let ghost a = AttrView { kind: kind as nat, payload: s.subrange(4, len as int) };
        assert(attr_views(out@) =~= before.push(a));
        proof {
            match parse_attrs(b@.subrange(off + next, total as int)) {
                Some(rest) => {
                    assert(before + (seq![a] + rest) =~= before.push(a) + rest);
                },
                None => {},
            }
        }
        off = off + next;
    }
}

/// Whether `types` lists an access-point mode.
fn has_ap_mode(types: &Vec<Attr>) -> (r: bool)
    ensures
        r == lists_ap_mode(attr_views(types@)),
{
    let ap = Nl80211Iftype::IftypeAp.code();
    let ap_vlan = Nl80211Iftype::IftypeApVlan.code();
    let mut i: usize = 0;
    while i < types.len()
        invariant
            i <= types@.len(),
            ap == 3 && ap_vlan == 4,
            forall|j: int|
                0 <= j < i ==> #[trigger] types@[j].kind != 3 && types@[j].kind != 4,
        decreases types@.len() - i,
    {
        if types[i].kind == ap || types[i].kind == ap_vlan {
            assert(attr_views(types@)[i as int].kind == types@[i as int].kind);
            return true;
        }
        i = i + 1;
    }
    assert forall|j: int| 0 <= j < attr_views(types@).len() implies !(#[trigger] attr_views(types@)[j].kind
        == 3 || attr_views(types@)[j].kind == 4) by {
        assert(attr_views(types@)[j].kind == types@[j].kind);
    }
    false
}

/// What the attribute `a` changes in `p`; see `apply_attr`.
fn read_attr(p: WiPhyProps, a: &Attr) -> (r: Result<WiPhyProps, Nl80211Error>)
    ensures
        r == apply_attr(p, AttrView { kind: a.kind as nat, payload: a.payload@ }),
{
    let wiphy = Nl80211Attribute::Wiphy.code();
    let ifindex = Nl80211Attribute::Ifindex.code();
    let software = Nl80211Attribute::SoftwareIftypes.code();
    if a.kind == wiphy || a.kind == ifindex {
        if a.payload.len() < 2 {
            return Err(Nl80211Error::ShortPayload);
        }
        let v = (a.payload[0] as usize + 256 * (a.payload[1] as usize)) as u16;
        let idx = Some(InterfaceIndex(v));
        if a.kind == wiphy {
            Ok(WiPhyProps { phy_idx: idx, ..p })
        } else {
            Ok(WiPhyProps { if_idx: idx, ..p })
        }
    } else if a.kind == software {
        match read_attrs(a.payload.as_slice()) {
            Some(types) => {
                let ap_supported = if has_ap_mode(&types) {
                    Some(true)
                } else {
                    None
                };
                Ok(WiPhyProps { ap_supported, ..p })
            },
            None => Err(Nl80211Error::MalformedAttributes),
        }
    } else {
        Ok(p)
    }
}

/// Reads what a reply says of a wireless device from its attributes `attrs`
/// (the bytes after the generic netlink header): its device index, its
/// interface index, and whether it supports access-point mode. Later
/// attributes override earlier ones.
pub fn parse_nl80211_payload(attrs: &[u8]) -> (r: Result<WiPhyProps, Nl80211Error>)
    ensures
        r == props_of(attrs@),
{
    let list = match read_attrs(attrs) {
        Some(l) => l,
        None => return Err(Nl80211Error::MalformedAttributes),
    };
    let ghost views = attr_views(list@);
    let init = WiPhyProps { phy_idx: None, ap_supported: None, if_idx: None };
    let mut props = init;
    let mut i: usize = 0;
    assert(views.subrange(0, 0) =~= Seq::<AttrView>::empty());
    while i < list.len()
        invariant
            i <= list@.len(),
            views == attr_views(list@),
            parse_attrs(attrs@) == Some(views),
            init == (WiPhyProps { phy_idx: None, ap_supported: None, if_idx: None }),
            apply_attrs(init, views.subrange(0, i as int)) == Ok::<WiPhyProps, Nl80211Error>(props),
        decreases list@.len() - i,
    {
        let ghost pre = views.subrange(0, i as int);
        assert(views.subrange(0, i + 1).drop_last() =~= pre);
        assert(views.subrange(0, i + 1).last() == views[i as int]);
        assert(views[i as int] == AttrView { kind: list@[i as int].kind as nat, payload: list@[i as int].payload@ });
        match read_attr(props, &list[i]) {
            Ok(q) => props = q,
            Err(e) => {
                proof {
                    assert(apply_attrs(init, views.subrange(0, i + 1)) == Err::<WiPhyProps, Nl80211Error>(e));
                    lemma_apply_attrs_err(init, views, i as int + 1, e);
                }
                return Err(e);
            },
        }
        i = i + 1;
    }
    assert(views.subrange(0, i as int) =~= views);
    Ok(props)
}

/// Once reading fails, it stays failed.
proof fn lemma_apply_attrs_err(p: WiPhyProps, attrs: Seq<AttrView>, n: int, e: Nl80211Error)
    requires
        0 <= n <= attrs.len(),
        apply_attrs(p, attrs.subrange(0, n)) == Err::<WiPhyProps, Nl80211Error>(e),
    ensures
        apply_attrs(p, attrs) == Err::<WiPhyProps, Nl80211Error>(e),
    decreases attrs.len() - n,
{
    if n < attrs.len() {
        assert(attrs.subrange(0, n + 1).drop_last() =~= attrs.subrange(0, n));
        lemma_apply_attrs_err(p, attrs, n + 1, e);
    } else {
        assert(attrs.subrange(0, n) =~= attrs);
    }
}

} // verus!
