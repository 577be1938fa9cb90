use webcam_direct::interface_index::InterfaceIndex;
use webcam_direct::nl80211::{
    parse_nl80211_payload, Nl80211Attribute, Nl80211Command, Nl80211Error, Nl80211Iftype,
    WiPhyProps,
};

fn reply(software_types: &[u8]) -> Vec<u8> {
    let mut b = vec![9, 0, 2, 0, b'p', b'h', b'y', b'0', 0, 0, 0, 0];
    b.extend_from_slice(&[8, 0, 1, 0, 5, 0, 0, 0]);
    b.extend_from_slice(&[8, 0, 3, 0, 7, 0, 0, 0]);
    let len = 4 + software_types.len() as u8;
    b.extend_from_slice(&[len, 0, 121, 0x80]);
    b.extend_from_slice(software_types);
    b
}

#[test]
fn reads_indices_and_ap_mode() {
    let props = parse_nl80211_payload(&reply(&[4, 0, 2, 0, 4, 0, 3, 0])).unwrap();
    assert_eq!(
        props,
        WiPhyProps {
            phy_idx: Some(InterfaceIndex(5)),
            ap_supported: Some(true),
            if_idx: Some(InterfaceIndex(7)),
        }
    );
}

#[test]
fn ap_vlan_counts_as_ap_mode() {
    let props = parse_nl80211_payload(&reply(&[4, 0, 4, 0])).unwrap();
    assert_eq!(props.ap_supported, Some(true));
}

#[test]
fn no_ap_mode_listed() {
    let props = parse_nl80211_payload(&reply(&[4, 0, 2, 0, 4, 0, 6, 0])).unwrap();
    assert_eq!(props.ap_supported, None);
    assert_eq!(props.phy_idx, Some(InterfaceIndex(5)));
}

#[test]
fn empty_reply_says_nothing() {
    assert_eq!(parse_nl80211_payload(&[]), Ok(WiPhyProps::default()));
}

#[test]
fn malformed_attributes_are_refused() {
    assert_eq!(parse_nl80211_payload(&[3, 0, 1, 0]), Err(Nl80211Error::MalformedAttributes));
    assert_eq!(parse_nl80211_payload(&[8, 0, 1, 0, 5]), Err(Nl80211Error::MalformedAttributes));
    assert_eq!(parse_nl80211_payload(&[8, 0]), Err(Nl80211Error::MalformedAttributes));
    assert_eq!(
        parse_nl80211_payload(&[8, 0, 121, 0, 9, 0, 3, 0]),
        Err(Nl80211Error::MalformedAttributes)
    );
}

#[test]
fn short_index_is_refused() {
    assert_eq!(parse_nl80211_payload(&[5, 0, 1, 0, 9]), Err(Nl80211Error::ShortPayload));
}

#[test]
fn wire_codes() {
    assert_eq!(Nl80211Command::GetWiPhy.code(), 1);
    assert_eq!(Nl80211Command::DelInterface.code(), 8);
    assert_eq!(Nl80211Attribute::SoftwareIftypes.code(), 121);
    assert_eq!(Nl80211Iftype::IftypeApVlan.code(), 4);
}
