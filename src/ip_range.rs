//! The range of addresses a DHCP server hands out, on one /24 subnet.

use vstd::prelude::*;
use vstd::string::StringSliceAdditionalSpecFns;
use vstd::utf8::encode_utf8;

use crate::decimal::{decimal_text, push_decimal};

verus! {

pub open spec fn is_digit(b: u8) -> bool {
    0x30 <= b <= 0x39
}

/// The value of a run of decimal digits.
pub open spec fn decimal_value(f: Seq<u8>) -> nat
    decreases f.len(),
{
    if f.len() == 0 {
        0
    } else {
        decimal_value(f.drop_last()) * 10 + (f.last() - 0x30) as nat
    }
}

/// The text between the dots of `b`, in order.
pub open spec fn dot_fields(b: Seq<u8>) -> Seq<Seq<u8>>
    decreases b.len(),
{
    if b.len() == 0 {
        seq![Seq::empty()]
    } else {
        let f = dot_fields(b.drop_last());
        if b.last() == 0x2e {
            f.push(Seq::empty())
        } else {
            f.update(f.len() - 1, f.last().push(b.last()))
        }
    }
}

/// One to three digits, without a leading zero, of value at most 255.
pub open spec fn valid_octet(f: Seq<u8>) -> bool {
    &&& 1 <= f.len() <= 3
    &&& forall|i: int| 0 <= i < f.len() ==> is_digit(#[trigger] f[i])
    &&& (f.len() == 1 || f[0] != 0x30)
    &&& decimal_value(f) <= 255
}

/// The four octets of a dotted-quad IPv4 address, when `b` is one.
pub open spec fn parse_ipv4(b: Seq<u8>) -> Option<Seq<u8>> {
    let f = dot_fields(b);
    if f.len() == 4 && forall|j: int| 0 <= j < 4 ==> valid_octet(#[trigger] f[j]) {
        Some(Seq::new(4, |j: int| decimal_value(f[j]) as u8))
    } else {
        None
    }
}

/// Why a range was refused.
#[derive(Debug, Clone, Copy, PartialEq, Eq, Structural)]
pub enum IpRangeError {
    /// The start is not an IPv4 address.
    InvalidStartIp,
    /// The end is not an IPv4 address.
    InvalidEndIp,
    /// An end of the range is the network or the broadcast address.
    NetworkOrBroadcast,
    /// An end of the range is the router's address, `.1`.
    RouterAddress,
    /// The two ends lie on different /24 subnets.
    DifferentSubnets,
    /// The start comes after the end.
    StartAfterEnd,
}

/// What `DhcpIpRange::new` gives for two parsed addresses.
pub open spec fn range_check(start: Option<Seq<u8>>, end: Option<Seq<u8>>) -> Result<(), IpRangeError> {
    match (start, end) {
        (None, _) => Err(IpRangeError::InvalidStartIp),
        (_, None) => Err(IpRangeError::InvalidEndIp),
        (Some(s), Some(e)) => if s[3] == 0 || s[3] == 255 || e[3] == 0 || e[3] == 255 {
            Err(IpRangeError::NetworkOrBroadcast)
        } else if s[3] == 1 || e[3] == 1 {
            Err(IpRangeError::RouterAddress)
        } else if s.subrange(0, 3) != e.subrange(0, 3) {
            Err(IpRangeError::DifferentSubnets)
        } else if s[3] > e[3] {
            Err(IpRangeError::StartAfterEnd)
        } else {
            Ok(())
        },
    }
}

/// The router's address on the subnet whose first three octets are `o`.
pub open spec fn router_text(o: Seq<u8>) -> Seq<char> {
    decimal_text(o[0] as nat) + seq!['.'] + decimal_text(o[1] as nat) + seq!['.'] + decimal_text(
        o[2] as nat,
    ) + seq!['.', '1']
}

proof fn lemma_dot_fields_nonempty(b: Seq<u8>)
    ensures
        dot_fields(b).len() >= 1,
    decreases b.len(),
{
    if b.len() > 0 {
        lemma_dot_fields_nonempty(b.drop_last());
    }
}

pub open spec fn field_views(v: Seq<Vec<u8>>) -> Seq<Seq<u8>> {
    v.map_values(|f: Vec<u8>| f@)
}

/// The dot-separated fields of `b`.
fn split_dots(b: &[u8]) -> (r: Vec<Vec<u8>>)
    ensures
        field_views(r@) == dot_fields(b@),
{
    let mut fields: Vec<Vec<u8>> = Vec::new();
    fields.push(Vec::new());
    assert(field_views(fields@) =~= dot_fields(b@.subrange(0, 0)));
    let mut i: usize = 0;
    while i < b.len()
        invariant
            i <= b@.len(),
            field_views(fields@) == dot_fields(b@.subrange(0, i as int)),
        decreases b@.len() - i,
    {
        let x = b[i];
        let ghost pre = b@.subrange(0, i as int);
        let ghost next = b@.subrange(0, i as int + 1);
        assert(next.drop_last() =~= pre);
        proof {
            lemma_dot_fields_nonempty(pre);
        }
        if x == 0x2e {
            fields.push(Vec::new());
            assert(field_views(fields@) =~= dot_fields(next));
        } else {
            let ghost before = field_views(fields@);
            let mut last = fields.pop().unwrap();
            last.push(x);
            fields.push(last);
            assert(field_views(fields@) =~= before.update(before.len() - 1, before.last().push(x)));
        }
        i = i + 1;
    }
    assert(b@.subrange(0, i as int) =~= b@);
    fields
}

/// The octet that `f` spells, if it is a valid one.
fn octet_of(f: &Vec<u8>) -> (r: Option<u8>)
    ensures
        r == (if valid_octet(f@) {
            Some(decimal_value(f@) as u8)
        } else {
            None::<u8>
        }),
{
    if f.len() < 1 || f.len() > 3 {
        return None;
    }
    if f.len() > 1 && f[0] == 0x30 {
        return None;
    }
    let mut v: u32 = 0;
    let mut i: usize = 0;
    while i < f.len()
        invariant
            1 <= f@.len() <= 3,
            i <= f@.len(),
            v == decimal_value(f@.subrange(0, i as int)),
            v < 1000,
            forall|j: int| 0 <= j < i ==> is_digit(#[trigger] f@[j]),
            i == 0 ==> v == 0,
            i == 1 ==> v < 10,
            i == 2 ==> v < 100,
        decreases f@.len() - i,
    {
        let x = f[i];
        if x < 0x30 || x > 0x39 {
            return None;
        }
        assert(f@.subrange(0, i as int + 1).drop_last() =~= f@.subrange(0, i as int));
        v = v * 10 + (x - 0x30) as u32;
        i = i + 1;
    }
    assert(f@.subrange(0, i as int) =~= f@);
    if v > 255 {
        return None;
    }
    Some(v as u8)
}

/// The four octets of `s`, if it is a dotted-quad IPv4 address.
fn parse_octets(s: &str) -> (r: Option<Vec<u8>>)
    ensures
        match r {
            Some(v) => parse_ipv4(s.spec_bytes()) == Some(v@),
            None => parse_ipv4(s.spec_bytes()) is None,
        },
{
    let fields = split_dots(s.as_bytes());
    if fields.len() != 4 {
        return None;
    }
    let mut out: Vec<u8> = Vec::new();
    let mut j: usize = 0;
    while j < 4
        invariant
            j <= 4,
            fields@.len() == 4,
            field_views(fields@) == dot_fields(s.spec_bytes()),
            out@.len() == j,
            forall|k: int| 0 <= k < j ==> valid_octet(#[trigger] dot_fields(s.spec_bytes())[k]),
            forall|k: int|
                0 <= k < j ==> #[trigger] out@[k] == decimal_value(dot_fields(s.spec_bytes())[k]) as u8,
        decreases 4 - j,
    {
        assert(fields@[j as int]@ == dot_fields(s.spec_bytes())[j as int]);
        match octet_of(&fields[j]) {
            Some(o) => out.push(o),
            None => return None,
        }
        j = j + 1;
    }
    assert(out@ =~= Seq::new(4, |k: int| decimal_value(dot_fields(s.spec_bytes())[k]) as u8));
    Some(out)
}

/// A range of addresses handed out by a DHCP server: two addresses on one
/// /24 subnet, start not after end, neither the network, the broadcast nor
/// the router address (`.1`).
#[derive(Debug)]
pub struct DhcpIpRange {
    start: String,
    end: String,
    /// The first three octets, shared by both ends.
    subnet: Vec<u8>,
}

impl DhcpIpRange {
    #[verifier::type_invariant]
    closed spec fn wf(&self) -> bool {
        &&& parse_ipv4(encode_utf8(self.start@)) is Some
        &&& parse_ipv4(encode_utf8(self.end@)) is Some
        &&& range_check(parse_ipv4(encode_utf8(self.start@)), parse_ipv4(encode_utf8(self.end@)))
            is Ok
        &&& self.subnet@ == parse_ipv4(encode_utf8(self.start@))->Some_0.subrange(0, 3)
    }

    /// The text of the first address of the range.
    pub closed spec fn start_view(&self) -> Seq<char> {
        self.start@
    }

    /// The text of the last address of the range.
    pub closed spec fn end_view(&self) -> Seq<char> {
        self.end@
    }

    /// The range from `start` to `end`, when they make a valid one; the
    /// error says which rule they break first.
    pub fn new(start: &str, end: &str) -> (r: Result<DhcpIpRange, IpRangeError>)
        ensures
            match r {
                Ok(range) => {
                    &&& range_check(parse_ipv4(start.spec_bytes()), parse_ipv4(end.spec_bytes()))
                        is Ok
                    &&& range.start_view() == start@
                    &&& range.end_view() == end@
                },
                Err(e) => range_check(parse_ipv4(start.spec_bytes()), parse_ipv4(end.spec_bytes()))
                    == Err::<(), IpRangeError>(e),
            },
    {
        let s = match parse_octets(start) {
            Some(s) => s,
            None => return Err(IpRangeError::InvalidStartIp),
        };
        let e = match parse_octets(end) {
            Some(e) => e,
            None => return Err(IpRangeError::InvalidEndIp),
        };
        if s[3] == 0 || s[3] == 255 || e[3] == 0 || e[3] == 255 {
            return Err(IpRangeError::NetworkOrBroadcast);
        }
        if s[3] == 1 || e[3] == 1 {
            return Err(IpRangeError::RouterAddress);
        }
        if s[0] != e[0] || s[1] != e[1] || s[2] != e[2] {
            proof {
                if s@.subrange(0, 3) == e@.subrange(0, 3) {
                    assert(s@[0] == s@.subrange(0, 3)[0] && s@[1] == s@.subrange(0, 3)[1] && s@[2]
                        == s@.subrange(0, 3)[2]);
                }
            }
            return Err(IpRangeError::DifferentSubnets);
        }
        assert(s@.subrange(0, 3) =~= e@.subrange(0, 3));
        if s[3] > e[3] {
            return Err(IpRangeError::StartAfterEnd);
        }
        let mut subnet: Vec<u8> = Vec::new();
        subnet.push(s[0]);
        subnet.push(s[1]);
        subnet.push(s[2]);
        assert(subnet@ =~= s@.subrange(0, 3));
        Ok(DhcpIpRange { start: start.to_owned(), end: end.to_owned(), subnet })
    }

    /// The router's address: the range's subnet with `.1` as last octet.
    pub fn get_router_ip(&self) -> (r: String)
        ensures
            r@ == router_text(parse_ipv4(encode_utf8(self.start_view()))->Some_0),
    {
        proof {
            use_type_invariant(self);
        }
        let mut r = String::new();
        push_decimal(&mut r, self.subnet[0] as u64);
        r.append(".");
        push_decimal(&mut r, self.subnet[1] as u64);
        r.append(".");
        push_decimal(&mut r, self.subnet[2] as u64);
        r.append(".1");
        proof {
            reveal_strlit(".");
            reveal_strlit(".1");
            let o = parse_ipv4(encode_utf8(self.start@))->Some_0;
            assert(self.subnet@[0] == o[0] && self.subnet@[1] == o[1] && self.subnet@[2] == o[2]);
        }
        assert(r@ =~= router_text(parse_ipv4(encode_utf8(self.start_view()))->Some_0));
        r
    }

    /// The first address of the range, as given.
    pub fn get_start_ip(&self) -> (r: &str)
        ensures
            r@ == self.start_view(),
    {
        self.start.as_str()
    }

    /// The last address of the range, as given.
    pub fn get_end_ip(&self) -> (r: &str)
        ensures
            r@ == self.end_view(),
    {
        self.end.as_str()
    }
}

} // verus!
