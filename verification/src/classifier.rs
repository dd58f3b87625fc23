//! From one raw Ethernet frame to the pair of endpoints it travels between.
//!
//! The frame's EtherType selects how the payload is read: as ARP, as IPv4 or
//! as IPv6. Any other type is dropped, and so is a frame that is too short for
//! the header it announces. Classifying reads the frame and changes nothing.

use crate::text::{dotted_decimal, ipv4_text};
use crate::wire::{
    arp_packet, arp_sender_proto_addr, arp_target_proto_addr, be16, ethernet_ethertype,
    ethernet_packet, ethernet_payload, ipv4_destination, ipv4_packet, ipv4_source,
    ipv6_destination, ipv6_packet, ipv6_source, ipv6_text, ARP_PACKET_LEN, ETHERNET_HEADER_LEN,
    IPV4_HEADER_LEN, IPV6_HEADER_LEN,
};
use vstd::prelude::*;

verus! {

/// EtherType of IPv4.
pub const ETHERTYPE_IPV4: u16 = 0x0800;

/// EtherType of ARP.
pub const ETHERTYPE_ARP: u16 = 0x0806;

/// EtherType of IPv6.
pub const ETHERTYPE_IPV6: u16 = 0x86DD;

/// The two ends of one observed frame, each in the textual form of its
/// address. The text is the endpoint's identity: equal addresses give equal
/// text.
#[derive(Clone, Debug, PartialEq, Eq)]
pub struct EndpointPair {
    pub source: String,
    pub destination: String,
}

impl View for EndpointPair {
    type V = (Seq<char>, Seq<char>);

    open spec fn view(&self) -> (Seq<char>, Seq<char>) {
        (self.source@, self.destination@)
    }
}

/// Why a frame gave no pair. Neither is fatal: the frame is skipped.
#[derive(Clone, Copy, Debug, PartialEq, Eq, Structural)]
pub enum FrameError {
    /// The frame ends before the header that it announces.
    MalformedFrame,
    /// The EtherType is none of ARP, IPv4 and IPv6.
    UnknownProtocol { ethertype: u16 },
}

/// The endpoints of an ARP payload: the sender's and the target's protocol
/// address.
pub open spec fn arp_endpoints(payload: Seq<u8>) -> Option<(Seq<char>, Seq<char>)> {
    if payload.len() >= ARP_PACKET_LEN {
        Some((dotted_decimal(payload.subrange(14, 18)), dotted_decimal(payload.subrange(24, 28))))
    } else {
        None
    }
}

/// The endpoints of an IPv4 payload: the header's source and destination.
pub open spec fn ipv4_endpoints(payload: Seq<u8>) -> Option<(Seq<char>, Seq<char>)> {
    if payload.len() >= IPV4_HEADER_LEN {
        Some((dotted_decimal(payload.subrange(12, 16)), dotted_decimal(payload.subrange(16, 20))))
    } else {
        None
    }
}

/// The endpoints of an IPv6 payload: the header's source and destination.
pub open spec fn ipv6_endpoints(payload: Seq<u8>) -> Option<(Seq<char>, Seq<char>)> {
    if payload.len() >= IPV6_HEADER_LEN {
        Some((ipv6_text(payload.subrange(8, 24)), ipv6_text(payload.subrange(24, 40))))
    } else {
        None
    }
}

/// The EtherType of a frame that holds a whole Ethernet header.
pub open spec fn ethertype(frame: Seq<u8>) -> u16
    recommends
        frame.len() >= ETHERNET_HEADER_LEN,
{
    be16(frame[12], frame[13])
}

/// What the payload gives when it is read as the protocol that the EtherType
/// names, and nothing for any other EtherType.
pub open spec fn payload_endpoints(ethertype: u16, payload: Seq<u8>) -> Option<
    (Seq<char>, Seq<char>),
> {
    if ethertype == ETHERTYPE_IPV4 {
        ipv4_endpoints(payload)
    } else if ethertype == ETHERTYPE_IPV6 {
        ipv6_endpoints(payload)
    } else if ethertype == ETHERTYPE_ARP {
        arp_endpoints(payload)
    } else {
        None
    }
}

/// Whether the classifier reads payloads of this EtherType.
pub open spec fn is_known(ethertype: u16) -> bool {
    ethertype == ETHERTYPE_IPV4 || ethertype == ETHERTYPE_IPV6 || ethertype == ETHERTYPE_ARP
}

/// The classification of a frame.
pub open spec fn classify(frame: Seq<u8>) -> Result<(Seq<char>, Seq<char>), FrameError> {
    if frame.len() < ETHERNET_HEADER_LEN {
        Err(FrameError::MalformedFrame)
    } else if !is_known(ethertype(frame)) {
        Err(FrameError::UnknownProtocol { ethertype: ethertype(frame) })
    } else {
        match payload_endpoints(ethertype(frame), frame.skip(ETHERNET_HEADER_LEN as int)) {
            Some(pair) => Ok(pair),
            None => Err(FrameError::MalformedFrame),
        }
    }
}

/// Reads `payload` as an ARP packet.
pub fn handle_arp_packet(payload: &[u8]) -> (r: Option<EndpointPair>)
    ensures
        match r {
            Some(pair) => arp_endpoints(payload@) == Some(pair@),
            None => arp_endpoints(payload@).is_none(),
        },
{
    match arp_packet(payload) {
        Some(header) => {
            let sender = arp_sender_proto_addr(&header);
            let target = arp_target_proto_addr(&header);
            Some(EndpointPair { source: ipv4_text(&sender), destination: ipv4_text(&target) })
        },
        None => None,
    }
}

/// Reads `payload` as an IPv6 packet.
pub fn handle_ipv6_packet(payload: &[u8]) -> (r: Option<EndpointPair>)
    ensures
        match r {
            Some(pair) => ipv6_endpoints(payload@) == Some(pair@),
            None => ipv6_endpoints(payload@).is_none(),
        },
{
    match ipv6_packet(payload) {
        Some(header) => {
            let source = ipv6_source(&header);
            let destination = ipv6_destination(&header);
            Some(EndpointPair { source, destination })
        },
        None => None,
    }
}

/// Reads `payload` as an IPv4 packet.
pub fn handle_ipv4_packet(payload: &[u8]) -> (r: Option<EndpointPair>)
    ensures
        match r {
            Some(pair) => ipv4_endpoints(payload@) == Some(pair@),
            None => ipv4_endpoints(payload@).is_none(),
        },
{
    match ipv4_packet(payload) {
        Some(header) => {
            let source = ipv4_source(&header);
            let destination = ipv4_destination(&header);
            Some(EndpointPair { source: ipv4_text(&source), destination: ipv4_text(&destination) })
        },
        None => None,
    }
}

/// Classifies one frame: the pair of its endpoints, or the reason why it has
/// none. A frame shorter than an Ethernet header is malformed like any other
/// truncated frame.
pub fn handle_ethernet_frame(frame: &[u8]) -> (r: Result<EndpointPair, FrameError>)
    ensures
        match r {
            Ok(pair) => classify(frame@) == Ok::<(Seq<char>, Seq<char>), FrameError>(pair@),
            Err(e) => classify(frame@) == Err::<(Seq<char>, Seq<char>), FrameError>(e),
        },
        frame@.len() < ETHERNET_HEADER_LEN ==> (r matches Err(e) && e == FrameError::MalformedFrame),
{
    match ethernet_packet(frame) {
        None => Err(FrameError::MalformedFrame),
        Some(ethernet) => {
            let ethertype = ethernet_ethertype(&ethernet);
            let payload = ethernet_payload(&ethernet);
            let found = if ethertype == ETHERTYPE_IPV4 {
                handle_ipv4_packet(payload)
            } else if ethertype == ETHERTYPE_IPV6 {
                handle_ipv6_packet(payload)
            } else if ethertype == ETHERTYPE_ARP {
                handle_arp_packet(payload)
            } else {
                return Err(FrameError::UnknownProtocol { ethertype });
            };
            match found {
                Some(pair) => Ok(pair),
                None => Err(FrameError::MalformedFrame),
            }
        },
    }
}

} // verus!
