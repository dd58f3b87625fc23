//! The packet views of `pnet`, as far as the classifier reads them.
//!
//! Nothing in this file is proved. Each item states what `pnet` does with the
//! bytes of a buffer, and the classifier is verified against these statements.
//! The offsets follow from the field lists of `pnet`'s packet definitions:
//! a field starts where the fields before it end, and a field that the
//! definition builds from several numbers reads them most significant byte
//! first.

use pnet::packet::arp::ArpPacket;
use pnet::packet::ethernet::EthernetPacket;
use pnet::packet::ipv4::Ipv4Packet;
use pnet::packet::ipv6::Ipv6Packet;
use pnet::packet::Packet;
use vstd::prelude::*;

verus! {

/// Bytes in an Ethernet header: two hardware addresses and the EtherType.
pub const ETHERNET_HEADER_LEN: usize = 14;

/// Bytes in an ARP packet for IPv4 over Ethernet.
pub const ARP_PACKET_LEN: usize = 28;

/// Bytes in an IPv4 header without options.
pub const IPV4_HEADER_LEN: usize = 20;

/// Bytes in the fixed IPv6 header.
pub const IPV6_HEADER_LEN: usize = 40;

/// The number that two bytes spell, most significant byte first.
pub open spec fn be16(hi: u8, lo: u8) -> u16 {
    (hi as u16 * 256 + lo as u16) as u16
}

/// `pnet::packet::ethernet::EthernetPacket`: a read-only view of a buffer
/// that holds an Ethernet frame.
#[verifier::external_type_specification]
#[verifier::external_body]
pub struct ExEthernetPacket<'p>(EthernetPacket<'p>);

/// `pnet::packet::arp::ArpPacket`: a read-only view of a buffer that holds an
/// ARP packet.
#[verifier::external_type_specification]
#[verifier::external_body]
pub struct ExArpPacket<'p>(ArpPacket<'p>);

/// `pnet::packet::ipv4::Ipv4Packet`: a read-only view of a buffer that holds
/// an IPv4 packet.
#[verifier::external_type_specification]
#[verifier::external_body]
pub struct ExIpv4Packet<'p>(Ipv4Packet<'p>);

/// `pnet::packet::ipv6::Ipv6Packet`: a read-only view of a buffer that holds
/// an IPv6 packet.
#[verifier::external_type_specification]
#[verifier::external_body]
pub struct ExIpv6Packet<'p>(Ipv6Packet<'p>);

/// The bytes of the buffer that an `EthernetPacket` views.
pub uninterp spec fn ethernet_bytes(packet: EthernetPacket) -> Seq<u8>;

/// The bytes of the buffer that an `ArpPacket` views.
pub uninterp spec fn arp_bytes(packet: ArpPacket) -> Seq<u8>;

/// The bytes of the buffer that an `Ipv4Packet` views.
pub uninterp spec fn ipv4_bytes(packet: Ipv4Packet) -> Seq<u8>;

/// The bytes of the buffer that an `Ipv6Packet` views.
pub uninterp spec fn ipv6_bytes(packet: Ipv6Packet) -> Seq<u8>;

/// What `to_string` gives for the IPv6 address with the given sixteen bytes:
/// the text that the standard library's `Display` for `Ipv6Addr` writes.
pub uninterp spec fn ipv6_text(octets: Seq<u8>) -> Seq<char>;

/// `EthernetPacket::new`: a view of the whole buffer if it holds at least
/// the fourteen bytes of the header, and nothing otherwise.
#[verifier::external_body]
pub(crate) fn ethernet_packet<'a>(frame: &'a [u8]) -> (r: Option<EthernetPacket<'a>>)
    ensures
        r.is_some() <==> frame@.len() >= ETHERNET_HEADER_LEN,
        r matches Some(p) ==> ethernet_bytes(p) == frame@,
{
    EthernetPacket::new(frame)
}

/// `EthernetPacket::get_ethertype`: bytes 12 and 13 of the buffer, read as
/// one big-endian number.
#[verifier::external_body]
pub(crate) fn ethernet_ethertype(packet: &EthernetPacket) -> (r: u16)
    requires
        ethernet_bytes(*packet).len() >= ETHERNET_HEADER_LEN,
    ensures
        r == be16(ethernet_bytes(*packet)[12], ethernet_bytes(*packet)[13]),
{
    packet.get_ethertype().0
}

/// `Packet::payload` of an `EthernetPacket`: the buffer from byte 14 on.
#[verifier::external_body]
pub(crate) fn ethernet_payload<'a>(packet: &'a EthernetPacket) -> (r: &'a [u8])
    requires
        ethernet_bytes(*packet).len() >= ETHERNET_HEADER_LEN,
    ensures
        r@ == ethernet_bytes(*packet).skip(ETHERNET_HEADER_LEN as int),
{
    packet.payload()
}

/// `ArpPacket::new`: a view of the whole buffer if it holds at least 28
/// bytes, and nothing otherwise.
#[verifier::external_body]
pub(crate) fn arp_packet<'a>(payload: &'a [u8]) -> (r: Option<ArpPacket<'a>>)
    ensures
        r.is_some() <==> payload@.len() >= ARP_PACKET_LEN,
        r matches Some(p) ==> arp_bytes(p) == payload@,
{
    ArpPacket::new(payload)
}

/// `ArpPacket::get_sender_proto_addr`: bytes 14 to 17 of the buffer, in
/// order, as the four octets of an IPv4 address.
#[verifier::external_body]
pub(crate) fn arp_sender_proto_addr(packet: &ArpPacket) -> (r: [u8; 4])
    requires
        arp_bytes(*packet).len() >= ARP_PACKET_LEN,
    ensures
        r@ == arp_bytes(*packet).subrange(14, 18),
{
    packet.get_sender_proto_addr().octets()
}

/// `ArpPacket::get_target_proto_addr`: bytes 24 to 27 of the buffer, in
/// order, as the four octets of an IPv4 address.
#[verifier::external_body]
pub(crate) fn arp_target_proto_addr(packet: &ArpPacket) -> (r: [u8; 4])
    requires
        arp_bytes(*packet).len() >= ARP_PACKET_LEN,
    ensures
        r@ == arp_bytes(*packet).subrange(24, 28),
{
    packet.get_target_proto_addr().octets()
}

/// `Ipv4Packet::new`: a view of the whole buffer if it holds at least the
/// twenty bytes of a header without options, and nothing otherwise.
#[verifier::external_body]
pub(crate) fn ipv4_packet<'a>(payload: &'a [u8]) -> (r: Option<Ipv4Packet<'a>>)
    ensures
        r.is_some() <==> payload@.len() >= IPV4_HEADER_LEN,
        r matches Some(p) ==> ipv4_bytes(p) == payload@,
{
    Ipv4Packet::new(payload)
}

/// `Ipv4Packet::get_source`: bytes 12 to 15 of the buffer, in order, as the
/// four octets of the address.
#[verifier::external_body]
pub(crate) fn ipv4_source(packet: &Ipv4Packet) -> (r: [u8; 4])
    requires
        ipv4_bytes(*packet).len() >= IPV4_HEADER_LEN,
    ensures
        r@ == ipv4_bytes(*packet).subrange(12, 16),
{
    packet.get_source().octets()
}

/// `Ipv4Packet::get_destination`: bytes 16 to 19 of the buffer, in order, as
/// the four octets of the address.
#[verifier::external_body]
pub(crate) fn ipv4_destination(packet: &Ipv4Packet) -> (r: [u8; 4])
    requires
        ipv4_bytes(*packet).len() >= IPV4_HEADER_LEN,
    ensures
        r@ == ipv4_bytes(*packet).subrange(16, 20),
{
    packet.get_destination().octets()
}

/// `Ipv6Packet::new`: a view of the whole buffer if it holds at least the
/// forty bytes of the fixed header, and nothing otherwise.
#[verifier::external_body]
pub(crate) fn ipv6_packet<'a>(payload: &'a [u8]) -> (r: Option<Ipv6Packet<'a>>)
    ensures
        r.is_some() <==> payload@.len() >= IPV6_HEADER_LEN,
        r matches Some(p) ==> ipv6_bytes(p) == payload@,
{
    Ipv6Packet::new(payload)
}

/// `Ipv6Packet::get_source`, written out by `to_string`: the text of the
/// address whose sixteen octets are bytes 8 to 23 of the buffer, in order.
#[verifier::external_body]
pub(crate) fn ipv6_source(packet: &Ipv6Packet) -> (r: String)
    requires
        ipv6_bytes(*packet).len() >= IPV6_HEADER_LEN,
    ensures
        r@ == ipv6_text(ipv6_bytes(*packet).subrange(8, 24)),
{
    packet.get_source().to_string()
}

/// `Ipv6Packet::get_destination`, written out by `to_string`: the text of
/// the address whose sixteen octets are bytes 24 to 39 of the buffer, in
/// order.
#[verifier::external_body]
pub(crate) fn ipv6_destination(packet: &Ipv6Packet) -> (r: String)
    requires
        ipv6_bytes(*packet).len() >= IPV6_HEADER_LEN,
    ensures
        r@ == ipv6_text(ipv6_bytes(*packet).subrange(24, 40)),
{
    packet.get_destination().to_string()
}

} // verus!
