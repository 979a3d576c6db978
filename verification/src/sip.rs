//! Calls seen on the wire: which Ethernet frames carry a SIP invitation, whom it comes from, and
//! which door station that is.

use crate::table::Table;
use crate::text;
use pnet::packet::ethernet::EthernetPacket;
use pnet::packet::ipv4::Ipv4Packet;
use pnet::packet::udp::UdpPacket;
use pnet::packet::Packet;
use regex::Regex;
use std::sync::Arc;
use vstd::prelude::*;
use vstd::string::StringExecFns;

verus! {

/// The Ethernet type of IPv4.
pub const ETHERTYPE_IPV4: u16 = 0x0800;

/// The IP protocol number of UDP.
pub const PROTOCOL_UDP: u8 = 17;

pub const SIP_PORT: u16 = 5060;

pub const SIP_PORT_2: u16 = 5080;

/// Finds the address in the contact of an invitation.
pub const CONTACT_PATTERN: &'static str = r"Contact:\s*<sip:[^@]*@([^:>]+)(?::\d+)?>";

/// Finds the name of the caller in an invitation.
pub const FROM_PATTERN: &'static str = r"From:\s*<sip:([^@]+)@";

/// An Ethernet frame: the type of its contents, and the contents.
#[derive(Debug)]
pub struct Ethernet {
    pub ethertype: u16,
    pub payload: Vec<u8>,
}

/// An IPv4 packet: the protocol of its contents, and the contents.
#[derive(Debug)]
pub struct Ipv4 {
    pub protocol: u8,
    pub payload: Vec<u8>,
}

/// A UDP datagram: its ports, and its contents.
#[derive(Debug)]
pub struct Udp {
    pub source: u16,
    pub destination: u16,
    pub payload: Vec<u8>,
}

/// The number in the two bytes from `at` on, the high byte first.
pub open spec fn be16(bytes: Seq<u8>, at: int) -> int {
    bytes[at] * 256 + bytes[at + 1]
}

/// The bytes from `at` on.
pub open spec fn rest(bytes: Seq<u8>, at: int) -> Seq<u8> {
    if bytes.len() <= at {
        Seq::empty()
    } else {
        bytes.skip(at)
    }
}

/// The length of the header of an IPv4 packet in bytes, as its first byte gives it.
pub open spec fn ipv4_header_len(bytes: Seq<u8>) -> int {
    (bytes[0] % 16) * 4
}

/// Where the contents of an IPv4 packet begin: a header is no shorter than 20 bytes.
pub open spec fn ipv4_start(bytes: Seq<u8>) -> int {
    if ipv4_header_len(bytes) < 20 {
        20
    } else {
        ipv4_header_len(bytes)
    }
}

/// The length of the contents of an IPv4 packet, as its header gives it.
pub open spec fn ipv4_len(bytes: Seq<u8>) -> int {
    if be16(bytes, 2) < ipv4_header_len(bytes) {
        0
    } else {
        be16(bytes, 2) - ipv4_header_len(bytes)
    }
}

/// The contents of an IPv4 packet, as far as they are there.
pub open spec fn ipv4_payload(bytes: Seq<u8>) -> Seq<u8> {
    let all = rest(bytes, ipv4_start(bytes));
    if all.len() <= ipv4_len(bytes) {
        all
    } else {
        all.take(ipv4_len(bytes))
    }
}

/// `EthernetPacket::new` takes 14 bytes or more. `get_ethertype` gives the number in the 13th and
/// 14th, and `payload` the bytes behind them.
#[verifier::external_body]
fn ethernet(bytes: &[u8]) -> (r: Option<Ethernet>)
    ensures
        match r {
            Some(p) => bytes@.len() >= 14 && p.ethertype == be16(bytes@, 12) && p.payload@ == rest(
                bytes@,
                14,
            ),
            None => bytes@.len() < 14,
        },
{
    match EthernetPacket::new(bytes) {
        Some(p) => Some(
            Ethernet { ethertype: p.get_ethertype().0, payload: p.payload().to_vec() },
        ),
        None => None,
    }
}

/// `Ipv4Packet::new` takes 20 bytes or more. `get_next_level_protocol` gives the 10th byte, and
/// `payload` the bytes behind the header, as many as the header says or as there are.
#[verifier::external_body]
fn ipv4(bytes: &[u8]) -> (r: Option<Ipv4>)
    ensures
        match r {
            Some(p) => bytes@.len() >= 20 && p.protocol == bytes@[9] && p.payload@ == ipv4_payload(
                bytes@,
            ),
            None => bytes@.len() < 20,
        },
{
    match Ipv4Packet::new(bytes) {
        Some(p) => Some(
            Ipv4 { protocol: p.get_next_level_protocol().0, payload: p.payload().to_vec() },
        ),
        None => None,
    }
}

/// `UdpPacket::new` takes 8 bytes or more. `get_source` and `get_destination` give the numbers in
/// the first two and the next two bytes, and `payload` the bytes behind the first 8, whatever
/// length the header claims.
#[verifier::external_body]
fn udp(bytes: &[u8]) -> (r: Option<Udp>)
    ensures
        match r {
            Some(p) => bytes@.len() >= 8 && p.source == be16(bytes@, 0) && p.destination == be16(
                bytes@,
                2,
            ) && p.payload@ == rest(bytes@, 8),
            None => bytes@.len() < 8,
        },
{
    match UdpPacket::new(bytes) {
        Some(p) => Some(
            Udp {
                source: p.get_source(),
                destination: p.get_destination(),
                payload: p.payload().to_vec(),
            },
        ),
        None => None,
    }
}

/// Whether a port is one that SIP is spoken on.
pub open spec fn is_sip_port(port: int) -> bool {
    port == SIP_PORT || port == SIP_PORT_2
}

/// What a UDP datagram holds, where one of its ports is a SIP port.
pub open spec fn udp_sip(bytes: Seq<u8>) -> Option<Seq<u8>> {
    if bytes.len() >= 8 && (is_sip_port(be16(bytes, 0)) || is_sip_port(be16(bytes, 2))) {
        Some(rest(bytes, 8))
    } else {
        None
    }
}

/// What an IPv4 packet holds, where it is a UDP datagram to or from a SIP port.
pub open spec fn ipv4_sip(bytes: Seq<u8>) -> Option<Seq<u8>> {
    if bytes.len() >= 20 && bytes[9] == PROTOCOL_UDP {
        udp_sip(ipv4_payload(bytes))
    } else {
        None
    }
}

/// What an Ethernet frame holds, where it is a UDP datagram over IPv4 to or from a SIP port.
pub open spec fn frame_sip(bytes: Seq<u8>) -> Option<Seq<u8>> {
    if bytes.len() >= 14 && be16(bytes, 12) == ETHERTYPE_IPV4 {
        ipv4_sip(rest(bytes, 14))
    } else {
        None
    }
}

/// What an Ethernet frame holds, where it is a UDP datagram over IPv4 to or from a SIP port.
pub fn sip_payload(frame: &[u8]) -> (r: Option<Vec<u8>>)
    ensures
        match r {
            Some(payload) => frame_sip(frame@) == Some(payload@),
            None => frame_sip(frame@) is None,
        },
{
    let outer = match ethernet(frame) {
        Some(outer) => outer,
        None => return None,
    };
    if outer.ethertype != ETHERTYPE_IPV4 {
        return None;
    }
    let packet = match ipv4(outer.payload.as_slice()) {
        Some(packet) => packet,
        None => return None,
    };
    if packet.protocol != PROTOCOL_UDP {
        return None;
    }
    let datagram = match udp(packet.payload.as_slice()) {
        Some(datagram) => datagram,
        None => return None,
    };
    if datagram.destination == SIP_PORT || datagram.source == SIP_PORT || datagram.destination
        == SIP_PORT_2 || datagram.source == SIP_PORT_2 {
        Some(datagram.payload)
    } else {
        None
    }
}

/// What a pattern's first group matches in a text, at the first match of the pattern: `None` where
/// the pattern is no regular expression, `Some(None)` where there is no match.
pub uninterp spec fn first_group(pattern: Seq<char>, text: Seq<char>) -> Option<Option<Seq<char>>>;

/// `Regex::new`, `Regex::captures` and `Captures::get`: what the first group of the pattern
/// matches.
#[verifier::external_body]
fn capture(pattern: &str, text: &str) -> (r: Option<Option<String>>)
    ensures
        match r {
            None => first_group(pattern@, text@) is None,
            Some(None) => first_group(pattern@, text@) == Some(None::<Seq<char>>),
            Some(Some(s)) => first_group(pattern@, text@) == Some(Some(s@)),
        },
{
    match Regex::new(pattern) {
        Ok(regex) => match regex.captures(text) {
            Some(groups) => match groups.get(1) {
                Some(found) => Some(Some(found.as_str().to_string())),
                None => Some(None),
            },
            None => Some(None),
        },
        Err(_) => None,
    }
}

/// Whom an invitation comes from.
#[derive(Debug)]
pub struct SipContact {
    pub ip_address: String,
    pub from_user: String,
}

pub struct ContactView {
    pub ip_address: Seq<char>,
    pub from_user: Seq<char>,
}

impl View for SipContact {
    type V = ContactView;

    open spec fn view(&self) -> ContactView {
        ContactView { ip_address: self.ip_address@, from_user: self.from_user@ }
    }
}

/// Why a message tells of no call.
#[derive(Debug, PartialEq, Eq, Structural, Clone, Copy)]
pub enum SipError {
    /// It is no invitation.
    NotInvitation,
    /// It is not valid UTF-8.
    NotText,
    /// A pattern is no regular expression.
    Pattern,
    /// Its contact holds no address.
    NoAddress,
    /// It does not name the caller.
    NoUser,
}

/// Whether a message begins as an invitation does, and holds more than that.
pub open spec fn is_invitation(payload: Seq<u8>) -> bool {
    payload.len() > 3 && payload[0] == 73 && payload[1] == 78 && payload[2] == 86
}

/// Whom an invitation comes from, by what the two patterns find in it.
pub open spec fn contact_found(
    contact: Option<Option<Seq<char>>>,
    user: Option<Option<Seq<char>>>,
) -> Result<ContactView, SipError> {
    match contact {
        None => Err(SipError::Pattern),
        Some(None) => Err(SipError::NoAddress),
        Some(Some(ip_address)) => match user {
            None => Err(SipError::Pattern),
            Some(None) => Err(SipError::NoUser),
            Some(Some(from_user)) => Ok(ContactView { ip_address, from_user }),
        },
    }
}

/// Whom a message comes from.
pub open spec fn contact_in(payload: Seq<u8>) -> Result<ContactView, SipError> {
    if !is_invitation(payload) {
        Err(SipError::NotInvitation)
    } else if !vstd::utf8::valid_utf8(payload) {
        Err(SipError::NotText)
    } else {
        let message = vstd::utf8::decode_utf8(payload);
        contact_found(first_group(CONTACT_PATTERN@, message), first_group(FROM_PATTERN@, message))
    }
}

pub open spec fn contact_view(r: Result<SipContact, SipError>) -> Result<ContactView, SipError> {
    match r {
        Ok(contact) => Ok(contact@),
        Err(e) => Err(e),
    }
}

pub open spec fn found_view(found: Option<Option<String>>) -> Option<Option<Seq<char>>> {
    match found {
        None => None,
        Some(None) => Some(None),
        Some(Some(s)) => Some(Some(s@)),
    }
}

/// The invitation in a message, as text.
pub fn invitation(payload: &[u8]) -> (r: Result<String, SipError>)
    ensures
        match r {
            Ok(message) => is_invitation(payload@) && vstd::utf8::valid_utf8(payload@) && message@
                == vstd::utf8::decode_utf8(payload@),
            Err(SipError::NotInvitation) => !is_invitation(payload@),
            Err(e) => e == SipError::NotText && is_invitation(payload@) && !vstd::utf8::valid_utf8(
                payload@,
            ),
        },
{
    if payload.len() > 3 && payload[0] == 73 && payload[1] == 78 && payload[2] == 86 {
        match text::utf8(payload) {
            Some(message) => Ok(message),
            None => Err(SipError::NotText),
        }
    } else {
        Err(SipError::NotInvitation)
    }
}

/// Whom an invitation comes from, by what the two patterns find in it.
pub fn contact_from(contact: Option<Option<String>>, user: Option<Option<String>>) -> (r: Result<
    SipContact,
    SipError,
>)
    ensures
        contact_view(r) == contact_found(found_view(contact), found_view(user)),
{
    match contact {
        None => Err(SipError::Pattern),
        Some(None) => Err(SipError::NoAddress),
        Some(Some(ip_address)) => match user {
            None => Err(SipError::Pattern),
            Some(None) => Err(SipError::NoUser),
            Some(Some(from_user)) => Ok(SipContact { ip_address, from_user }),
        },
    }
}

/// A door station that is connected to: its address, the user it calls as, and the number of its
/// client.
#[derive(Debug)]
pub struct Station {
    pub host: String,
    pub user_id: String,
    pub client: usize,
}

pub struct StationView {
    pub host: Seq<char>,
    pub user_id: Seq<char>,
    pub client: usize,
}

impl View for Station {
    type V = StationView;

    open spec fn view(&self) -> StationView {
        StationView { host: self.host@, user_id: self.user_id@, client: self.client }
    }
}

pub open spec fn station_views(stations: Seq<Station>) -> Seq<StationView> {
    Seq::new(stations.len(), |i: int| stations[i]@)
}

/// The clients by address. Of two stations at one address the later counts.
pub open spec fn by_host(stations: Seq<StationView>) -> Map<Seq<char>, usize>
    decreases stations.len(),
{
    if stations.len() == 0 {
        Map::empty()
    } else {
        by_host(stations.drop_last()).insert(stations.last().host, stations.last().client)
    }
}

/// The clients by user. Of two stations with one user the later counts.
pub open spec fn by_user(stations: Seq<StationView>) -> Map<Seq<char>, usize>
    decreases stations.len(),
{
    if stations.len() == 0 {
        Map::empty()
    } else {
        by_user(stations.drop_last()).insert(stations.last().user_id, stations.last().client)
    }
}

/// Whether a station is the one that counts at its address: no later one has the address.
pub open spec fn remains(stations: Seq<StationView>, i: int) -> bool {
    forall|j: int| i < j < stations.len() ==> (#[trigger] stations[j]).host != stations[i].host
}

/// Those of the first `n` stations that count at their addresses, in order.
pub open spec fn kept(stations: Seq<StationView>, n: nat) -> Seq<StationView>
    decreases n,
{
    if n == 0 {
        Seq::empty()
    } else if remains(stations, n - 1) {
        kept(stations, (n - 1) as nat).push(stations[n - 1])
    } else {
        kept(stations, (n - 1) as nat)
    }
}

/// The stations that count at their addresses, one for each address, in order.
pub open spec fn remaining(stations: Seq<StationView>) -> Seq<StationView> {
    kept(stations, stations.len())
}

/// Listens for calls.
pub struct SipServer {
    clients: Table<usize>,
    clients_user: Table<usize>,
    interface_name: String,
}

pub struct SipView {
    pub clients: Map<Seq<char>, usize>,
    pub clients_user: Map<Seq<char>, usize>,
    pub interface_name: Seq<char>,
}

impl View for SipServer {
    type V = SipView;

    closed spec fn view(&self) -> SipView {
        SipView {
            clients: self.clients@,
            clients_user: self.clients_user@,
            interface_name: self.interface_name@,
        }
    }
}

impl SipView {
    /// The client of the station that a call comes from: the one at the address, else the one
    /// with the user.
    pub open spec fn caller(self, contact: ContactView) -> Option<usize> {
        if self.clients.contains_key(contact.ip_address) {
            Some(self.clients[contact.ip_address])
        } else if self.clients_user.contains_key(contact.from_user) {
            Some(self.clients_user[contact.from_user])
        } else {
            None
        }
    }

    /// The client of the station that a frame shows to be calling.
    pub open spec fn calling(self, frame: Seq<u8>) -> Option<usize> {
        match frame_sip(frame) {
            Some(payload) => match contact_in(payload) {
                Ok(contact) => self.caller(contact),
                Err(_) => None,
            },
            None => None,
        }
    }
}

/// The place of the interface with this name, the first where there are several.
pub open spec fn interface_place(names: Seq<Seq<char>>, name: Seq<char>) -> Option<int>
    decreases names.len(),
{
    if names.len() == 0 {
        None
    } else {
        match interface_place(names.drop_last(), name) {
            Some(i) => Some(i),
            None => if names.last() == name {
                Some(names.len() - 1)
            } else {
                None
            },
        }
    }
}

pub open spec fn name_views(names: Seq<String>) -> Seq<Seq<char>> {
    Seq::new(names.len(), |i: int| names[i]@)
}

/// Whether a station is the one that counts at its address.
fn counts(stations: &Vec<Station>, i: usize) -> (r: bool)
    requires
        i < stations.len(),
    ensures
        r == remains(station_views(stations@), i as int),
{
    let ghost all = station_views(stations@);
    let mut j: usize = i + 1;
    while j < stations.len()
        invariant
            i < j <= stations.len(),
            all == station_views(stations@),
            forall|k: int| i < k < j ==> (#[trigger] all[k]).host != all[i as int].host,
        decreases stations.len() - j,
    {
        if text::text_eq(stations[j].host.as_str(), stations[i].host.as_str()) {
            assert(all[j as int].host == all[i as int].host);
            return false;
        }
        j += 1;
    }
    true
}

impl SipServer {
    pub closed spec fn wf(&self) -> bool {
        self.clients.wf() && self.clients_user.wf()
    }

    /// A new listener on an interface. A station whose address a later one has is known neither by
    /// its address nor by its user.
    pub fn new(interface_name: String, stations: Vec<Station>) -> (r: Arc<Self>)
        ensures
            r.wf(),
            r@ == (SipView {
                clients: by_host(station_views(stations@)),
                clients_user: by_user(remaining(station_views(stations@))),
                interface_name: interface_name@,
            }),
    {
        let ghost all = station_views(stations@);
        let mut clients: Table<usize> = Table::new();
        let mut clients_user: Table<usize> = Table::new();
        let mut i: usize = 0;
        while i < stations.len()
            invariant
                i <= stations.len(),
                all == station_views(stations@),
                clients.wf(),
                clients_user.wf(),
                clients@ == by_host(all.take(i as int)),
                clients_user@ == by_user(kept(all, i as nat)),
            decreases stations.len() - i,
        {
            proof {
                assert(all.take(i + 1).drop_last() =~= all.take(i as int));
                assert(all.take(i + 1).last() == all[i as int]);
            }
            clients.insert(stations[i].host.clone(), stations[i].client);
            if counts(&stations, i) {
                proof {
                    let before = kept(all, i as nat);
                    assert(before.push(all[i as int]).drop_last() =~= before);
                }
                clients_user.insert(stations[i].user_id.clone(), stations[i].client);
            }
            i += 1;
        }
        assert(all.take(i as int) =~= all);
        Arc::new(SipServer { clients, clients_user, interface_name })
    }

    /// The place of the interface to listen on among those there are.
    pub fn run(&self, interfaces: &[String]) -> (r: Result<usize, String>)
        ensures
            match r {
                Ok(i) => interface_place(name_views(interfaces@), self@.interface_name) == Some(
                    i as int,
                ),
                Err(e) => interface_place(name_views(interfaces@), self@.interface_name) is None
                    && e@ == "找不到 "@ + self@.interface_name + " 接口"@,
            },
    {
        let ghost all = name_views(interfaces@);
        let mut i: usize = 0;
        while i < interfaces.len()
            invariant
                i <= interfaces.len(),
                all == name_views(interfaces@),
                interface_place(all.take(i as int), self@.interface_name) is None,
            decreases interfaces.len() - i,
        {
            assert(all.take(i + 1).drop_last() =~= all.take(i as int));
            assert(all.take(i + 1).last() == all[i as int]);
            if text::text_eq(interfaces[i].as_str(), self.interface_name.as_str()) {
                proof {
                    lemma_place_stays(all, self@.interface_name, i + 1);
                }
                return Ok(i);
            }
            i += 1;
        }
        assert(all.take(i as int) =~= all);
        let mut message = "找不到 ".to_owned();
        message.append(self.interface_name.as_str());
        message.append(" 接口");
        Err(message)
    }

    /// The client of the station that a frame shows to be calling.
    pub fn handle_ethernet_frame(&self, frame: &[u8]) -> (r: Option<usize>)
        requires
            self.wf(),
        ensures
            r == self@.calling(frame@),
    {
        match sip_payload(frame) {
            Some(payload) => match Self::parse_sip_message(payload.as_slice()) {
                Ok(contact) => self.caller(&contact),
                Err(_) => None,
            },
            None => None,
        }
    }

    /// The client of the station that a call comes from.
    pub fn caller(&self, contact: &SipContact) -> (r: Option<usize>)
        requires
            self.wf(),
        ensures
            r == self@.caller(contact@),
    {
        match self.clients.get(contact.ip_address.as_str()) {
            Some(client) => Some(*client),
            None => match self.clients_user.get(contact.from_user.as_str()) {
                Some(client) => Some(*client),
                None => None,
            },
        }
    }

    /// Whom a message comes from.
    pub fn parse_sip_message(payload: &[u8]) -> (r: Result<SipContact, SipError>)
        ensures
            contact_view(r) == contact_in(payload@),
    {
        let message = match invitation(payload) {
            Ok(message) => message,
            Err(e) => return Err(e),
        };
        let contact = capture(CONTACT_PATTERN, message.as_str());
        let user = capture(FROM_PATTERN, message.as_str());
        contact_from(contact, user)
    }
}

proof fn lemma_place_stays(names: Seq<Seq<char>>, name: Seq<char>, n: int)
    requires
        0 <= n <= names.len(),
        interface_place(names.take(n), name) is Some,
    ensures
        interface_place(names, name) == interface_place(names.take(n), name),
    decreases names.len() - n,
{
    if n < names.len() {
        assert(names.take(n + 1).drop_last() =~= names.take(n));
        lemma_place_stays(names, name, n + 1);
    } else {
        assert(names.take(n) =~= names);
    }
}

/// A message that was sent over UDP and IPv4 from or to a SIP port is taken out of its frame,
/// whatever pads the frame.
pub proof fn sent_message_is_taken_out(
    ethernet: Seq<u8>,
    ip: Seq<u8>,
    udp: Seq<u8>,
    message: Seq<u8>,
    padding: Seq<u8>,
)
    requires
        ethernet.len() == 14,
        be16(ethernet, 12) == ETHERTYPE_IPV4,
        ip.len() == 20,
        ip[0] == 0x45,
        be16(ip, 2) == 28 + message.len(),
        ip[9] == PROTOCOL_UDP,
        udp.len() == 8,
        is_sip_port(be16(udp, 0)) || is_sip_port(be16(udp, 2)),
    ensures
        frame_sip(ethernet + ip + udp + message + padding) == Some(message),
{
    let frame = ethernet + ip + udp + message + padding;
    let packet = ip + udp + message + padding;
    let datagram = udp + message;
    assert(frame[12] == ethernet[12] && frame[13] == ethernet[13]);
    assert(rest(frame, 14) =~= packet);
    assert(packet[0] == ip[0] && packet[2] == ip[2] && packet[3] == ip[3] && packet[9] == ip[9]);
    assert(ipv4_header_len(packet) == 20);
    assert(ipv4_payload(packet) =~= datagram);
    assert(datagram[0] == udp[0] && datagram[1] == udp[1] && datagram[2] == udp[2] && datagram[3]
        == udp[3]);
    assert(rest(datagram, 8) =~= message);
}

proof fn lemma_by_host(stations: Seq<StationView>, i: int)
    requires
        0 <= i < stations.len(),
        forall|j: int| i < j < stations.len() ==> (#[trigger] stations[j]).host
            != stations[i].host,
    ensures
        by_host(stations).contains_key(stations[i].host),
        by_host(stations)[stations[i].host] == stations[i].client,
    decreases stations.len(),
{
    if i < stations.len() - 1 {
        let front = stations.drop_last();
        assert forall|j: int| i < j < front.len() implies (#[trigger] front[j]).host
            != front[i].host by {
            assert(front[j] == stations[j]);
        }
        lemma_by_host(front, i);
        assert(stations.last() == stations[stations.len() - 1]);
    }
}

/// An invitation from the address of a station is taken for a call of that station, whatever user
/// it names.
pub proof fn address_decides(stations: Seq<StationView>, i: int, server: SipView, user: Seq<char>)
    requires
        0 <= i < stations.len(),
        forall|j: int| i < j < stations.len() ==> (#[trigger] stations[j]).host
            != stations[i].host,
        server.clients == by_host(stations),
    ensures
        server.caller(ContactView { ip_address: stations[i].host, from_user: user }) == Some(
            stations[i].client,
        ),
{
    lemma_by_host(stations, i);
}

proof fn lemma_by_user(stations: Seq<StationView>, n: nat, i: int)
    requires
        0 <= i < n <= stations.len(),
        remains(stations, i),
        forall|j: int|
            i < j < n && remains(stations, j) ==> (#[trigger] stations[j]).user_id
                != stations[i].user_id,
    ensures
        by_user(kept(stations, n)).contains_key(stations[i].user_id),
        by_user(kept(stations, n))[stations[i].user_id] == stations[i].client,
    decreases n,
{
    let front = kept(stations, (n - 1) as nat);
    if i < n - 1 {
        lemma_by_user(stations, (n - 1) as nat, i);
    }
    if remains(stations, n - 1) {
        assert(front.push(stations[n - 1]).drop_last() =~= front);
    }
}

/// An invitation from an address that no station has is taken for a call of the station whose
/// user it names, of those that count at their addresses.
pub proof fn user_decides_otherwise(
    stations: Seq<StationView>,
    i: int,
    server: SipView,
    address: Seq<char>,
)
    requires
        0 <= i < stations.len(),
        remains(stations, i),
        forall|j: int|
            i < j < stations.len() && remains(stations, j) ==> (#[trigger] stations[j]).user_id
                != stations[i].user_id,
        forall|j: int| 0 <= j < stations.len() ==> (#[trigger] stations[j]).host != address,
        server.clients == by_host(stations),
        server.clients_user == by_user(remaining(stations)),
    ensures
        server.caller(ContactView { ip_address: address, from_user: stations[i].user_id }) == Some(
            stations[i].client,
        ),
{
    lemma_by_user(stations, stations.len(), i);
    lemma_no_host(stations, address);
}

/// A user is known exactly where a station that counts at its address has it.
pub proof fn known_users_are_those_that_count(stations: Seq<StationView>, user: Seq<char>)
    ensures
        by_user(remaining(stations)).contains_key(user) <==> exists|i: int|
            0 <= i < stations.len() && remains(stations, i) && (#[trigger] stations[i]).user_id
                == user,
{
    lemma_users(stations, stations.len(), user);
}

proof fn lemma_users(stations: Seq<StationView>, n: nat, user: Seq<char>)
    requires
        n <= stations.len(),
    ensures
        by_user(kept(stations, n)).contains_key(user) ==> exists|i: int|
            0 <= i < n && remains(stations, i) && (#[trigger] stations[i]).user_id == user
                && stations[i].client == by_user(kept(stations, n))[user],
        forall|i: int|
            0 <= i < n && remains(stations, i) && (#[trigger] stations[i]).user_id == user
                ==> by_user(kept(stations, n)).contains_key(user),
    decreases n,
{
    if n > 0 {
        let front = kept(stations, (n - 1) as nat);
        lemma_users(stations, (n - 1) as nat, user);
        if remains(stations, n - 1) {
            assert(front.push(stations[n - 1]).drop_last() =~= front);
            if stations[n - 1].user_id == user {
                assert(stations[n - 1].client == by_user(kept(stations, n))[user]);
            }
        }
    }
}

proof fn lemma_no_host(stations: Seq<StationView>, address: Seq<char>)
    requires
        forall|j: int| 0 <= j < stations.len() ==> (#[trigger] stations[j]).host != address,
    ensures
        !by_host(stations).contains_key(address),
    decreases stations.len(),
{
    if stations.len() > 0 {
        let front = stations.drop_last();
        assert forall|j: int| 0 <= j < front.len() implies (#[trigger] front[j]).host
            != address by {
            assert(front[j] == stations[j]);
        }
        lemma_no_host(front, address);
        assert(stations.last() == stations[stations.len() - 1]);
    }
}

/// A frame that no station is behind is taken for no call: each call is that of a client that was
/// handed over.
pub proof fn caller_is_known(stations: Seq<StationView>, server: SipView, frame: Seq<u8>)
    requires
        server.clients == by_host(stations),
        server.clients_user == by_user(remaining(stations)),
        server.calling(frame) is Some,
    ensures
        exists|i: int| 0 <= i < stations.len() && (#[trigger] stations[i]).client
            == server.calling(frame)->Some_0,
{
    let payload = frame_sip(frame)->Some_0;
    let contact = contact_in(payload)->Ok_0;
    if server.clients.contains_key(contact.ip_address) {
        lemma_host_known(stations, contact.ip_address);
    } else {
        lemma_users(stations, stations.len(), contact.from_user);
    }
}

proof fn lemma_host_known(stations: Seq<StationView>, host: Seq<char>)
    requires
        by_host(stations).contains_key(host),
    ensures
        exists|i: int| 0 <= i < stations.len() && (#[trigger] stations[i]).client == by_host(
            stations,
        )[host],
    decreases stations.len(),
{
    if stations.last().host == host {
        assert(stations[stations.len() - 1].client == by_host(stations)[host]);
    } else {
        lemma_host_known(stations.drop_last(), host);
        let i = choose|i: int|
            0 <= i < stations.len() - 1 && (#[trigger] stations.drop_last()[i]).client == by_host(
                stations.drop_last(),
            )[host];
        assert(stations[i] == stations.drop_last()[i]);
    }
}

} // verus!
