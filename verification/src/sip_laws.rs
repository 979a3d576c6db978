//! What is seen on the wire, stated byte by byte.

use crate::sip;
use crate::sip::{ContactView, SipContact, SipError, SipView, Station, StationView};
use vstd::prelude::*;

verus! {

/// A frame holds a message exactly where it is a UDP datagram over IPv4 and one of its ports is
/// 5060 or 5080, in whatever direction it goes and however long it is: the message is what stands
/// behind the three headers, up to the length that the header of IPv4 gives.
pub proof fn message_stands_behind_the_headers(frame: Seq<u8>)
    ensures
        ({
            let ip = frame.skip(14);
            let header = 4 * (ip[0] as int % 16);
            let start = if header < 20 {
                20
            } else {
                header
            };
            let total = 256 * ip[2] + ip[3];
            let len = if total < header {
                0
            } else {
                total - header
            };
            let end = if start + len < ip.len() {
                start + len
            } else {
                ip.len() as int
            };
            let source = 256 * ip[start] + ip[start + 1];
            let destination = 256 * ip[start + 2] + ip[start + 3];
            sip::frame_sip(frame) == if frame.len() >= 34 && frame[12] == 8 && frame[13] == 0
                && ip[9] == 17 && end - start >= 8 && (source == 5060 || source == 5080
                || destination == 5060 || destination == 5080) {
                Some(ip.subrange(start + 8, end))
            } else {
                None
            }
        }),
{
    if frame.len() >= 34 {
        let ip = frame.skip(14);
        assert(sip::rest(frame, 14) == ip);
        let start = sip::ipv4_start(ip);
        let len = sip::ipv4_len(ip);
        let end = if start + len < ip.len() {
            start + len
        } else {
            ip.len() as int
        };
        let data = sip::ipv4_payload(ip);
        if start <= end {
            assert(data =~= ip.subrange(start, end));
            if data.len() >= 8 {
                assert(sip::rest(data, 8) =~= ip.subrange(start + 8, end));
            }
        } else {
            assert(data.len() == 0);
        }
    } else if frame.len() >= 14 {
        assert(sip::rest(frame, 14).len() < 20);
    }
}

/// Every message that begins with the bytes `INV` and goes on, however long, is an invitation, and
/// no other message is. One that is no text is told apart, and of one that is a text whatever the
/// two patterns find in it is the caller.
pub proof fn every_invitation_is_read(rest: Seq<u8>, payload: Seq<u8>)
    requires
        rest.len() > 0,
    ensures
        ({
            let invitation = seq![73u8, 78u8, 86u8] + rest;
            let message = vstd::utf8::decode_utf8(invitation);
            sip::contact_in(invitation) == if vstd::utf8::valid_utf8(invitation) {
                match (
                    sip::first_group(sip::CONTACT_PATTERN@, message),
                    sip::first_group(sip::FROM_PATTERN@, message),
                ) {
                    (Some(Some(ip_address)), Some(Some(from_user))) => Ok(
                        ContactView { ip_address, from_user },
                    ),
                    (Some(Some(_)), Some(None)) => Err(SipError::NoUser),
                    (Some(None), _) => Err(SipError::NoAddress),
                    _ => Err(SipError::Pattern),
                }
            } else {
                Err(SipError::NotText)
            }
        }),
        payload.len() <= 3 || payload.take(3) != seq![73u8, 78u8, 86u8] ==> sip::contact_in(payload)
            == Err::<ContactView, SipError>(SipError::NotInvitation),
{
    let invitation = seq![73u8, 78u8, 86u8] + rest;
    assert(invitation[0] == 73 && invitation[1] == 78 && invitation[2] == 86);
    if sip::is_invitation(payload) {
        assert(payload.take(3) =~= seq![73u8, 78u8, 86u8]);
    }
}

/// The caller is found wherever both patterns find something, and the address comes before the
/// user where either is missing.
pub proof fn caller_needs_address_and_user(
    contact: Option<Option<Seq<char>>>,
    user: Option<Option<Seq<char>>>,
)
    ensures
        sip::contact_found(contact, user) is Ok <==> contact is Some && contact->Some_0 is Some
            && user is Some && user->Some_0 is Some,
        sip::contact_found(contact, user) is Ok ==> sip::contact_found(contact, user)->Ok_0 == (
        ContactView { ip_address: contact->Some_0->Some_0, from_user: user->Some_0->Some_0 }),
        contact == Some(None::<Seq<char>>) ==> sip::contact_found(contact, user) == Err::<
            ContactView,
            SipError,
        >(SipError::NoAddress),
        contact is Some && contact->Some_0 is Some && user == Some(None::<Seq<char>>)
            ==> sip::contact_found(contact, user) == Err::<ContactView, SipError>(SipError::NoUser),
        contact is None ==> sip::contact_found(contact, user) == Err::<ContactView, SipError>(
            SipError::Pattern,
        ),
        contact is Some && contact->Some_0 is Some && user is None ==> sip::contact_found(
            contact,
            user,
        ) == Err::<ContactView, SipError>(SipError::Pattern),
{
}

/// An invitation of a station, sent over UDP and IPv4 from or to a SIP port, is taken for a call of
/// that station, however long it is and whatever pads its frame.
pub proof fn invitation_of_a_station_is_its_call(
    stations: Seq<StationView>,
    i: int,
    server: SipView,
    ethernet: Seq<u8>,
    ip: Seq<u8>,
    udp: Seq<u8>,
    rest: Seq<u8>,
    padding: Seq<u8>,
    user: Seq<char>,
)
    requires
        0 <= i < stations.len(),
        forall|j: int| i < j < stations.len() ==> (#[trigger] stations[j]).host
            != stations[i].host,
        server.clients == sip::by_host(stations),
        ethernet.len() == 14,
        ethernet[12] == 8,
        ethernet[13] == 0,
        ip.len() == 20,
        ip[0] == 0x45,
        256 * ip[2] + ip[3] == 31 + rest.len(),
        ip[9] == 17,
        udp.len() == 8,
        256 * udp[0] + udp[1] == 5060 || 256 * udp[2] + udp[3] == 5060 || 256 * udp[0] + udp[1]
            == 5080 || 256 * udp[2] + udp[3] == 5080,
        rest.len() > 0,
        vstd::utf8::valid_utf8(seq![73u8, 78u8, 86u8] + rest),
        sip::first_group(
            sip::CONTACT_PATTERN@,
            vstd::utf8::decode_utf8(seq![73u8, 78u8, 86u8] + rest),
        ) == Some(Some(stations[i].host)),
        sip::first_group(
            sip::FROM_PATTERN@,
            vstd::utf8::decode_utf8(seq![73u8, 78u8, 86u8] + rest),
        ) == Some(Some(user)),
    ensures
        server.calling(ethernet + ip + udp + (seq![73u8, 78u8, 86u8] + rest) + padding) == Some(
            stations[i].client,
        ),
{
    let message = seq![73u8, 78u8, 86u8] + rest;
    sip::sent_message_is_taken_out(ethernet, ip, udp, message, padding);
    every_invitation_is_read(rest, rest);
    sip::address_decides(stations, i, server, user);
}

/// A call is that of the station at the address, and only where no station is there that of the
/// one with the user; a frame that shows no caller is no call.
pub proof fn address_comes_before_user(server: SipView, contact: ContactView, frame: Seq<u8>)
    ensures
        server.clients.contains_key(contact.ip_address) ==> server.caller(contact) == Some(
            server.clients[contact.ip_address],
        ),
        !server.clients.contains_key(contact.ip_address) && server.clients_user.contains_key(
            contact.from_user,
        ) ==> server.caller(contact) == Some(server.clients_user[contact.from_user]),
        !server.clients.contains_key(contact.ip_address) && !server.clients_user.contains_key(
            contact.from_user,
        ) ==> server.caller(contact) is None,
        server.calling(frame) == match sip::frame_sip(frame) {
            Some(payload) => match sip::contact_in(payload) {
                Ok(contact) => server.caller(contact),
                Err(_) => None,
            },
            None => None,
        },
{
}

/// An address is known exactly where a station has it.
pub proof fn address_is_known_where_a_station_has_it(stations: Seq<StationView>, host: Seq<char>)
    ensures
        sip::by_host(stations).contains_key(host) <==> exists|i: int|
            0 <= i < stations.len() && (#[trigger] stations[i]).host == host,
    decreases stations.len(),
{
    if stations.len() > 0 {
        let front = stations.drop_last();
        let n = stations.len() - 1;
        address_is_known_where_a_station_has_it(front, host);
        if sip::by_host(front).contains_key(host) {
            let i = choose|i: int| 0 <= i < front.len() && (#[trigger] front[i]).host == host;
            assert(stations[i] == front[i]);
        }
        if stations[n].host != host {
            assert forall|i: int|
                0 <= i < stations.len() && (#[trigger] stations[i]).host
                    == host implies sip::by_host(front).contains_key(host) by {
                assert(front[i] == stations[i]);
            }
        }
    }
}

/// The address is looked for in the contact of an invitation and the user in its sender.
pub proof fn caller_is_looked_for_where_it_stands()
    ensures
        sip::CONTACT_PATTERN@ == "Contact:\\s*<sip:[^@]*@([^:>]+)(?::\\d+)?>"@,
        sip::FROM_PATTERN@ == "From:\\s*<sip:([^@]+)@"@,
{
}

/// A station counts at its address exactly where no later one has the address.
pub proof fn later_station_takes_the_address(stations: Seq<StationView>, i: int)
    requires
        0 <= i < stations.len(),
    ensures
        sip::remains(stations, i) <==> forall|j: int|
            i < j < stations.len() ==> (#[trigger] stations[j]).host != stations[i].host,
{
}

/// The interface that is listened on is the first with the name, and there is none exactly where
/// no interface has it.
pub proof fn interface_is_the_first_with_its_name(names: Seq<Seq<char>>, name: Seq<char>)
    ensures
        match sip::interface_place(names, name) {
            Some(i) => 0 <= i < names.len() && names[i] == name && forall|j: int|
                0 <= j < i ==> #[trigger] names[j] != name,
            None => forall|j: int| 0 <= j < names.len() ==> #[trigger] names[j] != name,
        },
    decreases names.len(),
{
    if names.len() > 0 {
        let front = names.drop_last();
        interface_is_the_first_with_its_name(front, name);
        match sip::interface_place(front, name) {
            Some(i) => {
                assert forall|j: int| 0 <= j < i implies #[trigger] names[j] != name by {
                    assert(front[j] == names[j]);
                }
            },
            None => {
                assert forall|j: int| 0 <= j < front.len() implies #[trigger] names[j] != name by {
                    assert(front[j] == names[j]);
                }
            },
        }
    }
}

/// Stations, callers and names are what their views say.
pub proof fn callers_are_what_they_show(
    stations: Seq<Station>,
    names: Seq<String>,
    contact: SipContact,
    i: int,
)
    ensures
        sip::station_views(stations).len() == stations.len(),
        0 <= i < stations.len() ==> sip::station_views(stations)[i] == (StationView {
            host: stations[i].host@,
            user_id: stations[i].user_id@,
            client: stations[i].client,
        }),
        sip::name_views(names).len() == names.len(),
        0 <= i < names.len() ==> sip::name_views(names)[i] == names[i]@,
        contact@ == (ContactView {
            ip_address: contact.ip_address@,
            from_user: contact.from_user@,
        }),
        sip::contact_view(Ok(contact)) == Ok::<ContactView, SipError>(contact@),
        sip::found_view(Some(Some(contact.from_user))) == Some(Some(contact.from_user@)),
        sip::found_view(Some(None)) == Some(None::<Seq<char>>),
        sip::found_view(None) == None::<Option<Seq<char>>>,
{
}

/// An error is reported as it is.
pub proof fn sip_errors_are_reported(e: SipError)
    ensures
        sip::contact_view(Err(e)) == Err::<ContactView, SipError>(e),
{
}

} // verus!
