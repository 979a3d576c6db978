//! What goes over the wire, stated byte by byte and member by member.

use crate::digest;
use crate::frame;
use crate::json;
use crate::json::{Json, JsonView, Payload};
use vstd::prelude::*;

verus! {

proof fn lemma_le4(s: Seq<u8>)
    requires
        s.len() == 4,
    ensures
        frame::le_value(s) == s[0] + 256 * s[1] + 65536 * s[2] + 16777216 * s[3],
{
    reveal_with_fuel(frame::le_value, 5);
}

proof fn lemma_le8(s: Seq<u8>)
    requires
        s.len() == 8,
    ensures
        frame::le_value(s) == s[0] + 0x100 * s[1] + 0x1_0000 * s[2] + 0x100_0000 * s[3]
            + 0x1_0000_0000 * s[4] + 0x100_0000_0000 * s[5] + 0x1_0000_0000_0000 * s[6]
            + 0x100_0000_0000_0000 * s[7],
{
    reveal_with_fuel(frame::le_value, 9);
}

proof fn lemma_pow256()
    ensures
        frame::pow256(4) == 0x1_0000_0000,
        frame::pow256(8) == 0x1_0000_0000_0000_0000,
{
    reveal_with_fuel(frame::pow256, 9);
}

/// A packet begins with the eight bytes of the protocol's mark. Then come the session and the
/// request in four bytes each, and twice the length of the body in eight, all with the lowest byte
/// first; and then the body.
pub proof fn packet_has_its_layout(session: u32, request: u32, body: Seq<u8>)
    requires
        body.len() <= u64::MAX,
    ensures
        ({
            let p = frame::packet(session, request, body);
            &&& p.len() == 32 + body.len()
            &&& p.take(8) == seq![0x20u8, 0u8, 0u8, 0u8, 0x44u8, 0x48u8, 0x49u8, 0x50u8]
            &&& p[8] + 0x100 * p[9] + 0x1_0000 * p[10] + 0x100_0000 * p[11] == session
            &&& p[12] + 0x100 * p[13] + 0x1_0000 * p[14] + 0x100_0000 * p[15] == request
            &&& p[16] + 0x100 * p[17] + 0x1_0000 * p[18] + 0x100_0000 * p[19] + 0x1_0000_0000
                * p[20] + 0x100_0000_0000 * p[21] + 0x1_0000_0000_0000 * p[22]
                + 0x100_0000_0000_0000 * p[23] == body.len()
            &&& p.subrange(24, 32) == p.subrange(16, 24)
            &&& p.skip(32) == body
        }),
{
    let p = frame::packet(session, request, body);
    let n = body.len();
    lemma_pow256();
    frame::lemma_le(frame::DAHUA_PROTO_DHIP as nat, 8);
    frame::lemma_le(session as nat, 4);
    frame::lemma_le(request as nat, 4);
    frame::lemma_le(n, 8);
    let mark = frame::le_bytes(frame::DAHUA_PROTO_DHIP as nat, 8);
    let s = frame::le_bytes(session as nat, 4);
    let r = frame::le_bytes(request as nat, 4);
    let l = frame::le_bytes(n, 8);
    assert(p =~= mark + s + r + l + l + body);
    lemma_le8(mark);
    assert(mark =~= seq![0x20u8, 0u8, 0u8, 0u8, 0x44u8, 0x48u8, 0x49u8, 0x50u8]);
    assert(p.take(8) =~= mark);
    lemma_le4(s);
    lemma_le4(r);
    lemma_le8(l);
    assert(p[8] == s[0] && p[9] == s[1] && p[10] == s[2] && p[11] == s[3]);
    assert(p[12] == r[0] && p[13] == r[1] && p[14] == r[2] && p[15] == r[3]);
    assert(p[16] == l[0] && p[17] == l[1] && p[18] == l[2] && p[19] == l[3]);
    assert(p[20] == l[4] && p[21] == l[5] && p[22] == l[6] && p[23] == l[7]);
    assert(p.subrange(16, 24) =~= l);
    assert(p.subrange(24, 32) =~= l);
    assert(p.skip(32) =~= body);
}

/// Received bytes that begin with the mark are a packet as soon as the body is there whose length
/// the last eight bytes of the header give, whatever the rest of the header holds. Where exactly
/// 32 bytes follow it, they go with it. Bytes without the mark are refused, and fewer than 32 are
/// waited on.
pub proof fn packet_is_read_by_its_length(chunk: Seq<u8>, n: nat)
    requires
        n <= usize::MAX - 32,
        chunk.len() >= 32 ==> n == chunk[24] + 0x100 * chunk[25] + 0x1_0000 * chunk[26] + 0x100_0000
            * chunk[27] + 0x1_0000_0000 * chunk[28] + 0x100_0000_0000 * chunk[29]
            + 0x1_0000_0000_0000 * chunk[30] + 0x100_0000_0000_0000 * chunk[31],
    ensures
        frame::countable(chunk),
        frame::decoded(chunk) == if chunk.len() < 32 {
            frame::Decoded::Incomplete
        } else if chunk.take(8) != seq![
            0x20u8,
            0u8,
            0u8,
            0u8,
            0x44u8,
            0x48u8,
            0x49u8,
            0x50u8,
        ] {
            frame::Decoded::Foreign
        } else if chunk.len() < 32 + n {
            frame::Decoded::Incomplete
        } else {
            frame::Decoded::Packet {
                body: chunk.subrange(32, 32 + n as int),
                tail: if chunk.len() == 64 + n {
                    64 + n as int
                } else {
                    32 + n as int
                },
            }
        },
{
    if chunk.len() >= 32 {
        let first = chunk.subrange(0, 8);
        let len = chunk.subrange(24, 32);
        let mark = seq![0x20u8, 0u8, 0u8, 0u8, 0x44u8, 0x48u8, 0x49u8, 0x50u8];
        lemma_le8(first);
        lemma_le8(mark);
        lemma_le8(len);
        assert(first =~= chunk.take(8));
        assert(frame::le_value(mark) == frame::DAHUA_PROTO_DHIP);
        if frame::le_value(first) == frame::DAHUA_PROTO_DHIP {
            assert(first =~= mark);
        }
        assert(frame::le_value(len) == n);
    }
}

/// What a member is: the first one with the key, of the members of an object, and nothing of any
/// other value.
pub proof fn member_is_the_first_with_its_key(members: Seq<(String, Payload)>, key: Seq<char>)
    ensures
        match json::member(members, key) {
            Some(value) => exists|i: int|
                0 <= i < members.len() && (#[trigger] members[i]).0@ == key && members[i].1 == value
                    && (forall|j: int| 0 <= j < i ==> (#[trigger] members[j]).0@ != key),
            None => forall|i: int| 0 <= i < members.len() ==> (#[trigger] members[i]).0@ != key,
        },
    decreases members.len(),
{
    if members.len() > 0 && members[0].0@ != key {
        let rest = members.drop_first();
        member_is_the_first_with_its_key(rest, key);
        match json::member(members, key) {
            Some(value) => {
                let i = choose|i: int|
                    0 <= i < rest.len() && (#[trigger] rest[i]).0@ == key && rest[i].1 == value && (
                    forall|j: int| 0 <= j < i ==> (#[trigger] rest[j]).0@ != key);
                assert(members[i + 1] == rest[i]);
                assert forall|j: int| 0 <= j < i + 1 implies (#[trigger] members[j]).0@ != key by {
                    if j > 0 {
                        assert(members[j] == rest[j - 1]);
                    }
                }
            },
            None => {
                assert forall|i: int| 0 <= i < members.len() implies (#[trigger] members[i]).0@
                    != key by {
                    if i > 0 {
                        assert(members[i] == rest[i - 1]);
                    }
                }
            },
        }
    } else if members.len() > 0 {
        assert(members[0].0@ == key);
    }
}

/// Only objects have members, only texts are texts, and only numbers are numbers.
pub proof fn values_are_what_they_are(value: Payload, key: Seq<char>)
    ensures
        json::field(value, key) == if value is Object {
            json::member(value->Object_0@, key)
        } else {
            None
        },
        json::text_of(value) == if value is Text {
            Some(value->Text_0@)
        } else {
            None
        },
        json::is_number(value) <==> (value is Int || value is Number),
{
}

/// What is written holds what was put in: a text its characters, an array its items in order, and
/// an object for each key the value that was set last.
pub proof fn written_value_holds_what_was_put_in(value: Json, i: int)
    ensures
        match value {
            Json::Bool(b) => value.view() == JsonView::Bool(b),
            Json::Int(n) => value.view() == JsonView::Int(n as int),
            Json::Text(s) => value.view() == JsonView::Text(s@),
            Json::Array(items) => {
                &&& value.view() is Array
                &&& value.view()->Array_0.len() == items@.len()
                &&& 0 <= i < items@.len() ==> value.view()->Array_0[i] == items@[i].view()
            },
            Json::Object(members) => {
                &&& value.view() is Object
                &&& 0 <= i < members@.len() ==> value.view()->Object_0.contains_key(members@[i].0@)
                &&& 0 <= i < members@.len() && (forall|j: int|
                    i < j < members@.len() ==> (#[trigger] members@[j]).0@ != members@[i].0@)
                    ==> value.view()->Object_0[members@[i].0@] == members@[i].1.view()
                &&& forall|key: Seq<char>| #[trigger]
                    value.view()->Object_0.contains_key(key) ==> exists|j: int|
                        0 <= j < members@.len() && (#[trigger] members@[j]).0@ == key
            },
        },
{
    match value {
        Json::Array(items) => lemma_items(items@),
        Json::Object(members) => {
            lemma_members(members@);
        },
        _ => {},
    }
}

proof fn lemma_items(items: Seq<Json>)
    ensures
        Json::items_view(items).len() == items.len(),
        forall|i: int| 0 <= i < items.len() ==> Json::items_view(items)[i] == (
        #[trigger] items[i]).view(),
    decreases items.len(),
{
    if items.len() > 0 {
        let front = items.drop_last();
        lemma_items(front);
        assert forall|i: int| 0 <= i < items.len() implies Json::items_view(items)[i] == (
        #[trigger] items[i]).view() by {
            if i < front.len() {
                assert(front[i] == items[i]);
            }
        }
    }
}

proof fn lemma_members(members: Seq<(String, Json)>)
    ensures
        forall|i: int|
            0 <= i < members.len() ==> Json::members_view(members).contains_key(
                (#[trigger] members[i]).0@,
            ),
        forall|i: int|
            #![trigger members[i]]
            0 <= i < members.len() && (forall|j: int|
                i < j < members.len() ==> (#[trigger] members[j]).0@ != members[i].0@)
                ==> Json::members_view(members)[members[i].0@] == members[i].1.view(),
        forall|key: Seq<char>| #[trigger]
            Json::members_view(members).contains_key(key) ==> exists|j: int|
                0 <= j < members.len() && (#[trigger] members[j]).0@ == key,
    decreases members.len(),
{
    if members.len() > 0 {
        let front = members.drop_last();
        let n = members.len() - 1;
        lemma_members(front);
        let view = Json::members_view(members);
        assert forall|i: int| 0 <= i < members.len() implies view.contains_key(
            (#[trigger] members[i]).0@,
        ) by {
            if i < n {
                assert(front[i] == members[i]);
            }
        }
        assert forall|i: int|
            #![trigger members[i]]
            0 <= i < members.len() && (forall|j: int|
                i < j < members.len() ==> (#[trigger] members[j]).0@
                    != members[i].0@) implies view[members[i].0@] == members[i].1.view() by {
            if i < n {
                assert(members[n].0@ != members[i].0@);
                assert(front[i] == members[i]);
                assert forall|j: int| i < j < front.len() implies (#[trigger] front[j]).0@
                    != front[i].0@ by {
                    assert(front[j] == members[j]);
                }
            }
        }
        assert forall|key: Seq<char>| #[trigger] view.contains_key(key) implies exists|j: int|
            0 <= j < members.len() && (#[trigger] members[j]).0@ == key by {
            if key == members[n].0@ {
            } else {
                assert(Json::members_view(front).contains_key(key));
                let j = choose|j: int| 0 <= j < front.len() && (#[trigger] front[j]).0@ == key;
                assert(members[j] == front[j]);
            }
        }
    }
}

/// The two digits of each byte of a digest stand at twice its place, the high one first: 0 to 9
/// and then A to F.
pub proof fn digest_shows_each_byte(data: Seq<u8>, i: int)
    requires
        0 <= i < data.len(),
    ensures
        ({
            let shown = digest::upper(digest::hex_text(data));
            let high = data[i] as int / 16;
            let low = data[i] as int % 16;
            &&& shown.len() == 2 * data.len()
            &&& shown[2 * i] as int == if high < 10 {
                48 + high
            } else {
                55 + high
            }
            &&& shown[2 * i + 1] as int == if low < 10 {
                48 + low
            } else {
                55 + low
            }
        }),
{
}

/// The whole password goes into the first of the two hashes, with the name and the realm, and the
/// whole of that hash into the second, with the name and the random text; so passwords that differ
/// anywhere feed different texts to the hash.
pub proof fn whole_password_is_hashed(
    username: Seq<char>,
    password: Seq<char>,
    other: Seq<char>,
    random: Seq<char>,
    realm: Seq<char>,
)
    ensures
        exists|inner: Seq<char>, outer: Seq<char>|
            #![trigger vstd::utf8::encode_utf8(inner), vstd::utf8::encode_utf8(outer)]
            {
                &&& inner == username + ":"@ + realm + ":"@ + password
                &&& password != other ==> inner != username + ":"@ + realm + ":"@ + other
                &&& outer == username + ":"@ + random + ":"@ + digest::upper(
                    digest::hex_text(digest::md5_digest(vstd::utf8::encode_utf8(inner))),
                )
                &&& digest::password_hash(username, password, random, realm) == digest::upper(
                    digest::hex_text(digest::md5_digest(vstd::utf8::encode_utf8(outer))),
                )
            },
{
    let front = username + ":"@ + realm + ":"@;
    let inner = front + password;
    let outer = username + ":"@ + random + ":"@ + digest::upper(
        digest::hex_text(digest::md5_digest(vstd::utf8::encode_utf8(inner))),
    );
    if inner == front + other {
        assert(inner.skip(front.len() as int) =~= password);
        assert((front + other).skip(front.len() as int) =~= other);
    }
    let bytes = vstd::utf8::encode_utf8(inner);
    let more = vstd::utf8::encode_utf8(outer);
    assert(digest::password_hash(username, password, random, realm) == digest::upper(
        digest::hex_text(digest::md5_digest(more)),
    ));
}

/// Texts are joined whole, with one colon between each two.
pub proof fn joined_texts_stay_whole(a: Seq<char>, b: Seq<char>, c: Seq<char>)
    ensures
        digest::joined(a, b, c) == a + ":"@ + b + ":"@ + c,
        digest::digest_text(a) == digest::upper(
            digest::hex_text(digest::md5_digest(vstd::utf8::encode_utf8(a))),
        ),
{
}

/// A text has the form of a digest exactly where it holds 32 hexadecimal digits with capitals.
pub proof fn digest_is_32_digits(s: Seq<char>)
    ensures
        digest::is_digest(s) <==> s.len() == 32 && forall|i: int|
            0 <= i < s.len() ==> ('0' <= #[trigger] s[i] <= '9' || 'A' <= s[i] <= 'F'),
{
    if digest::is_digest(s) {
        assert forall|i: int| 0 <= i < s.len() implies ('0' <= #[trigger] s[i] <= '9' || 'A' <= s[i]
            <= 'F') by {
            assert(digest::is_upper_hex(s[i]));
        }
    }
}

} // verus!
