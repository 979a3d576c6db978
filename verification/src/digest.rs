//! The password digest of the device protocol.

use crate::text;
use md5::Digest;
use vstd::prelude::*;
use vstd::string::StringExecFns;

verus! {

/// What MD5 makes of the bytes.
pub uninterp spec fn md5_digest(data: Seq<u8>) -> Seq<u8>;

/// `md5::Md5`: a new hasher, fed with the bytes and finalised. Its digest has 16 bytes and
/// depends on the bytes alone.
#[verifier::external_body]
fn md5(data: &[u8]) -> (r: Vec<u8>)
    ensures
        r@ == md5_digest(data@),
        r@.len() == 16,
{
    let mut hasher = md5::Md5::new();
    hasher.update(data);
    hasher.finalize().to_vec()
}

/// A hexadecimal digit, with small letters.
pub open spec fn hex_digit(n: nat) -> char {
    if n < 10 {
        ('0' as u32 + n) as char
    } else {
        ('a' as u32 + (n - 10)) as char
    }
}

/// Two hexadecimal digits for each byte, with small letters.
pub open spec fn hex_text(data: Seq<u8>) -> Seq<char> {
    Seq::new(
        2 * data.len(),
        |i: int|
            if i % 2 == 0 {
                hex_digit(data[i / 2] as nat / 16)
            } else {
                hex_digit(data[i / 2] as nat % 16)
            },
    )
}

/// `hex::encode`: two hexadecimal digits for each byte, the high one first, with small letters.
#[verifier::external_body]
fn hex_encode(data: &[u8]) -> (r: String)
    ensures
        r@ == hex_text(data@),
{
    hex::encode(data)
}

pub open spec fn upper_char(c: char) -> char {
    if 'a' <= c <= 'z' {
        (c as u32 - 32) as char
    } else {
        c
    }
}

/// The text with the letters from `a` to `z` in capitals.
pub open spec fn upper(s: Seq<char>) -> Seq<char> {
    Seq::new(s.len(), |i: int| upper_char(s[i]))
}

/// The digest of a text, in hexadecimal with capitals.
pub open spec fn digest_text(s: Seq<char>) -> Seq<char> {
    upper(hex_text(md5_digest(vstd::utf8::encode_utf8(s))))
}

/// Three texts with colons between them.
pub open spec fn joined(a: Seq<char>, b: Seq<char>, c: Seq<char>) -> Seq<char> {
    a + ":"@ + b + ":"@ + c
}

/// What is sent in place of a password.
pub open spec fn password_hash(
    username: Seq<char>,
    password: Seq<char>,
    random: Seq<char>,
    realm: Seq<char>,
) -> Seq<char> {
    digest_text(joined(username, random, digest_text(joined(username, realm, password))))
}

/// Bytes in hexadecimal with capitals.
pub fn upper_hex(data: &[u8]) -> (r: String)
    ensures
        r@ == upper(hex_text(data@)),
{
    let small = hex_encode(data);
    let chars = text::char_vec(small.as_str());
    let mut r: Vec<char> = Vec::new();
    let mut i: usize = 0;
    while i < chars.len()
        invariant
            i <= chars.len(),
            r@.len() == i,
            chars@ == hex_text(data@),
            forall|k: int| 0 <= k < i ==> r@[k] == upper_char(chars@[k]),
        decreases chars.len() - i,
    {
        let c = chars[i];
        if 'a' <= c && c <= 'z' {
            r.push((c as u8 - 32) as char);
        } else {
            r.push(c);
        }
        i += 1;
    }
    assert(r@ =~= upper(chars@));
    text::string_of(r.as_slice())
}

/// Three texts with colons between them.
pub fn join(a: &str, b: &str, c: &str) -> (r: String)
    ensures
        r@ == joined(a@, b@, c@),
{
    let mut r = String::new();
    r.append(a);
    r.append(":");
    r.append(b);
    r.append(":");
    r.append(c);
    assert(r@ =~= joined(a@, b@, c@));
    r
}

/// Whether a character is a hexadecimal digit, with capitals.
pub open spec fn is_upper_hex(c: char) -> bool {
    '0' <= c <= '9' || 'A' <= c <= 'F'
}

/// Whether a text has the form of a digest: 32 hexadecimal digits, with capitals.
pub open spec fn is_digest(s: Seq<char>) -> bool {
    s.len() == 32 && forall|i: int| 0 <= i < s.len() ==> is_upper_hex(#[trigger] s[i])
}

proof fn lemma_upper_hex(data: Seq<u8>)
    ensures
        upper(hex_text(data)).len() == 2 * data.len(),
        forall|i: int|
            0 <= i < 2 * data.len() ==> is_upper_hex(#[trigger] upper(hex_text(data))[i]),
{
    assert forall|i: int| 0 <= i < 2 * data.len() implies is_upper_hex(
        #[trigger] upper(hex_text(data))[i],
    ) by {
        let n = if i % 2 == 0 {
            data[i / 2] as nat / 16
        } else {
            data[i / 2] as nat % 16
        };
        assert(n < 16);
        assert(is_upper_hex(upper_char(hex_digit(n))));
    }
}

/// The digest of a text, in hexadecimal with capitals.
pub fn digest_of(s: &str) -> (r: String)
    ensures
        r@ == digest_text(s@),
        r@ == upper(hex_text(md5_digest(vstd::utf8::encode_utf8(s@)))),
        is_digest(r@),
{
    let digest = md5(s.as_bytes());
    proof {
        lemma_upper_hex(digest@);
    }
    upper_hex(digest.as_slice())
}

/// What is sent in place of a password.
pub fn hashed_password(username: &str, password: &str, random: &str, realm: &str) -> (r: String)
    ensures
        r@ == password_hash(username@, password@, random@, realm@),
        r@ == upper(
            hex_text(
                md5_digest(
                    vstd::utf8::encode_utf8(
                        username@ + ":"@ + random@ + ":"@ + upper(
                            hex_text(
                                md5_digest(
                                    vstd::utf8::encode_utf8(
                                        username@ + ":"@ + realm@ + ":"@ + password@,
                                    ),
                                ),
                            ),
                        ),
                    ),
                ),
            ),
        ),
        is_digest(r@),
{
    let first = join(username, realm, password);
    let first_hash = digest_of(first.as_str());
    let second = join(username, random, first_hash.as_str());
    digest_of(second.as_str())
}

} // verus!
