use crate::protocol_types::compound::Uuid;
use crate::protocol_types::primitives::VarInt;
use crate::protocol_types::twos::signed32;
use crate::protocol_types::traits::{Prot, ReadProt};
use md5::{Digest, Md5};
use vstd::prelude::*;
use vstd::string::StringExecFns;
use vstd::string::StringSliceAdditionalSpecFns;

verus! {

/// `String::from` on a character: the text of that one character.
#[verifier::external_body]
fn char_text(c: char) -> (text: String)
    ensures
        text@ == seq![c],
{
    String::from(c)
}

/// The text of one hexadecimal digit, letters in lower case.
pub open spec fn nibble_text(n: u8) -> Seq<char> {
    if n == 0 {
        "0"@
    } else if n == 1 {
        "1"@
    } else if n == 2 {
        "2"@
    } else if n == 3 {
        "3"@
    } else if n == 4 {
        "4"@
    } else if n == 5 {
        "5"@
    } else if n == 6 {
        "6"@
    } else if n == 7 {
        "7"@
    } else if n == 8 {
        "8"@
    } else if n == 9 {
        "9"@
    } else if n == 10 {
        "a"@
    } else if n == 11 {
        "b"@
    } else if n == 12 {
        "c"@
    } else if n == 13 {
        "d"@
    } else if n == 14 {
        "e"@
    } else {
        "f"@
    }
}

/// How a byte is shown: tab, return and newline as a backslash and `t`,
/// `r` or `n`; the quotes and the backslash behind a backslash; the other
/// printable ASCII characters as they are; every other byte as a backslash,
/// an `x` and two hexadecimal digits.
pub open spec fn shown(b: u8) -> Seq<char> {
    if b == 9 {
        "\\t"@
    } else if b == 13 {
        "\\r"@
    } else if b == 10 {
        "\\n"@
    } else if b == 39 {
        "\\'"@
    } else if b == 34 {
        "\\\""@
    } else if b == 92 {
        "\\\\"@
    } else if 32 <= b <= 126 {
        seq![b as char]
    } else {
        "\\x"@ + nibble_text(b / 16) + nibble_text(b % 16)
    }
}

/// All of `bytes` as they are shown, one after the other.
pub open spec fn shown_all(bytes: Seq<u8>) -> Seq<char>
    decreases bytes.len(),
{
    if bytes.len() == 0 {
        Seq::empty()
    } else {
        shown_all(bytes.drop_last()) + shown(bytes.last())
    }
}

fn nibble(n: u8) -> (text: &'static str)
    ensures
        text@ == nibble_text(n),
{
    if n == 0 {
        "0"
    } else if n == 1 {
        "1"
    } else if n == 2 {
        "2"
    } else if n == 3 {
        "3"
    } else if n == 4 {
        "4"
    } else if n == 5 {
        "5"
    } else if n == 6 {
        "6"
    } else if n == 7 {
        "7"
    } else if n == 8 {
        "8"
    } else if n == 9 {
        "9"
    } else if n == 10 {
        "a"
    } else if n == 11 {
        "b"
    } else if n == 12 {
        "c"
    } else if n == 13 {
        "d"
    } else if n == 14 {
        "e"
    } else {
        "f"
    }
}

/// Makes a byte string readable: what is printable is shown as it is, the
/// rest as escapes.
pub fn show(bs: &[u8]) -> (visible: String)
    ensures
        visible@ == shown_all(bs@),
{
    let mut visible = String::new();
    let mut i: usize = 0;
    while i < bs.len()
        invariant
            i <= bs@.len(),
            visible@ == shown_all(bs@.take(i as int)),
        decreases bs@.len() - i,
    {
        let b = bs[i];
        let ghost sofar = visible@;
        proof {
            assert(bs@.take(i + 1).drop_last() =~= bs@.take(i as int));
        }
        if b == 9 {
            visible.append("\\t");
        } else if b == 13 {
            visible.append("\\r");
        } else if b == 10 {
            visible.append("\\n");
        } else if b == 39 {
            visible.append("\\'");
        } else if b == 34 {
            visible.append("\\\"");
        } else if b == 92 {
            visible.append("\\\\");
        } else if 32 <= b && b <= 126 {
            let part = char_text(b as char);
            visible.append(part.as_str());
        } else {
            visible.append("\\x");
            visible.append(nibble(b / 16));
            visible.append(nibble(b % 16));
            assert(visible@ =~= sofar + shown(b));
        }
        i += 1;
    }
    assert(bs@.take(i as int) =~= bs@);
    visible
}

/// The MD5 digest of `data`.
pub uninterp spec fn md5(data: Seq<u8>) -> Seq<u8>;

/// `Md5::digest`: the MD5 digest of `data`, which has 16 bytes.
#[verifier::external_body]
fn md5_digest(data: &[u8]) -> (digest: Vec<u8>)
    ensures
        digest@ == md5(data@),
        digest@.len() == 16,
{
    Md5::digest(data).to_vec()
}

/// The uuid that a string of hexadecimal digits names, with or without
/// hyphens, braces or the prefix of a URN, if it names one.
pub uninterp spec fn uuid_of_text(text: Seq<char>) -> Option<u128>;

/// `uuid::Uuid::parse_str`: the uuid that `text` names, if it names one.
#[verifier::external_body]
fn parse_uuid_text(text: &str) -> (value: Option<u128>)
    ensures
        value == uuid_of_text(text@),
{
    match uuid::Uuid::parse_str(text) {
        Ok(found) => Some(found.as_u128()),
        Err(_) => None,
    }
}

/// The uuid that `text` names, if it names one.
pub fn parse_uuid(text: &str) -> (uuid: Option<Uuid>)
    ensures
        uuid == match uuid_of_text(text@) {
            Some(value) => Some(Uuid { value }),
            None => None,
        },
{
    match parse_uuid_text(text) {
        Some(value) => Some(Uuid::from_u128(value)),
        None => None,
    }
}

/// A digest marked as a uuid made from a name: the upper half of byte 6
/// says version 3, the two upper bits of byte 8 say variant 1.
pub open spec fn marked(digest: Seq<u8>) -> Seq<u8> {
    digest.update(6, (digest[6] & 0x0f) | 0x30).update(8, (digest[8] & 0x3f) | 0x80)
}

/// The uuid of the name `name`: the 16 bytes of its marked MD5 digest, most
/// significant first.
pub open spec fn name_uuid_of(name: Seq<char>) -> Uuid
    recommends
        Uuid::decoding(marked(md5(vstd::utf8::encode_utf8(name))), 0) is Ok,
{
    Uuid::decoding(marked(md5(vstd::utf8::encode_utf8(name))), 0)->Ok_0.0
}

/// The uuid that goes with `name` where no session server is asked.
pub fn name_uuid(name: String) -> (uuid: Uuid)
    ensures
        uuid == name_uuid_of(name@),
        md5(vstd::utf8::encode_utf8(name@)).len() == 16,
        Uuid::decoding(marked(md5(vstd::utf8::encode_utf8(name@))), 0) is Ok,
{
    let mut digest = md5_digest(name.as_str().as_bytes());
    let six = digest[6];
    digest[6] = (six & 0x0f) | 0x30;
    let eight = digest[8];
    digest[8] = (eight & 0x3f) | 0x80;
    assert(digest@ =~= marked(md5(vstd::utf8::encode_utf8(name@))));
    match Uuid::read(digest.as_slice(), 0) {
        Ok((uuid, _)) => uuid,
        Err(_) => Uuid::nil(),
    }
}

/// The name under which a player is known where no session server is
/// asked.
pub fn offline_name(name: &str) -> (full: String)
    ensures
        full@ == "OfflinePlayer:"@ + name@,
{
    String::from_str("OfflinePlayer:").concat(name)
}

/// `rand::random::<u8>`: a byte.
#[verifier::external_body]
fn random_u8() -> u8 {
    rand::random::<u8>()
}

/// `rand::random::<usize>`: a number.
#[verifier::external_body]
fn random_usize() -> usize {
    rand::random::<usize>()
}

/// `rand::random::<i64>`: a number.
#[verifier::external_body]
fn random_i64() -> i64 {
    rand::random::<i64>()
}

/// Four random bytes for a verify token.
pub fn random_token() -> (token: Vec<u8>)
    ensures
        token@.len() == 4,
{
    let mut token: Vec<u8> = Vec::new();
    token.push(random_u8());
    token.push(random_u8());
    token.push(random_u8());
    token.push(random_u8());
    token
}

/// The id for a teleport that is made of the number `raw`: its low 32
/// bits read as a signed number, and 1 where that is 0, which no teleport
/// has for its id.
pub open spec fn teleport_id_of(raw: usize) -> i32 {
    let id = signed32(((raw as int) % 0x1_0000_0000) as nat);
    if id == 0 {
        1
    } else {
        id
    }
}

/// Makes the id for a teleport of the number `raw`.
pub fn teleport_id(raw: usize) -> (id: i32)
    ensures
        id == teleport_id_of(raw),
        id != 0,
{
    let id = VarInt::from(raw).value;
    if id == 0 {
        1
    } else {
        id
    }
}

/// A random id for a teleport, other than 0: made of a random number.
pub fn random_teleport_id() -> (id: i32)
    ensures
        id != 0,
{
    teleport_id(random_usize())
}

/// A random id for a keepalive.
pub fn random_keep_alive_id() -> i64 {
    random_i64()
}

} // verus!
