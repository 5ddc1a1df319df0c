use crate::protocol_types::endian::{be_value, pow256};
use crate::protocol_types::primitives::append_bytes;
use crate::protocol_types::text::str_eq;
use num_bigint::{BigInt, Sign};
use openssl::pkey::Private;
use openssl::rsa::{Padding, Rsa};
use openssl::symm::{Cipher, Crypter, Mode};
use sha1::{Digest, Sha1};
use vstd::prelude::*;
use vstd::string::StringExecFns;

verus! {

/// The SHA-1 digest of `data`.
pub uninterp spec fn sha1(data: Seq<u8>) -> Seq<u8>;

/// `Sha1::digest`: the SHA-1 digest of `data`, which has 20 bytes.
#[verifier::external_body]
fn sha1_digest(data: &[u8]) -> (digest: Vec<u8>)
    ensures
        digest@ == sha1(data@),
        digest@.len() == 20,
{
    Sha1::digest(data).to_vec()
}

/// The number that `bytes` spell in two's complement, most significant
/// byte first.
pub open spec fn signed_be(bytes: Seq<u8>) -> int {
    if bytes.len() > 0 && bytes[0] >= 128 {
        be_value(bytes, 0, bytes.len()) - pow256(bytes.len())
    } else {
        be_value(bytes, 0, bytes.len()) as int
    }
}

/// The character of a hexadecimal digit, letters in lower case.
pub open spec fn hex_digit(d: nat) -> char {
    if d == 0 {
        '0'
    } else if d == 1 {
        '1'
    } else if d == 2 {
        '2'
    } else if d == 3 {
        '3'
    } else if d == 4 {
        '4'
    } else if d == 5 {
        '5'
    } else if d == 6 {
        '6'
    } else if d == 7 {
        '7'
    } else if d == 8 {
        '8'
    } else if d == 9 {
        '9'
    } else if d == 10 {
        'a'
    } else if d == 11 {
        'b'
    } else if d == 12 {
        'c'
    } else if d == 13 {
        'd'
    } else if d == 14 {
        'e'
    } else {
        'f'
    }
}

/// The hexadecimal digits of `n`, most significant first and without
/// leading zeros; zero is the one digit 0.
pub open spec fn hex_text(n: nat) -> Seq<char>
    decreases n,
{
    if n < 16 {
        seq![hex_digit(n)]
    } else {
        hex_text(n / 16).push(hex_digit(n % 16))
    }
}

/// `BigInt::from_signed_bytes_be`, `BigInt::sign` and the lower-case
/// hexadecimal form of `BigInt::magnitude`: whether the number that `bytes`
/// spell in two's complement is negative, and the hexadecimal digits of its
/// absolute value.
#[verifier::external_body]
fn signed_hex(bytes: &[u8]) -> (r: (bool, String))
    ensures
        r.0 == (signed_be(bytes@) < 0),
        r.1@ == hex_text(
            (if signed_be(bytes@) < 0 {
                -signed_be(bytes@)
            } else {
                signed_be(bytes@)
            }) as nat,
        ),
{
    let number = BigInt::from_signed_bytes_be(bytes);
    (number.sign() == Sign::Minus, format!("{:x}", number.magnitude()))
}

/// The digest of a login as the session server wants it: the bytes read as
/// a number in two's complement, written in hexadecimal without leading
/// zeros, with a minus sign before the absolute value of a negative one.
pub open spec fn hexdigest_text(bytes: Seq<u8>) -> Seq<char> {
    let value = signed_be(bytes);
    if value == 0 {
        Seq::empty()
    } else if value < 0 {
        "-"@ + hex_text((-value) as nat)
    } else {
        hex_text(value as nat)
    }
}

/// Only zero is written as the one digit 0.
proof fn lemma_hex_zero(n: nat)
    ensures
        hex_text(n) == "0"@ <==> n == 0,
{
    reveal_strlit("0");
    if n >= 16 {
        assert(hex_text(n).len() >= 2) by {
            assert(hex_text(n / 16).len() >= 1) by {
                lemma_hex_len(n / 16);
            }
        }
    } else {
        assert(hex_text(n) =~= seq![hex_digit(n)]);
        if n == 0 {
            assert(hex_text(n) =~= "0"@);
        } else {
            assert(hex_text(n)[0] != '0');
        }
    }
}

/// Every number has at least one digit.
proof fn lemma_hex_len(n: nat)
    ensures
        hex_text(n).len() >= 1,
    decreases n,
{
    if n >= 16 {
        lemma_hex_len(n / 16);
    }
}

/// Writes a digest as the session server wants it.
pub fn hexdigest(bytes: &[u8]) -> (text: String)
    ensures
        text@ == hexdigest_text(bytes@),
{
    let (is_negative, digits) = signed_hex(bytes);
    proof {
        let value = signed_be(bytes@);
        lemma_hex_zero(
            (if value < 0 {
                -value
            } else {
                value
            }) as nat,
        );
    }
    let res = if str_eq(digits.as_str(), "0") {
        String::new()
    } else {
        digits
    };
    if is_negative {
        String::from_str("-").concat(res.as_str())
    } else {
        res
    }
}

/// The hash under which a login is known to the session server: the SHA-1
/// digest of the empty server id, the shared secret and the public key, one
/// after the other.
pub open spec fn server_hash_text(pub_key: Seq<u8>, shared_secret: Seq<u8>) -> Seq<char> {
    hexdigest_text(sha1(shared_secret + pub_key))
}

/// Computes the hash under which a login is known to the session server.
pub fn compute_server_hash(pub_key: &[u8], shared_secret: &[u8]) -> (hash: String)
    ensures
        hash@ == server_hash_text(pub_key@, shared_secret@),
{
    let mut data: Vec<u8> = Vec::new();
    append_bytes(&mut data, shared_secret);
    append_bytes(&mut data, pub_key);
    assert(data@ =~= shared_secret@ + pub_key@);
    let digest = sha1_digest(data.as_slice());
    hexdigest(digest.as_slice())
}

/// `openssl::symm::Crypter`: the context of a cipher. Of what it holds
/// nothing is known here.
#[verifier::external_type_specification]
#[verifier::external_body]
pub struct ExCrypter(openssl::symm::Crypter);

/// `openssl::pkey::Private`: the mark of a key that has its private part.
#[verifier::external_type_specification]
#[verifier::external_body]
pub struct ExPrivate(openssl::pkey::Private);

/// `openssl::rsa::Rsa`: an RSA key. Of what it holds nothing is known
/// here.
#[verifier::external_type_specification]
#[verifier::external_body]
#[verifier::reject_recursive_types(T)]
pub struct ExRsa<T>(openssl::rsa::Rsa<T>);

/// `Crypter::new` for AES-128 in CFB8 mode with `secret`, which has the 16
/// bytes of such a key, as the key and as the initialisation vector;
/// nothing where OpenSSL refuses them.
#[verifier::external_body]
fn new_cipher(secret: &[u8], encrypt: bool) -> (cipher: Option<Crypter>)
    requires
        secret@.len() == 16,
{
    let mode = if encrypt {
        Mode::Encrypt
    } else {
        Mode::Decrypt
    };
    Crypter::new(Cipher::aes_128_cfb8(), mode, secret, Some(secret)).ok()
}

/// `Crypter::update`: what the cipher makes of `input`, or nothing where
/// OpenSSL reports an error. The buffer handed to it has room for the input
/// and one block more.
#[verifier::external_body]
fn cipher_update(cipher: &mut Crypter, input: &[u8]) -> (output: Option<Vec<u8>>)
    requires
        input@.len() <= 0x7fff_0000,
{
    let mut output = vec![0u8; input.len() + 64];
    match cipher.update(input, &mut output) {
        Ok(count) => {
            output.truncate(count);
            Some(output)
        },
        Err(_) => None,
    }
}

/// `Rsa::private_decrypt` with PKCS#1 padding: the plain text of `data`, or
/// nothing where OpenSSL reports an error. The buffer handed to it has the
/// size of the key.
#[verifier::external_body]
fn rsa_decrypt(key: &Rsa<Private>, data: &[u8]) -> (plain: Option<Vec<u8>>)
    requires
        data@.len() <= i32::MAX,
{
    let mut plain = vec![0u8; key.size() as usize];
    match key.private_decrypt(data, &mut plain, Padding::PKCS1) {
        Ok(count) => {
            plain.truncate(count);
            Some(plain)
        },
        Err(_) => None,
    }
}

/// The two ciphers of an encrypted connection, one for each direction.
pub struct Ciphers {
    pub encrypter: Crypter,
    pub decrypter: Crypter,
}

/// Sets up the ciphers for `shared_secret`: AES-128 in CFB8 mode with the
/// secret as key and as initialisation vector, in two independent contexts.
/// A secret that has not the 16 bytes of such a key gives nothing; of a
/// secret of 16 bytes OpenSSL decides.
pub fn make_ciphers(shared_secret: &[u8]) -> (ciphers: Option<Ciphers>)
    ensures
        shared_secret@.len() != 16 ==> ciphers is None,
{
    if shared_secret.len() != 16 {
        return None;
    }
    let encrypter = match new_cipher(shared_secret, true) {
        Some(cipher) => cipher,
        None => {
            return None;
        },
    };
    let decrypter = match new_cipher(shared_secret, false) {
        Some(cipher) => cipher,
        None => {
            return None;
        },
    };
    Some(Ciphers { encrypter, decrypter })
}

/// Puts `input` through `cipher`. Input too long for OpenSSL to take at
/// once gives nothing and leaves the cipher as it is.
pub fn transform(cipher: &mut Crypter, input: &[u8]) -> (output: Option<Vec<u8>>)
    ensures
        input@.len() > 0x7fff_0000 ==> output is None && *final(cipher) == *old(cipher),
{
    if input.len() > 0x7fff_0000 {
        return None;
    }
    cipher_update(cipher, input)
}

/// Decrypts `data` with the private key of the server. Data too long for
/// OpenSSL to take gives nothing.
pub fn decrypt_with_key(key: &Rsa<Private>, data: &[u8]) -> (plain: Option<Vec<u8>>)
    ensures
        data@.len() > i32::MAX ==> plain is None,
{
    if data.len() > i32::MAX as usize {
        return None;
    }
    rsa_decrypt(key, data)
}

} // verus!
