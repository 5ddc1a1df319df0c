use openssl::symm::{Cipher, Crypter, Mode};
use rustcraft::encryption::{
    compute_server_hash, decrypt_with_key, hexdigest, make_ciphers, transform,
};
use sha1::{Digest, Sha1};

#[test]
fn test_digest1() {
    let mut hasher = Sha1::new();
    hasher.update(b"Notch");
    let hash = hexdigest(hasher.finalize().as_slice());
    assert_eq!(hash, "4ed1f46bbe04bc756bcb17c0c7ce3e4632f06a48");
}

#[test]
fn test_digest2() {
    let mut hasher = Sha1::new();
    hasher.update(b"jeb_");
    let hash = hexdigest(hasher.finalize().as_slice());
    assert_eq!(hash, "-7c9d5b0044c130109a5d7b5fb5c317c02b4e28c1");
}

#[test]
fn test_digest3() {
    let mut hasher = Sha1::new();
    hasher.update(b"simon");
    let hash = hexdigest(hasher.finalize().as_slice());
    assert_eq!(hash, "88e16a1019277b15d58faf0541e11910eb756f6");
}

#[test]
fn hexdigest_of_small_numbers() {
    assert_eq!(hexdigest(&[0x00]), "");
    assert_eq!(hexdigest(&[0x00, 0x00, 0x00]), "");
    assert_eq!(hexdigest(&[0x01]), "1");
    assert_eq!(hexdigest(&[0x00, 0x0a, 0xbc]), "abc");
    assert_eq!(hexdigest(&[0x7f, 0xff]), "7fff");
    assert_eq!(hexdigest(&[0xff]), "-1");
    assert_eq!(hexdigest(&[0x80, 0x00]), "-8000");
    assert_eq!(hexdigest(&[0xff, 0x00]), "-100");
    assert_eq!(hexdigest(&[]), "");
}

#[test]
fn server_hash_is_the_digest_of_secret_and_key() {
    let secret = [7u8; 16];
    let key = [1u8, 2, 3, 4, 5];
    let mut hasher = Sha1::new();
    hasher.update(b"");
    hasher.update(secret);
    hasher.update(key);
    let expected = hexdigest(hasher.finalize().as_slice());
    assert_eq!(compute_server_hash(&key, &secret), expected);
    // the secret goes first: the other order gives another hash
    assert_ne!(compute_server_hash(&secret, &key), expected);
    // "Notch" split between secret and key
    assert_eq!(
        compute_server_hash(b"tch", b"No"),
        "4ed1f46bbe04bc756bcb17c0c7ce3e4632f06a48"
    );
}

#[test]
fn ciphers_are_aes_128_cfb8_with_the_secret_as_key_and_iv() {
    let secret = [0x42u8; 16];
    let mut ciphers = make_ciphers(&secret).unwrap();
    let plain = b"hello, world of blocks".to_vec();
    let sent = transform(&mut ciphers.encrypter, &plain).unwrap();
    assert_eq!(sent.len(), plain.len());
    assert_ne!(sent, plain);

    let mut reference =
        Crypter::new(Cipher::aes_128_cfb8(), Mode::Encrypt, &secret, Some(&secret)).unwrap();
    let mut expected = vec![0u8; plain.len() + 16];
    let count = reference.update(&plain, &mut expected).unwrap();
    expected.truncate(count);
    assert_eq!(sent, expected);

    // the other direction has a context of its own and gives the text back
    let back = transform(&mut ciphers.decrypter, &sent).unwrap();
    assert_eq!(back, plain);

    // the stream goes on where it stopped, byte by byte
    let next = transform(&mut ciphers.encrypter, &[1]).unwrap();
    let mut first = vec![0u8; 17];
    let count = reference.update(&[1], &mut first).unwrap();
    assert_eq!(count, 1);
    assert_eq!(next, &first[..1]);
    assert_eq!(transform(&mut ciphers.decrypter, &next).unwrap(), vec![1]);
}

#[test]
fn ciphers_need_a_key_of_sixteen_bytes() {
    assert!(make_ciphers(&[1, 2, 3]).is_none());
    assert!(make_ciphers(&[]).is_none());
    assert!(make_ciphers(&[0u8; 15]).is_none());
    assert!(make_ciphers(&[0u8; 17]).is_none());
    assert!(make_ciphers(&[0u8; 32]).is_none());
    assert!(make_ciphers(&[0u8; 16]).is_some());
}

#[test]
fn the_key_of_the_server_decrypts_what_its_public_key_encrypted() {
    let key = openssl::rsa::Rsa::generate(1024).unwrap();
    let mut sealed = vec![0u8; key.size() as usize];
    let count = key
        .public_encrypt(b"secret", &mut sealed, openssl::rsa::Padding::PKCS1)
        .unwrap();
    sealed.truncate(count);
    assert_eq!(decrypt_with_key(&key, &sealed), Some(b"secret".to_vec()));
    assert_eq!(decrypt_with_key(&key, &[1, 2, 3]), None);
}
