use rand_distr::{Distribution, Exp};

use symsync::config::{hex_to_key, split_command};
use symsync::envelope::{
    calc_signature_sip, check_signature, encrypt_with, lower_hex, gen_obfuscation, my_decrypt, my_encrypt, name_hash, open, seal, signature,
};
use symsync::{Config, SyncError};

#[test]
fn hello() {
    assert_eq!(2, 2);
}

#[test]
fn hex_key_all_zero() {
    let k = hex_to_key(&"0".repeat(64)).unwrap();
    assert_eq!(k, [0u8; 32]);
}

#[test]
fn hex_key_digits_both_cases() {
    let s = format!("00ff10Aa{}", "0".repeat(56));
    let k = hex_to_key(&s).unwrap();
    assert_eq!(&k[..4], &[0x00, 0xff, 0x10, 0xaa]);
}

#[test]
fn hex_key_rejects_bad_length_and_digits() {
    assert_eq!(hex_to_key(&"0".repeat(62)), Err(SyncError::BadKey));
    assert_eq!(hex_to_key(&"0".repeat(66)), Err(SyncError::BadKey));
    assert_eq!(hex_to_key(&format!("g{}", "0".repeat(63))), Err(SyncError::BadKey));
}

#[test]
fn config_load_decodes_key() {
    let c = Config::load("01".repeat(32), "/tmp/g".to_string(), "push x".to_string(), "pull y".to_string()).unwrap();
    assert_eq!(c.key, [1u8; 32]);
    assert_eq!(c.gpath, "/tmp/g");
    assert!(Config::load("xyz".to_string(), String::new(), String::new(), String::new()).is_err());
}

#[test]
fn split_command_on_first_space() {
    assert_eq!(split_command("rsync -a . host:dir"), ("rsync".to_string(), "-a . host:dir".to_string()));
    assert_eq!(split_command("sync.sh"), ("sync.sh".to_string(), String::new()));
    assert_eq!(split_command("a "), ("a".to_string(), String::new()));
}

#[test]
fn obfuscation_suffix_layout() {
    assert_eq!(gen_obfuscation(0).unwrap(), vec![0, 0, 3]);
    let v = gen_obfuscation(300).unwrap();
    assert_eq!(v.len(), 303);
    assert!(v[..300].iter().all(|b| *b == 0));
    assert_eq!(&v[300..], &[0, 1, 47]);
    assert_eq!(gen_obfuscation(0xff_ffff), Err(SyncError::PaddingTooLong));
    assert!(gen_obfuscation(0xff_fffc).is_ok());
}

#[test]
fn encrypt_decrypt_round_trip() {
    let key = [7u8; 32];
    let msg = b"some plaintext".to_vec();
    let (c, iv) = my_encrypt(&msg, &key, 25).unwrap();
    assert!(c.len() >= msg.len() + 25 + 3);
    assert_eq!(c.len() % 16, 0);
    assert_eq!(my_decrypt(&c, &key, &iv).unwrap(), msg);
}

#[test]
fn encryption_is_deterministic_given_iv_and_draw() {
    let key = [1u8; 32];
    let iv = [2u8; 16];
    let a = encrypt_with(b"abc", &key, &iv, 10).unwrap();
    let b = encrypt_with(b"abc", &key, &iv, 10).unwrap();
    assert_eq!(a, b);
    assert_ne!(&a[..3], b"abc");
    assert_ne!(encrypt_with(b"abc", &[9u8; 32], &iv, 10).unwrap(), a);
    let c = encrypt_with(b"abc", &key, &iv, 100).unwrap();
    assert!(c.len() > a.len());
    assert_eq!(encrypt_with(b"abc", &key, &iv, 0xff_fffd), Err(SyncError::PaddingTooLong));
}

#[test]
fn sealed_blob_carries_iv_at_the_end() {
    let key = [0u8; 32];
    let msg = b"hello".to_vec();
    let (blob, iv) = seal(&msg, &key, 0).unwrap();
    assert!(blob.len() >= msg.len() + 3 + 16);
    assert_eq!(&blob[blob.len() - 16..], &iv[..]);
    assert_eq!(open(&blob, &key).unwrap(), msg);
}

#[test]
fn round_trip_of_empty_plaintext() {
    let key = [9u8; 32];
    let (blob, _) = seal(&[], &key, 5).unwrap();
    assert_eq!(open(&blob, &key).unwrap(), Vec::<u8>::new());
}

#[test]
fn open_rejects_short_blob() {
    assert_eq!(open(&[1, 2, 3], &[0u8; 32]), Err(SyncError::Malformed));
}

#[test]
fn open_with_wrong_key_does_not_give_plaintext() {
    let (blob, _) = seal(b"secret data", &[0u8; 32], 3).unwrap();
    match open(&blob, &[1u8; 32]) {
        Ok(m) => assert_ne!(m, b"secret data".to_vec()),
        Err(e) => assert!(e == SyncError::Crypto || e == SyncError::Malformed),
    }
}

#[test]
fn name_hash_is_deterministic_and_keyed() {
    let h1 = [3u8; 32];
    let h2 = [4u8; 32];
    let a = name_hash("sub/b.txt", &h1);
    assert_eq!(a, name_hash("sub/b.txt", &h1));
    assert_ne!(a, name_hash("sub/b.txt", &h2));
    assert_ne!(a, name_hash("sub/c.txt", &h1));
    assert!(!a.is_empty() && a.len() <= 16);
    assert!(a.chars().all(|c| c.is_ascii_digit() || ('a'..='f').contains(&c)));
    assert!(a.len() == 1 || !a.starts_with('0'));
}

#[test]
fn signature_check_detects_changes() {
    let h = [5u8; 32];
    let sig = signature(b"content", &h);
    assert_eq!(check_signature(&sig, b"content", &h), Ok(()));
    assert_eq!(check_signature(&sig, b"contenT", &h), Err(SyncError::SignatureMismatch));
    assert_eq!(check_signature(&sig, b"content", &[6u8; 32]), Err(SyncError::SignatureMismatch));
}

#[test]
fn length_obfuscation_varies_and_round_trips() {
    let key = [0u8; 32];
    let msg = b"0123456789".to_vec();
    let exp = Exp::new(0.005).unwrap();
    let mut rng = rand::thread_rng();
    let mut lengths = std::collections::BTreeSet::new();
    for _ in 0..100 {
        let extra = exp.sample(&mut rng) as usize;
        let (blob, _) = seal(&msg, &key, extra).unwrap();
        assert!(blob.len() >= msg.len() + 3 + 16);
        lengths.insert(blob.len());
        assert_eq!(open(&blob, &key).unwrap(), msg);
    }
    // CBC output comes in 16-byte blocks, so distinct lengths are block counts.
    assert!(lengths.len() >= 10);
}

#[test]
fn lower_hex_exact_values() {
    assert_eq!(lower_hex(0), "0");
    assert_eq!(lower_hex(255), "ff");
    assert_eq!(lower_hex(0x1a2b), "1a2b");
    assert_eq!(lower_hex(u64::MAX), "ffffffffffffffff");
}

#[test]
fn signature_is_hex_of_keyed_hash() {
    let h = [8u8; 32];
    assert_eq!(signature(b"abc", &h), lower_hex(calc_signature_sip(b"abc", &h)));
    let mut h2 = h;
    h2[31] = 9;
    assert_ne!(calc_signature_sip(b"abc", &h), calc_signature_sip(b"abc", &h2));
    h2 = h;
    h2[0] = 9;
    assert_ne!(calc_signature_sip(b"abc", &h), calc_signature_sip(b"abc", &h2));
}

#[test]
fn decrypt_rejects_partial_block() {
    assert_eq!(my_decrypt(&[1u8; 15], &[0u8; 32], &[0u8; 16]), Err(SyncError::Crypto));
}
