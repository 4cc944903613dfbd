use vstd::prelude::*;
use siphasher::sip::SipHasher24;
use openssl::error::ErrorStack;
use openssl::symm::Cipher;
use vstd::utf8::encode_utf8;
use vstd::slice::slice_subrange;
use crate::error::SyncError;

verus! {

/// Length of the master key and of the name-hash key, in bytes.
pub const L_KEY: usize = 32;
/// Length of an AES initialisation vector, in bytes.
pub const L_IV: usize = 16;

#[verifier::external_type_specification]
#[verifier::external_body]
pub struct ExErrorStack(ErrorStack);

/// The lowercase hexadecimal digit for `d < 16`.
pub open spec fn hex_digit(d: nat) -> char {
    if d < 10 { (('0' as u8) + d) as char } else { (('a' as u8) + (d - 10)) as char }
}

/// `v` in lowercase hexadecimal, without leading zeros ("0" for zero).
pub open spec fn hex_digits(v: nat) -> Seq<char>
    decreases v,
{
    if v < 16 {
        seq![hex_digit(v)]
    } else {
        hex_digits(v / 16).push(hex_digit(v % 16))
    }
}

/// The one-character string of the hexadecimal digit `d`.
fn digit_str(d: u64) -> (r: &'static str)
    requires
        d < 16,
    ensures
        r@ == seq![hex_digit(d as nat)],
{
    proof {
        reveal_strlit("0"); reveal_strlit("1"); reveal_strlit("2"); reveal_strlit("3");
        reveal_strlit("4"); reveal_strlit("5"); reveal_strlit("6"); reveal_strlit("7");
        reveal_strlit("8"); reveal_strlit("9"); reveal_strlit("a"); reveal_strlit("b");
        reveal_strlit("c"); reveal_strlit("d"); reveal_strlit("e"); reveal_strlit("f");
    }
    let r = match d {
        0 => "0", 1 => "1", 2 => "2", 3 => "3", 4 => "4", 5 => "5", 6 => "6", 7 => "7",
        8 => "8", 9 => "9", 10 => "a", 11 => "b", 12 => "c", 13 => "d", 14 => "e", _ => "f",
    };
    assert(r@ =~= seq![hex_digit(d as nat)]);
    r
}

/// `v` in lowercase hexadecimal, without leading zeros.
pub fn lower_hex(v: u64) -> (r: String)
    ensures
        r@ == hex_digits(v as nat),
    decreases v,
{
    if v < 16 {
        String::from_str(digit_str(v))
    } else {
        let mut s = lower_hex(v / 16);
        s.append(digit_str(v % 16));
        s
    }
}

/// What siphasher's SipHash-2-4 gives for the 16-byte key `key` over `data`.
pub uninterp spec fn sip24_of(key: Seq<u8>, data: Seq<u8>) -> u64;

/// Relies on `siphasher::sip::SipHasher24::new_with_key(key).hash(data)`:
/// SipHash-2-4, a fixed algorithm that reads its key and input as
/// little-endian words, so the result depends on the bytes alone.
#[verifier::external_body]
fn sip24(key: &[u8; 16], data: &[u8]) -> (r: u64)
    ensures
        r == sip24_of(key@, data@),
{
    SipHasher24::new_with_key(key).hash(data)
}

/// The keyed 64-bit hash under a 32-byte key: SipHash-2-4 keyed with the
/// first 16 bytes, over the last 16 bytes followed by the message.
pub open spec fn keyed_hash_of(message: Seq<u8>, key: Seq<u8>) -> u64 {
    sip24_of(key.subrange(0, 16), key.subrange(16, 32) + message)
}

/// Inputs to the cipher must fit openssl's `c_int` length.
pub const MAX_CIPHER_INPUT: usize = 0x7fff_ffff;

/// The bytes that openssl's AES-256-CBC (PKCS#7 padding) makes of `plain`
/// under `key` and `iv`.
pub uninterp spec fn cbc_encrypt_of(key: Seq<u8>, iv: Seq<u8>, plain: Seq<u8>) -> Seq<u8>;

/// What openssl's AES-256-CBC decryption (PKCS#7 padding) makes of `data`
/// under `key` and `iv`; `None` where it reports an error.
pub uninterp spec fn cbc_decrypt_of(key: Seq<u8>, iv: Seq<u8>, data: Seq<u8>) -> Option<Seq<u8>>;

/// Relies on `openssl::symm::encrypt` with `Cipher::aes_256_cbc()`: when it
/// succeeds, padding being enabled, the output is whole 16-byte blocks, one to
/// sixteen bytes longer than the input. It may fail, as openssl reports. The input length must fit a `c_int` (openssl unwraps that
/// conversion).
#[verifier::external_body]
fn aes_encrypt(key: &[u8; L_KEY], iv: &[u8; L_IV], data: &[u8]) -> (r: Result<Vec<u8>, ErrorStack>)
    requires
        data@.len() <= MAX_CIPHER_INPUT,
    ensures
        r is Ok ==> r->Ok_0@ == cbc_encrypt_of(key@, iv@, data@),
        r is Ok ==> data@.len() < r->Ok_0@.len() <= data@.len() + 16,
        r is Ok ==> r->Ok_0@.len() % 16 == 0,
{
    openssl::symm::encrypt(Cipher::aes_256_cbc(), &key[..], Some(&iv[..]), data)
}

/// Relies on `openssl::symm::decrypt` with `Cipher::aes_256_cbc()`: when it
/// succeeds, its output is a function of its arguments, and on what `encrypt`
/// made of `plain` under the same key and IV that output is `plain`. The input length must fit a
/// `c_int` (openssl unwraps that conversion).
#[verifier::external_body]
fn aes_decrypt(key: &[u8; L_KEY], iv: &[u8; L_IV], data: &[u8]) -> (r: Result<Vec<u8>, ErrorStack>)
    requires
        data@.len() <= MAX_CIPHER_INPUT,
    ensures
        r is Ok ==> cbc_decrypt_of(key@, iv@, data@) == Some(r->Ok_0@),
        cbc_decrypt_of(key@, iv@, data@) is None ==> r is Err,
        forall|plain: Seq<u8>|
            data@ == #[trigger] cbc_encrypt_of(key@, iv@, plain) && r is Ok ==> r->Ok_0@ == plain,
{
    openssl::symm::decrypt(Cipher::aes_256_cbc(), &key[..], Some(&iv[..]), data)
}

/// Relies on `openssl::rand::rand_bytes`: fills the buffer with random bytes.
#[verifier::external_body]
fn random_array<const N: usize>() -> (r: Result<[u8; N], ErrorStack>)
    requires
        N <= 0x7fff_ffff,
{
    let mut buf = [0u8; N];
    openssl::rand::rand_bytes(&mut buf)?;
    Ok(buf)
}

/// A fresh random initialisation vector.
pub fn gen_iv() -> (r: Result<[u8; L_IV], SyncError>)
    ensures
        r is Err ==> r->Err_0 == SyncError::Crypto,
{
    match random_array::<L_IV>() {
        Ok(iv) => Ok(iv),
        Err(_) => Err(SyncError::Crypto),
    }
}

/// A fresh random name-hash key.
pub fn gen_key() -> (r: Result<[u8; L_KEY], SyncError>)
    ensures
        r is Err ==> r->Err_0 == SyncError::Crypto,
{
    match random_array::<L_KEY>() {
        Ok(k) => Ok(k),
        Err(_) => Err(SyncError::Crypto),
    }
}

/// Suffix lengths must fit the 24-bit length field.
pub const MAX_SUFFIX: usize = 0xff_ffff;

/// The length-obfuscation suffix of length `l`: zeros, then `l` in three
/// big-endian bytes.
pub open spec fn suffix(l: nat) -> Seq<u8>
    recommends
        3 <= l <= MAX_SUFFIX,
{
    Seq::new((l - 3) as nat, |i: int| 0u8) + seq![(l / 0x10000) as u8, ((l / 0x100) % 0x100) as u8, (l % 0x100) as u8]
}

/// The message with the suffix for the draw `extra` appended (length `extra + 3`).
pub open spec fn padded(message: Seq<u8>, extra: nat) -> Seq<u8> {
    message + suffix(extra + 3)
}

/// The length that the last three bytes of `m` encode.
pub open spec fn trailing_len(m: Seq<u8>) -> nat
    recommends
        m.len() >= 3,
{
    (m[m.len() - 3] as nat) * 0x10000 + (m[m.len() - 2] as nat) * 0x100 + (m[m.len() - 1] as nat)
}

/// The message with its suffix taken off, if the length field covers at
/// least itself and at most the whole message.
pub open spec fn unpad(m: Seq<u8>) -> Option<Seq<u8>> {
    if m.len() >= 3 && 3 <= trailing_len(m) <= m.len() {
        Some(m.subrange(0, m.len() - trailing_len(m)))
    } else {
        None
    }
}

/// Taking the suffix off a padded message gives the message back.
pub proof fn lemma_unpad_padded(message: Seq<u8>, extra: nat)
    requires
        extra + 3 <= MAX_SUFFIX,
    ensures
        unpad(padded(message, extra)) == Some(message),
{
    let l = extra + 3;
    let m = padded(message, extra);
    assert(m.len() == message.len() + l);
    assert(m[m.len() - 3] == (l / 0x10000) as u8);
    assert(m[m.len() - 2] == ((l / 0x100) % 0x100) as u8);
    assert(m[m.len() - 1] == (l % 0x100) as u8);
    assert(trailing_len(m) == l) by (nonlinear_arith)
        requires
            l <= 0xff_ffff,
            trailing_len(m) == ((l / 0x10000) as u8 as nat) * 0x10000 + (((l / 0x100) % 0x100) as u8 as nat) * 0x100 + ((l % 0x100) as u8 as nat),
    {
    }
    assert(m.subrange(0, message.len() as int) =~= message);
}

/// The length-obfuscation suffix for the exponential draw `extra`.
pub fn gen_obfuscation(extra: usize) -> (r: Result<Vec<u8>, SyncError>)
    ensures
        r is Ok <==> extra + 3 <= MAX_SUFFIX,
        r is Ok ==> r->Ok_0@ == suffix(extra as nat + 3),
        r is Err ==> r->Err_0 == SyncError::PaddingTooLong,
{
    if extra > MAX_SUFFIX - 3 {
        return Err(SyncError::PaddingTooLong);
    }
    let l: usize = extra + 3;
    let mut v: Vec<u8> = vec![0u8; l - 3];
    v.push((l / 0x10000) as u8);
    v.push(((l / 0x100) % 0x100) as u8);
    v.push((l % 0x100) as u8);
    assert(v@ =~= suffix(l as nat));
    Ok(v)
}


/// The ciphertext of `message` padded with the suffix for `extra`.
pub open spec fn encrypted(message: Seq<u8>, key: Seq<u8>, iv: Seq<u8>, extra: nat) -> Seq<u8> {
    cbc_encrypt_of(key, iv, padded(message, extra))
}

/// The on-disk envelope: the ciphertext followed by the IV.
pub open spec fn sealed(message: Seq<u8>, key: Seq<u8>, iv: Seq<u8>, extra: nat) -> Seq<u8> {
    encrypted(message, key, iv, extra) + iv
}

/// A message of `len` bytes with a suffix for the draw `extra` encrypts to a
/// ciphertext that the cipher still takes back.
pub open spec fn fits(len: nat, extra: nat) -> bool {
    len + extra + 3 + 16 <= MAX_CIPHER_INPUT
}

/// What decrypting `ciphertext` and taking the suffix off gives, if both succeed.
pub open spec fn plain_of(key: Seq<u8>, iv: Seq<u8>, ciphertext: Seq<u8>) -> Option<Seq<u8>> {
    match cbc_decrypt_of(key, iv, ciphertext) {
        Some(m) => unpad(m),
        None => None,
    }
}

/// Encrypts `message` with AES-256-CBC under `key` and `iv`, after appending the
/// length-obfuscation suffix for the draw `extra`.
pub fn encrypt_with(message: &[u8], key: &[u8; L_KEY], iv: &[u8; L_IV], extra: usize) -> (r: Result<Vec<u8>, SyncError>)
    ensures
        extra + 3 > MAX_SUFFIX ==> r == Err::<Vec<u8>, SyncError>(SyncError::PaddingTooLong),
        extra + 3 <= MAX_SUFFIX && !fits(message@.len(), extra as nat)
            ==> r == Err::<Vec<u8>, SyncError>(SyncError::TooLarge),
        extra + 3 <= MAX_SUFFIX && fits(message@.len(), extra as nat) && r is Err
            ==> r->Err_0 == SyncError::Crypto,
        r is Ok ==> r->Ok_0@ == encrypted(message@, key@, iv@, extra as nat),
        r is Ok ==> message@.len() + extra + 4 <= r->Ok_0@.len() <= message@.len() + extra + 3 + 16,
        r is Ok ==> r->Ok_0@.len() % 16 == 0,
{
    let ob = gen_obfuscation(extra)?;
    if message.len() > MAX_CIPHER_INPUT - 16 - ob.len() {
        return Err(SyncError::TooLarge);
    }
    let mut new_message: Vec<u8> = vstd::slice::slice_to_vec(message);
    new_message.extend_from_slice(ob.as_slice());
    assert(new_message@ =~= padded(message@, extra as nat));
    match aes_encrypt(key, iv, new_message.as_slice()) {
        Ok(c) => Ok(c),
        Err(_) => Err(SyncError::Crypto),
    }
}

/// Encrypts `message` under a fresh random IV; returns the ciphertext and the IV.
pub fn my_encrypt(message: &[u8], key: &[u8; L_KEY], extra: usize) -> (r: Result<(Vec<u8>, [u8; L_IV]), SyncError>)
    ensures
        extra + 3 > MAX_SUFFIX ==> r == Err::<(Vec<u8>, [u8; L_IV]), SyncError>(SyncError::PaddingTooLong),
        extra + 3 <= MAX_SUFFIX && !fits(message@.len(), extra as nat)
            ==> r == Err::<(Vec<u8>, [u8; L_IV]), SyncError>(SyncError::TooLarge),
        extra + 3 <= MAX_SUFFIX && fits(message@.len(), extra as nat) && r is Err
            ==> r->Err_0 == SyncError::Crypto,
        r is Ok ==> r->Ok_0.0@ == encrypted(message@, key@, r->Ok_0.1@, extra as nat),
        r is Ok ==> message@.len() + extra + 4 <= r->Ok_0.0@.len() <= message@.len() + extra + 3 + 16,
        r is Ok ==> r->Ok_0.0@.len() % 16 == 0,
{
    if extra > MAX_SUFFIX - 3 {
        return Err(SyncError::PaddingTooLong);
    }
    if message.len() > MAX_CIPHER_INPUT - 16 - 3 - extra {
        return Err(SyncError::TooLarge);
    }
    let iv = gen_iv()?;
    let c = encrypt_with(message, key, &iv, extra)?;
    Ok((c, iv))
}

/// Decrypts with AES-256-CBC and takes the length-obfuscation suffix off.
pub fn my_decrypt(ciphertext: &[u8], key: &[u8; L_KEY], iv: &[u8; L_IV]) -> (r: Result<Vec<u8>, SyncError>)
    ensures
        ciphertext@.len() > MAX_CIPHER_INPUT ==> r == Err::<Vec<u8>, SyncError>(SyncError::TooLarge),
        ciphertext@.len() <= MAX_CIPHER_INPUT ==> {
            &&& r is Ok ==> plain_of(key@, iv@, ciphertext@) == Some(r->Ok_0@)
            &&& plain_of(key@, iv@, ciphertext@) is None ==> r is Err
            &&& cbc_decrypt_of(key@, iv@, ciphertext@) is None ==> r == Err::<Vec<u8>, SyncError>(SyncError::Crypto)
            &&& r == Err::<Vec<u8>, SyncError>(SyncError::Malformed) ==> cbc_decrypt_of(key@, iv@, ciphertext@) is Some
                && plain_of(key@, iv@, ciphertext@) is None
            &&& r is Err ==> r->Err_0 == SyncError::Crypto || r->Err_0 == SyncError::Malformed
        },
        forall|message: Seq<u8>, extra: nat|
            extra + 3 <= MAX_SUFFIX && ciphertext@.len() <= MAX_CIPHER_INPUT
                && ciphertext@ == #[trigger] encrypted(message, key@, iv@, extra)
                ==> (r is Ok ==> r->Ok_0@ == message) && (r is Err ==> r->Err_0 == SyncError::Crypto),
{
    if ciphertext.len() > MAX_CIPHER_INPUT {
        return Err(SyncError::TooLarge);
    }
    let mut message = match aes_decrypt(key, iv, ciphertext) {
        Ok(m) => m,
        Err(_) => return Err(SyncError::Crypto),
    };
    let ghost m0 = message@;
    assert forall|msg: Seq<u8>, extra: nat|
        extra + 3 <= MAX_SUFFIX && ciphertext@ == #[trigger] encrypted(msg, key@, iv@, extra)
            implies unpad(m0) == Some(msg) by {
        lemma_unpad_padded(msg, extra);
    }
    let l = message.len();
    if l < 3 {
        return Err(SyncError::Malformed);
    }
    let oblen: usize = (message[l - 3] as usize) * 0x10000 + (message[l - 2] as usize) * 0x100 + (message[l - 1] as usize);
    assert(oblen == trailing_len(m0));
    if oblen < 3 || oblen > l {
        return Err(SyncError::Malformed);
    }
    message.truncate(l - oblen);
    assert(unpad(m0) == Some(message@));
    Ok(message)
}

/// Copies the last `L_IV` bytes of `blob`.
fn trailing_iv(blob: &[u8]) -> (r: [u8; L_IV])
    requires
        blob@.len() >= L_IV,
    ensures
        r@ == blob@.subrange(blob@.len() - L_IV, blob@.len() as int),
{
    let l = blob.len();
    let start = l - L_IV;
    let mut iv: [u8; L_IV] = [0u8; L_IV];
    let mut i: usize = 0;
    while i < L_IV
        invariant
            start + L_IV == l,
            l == blob@.len(),
            i <= L_IV,
            iv@.len() == L_IV,
            forall|j: int| 0 <= j < i ==> iv@[j] == blob@[start + j],
        decreases L_IV - i,
    {
        iv[i] = blob[start + i];
        i = i + 1;
    }
    assert(iv@ =~= blob@.subrange(blob@.len() - L_IV, blob@.len() as int));
    iv
}

/// Encrypts `message` under a fresh IV and lays it out as a blob: the
/// ciphertext followed by the IV. Returns the blob and the IV.
pub fn seal(message: &[u8], key: &[u8; L_KEY], extra: usize) -> (r: Result<(Vec<u8>, [u8; L_IV]), SyncError>)
    ensures
        extra + 3 > MAX_SUFFIX ==> r == Err::<(Vec<u8>, [u8; L_IV]), SyncError>(SyncError::PaddingTooLong),
        extra + 3 <= MAX_SUFFIX && !fits(message@.len(), extra as nat)
            ==> r == Err::<(Vec<u8>, [u8; L_IV]), SyncError>(SyncError::TooLarge),
        extra + 3 <= MAX_SUFFIX && fits(message@.len(), extra as nat) && r is Err
            ==> r->Err_0 == SyncError::Crypto,
        r is Ok ==> r->Ok_0.0@ == sealed(message@, key@, r->Ok_0.1@, extra as nat),
        r is Ok ==> message@.len() + extra + 3 + L_IV + 1 <= r->Ok_0.0@.len() <= message@.len() + extra + 3 + 16 + L_IV,
        r is Ok ==> r->Ok_0.0@.len() % 16 == 0,
{
    let (mut c, iv) = my_encrypt(message, key, extra)?;
    c.extend_from_slice(iv.as_slice());
    Ok((c, iv))
}

/// The IV that a blob ends with.
pub open spec fn iv_of(blob: Seq<u8>) -> Seq<u8> {
    blob.subrange(blob.len() - L_IV, blob.len() as int)
}

/// The ciphertext that a blob begins with.
pub open spec fn ciphertext_of(blob: Seq<u8>) -> Seq<u8> {
    blob.subrange(0, blob.len() - L_IV)
}

/// Opens a blob made by `seal`: splits off the trailing IV and decrypts.
pub fn open(blob: &[u8], key: &[u8; L_KEY]) -> (r: Result<Vec<u8>, SyncError>)
    ensures
        blob@.len() < L_IV ==> r == Err::<Vec<u8>, SyncError>(SyncError::Malformed),
        blob@.len() > MAX_CIPHER_INPUT + L_IV ==> r == Err::<Vec<u8>, SyncError>(SyncError::TooLarge),
        L_IV <= blob@.len() <= MAX_CIPHER_INPUT + L_IV ==> {
            let p = plain_of(key@, iv_of(blob@), ciphertext_of(blob@));
            let d = cbc_decrypt_of(key@, iv_of(blob@), ciphertext_of(blob@));
            &&& r is Ok ==> p == Some(r->Ok_0@)
            &&& p is None ==> r is Err
            &&& d is None ==> r == Err::<Vec<u8>, SyncError>(SyncError::Crypto)
            &&& r == Err::<Vec<u8>, SyncError>(SyncError::Malformed) ==> d is Some && p is None
            &&& r is Err ==> r->Err_0 == SyncError::Crypto || r->Err_0 == SyncError::Malformed
        },
        forall|message: Seq<u8>, iv: Seq<u8>, extra: nat|
            iv.len() == L_IV && extra + 3 <= MAX_SUFFIX && blob@.len() <= MAX_CIPHER_INPUT + L_IV
                && blob@ == #[trigger] sealed(message, key@, iv, extra)
                ==> (r is Ok ==> r->Ok_0@ == message) && (r is Err ==> r->Err_0 == SyncError::Crypto),
{
    let l = blob.len();
    if l < L_IV {
        return Err(SyncError::Malformed);
    }
    if l - L_IV > MAX_CIPHER_INPUT {
        return Err(SyncError::TooLarge);
    }
    let iv = trailing_iv(blob);
    let ciphertext = slice_subrange(blob, 0, l - L_IV);
    let r = my_decrypt(ciphertext, key, &iv);
    assert(iv@ == iv_of(blob@));
    assert(ciphertext@ =~= ciphertext_of(blob@));
    assert forall|message: Seq<u8>, iv2: Seq<u8>, extra: nat|
        iv2.len() == L_IV && extra + 3 <= MAX_SUFFIX && blob@.len() <= MAX_CIPHER_INPUT + L_IV
            && blob@ == #[trigger] sealed(message, key@, iv2, extra)
            implies (r is Ok ==> r->Ok_0@ == message) && (r is Err ==> r->Err_0 == SyncError::Crypto) by {
        let e = encrypted(message, key@, iv2, extra);
        assert(blob@.subrange(0, e.len() as int) =~= e);
        assert(blob@.subrange(e.len() as int, blob@.len() as int) =~= iv2);
        assert(iv@ =~= iv2);
        assert(ciphertext@ =~= e);
    }
    r
}

/// The name hash is a function of the path and the key alone: equal inputs
/// give equal blob names.
pub proof fn lemma_name_hash_deterministic(p1: Seq<char>, h1: Seq<u8>, p2: Seq<char>, h2: Seq<u8>)
    requires
        p1 == p2,
        h1 == h2,
    ensures
        name_hash_of(p1, h1) == name_hash_of(p2, h2),
{
}

/// The signature of some bytes under the name-hash key: the keyed hash in hex.
pub open spec fn signature_of(message: Seq<u8>, key: Seq<u8>) -> Seq<char> {
    hex_digits(keyed_hash_of(message, key) as nat)
}

/// The name hash of a logical path: the signature of its UTF-8 bytes.
pub open spec fn name_hash_of(name: Seq<char>, key: Seq<u8>) -> Seq<char> {
    signature_of(encode_utf8(name), key)
}

/// The keyed 64-bit hash of `message` under `key`.
pub fn calc_signature_sip(message: &[u8], key: &[u8; L_KEY]) -> (r: u64)
    ensures
        r == keyed_hash_of(message@, key@),
{
    let mut k0: [u8; 16] = [0u8; 16];
    let mut i: usize = 0;
    while i < 16
        invariant
            i <= 16,
            k0@.len() == 16,
            key@.len() == L_KEY,
            forall|j: int| 0 <= j < i ==> k0@[j] == key@[j],
        decreases 16 - i,
    {
        k0[i] = key[i];
        i = i + 1;
    }
    let mut data: Vec<u8> = vstd::slice::slice_to_vec(slice_subrange(key.as_slice(), 16, L_KEY));
    data.extend_from_slice(message);
    assert(k0@ =~= key@.subrange(0, 16));
    assert(data@ =~= key@.subrange(16, 32) + message@);
    sip24(&k0, data.as_slice())
}

/// The signature of `message` under `key`, in lowercase hex.
pub fn signature(message: &[u8], key: &[u8; L_KEY]) -> (r: String)
    ensures
        r@ == signature_of(message@, key@),
{
    lower_hex(calc_signature_sip(message, key))
}

/// The opaque blob name of the logical path `name` under `key`.
pub fn name_hash(name: &str, key: &[u8; L_KEY]) -> (r: String)
    ensures
        r@ == name_hash_of(name@, key@),
{
    signature(name.as_bytes(), key)
}

/// Checks `message` against the recorded `sig`.
pub fn check_signature(sig: &str, message: &[u8], key: &[u8; L_KEY]) -> (r: Result<(), SyncError>)
    ensures
        r is Ok <==> sig@ == signature_of(message@, key@),
        r is Err ==> r->Err_0 == SyncError::SignatureMismatch,
{
    let s = signature(message, key);
    if str_eq(sig, s.as_str()) {
        Ok(())
    } else {
        Err(SyncError::SignatureMismatch)
    }
}

/// Character-wise equality of two strings.
pub fn str_eq(a: &str, b: &str) -> (r: bool)
    ensures
        r == (a@ == b@),
{
    let la = a.unicode_len();
    let lb = b.unicode_len();
    if la != lb {
        return false;
    }
    let mut i: usize = 0;
    while i < la
        invariant
            la == a@.len(),
            lb == b@.len(),
            la == lb,
            i <= la,
            forall|j: int| 0 <= j < i ==> a@[j] == b@[j],
        decreases la - i,
    {
        if a.get_char(i) != b.get_char(i) {
            return false;
        }
        i = i + 1;
    }
    assert(a@ =~= b@);
    true
}

} // verus!
