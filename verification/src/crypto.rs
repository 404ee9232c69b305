//! Session encryption and the login hash. The ciphers, RSA and SHA-1 are
//! OpenSSL's; this module composes them as the protocol asks.
use vstd::prelude::*;
use openssl::pkey::Private;
use openssl::rsa::Rsa;
use openssl::symm::Crypter;
use crate::bytes::{be_value, pow256};
use crate::encoding::append_slice;
use crate::error::IoError;

verus! {

/// OpenSSL's cipher context.
#[verifier::external_type_specification]
#[verifier::external_body]
pub struct ExCrypter(Crypter);

/// OpenSSL's RSA key.
#[verifier::external_type_specification]
#[verifier::external_body]
#[verifier::reject_recursive_types(T)]
pub struct ExRsa<T>(Rsa<T>);

/// The marker of a key with private components.
#[verifier::external_type_specification]
#[verifier::external_body]
pub struct ExPrivate(Private);

/// openssl's `Crypter::new` for AES-128 in CFB8 mode, encrypting where
/// `ENCRYPT` holds and decrypting otherwise, with `key` as both key and
/// initialisation vector, then `pad(false)`. Nothing is stated of the context
/// it gives; a failure of OpenSSL is mapped to `Other`, as the body shows.
#[verifier::external_body]
fn new_cfb8_crypter<const ENCRYPT: bool>(key: &[u8; 16]) -> (r: Result<Crypter, IoError>)
    ensures
        r matches Err(e) ==> e == IoError::Other,
{
    let mode = if ENCRYPT { openssl::symm::Mode::Encrypt } else { openssl::symm::Mode::Decrypt };
    let mut crypter = Crypter::new(openssl::symm::Cipher::aes_128_cfb8(), mode, key, Some(key))
        .map_err(|_| IoError::Other)?;
    crypter.pad(false);
    Ok(crypter)
}

/// AES-128 in CFB8 mode under `key`, which is also the initialisation
/// vector: the ciphertext of the byte stream `plain`.
pub uninterp spec fn aes128_cfb8_encrypted(key: Seq<u8>, plain: Seq<u8>) -> Seq<u8>;

/// AES-128 in CFB8 mode under `key`, which is also the initialisation
/// vector: the plaintext of the byte stream `cipher`.
pub uninterp spec fn aes128_cfb8_decrypted(key: Seq<u8>, cipher: Seq<u8>) -> Seq<u8>;

/// The transformation of the whole byte stream `s` in the given direction.
pub open spec fn cfb8_stream(key: Seq<u8>, encrypt: bool, s: Seq<u8>) -> Seq<u8> {
    if encrypt {
        aes128_cfb8_encrypted(key, s)
    } else {
        aes128_cfb8_decrypted(key, s)
    }
}

/// What a CFB8 context in the given direction gives for `input`, having been
/// fed `fed` before: the part of the whole stream's transformation that
/// belongs to `input`.
pub open spec fn cfb8_output(key: Seq<u8>, encrypt: bool, fed: Seq<u8>, input: Seq<u8>) -> Seq<u8> {
    cfb8_stream(key, encrypt, fed + input).skip(fed.len() as int)
}

/// An AES-128-CFB8 context of one direction, with the key it was made with
/// and every byte it has been fed. Only `new` makes one, from a context that
/// `new_cfb8_crypter` made in the same direction with the same key, and only
/// `cfb8_update` feeds it.
struct Cfb8Stream<const ENCRYPT: bool> {
    crypter: Crypter,
    key: Ghost<Seq<u8>>,
    fed: Ghost<Seq<u8>>,
}

impl<const ENCRYPT: bool> Cfb8Stream<ENCRYPT> {
    /// A context with `key` as key and initialisation vector, fed nothing yet.
    fn new(key: &[u8; 16]) -> (r: Result<Self, IoError>)
        ensures
            r matches Ok(c) ==> c.key@ == key@ && c.fed@ == Seq::<u8>::empty(),
            r matches Err(e) ==> e == IoError::Other,
    {
        match new_cfb8_crypter::<ENCRYPT>(key) {
            Ok(crypter) => Ok(Cfb8Stream { crypter, key: Ghost(key@), fed: Ghost(Seq::empty()) }),
            Err(e) => Err(e),
        }
    }
}

/// openssl's `Crypter::update` on the context of `stream`, into a buffer of
/// the input's length plus 16, cut to the count it reports. CFB8 is a
/// byte-stream mode (OpenSSL gives it a block size of one), so each call
/// turns every byte it is given into one byte, and what it gives is the part
/// of the whole stream's transformation that belongs to the input: the
/// contract states this over the two names above and the ghost record of
/// what the context was fed, which the call extends by the input. Of the
/// mode it also states that a prefix of the stream is transformed as it was
/// alone, and that decryption inverts encryption under the same key. A
/// failure of OpenSSL is mapped to `Other`; what the context was fed is then
/// left unsaid. `update` panics on inputs longer than `i32::MAX`, which the
/// `requires` rules out.
#[verifier::external_body]
fn cfb8_update<const ENCRYPT: bool>(stream: &mut Cfb8Stream<ENCRYPT>, input: &[u8]) -> (r: Result<Vec<u8>, IoError>)
    requires
        input@.len() <= i32::MAX,
    ensures
        final(stream).key@ == old(stream).key@,
        r matches Ok(v) ==> v@ == cfb8_output(old(stream).key@, ENCRYPT, old(stream).fed@, input@)
            && v@.len() == input@.len() && final(stream).fed@ == old(stream).fed@ + input@
            && cfb8_stream(old(stream).key@, ENCRYPT, old(stream).fed@ + input@).len() == old(stream).fed@.len() + input@.len(),
        r matches Ok(v) && ENCRYPT ==> aes128_cfb8_encrypted(old(stream).key@, old(stream).fed@ + input@).take(
            old(stream).fed@.len() as int,
        ) == aes128_cfb8_encrypted(old(stream).key@, old(stream).fed@),
        r matches Ok(v) && !ENCRYPT ==> forall|p: Seq<u8>|
            aes128_cfb8_encrypted(old(stream).key@, p) == old(stream).fed@ + input@ ==> #[trigger] aes128_cfb8_decrypted(
                old(stream).key@,
                old(stream).fed@ + input@,
            ) == p,
        r matches Err(e) ==> e == IoError::Other,
{
    let mut output = vec![0u8; input.len() + 16];
    let n = stream.crypter.update(input, &mut output).map_err(|_| IoError::Other)?;
    output.truncate(n);
    Ok(output)
}

/// The AES-128-CFB8 encryptor of one direction of a session.
pub struct Cfb8Encryptor {
    stream: Cfb8Stream<true>,
}

impl Cfb8Encryptor {
    /// An encryptor with the given 16-byte key, which is also the
    /// initialisation vector, as the protocol requires.
    pub fn new(key: &[u8; 16]) -> (r: Result<Self, IoError>)
        ensures
            r matches Ok(c) ==> c.spec_key() == key@ && c.spec_fed() == Seq::<u8>::empty(),
            r matches Err(e) ==> e == IoError::Other,
    {
        match Cfb8Stream::<true>::new(key) {
            Ok(stream) => Ok(Cfb8Encryptor { stream }),
            Err(e) => Err(e),
        }
    }

    /// The key (and initialisation vector) that the cipher was made with.
    pub closed spec fn spec_key(&self) -> Seq<u8> {
        self.stream.key@
    }

    /// The plaintext encrypted so far.
    pub closed spec fn spec_fed(&self) -> Seq<u8> {
        self.stream.fed@
    }

    /// `after` is `before` once it encrypted `plaintext` into `out`: the part
    /// of the ciphertext of everything encrypted so far that belongs to
    /// `plaintext`, one byte for each of its bytes; the ciphertext so far is
    /// what it was, followed by `out`.
    pub open spec fn encrypts(before: Cfb8Encryptor, after: Cfb8Encryptor, plaintext: Seq<u8>, out: Seq<u8>) -> bool {
        let key = before.spec_key();
        &&& after.spec_key() == key
        &&& out == cfb8_output(key, true, before.spec_fed(), plaintext)
        &&& out.len() == plaintext.len()
        &&& after.spec_fed() == before.spec_fed() + plaintext
        &&& aes128_cfb8_encrypted(key, after.spec_fed()) == aes128_cfb8_encrypted(key, before.spec_fed()) + out
        &&& aes128_cfb8_encrypted(key, after.spec_fed()).len() == after.spec_fed().len()
    }

    /// Encrypts `plaintext`, continuing the stream (see `encrypts`).
    pub fn encrypt(&mut self, plaintext: &[u8]) -> (r: Result<Vec<u8>, IoError>)
        requires
            plaintext@.len() <= i32::MAX,
        ensures
            final(self).spec_key() == old(self).spec_key(),
            r matches Ok(v) ==> Cfb8Encryptor::encrypts(*old(self), *final(self), plaintext@, v@),
            r matches Err(e) ==> e == IoError::Other,
    {
        let r = cfb8_update(&mut self.stream, plaintext);
        proof {
            if r is Ok {
                let all = aes128_cfb8_encrypted(old(self).stream.key@, old(self).stream.fed@ + plaintext@);
                let n = old(self).stream.fed@.len() as int;
                assert(all =~= all.take(n) + all.skip(n));
            }
        }
        r
    }
}

/// The AES-128-CFB8 decryptor of one direction of a session.
pub struct Cfb8Decryptor {
    stream: Cfb8Stream<false>,
}

impl Cfb8Decryptor {
    /// A decryptor with the given 16-byte key, which is also the
    /// initialisation vector, as the protocol requires.
    pub fn new(key: &[u8; 16]) -> (r: Result<Self, IoError>)
        ensures
            r matches Ok(c) ==> c.spec_key() == key@ && c.spec_fed() == Seq::<u8>::empty(),
            r matches Err(e) ==> e == IoError::Other,
    {
        match Cfb8Stream::<false>::new(key) {
            Ok(stream) => Ok(Cfb8Decryptor { stream }),
            Err(e) => Err(e),
        }
    }

    /// The key (and initialisation vector) that the cipher was made with.
    pub closed spec fn spec_key(&self) -> Seq<u8> {
        self.stream.key@
    }

    /// The ciphertext decrypted so far.
    pub closed spec fn spec_fed(&self) -> Seq<u8> {
        self.stream.fed@
    }

    /// `after` is `before` once it decrypted `ciphertext` into `out`: the
    /// part of the plaintext of everything decrypted so far that belongs to
    /// `ciphertext`, one byte for each of its bytes. Where everything
    /// decrypted so far is what encryption with the same key made of some
    /// plaintext, `out` is that plaintext's part.
    pub open spec fn decrypts(before: Cfb8Decryptor, after: Cfb8Decryptor, ciphertext: Seq<u8>, out: Seq<u8>) -> bool {
        let key = before.spec_key();
        &&& after.spec_key() == key
        &&& out == cfb8_output(key, false, before.spec_fed(), ciphertext)
        &&& out.len() == ciphertext.len()
        &&& after.spec_fed() == before.spec_fed() + ciphertext
        &&& forall|p: Seq<u8>|
            #[trigger] aes128_cfb8_encrypted(key, p) == before.spec_fed() + ciphertext ==> out == p.skip(
                before.spec_fed().len() as int,
            )
    }

    /// Decrypts `ciphertext`, continuing the stream (see `decrypts`).
    pub fn decrypt(&mut self, ciphertext: &[u8]) -> (r: Result<Vec<u8>, IoError>)
        requires
            ciphertext@.len() <= i32::MAX,
        ensures
            final(self).spec_key() == old(self).spec_key(),
            r matches Ok(v) ==> Cfb8Decryptor::decrypts(*old(self), *final(self), ciphertext@, v@),
            r matches Err(e) ==> e == IoError::Other,
    {
        cfb8_update(&mut self.stream, ciphertext)
    }
}

/// Whether a decryptor keeps step with an encryptor: the same key, and it
/// has been fed exactly the ciphertext that the encryptor has given (at the
/// start, both nothing).
pub open spec fn in_step(e: Cfb8Encryptor, d: Cfb8Decryptor) -> bool {
    &&& d.spec_key() == e.spec_key()
    &&& (d.spec_fed() == aes128_cfb8_encrypted(e.spec_key(), e.spec_fed()) || (e.spec_fed().len() == 0
        && d.spec_fed().len() == 0))
}

/// Decrypting undoes encrypting: where a decryptor keeps step with an
/// encryptor, it decrypts what the encryptor gives next back into the
/// plaintext it was given, and both keep step.
pub proof fn law_decrypt_undoes_encrypt(
    e1: Cfb8Encryptor,
    e2: Cfb8Encryptor,
    d1: Cfb8Decryptor,
    d2: Cfb8Decryptor,
    plain: Seq<u8>,
    cipher: Seq<u8>,
    back: Seq<u8>,
)
    requires
        in_step(e1, d1),
        Cfb8Encryptor::encrypts(e1, e2, plain, cipher),
        Cfb8Decryptor::decrypts(d1, d2, cipher, back),
    ensures
        back == plain,
        in_step(e2, d2),
{
    let key = e1.spec_key();
    let f = e1.spec_fed();
    assert(aes128_cfb8_encrypted(key, e2.spec_fed()) == aes128_cfb8_encrypted(key, f) + cipher);
    if !(d1.spec_fed() == aes128_cfb8_encrypted(key, f)) {
        assert(f =~= Seq::<u8>::empty());
        assert(aes128_cfb8_encrypted(key, f).len() == 0);
        assert(aes128_cfb8_encrypted(key, f) =~= d1.spec_fed());
    }
    assert(d1.spec_fed().len() == f.len());
    assert(aes128_cfb8_encrypted(key, e2.spec_fed()) == d1.spec_fed() + cipher);
    assert(back == e2.spec_fed().skip(f.len() as int));
    assert(e2.spec_fed().skip(f.len() as int) =~= plain);
}

/// Both directions of an encrypted session.
pub struct SessionCrypto {
    /// Encrypts what the server sends.
    pub encryptor: Cfb8Encryptor,
    /// Decrypts what the server receives.
    pub decryptor: Cfb8Decryptor,
}

impl SessionCrypto {
    /// The two ciphers of a session, both made with the shared secret.
    pub fn new(shared_secret: &[u8; 16]) -> (r: Result<Self, IoError>)
        ensures
            r matches Ok(s) ==> s.encryptor.spec_key() == shared_secret@ && s.decryptor.spec_key() == shared_secret@
                && s.encryptor.spec_fed() == Seq::<u8>::empty() && s.decryptor.spec_fed() == Seq::<u8>::empty()
                && in_step(s.encryptor, s.decryptor),
            r matches Err(e) ==> e == IoError::Other,
    {
        let encryptor = match Cfb8Encryptor::new(shared_secret) {
            Ok(e) => e,
            Err(e) => return Err(e),
        };
        let decryptor = match Cfb8Decryptor::new(shared_secret) {
            Ok(d) => d,
            Err(e) => return Err(e),
        };
        Ok(SessionCrypto { encryptor, decryptor })
    }
}

/// openssl's `Rsa::private_key_from_pem`: parses a PEM-encoded PKCS#1 key.
/// Nothing is stated of the key; a failure is mapped to `Other`, as the body
/// shows. The PEM text goes through a memory BIO, which asserts that it is
/// at most `c_int::MAX` bytes long; the `requires` rules longer ones out.
#[verifier::external_body]
fn rsa_private_key_from_pem(pem: &[u8]) -> (r: Result<Rsa<Private>, IoError>)
    requires
        pem@.len() <= i32::MAX,
    ensures
        r matches Err(e) ==> e == IoError::Other,
{
    Rsa::private_key_from_pem(pem).map_err(|_| IoError::Other)
}

/// The message that `encrypted` carries under PKCS#1 v1.5 encryption with
/// the RSA private key that the PEM text `private_key_pem` holds: `Some(m)`
/// where the text holds, without a passphrase, a well-formed RSA key (its
/// private components agree with its public ones) and `encrypted` has the
/// modulus's length and decrypts under it to a validly padded block around
/// `m`; `None` otherwise.
pub uninterp spec fn rsa_pkcs1_message(private_key_pem: Seq<u8>, encrypted: Seq<u8>) -> Option<Seq<u8>>;

/// openssl's `private_decrypt` of `encrypted` with `private_key` and
/// PKCS#1 v1.5 padding, into a buffer of the key's size, cut to the count it
/// reports; a failure is mapped to `Other`. Where `encrypted` carries a
/// message under the key (see `rsa_pkcs1_message`, over the PEM text that
/// the key was read from), the result is that message. Of a ciphertext
/// without valid padding nothing is stated: depending on the OpenSSL version
/// it fails or gives a synthetic plaintext. `private_decrypt` panics on
/// inputs longer than `i32::MAX`, which `requires` rules out.
#[verifier::external_body]
pub fn rsa_decrypt(private_key: &RsaPrivateKey, encrypted: &[u8]) -> (r: Result<Vec<u8>, IoError>)
    requires
        encrypted@.len() <= i32::MAX,
    ensures
        match rsa_pkcs1_message(private_key.spec_pem(), encrypted@) {
            Some(m) => r matches Ok(v) && v@ == m,
            None => true,
        },
        r matches Err(e) ==> e == IoError::Other,
{
    let mut decrypted = vec![0u8; private_key.key.size() as usize];
    let len = private_key
        .key
        .private_decrypt(encrypted, &mut decrypted, openssl::rsa::Padding::PKCS1)
        .map_err(|_| IoError::Other)?;
    decrypted.truncate(len);
    Ok(decrypted)
}

/// An RSA private key, read once from its PEM text, which it records.
pub struct RsaPrivateKey {
    key: Rsa<Private>,
    pem: Ghost<Seq<u8>>,
}

impl RsaPrivateKey {
    /// The key read from the PEM text `pem`; fails where OpenSSL cannot
    /// read it.
    pub fn from_pem(pem: &[u8]) -> (r: Result<Self, IoError>)
        requires
            pem@.len() <= i32::MAX,
        ensures
            r matches Ok(k) ==> k.spec_pem() == pem@,
            r matches Err(e) ==> e == IoError::Other,
    {
        match rsa_private_key_from_pem(pem) {
            Ok(key) => Ok(RsaPrivateKey { key, pem: Ghost(pem@) }),
            Err(e) => Err(e),
        }
    }

    /// The PEM text that the key was read from.
    pub closed spec fn spec_pem(&self) -> Seq<u8> {
        self.pem@
    }
}

/// The server's key pair: the private key, and the public key in DER form
/// as the client receives it.
pub struct CryptoConfig {
    /// The private key.
    pub private_key: RsaPrivateKey,
    /// The public key, DER-encoded.
    pub public_key_der: Vec<u8>,
}

impl CryptoConfig {
    /// The key pair from a DER public key and a PEM private key; fails where
    /// OpenSSL cannot read the private key.
    pub fn new(public_key_der: &[u8], private_key_pem: &[u8]) -> (r: Result<Self, IoError>)
        requires
            private_key_pem@.len() <= i32::MAX,
        ensures
            r matches Ok(c) ==> c.public_key_der@ == public_key_der@ && c.private_key.spec_pem() == private_key_pem@,
            r matches Err(e) ==> e == IoError::Other,
    {
        let private_key = match RsaPrivateKey::from_pem(private_key_pem) {
            Ok(k) => k,
            Err(e) => return Err(e),
        };
        let mut der: Vec<u8> = Vec::new();
        append_slice(&mut der, public_key_der);
        Ok(CryptoConfig { private_key, public_key_der: der })
    }
}

/// Four random bytes from OpenSSL's generator (`rand_bytes`), for the
/// verify token of a login. Nothing is stated of the bytes; a failure of the
/// generator is mapped to `Other`.
#[verifier::external_body]
pub fn generate_verify_token() -> (r: Result<[u8; 4], IoError>)
    ensures
        r matches Err(e) ==> e == IoError::Other,
{
    let mut token = [0u8; 4];
    openssl::rand::rand_bytes(&mut token).map_err(|_| IoError::Other)?;
    Ok(token)
}

/// The SHA-1 digest of `data`.
pub uninterp spec fn sha1_digest(data: Seq<u8>) -> Seq<u8>;

/// openssl's `sha::sha1`: the result is the digest that the name
/// `sha1_digest` gives for `data`, twenty bytes as the function's array type
/// shows.
#[verifier::external_body]
fn sha1(data: &[u8]) -> (r: Vec<u8>)
    ensures
        r@ == sha1_digest(data@),
        r@.len() == 20,
{
    openssl::sha::sha1(data).to_vec()
}

/// The lower-case hexadecimal digit of `d`.
pub open spec fn hex_digit(d: nat) -> char {
    if d < 10 {
        (48 + d) as char
    } else {
        (87 + d) as char
    }
}

/// `n` in lower-case hexadecimal, without leading zeros.
pub open spec fn lower_hex(n: nat) -> Seq<char>
    decreases n,
{
    if n < 16 {
        seq![hex_digit(n)]
    } else {
        lower_hex(n / 16).push(hex_digit(n % 16))
    }
}

/// The integer that `b` holds in big-endian two's complement.
pub open spec fn signed_be_value(b: Seq<u8>) -> int {
    if b.len() > 0 && b[0] >= 128 {
        be_value(b) - pow256(b.len())
    } else {
        be_value(b) as int
    }
}

/// The signed lower-case hexadecimal of the two's-complement integer `b`:
/// a minus sign for a negative one, then the digits of its magnitude.
pub open spec fn signed_lower_hex(b: Seq<u8>) -> Seq<char> {
    let v = signed_be_value(b);
    if v < 0 {
        seq!['-'] + lower_hex((-v) as nat)
    } else {
        lower_hex(v as nat)
    }
}

/// num-bigint's `BigInt::from_signed_bytes_be` formatted with `{:x}`: the
/// sign from the top bit, then `to_str_radix(16)` of the magnitude.
#[verifier::external_body]
fn signed_hex(bytes: &[u8]) -> (r: String)
    ensures
        r@ == signed_lower_hex(bytes@),
{
    format!("{:x}", num_bigint::BigInt::from_signed_bytes_be(bytes))
}

/// The server id hash of a login: the SHA-1 digest of the shared secret and
/// the public key, as a signed hexadecimal integer.
pub fn minecraft_hash(shared_secret: &[u8], public_key_der: &[u8]) -> (r: String)
    ensures
        r@ == signed_lower_hex(sha1_digest(shared_secret@ + public_key_der@)),
{
    let mut data: Vec<u8> = Vec::new();
    append_slice(&mut data, shared_secret);
    append_slice(&mut data, public_key_der);
    let digest = sha1(data.as_slice());
    signed_hex(digest.as_slice())
}

} // verus!
