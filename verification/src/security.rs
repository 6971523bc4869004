//! Credentials: random tokens, password hashes and the registration proof.
use base64::Engine as _;
use p256::ecdsa::signature::Verifier as _;
use p256::pkcs8::DecodePublicKey as _;
use rand::RngCore as _;
use sha2::Digest as _;
use vstd::prelude::*;
use vstd::string::*;
use vstd::utf8::*;
use crate::limits::{
    CHAT_TOKEN_BYTES, MAX_CHAT_PUBLIC_KEY_LEN, MAX_IDENTITY_KEY_DER_LEN,
    MAX_IDENTITY_PUBLIC_KEY_LEN, MAX_IDENTITY_SIGNATURE_LEN, SIGNALING_PROTOCOL_VERSION,
};
use crate::number;
use crate::text;

verus! {

// ---------------------------------------------------------------------------
// Outside calls
// ---------------------------------------------------------------------------
/// `OsRng::fill_bytes` of rand, on a buffer of `len` bytes: it overwrites the
/// whole buffer. Which bytes come back is chance. Where the operating system
/// has no randomness to give, the call does not return.
#[verifier::external_body]
fn os_random_bytes(len: usize) -> (r: Vec<u8>)
    ensures
        r@.len() == len,
{
    let mut bytes = vec![0u8; len];
    rand::rngs::OsRng.fill_bytes(&mut bytes);
    bytes
}

/// `OsRng::next_u64` of rand: any number, by chance. Where the operating system
/// has no randomness to give, the call does not return.
#[verifier::external_body]
fn os_random_u64() -> (r: u64) {
    rand::rngs::OsRng.next_u64()
}

/// The SHA-256 digest of some bytes.
pub uninterp spec fn sha256_of(bytes: Seq<u8>) -> Seq<u8>;

/// `Sha256::digest` of sha2: the digest of the bytes, which is 32 bytes long.
#[verifier::external_body]
fn sha256(bytes: &[u8]) -> (r: Vec<u8>)
    ensures
        r@ == sha256_of(bytes@),
        r@.len() == 32,
{
    sha2::Sha256::digest(bytes).to_vec()
}

/// What base64 with the standard alphabet and padding decodes a text to.
pub uninterp spec fn base64_decoded(encoded: Seq<char>) -> Option<Seq<u8>>;

/// `Engine::decode` of base64, with the `STANDARD` engine: the bytes that the
/// text encodes, none where it is not canonical padded base64.
#[verifier::external_body]
fn base64_decode(encoded: &str) -> (r: Option<Vec<u8>>)
    ensures
        match r {
            Some(bytes) => base64_decoded(encoded@) == Some(bytes@),
            None => base64_decoded(encoded@) is None,
        },
{
    base64::engine::general_purpose::STANDARD.decode(encoded).ok()
}

/// Whether some bytes are a P-256 public key in SubjectPublicKeyInfo DER.
pub uninterp spec fn p256_key_accepted(der: Seq<u8>) -> bool;

/// `VerifyingKey::from_public_key_der` of p256: whether it accepts the bytes.
#[verifier::external_body]
fn p256_accepts_key(der: &[u8]) -> (r: bool)
    ensures
        r == p256_key_accepted(der@),
{
    p256::ecdsa::VerifyingKey::from_public_key_der(der).is_ok()
}

/// Whether a DER signature over a message verifies under a DER public key.
pub uninterp spec fn p256_verified(key: Seq<u8>, signature: Seq<u8>, message: Seq<u8>) -> bool;

/// `VerifyingKey::verify` of p256, on a key and a signature in DER: whether both
/// decode and the signature over the message verifies under the key.
#[verifier::external_body]
fn p256_verify(key: &[u8], signature: &[u8], message: &[u8]) -> (r: bool)
    ensures
        r == p256_verified(key@, signature@, message@),
        r ==> p256_key_accepted(key@),
{
    match (
        p256::ecdsa::VerifyingKey::from_public_key_der(key),
        p256::ecdsa::Signature::from_der(signature),
    ) {
        (Ok(key), Ok(signature)) => key.verify(message, &signature).is_ok(),
        _ => false,
    }
}

// ---------------------------------------------------------------------------
// Random credentials
// ---------------------------------------------------------------------------
/// The form of `n` bytes as hexadecimal digits: all that is known of a text that
/// `random_hex` gives.
pub open spec fn is_random_hex(s: Seq<char>, n: nat) -> bool {
    s.len() == 2 * n && number::is_lower_hex(s)
}

/// Random bytes as hexadecimal digits.
pub fn random_hex<const N: usize>() -> (r: String)
    ensures
        is_random_hex(r@, N as nat),
{
    let bytes = os_random_bytes(N);
    proof {
        number::lemma_hex_is_lower_hex(bytes@);
    }
    number::hex_text(bytes.as_slice())
}

/// A fresh chat credential.
pub fn generate_chat_token() -> (r: String)
    ensures
        is_random_hex(r@, CHAT_TOKEN_BYTES as nat),
{
    random_hex::<CHAT_TOKEN_BYTES>()
}

/// The session generations: at least sixteen decimal digits, and exact in
/// a double-precision number.
pub open spec fn is_session_generation(n: int) -> bool {
    1_000_000_000_000_000 <= n <= 9_000_000_000_000_000
}

/// The session generation that a random number gives, if it gives one.
pub open spec fn generation_of(n: u64) -> Option<u64> {
    let low = n % 9007199254740992;
    if is_session_generation(low as int) {
        Some(low)
    } else {
        None
    }
}

/// Takes the low 53 bits of a random number, where they are a session generation.
pub fn session_generation_from(n: u64) -> (r: Option<u64>)
    ensures
        r == generation_of(n),
{
    let low: u64 = n % 9007199254740992;
    if 1_000_000_000_000_000 <= low && low <= 9_000_000_000_000_000 {
        Some(low)
    } else {
        None
    }
}

/// A fresh session generation. Draws are repeated until one falls in the range,
/// as eight in nine do. Should the counter of draws run out, which no machine
/// lives to see, the lowest generation is given.
pub fn random_session_generation() -> (r: u64)
    ensures
        is_session_generation(r as int),
{
    let mut draws: u64 = 0;
    while draws < u64::MAX
        decreases u64::MAX - draws,
    {
        if let Some(generation) = session_generation_from(os_random_u64()) {
            return generation;
        }
        draws = draws + 1;
    }
    1_000_000_000_000_000
}

// ---------------------------------------------------------------------------
// Hashes
// ---------------------------------------------------------------------------
/// The salted hash of a lobby password.
pub open spec fn password_hash(salt: Seq<char>, password: Seq<char>) -> Seq<char> {
    number::hex(sha256_of(encode_utf8(salt) + encode_utf8(password)))
}

/// The salted hash of a lobby password.
pub fn hash_lobby_password(salt: &str, password: &str) -> (r: String)
    ensures
        r@ == password_hash(salt@, password@),
        is_random_hex(r@, 32),
{
    let mut bytes: Vec<u8> = Vec::new();
    push_bytes(&mut bytes, salt.as_bytes());
    push_bytes(&mut bytes, password.as_bytes());
    assert(bytes@ =~= encode_utf8(salt@) + encode_utf8(password@));
    let digest = sha256(bytes.as_slice());
    proof {
        number::lemma_hex_is_lower_hex(digest@);
    }
    number::hex_text(digest.as_slice())
}

/// Appends some bytes.
fn push_bytes(out: &mut Vec<u8>, bytes: &[u8])
    ensures
        final(out)@ == old(out)@ + bytes@,
{
    let mut i: usize = 0;
    while i < bytes.len()
        invariant
            i <= bytes@.len(),
            out@ == old(out)@ + bytes@.take(i as int),
        decreases bytes@.len() - i,
    {
        out.push(bytes[i]);
        i = i + 1;
        assert(out@ =~= old(out)@ + bytes@.take(i as int));
    }
    assert(bytes@.take(i as int) =~= bytes@);
}

/// The identifier of the lobby with the given name.
pub open spec fn lobby_id_of(lobby_name: Seq<char>) -> Seq<char> {
    number::hex(sha256_of(encode_utf8(lobby_name)))
}

/// A lobby name identifies one room; its password is checked separately.
pub fn generate_lobby_id(lobby_name: &str) -> (r: String)
    ensures
        r@ == lobby_id_of(lobby_name@),
        is_random_hex(r@, 32),
{
    let digest = sha256(lobby_name.as_bytes());
    proof {
        number::lemma_hex_is_lower_hex(digest@);
    }
    number::hex_text(digest.as_slice())
}

/// The salted hash of a password is the digest of the salt followed by the
/// password, in the digits in which a lobby of that name is identified.
pub proof fn salted_hashes_digest_the_joined_text(salt: Seq<char>, password: Seq<char>)
    ensures
        password_hash(salt, password) == lobby_id_of(salt + password),
{
    text::lemma_encode_joined(salt, password);
}

/// Decides whether two byte strings are equal, in a time that depends on
/// their lengths alone.
pub fn ct_eq(a: &[u8], b: &[u8]) -> (r: bool)
    ensures
        r == (a@ == b@),
{
    if a.len() != b.len() {
        return false;
    }
    let mut diff: u8 = 0;
    let mut i: usize = 0;
    assert(a@.take(0) =~= b@.take(0));
    while i < a.len()
        invariant
            i <= a@.len(),
            a@.len() == b@.len(),
            diff == 0 <==> a@.take(i as int) == b@.take(i as int),
        decreases a@.len() - i,
    {
        let x = a[i];
        let y = b[i];
        let before = diff;
        diff = diff | (x ^ y);
        assert(diff == 0 <==> before == 0 && x == y) by {
            assert((before | (x ^ y)) == 0 <==> before == 0 && x == y) by (bit_vector);
        }
        i = i + 1;
        proof {
            let s = a@.take(i as int);
            let t = b@.take(i as int);
            assert(s.drop_last() =~= a@.take(i - 1));
            assert(t.drop_last() =~= b@.take(i - 1));
            if a@.take(i - 1) == b@.take(i - 1) && x == y {
                assert(s =~= t);
            }
            if s == t {
                assert(s.last() == t.last());
            }
        }
    }
    assert(a@.take(i as int) =~= a@);
    assert(b@.take(i as int) =~= b@);
    diff == 0
}

/// Decides in constant time whether two texts are equal.
pub fn ct_text_eq(a: &str, b: &str) -> (r: bool)
    ensures
        r == (a@ == b@),
{
    proof {
        encode_utf8_decode_utf8(a@);
        encode_utf8_decode_utf8(b@);
    }
    ct_eq(a.as_bytes(), b.as_bytes())
}

// ---------------------------------------------------------------------------
// Registration proof
// ---------------------------------------------------------------------------
/// The text that a registration signature covers.
pub open spec fn canonical_text(
    challenge: Seq<char>,
    lobby_name: Seq<char>,
    virtual_ip: Seq<char>,
) -> Seq<char> {
    "MCTIER-SIGNALING-V3\n"@ + number::decimal(SIGNALING_PROTOCOL_VERSION as nat) + seq!['\n']
        + challenge + seq!['\n'] + lobby_name + seq!['\n'] + virtual_ip
}

/// The bytes that a registration signature covers.
pub fn registration_canonical(challenge: &str, lobby_name: &str, virtual_ip: &str) -> (r: Vec<u8>)
    ensures
        r@ == encode_utf8(canonical_text(challenge@, lobby_name@, virtual_ip@)),
{
    let mut out = "MCTIER-SIGNALING-V3\n".to_owned();
    number::push_decimal(&mut out, SIGNALING_PROTOCOL_VERSION as u64);
    out.push('\n');
    out.append(challenge);
    out.push('\n');
    out.append(lobby_name);
    out.push('\n');
    out.append(virtual_ip);
    assert(out@ =~= canonical_text(challenge@, lobby_name@, virtual_ip@));
    let mut bytes: Vec<u8> = Vec::new();
    push_bytes(&mut bytes, out.as_str().as_bytes());
    assert(bytes@ =~= encode_utf8(out@));
    bytes
}

/// Two lines that end at the first line break are equal where the whole texts are.
proof fn lemma_first_line(a: Seq<char>, b: Seq<char>, rest_a: Seq<char>, rest_b: Seq<char>)
    requires
        !a.contains('\n'),
        !b.contains('\n'),
        a + seq!['\n'] + rest_a == b + seq!['\n'] + rest_b,
    ensures
        a == b,
        rest_a == rest_b,
{
    let s = a + seq!['\n'] + rest_a;
    let t = b + seq!['\n'] + rest_b;
    assert forall|k: int| 0 <= k < a.len() implies s[k] != '\n' by {
        assert(a.contains(a[k]));
    }
    assert forall|k: int| 0 <= k < b.len() implies t[k] != '\n' by {
        assert(b.contains(b[k]));
    }
    text::lemma_first_index(s, '\n', a.len() as int);
    text::lemma_first_index(t, '\n', b.len() as int);
    assert(a =~= s.take(a.len() as int));
    assert(b =~= t.take(b.len() as int));
    assert(rest_a =~= s.skip(a.len() as int + 1));
    assert(rest_b =~= t.skip(b.len() as int + 1));
}

/// The signed bytes bind the challenge, the lobby name and the virtual address:
/// for challenges and lobby names of one line each, they differ wherever one of
/// the three differs.
pub proof fn canonical_binds_every_field(
    challenge_a: Seq<char>,
    lobby_a: Seq<char>,
    ip_a: Seq<char>,
    challenge_b: Seq<char>,
    lobby_b: Seq<char>,
    ip_b: Seq<char>,
)
    requires
        !challenge_a.contains('\n'),
        !challenge_b.contains('\n'),
        !lobby_a.contains('\n'),
        !lobby_b.contains('\n'),
        encode_utf8(canonical_text(challenge_a, lobby_a, ip_a)) == encode_utf8(
            canonical_text(challenge_b, lobby_b, ip_b),
        ),
    ensures
        challenge_a == challenge_b,
        lobby_a == lobby_b,
        ip_a == ip_b,
{
    let a = canonical_text(challenge_a, lobby_a, ip_a);
    let b = canonical_text(challenge_b, lobby_b, ip_b);
    encode_utf8_decode_utf8(a);
    encode_utf8_decode_utf8(b);
    let prefix = "MCTIER-SIGNALING-V3\n"@ + number::decimal(SIGNALING_PROTOCOL_VERSION as nat)
        + seq!['\n'];
    let n = prefix.len() as int;
    let rest_a = challenge_a + seq!['\n'] + (lobby_a + seq!['\n'] + ip_a);
    let rest_b = challenge_b + seq!['\n'] + (lobby_b + seq!['\n'] + ip_b);
    assert(a =~= prefix + rest_a);
    assert(b =~= prefix + rest_b);
    assert(rest_a =~= a.skip(n));
    assert(rest_b =~= b.skip(n));
    lemma_first_line(
        challenge_a,
        challenge_b,
        lobby_a + seq!['\n'] + ip_a,
        lobby_b + seq!['\n'] + ip_b,
    );
    lemma_first_line(lobby_a, lobby_b, ip_a, ip_b);
}

/// What a verified registration proof establishes: the fingerprint of the
/// identity key, the key in base64, and the domain name of the fingerprint.
#[verifier::ext_equal]
pub struct IdentityView {
    pub client_id: Seq<char>,
    pub public_key: Seq<char>,
    pub virtual_domain: Seq<char>,
}

/// The client id that an identity key in DER has.
pub open spec fn fingerprint(der: Seq<u8>) -> Seq<char> {
    number::hex(sha256_of(der))
}

/// A base64 text that is neither empty nor longer than `max` bytes.
pub open spec fn base64_within(encoded: Seq<char>, max: nat) -> Option<Seq<u8>> {
    if encoded.len() == 0 || text::utf8_len(encoded) > max {
        None
    } else {
        base64_decoded(encoded)
    }
}

/// The identity that a registration proof establishes: the signature must
/// cover this connection's challenge, the lobby and the virtual address.
pub open spec fn verified_identity(
    challenge: Seq<char>,
    lobby_name: Seq<char>,
    virtual_ip: Seq<char>,
    identity_public_key: Seq<char>,
    challenge_signature: Seq<char>,
) -> Option<IdentityView> {
    let encoded = text::trimmed(identity_public_key);
    match (
        base64_within(encoded, MAX_IDENTITY_PUBLIC_KEY_LEN as nat),
        base64_within(text::trimmed(challenge_signature), MAX_IDENTITY_SIGNATURE_LEN as nat),
    ) {
        (Some(key), Some(signature)) => if 0 < key.len() <= MAX_IDENTITY_KEY_DER_LEN
            && p256_verified(
            key,
            signature,
            encode_utf8(canonical_text(challenge, lobby_name, virtual_ip)),
        ) {
            Some(
                IdentityView {
                    client_id: fingerprint(key),
                    public_key: encoded,
                    virtual_domain: fingerprint(key).take(32) + ".mct.net"@,
                },
            )
        } else {
            None
        },
        _ => None,
    }
}

fn decode_within(encoded: &str, max: usize) -> (r: Option<Vec<u8>>)
    ensures
        match r {
            Some(bytes) => base64_within(encoded@, max as nat) == Some(bytes@),
            None => base64_within(encoded@, max as nat) is None,
        },
{
    let len: usize = text::byte_len(encoded);
    if encoded.unicode_len() == 0 || len > max {
        None
    } else {
        base64_decode(encoded)
    }
}

/// Checks a registration proof and derives the only client id that the server
/// accepts for it.
pub fn verify_registration_identity(
    challenge: &str,
    lobby_name: &str,
    virtual_ip: &str,
    identity_public_key: &str,
    challenge_signature: &str,
) -> (r: Option<(String, String, String)>)
    ensures
        match r {
            Some((client_id, public_key, virtual_domain)) => verified_identity(
                challenge@,
                lobby_name@,
                virtual_ip@,
                identity_public_key@,
                challenge_signature@,
            ) == Some(
                (IdentityView {
                    client_id: client_id@,
                    public_key: public_key@,
                    virtual_domain: virtual_domain@,
                }),
            ),
            None => verified_identity(
                challenge@,
                lobby_name@,
                virtual_ip@,
                identity_public_key@,
                challenge_signature@,
            ) is None,
        },
        r matches Some(identity) ==> is_random_hex(identity.0@, 32),
{
    let encoded = text::trim(identity_public_key);
    let key = match decode_within(encoded.as_str(), MAX_IDENTITY_PUBLIC_KEY_LEN) {
        Some(key) => key,
        None => {
            return None;
        },
    };
    if key.len() == 0 || key.len() > MAX_IDENTITY_KEY_DER_LEN {
        return None;
    }
    let signature_text = text::trim(challenge_signature);
    let signature = match decode_within(signature_text.as_str(), MAX_IDENTITY_SIGNATURE_LEN) {
        Some(signature) => signature,
        None => {
            return None;
        },
    };
    let message = registration_canonical(challenge, lobby_name, virtual_ip);
    if !p256_verify(key.as_slice(), signature.as_slice(), message.as_slice()) {
        return None;
    }
    let digest = sha256(key.as_slice());
    let client_id = number::hex_text(digest.as_slice());
    proof {
        number::lemma_hex_is_lower_hex(digest@);
    }
    let mut virtual_domain = client_id.as_str().substring_char(0, 32).to_owned();
    assert(virtual_domain@ =~= client_id@.take(32));
    virtual_domain.append(".mct.net");
    Some((client_id, encoded, virtual_domain))
}

// ---------------------------------------------------------------------------
// Chat keys
// ---------------------------------------------------------------------------
/// A base64 P-256 public key of bounded length.
pub open spec fn is_chat_public_key(value: Seq<char>) -> bool {
    base64_within(value, MAX_CHAT_PUBLIC_KEY_LEN as nat) matches Some(der)
        && p256_key_accepted(der)
}

/// Decides whether `value` is a P-256 public key in base64.
pub fn valid_chat_public_key(value: &str) -> (r: bool)
    ensures
        r == is_chat_public_key(value@),
{
    match decode_within(value, MAX_CHAT_PUBLIC_KEY_LEN) {
        Some(der) => p256_accepts_key(der.as_slice()),
        None => false,
    }
}

/// A submitted key without the white space around it; none where it is invalid.
pub fn normalize_chat_public_key(raw: Option<String>) -> (r: Option<String>)
    ensures
        match raw {
            Some(value) => if is_chat_public_key(text::trimmed(value@)) {
                r matches Some(key) && key@ == text::trimmed(value@)
            } else {
                r is None
            },
            None => r is None,
        },
{
    match raw {
        Some(value) => {
            let key = text::trim(value.as_str());
            if valid_chat_public_key(key.as_str()) {
                Some(key)
            } else {
                None
            }
        },
        None => None,
    }
}

} // verus!
