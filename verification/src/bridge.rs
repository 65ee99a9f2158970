//! The encrypted link to the remote bridge.
//!
//! The bridge announces its public key in plain JSON when the link opens.
//! Messages from the bridge are NaCl boxes (a 24-byte nonce, then the box)
//! opened with the proxy's own secret key; messages to the bridge are sealed
//! boxes of the proxy's public key followed by the text.  The bridge may
//! rotate its key with an encrypted `{"type":"key_rot","pubkey":"<hex>"}`
//! message (or the short form `\k <hex key>`).
use vstd::prelude::*;
use sodiumoxide::crypto::{box_, sealedbox};
use vstd::slice::{slice_subrange, slice_to_vec};
use vstd::utf8::{decode_utf8, encode_utf8, valid_utf8};
use crate::json::{json_string_field, json_string_member};
use crate::server::{commands, commands_match, extract_commands, BridgeCommand};
use crate::text::{chars_of, copy_str, str_eq, string_of_range, trim, trim_bounds};

verus! {

/// Length of a public or secret key of the box construction.
pub const KEY_BYTES: usize = 32;

/// Length of a box nonce.
pub const NONCE_BYTES: usize = 24;

/// Bytes a box adds to its message (the authenticator).
pub const BOX_MAC_BYTES: usize = 16;

/// Bytes a sealed box adds to its message.
pub const SEAL_BYTES: usize = 48;

// ---------------------------------------------------------------------------
// Calls into sodiumoxide, hex and std
// ---------------------------------------------------------------------------

/// The message that `box_::open` recovers from `ciphertext` with `nonce`,
/// the sender's public key `pk` and the receiver's secret key `sk`, or
/// `None` when the box does not verify.
pub uninterp spec fn box_open(ciphertext: Seq<u8>, nonce: Seq<u8>, pk: Seq<u8>, sk: Seq<u8>) -> Option<Seq<u8>>;

/// Opens a NaCl box with `sodiumoxide::crypto::box_::open`.
///
/// Claimed of sodiumoxide: the result depends on the four byte strings
/// alone, and an opened message is 16 bytes shorter than the box.
#[verifier::external_body]
fn open_box(ciphertext: &[u8], nonce: &[u8], pk: &[u8], sk: &[u8]) -> (r: Option<Vec<u8>>)
    requires
        nonce@.len() == NONCE_BYTES,
        pk@.len() == KEY_BYTES,
        sk@.len() == KEY_BYTES,
    ensures
        r is Some <==> box_open(ciphertext@, nonce@, pk@, sk@) is Some,
        r matches Some(m) ==> box_open(ciphertext@, nonce@, pk@, sk@) == Some(m@) && m@.len()
            + BOX_MAC_BYTES == ciphertext@.len(),
{
    match (box_::Nonce::from_slice(nonce), box_::PublicKey::from_slice(pk), box_::SecretKey::from_slice(sk)) {
        (Some(n), Some(p), Some(s)) => match box_::open(ciphertext, &n, &p, &s) {
            Ok(m) => Some(m),
            Err(_) => None,
        },
        _ => None,
    }
}

/// The public key that belongs to the secret key `sk`
/// (`box_::SecretKey::public_key`, the Curve25519 base-point multiple).
pub uninterp spec fn public_key_of(sk: Seq<u8>) -> Seq<u8>;

/// The message that `sealedbox::open` recovers from the sealed box `c` with
/// the recipient's key pair `(pk, sk)`, or `None` when it does not open.
pub uninterp spec fn sealed_open(c: Seq<u8>, pk: Seq<u8>, sk: Seq<u8>) -> Option<Seq<u8>>;

/// Whether the sealed box `c` opens to `m` for every holder of a secret key
/// whose public key is `pk`.
pub open spec fn opens_to(c: Seq<u8>, pk: Seq<u8>, m: Seq<u8>) -> bool {
    forall|sk: Seq<u8>|
        sk.len() == KEY_BYTES && public_key_of(sk) == pk ==> #[trigger] sealed_open(c, pk, sk)
            == Some(m)
}

/// Seals `m` for the holder of `pk` with `sodiumoxide::crypto::sealedbox::seal`.
///
/// Claimed of sodiumoxide: the sealed box is 48 bytes longer than `m`, and
/// `sealedbox::open` with the key pair of `pk` gives `m` back (as the
/// crate's own seal/open round-trip test checks).  Each call draws a fresh
/// ephemeral key, so the bytes themselves are not stated.
#[verifier::external_body]
fn seal_box(m: &[u8], pk: &[u8]) -> (r: Vec<u8>)
    requires
        pk@.len() == KEY_BYTES,
    ensures
        r@.len() == m@.len() + SEAL_BYTES,
        forall|sk: Seq<u8>|
            sk.len() == KEY_BYTES && public_key_of(sk) == pk@ ==> #[trigger] sealed_open(
                r@,
                pk@,
                sk,
            ) == Some(m@),
{
    match box_::PublicKey::from_slice(pk) {
        Some(p) => sealedbox::seal(m, &p),
        None => Vec::new(),
    }
}

/// A fresh key pair from `sodiumoxide::crypto::box_::gen_keypair`, as the
/// bytes of the public key and of the secret key.
///
/// Claimed of sodiumoxide: both keys are 32 bytes long, and the public key
/// is the one that belongs to the secret key (`crypto_box_keypair` computes
/// it with `crypto_scalarmult_base`).  The secret key is random.
#[verifier::external_body]
fn new_key_pair() -> (r: (Vec<u8>, Vec<u8>))
    ensures
        r.0@.len() == KEY_BYTES,
        r.1@.len() == KEY_BYTES,
        r.0@ == public_key_of(r.1@),
{
    let (pk, sk) = box_::gen_keypair();
    (pk.as_ref().to_vec(), sk.0.to_vec())
}

/// Whether `c` is a hexadecimal digit (`0-9`, `a-f`, `A-F`).
pub open spec fn hex_digit(c: char) -> bool {
    ('0' <= c <= '9') || ('a' <= c <= 'f') || ('A' <= c <= 'F')
}

/// The value of the hexadecimal digit `c`.
pub open spec fn hex_value(c: char) -> int {
    if '0' <= c <= '9' {
        c as int - '0' as int
    } else if 'a' <= c <= 'f' {
        c as int - 'a' as int + 10
    } else {
        c as int - 'A' as int + 10
    }
}

/// The bytes that the hexadecimal text `s` stands for: `None` unless `s`
/// has an even number of characters, all hexadecimal digits; each pair of
/// digits, high digit first, is one byte.
pub open spec fn hex_bytes(s: Seq<char>) -> Option<Seq<u8>> {
    if s.len() % 2 == 0 && forall|i: int| 0 <= i < s.len() ==> #[trigger] hex_digit(s[i]) {
        Some(
            Seq::new(
                s.len() / 2,
                |i: int| (16 * hex_value(s[2 * i]) + hex_value(s[2 * i + 1])) as u8,
            ),
        )
    } else {
        None
    }
}

/// Decodes hexadecimal text with `hex::decode`.
///
/// Claimed of hex: `decode` takes the bytes of the text in pairs, high digit
/// first, accepts upper- and lower-case digits, and fails on an odd length
/// or on any other character (a non-ASCII character is never a digit).
#[verifier::external_body]
fn decode_hex(s: &str) -> (r: Option<Vec<u8>>)
    ensures
        r is Some <==> hex_bytes(s@) is Some,
        r matches Some(b) ==> hex_bytes(s@) == Some(b@),
{
    match hex::decode(s) {
        Ok(b) => Some(b),
        Err(_) => None,
    }
}

/// Decodes UTF-8 with `String::from_utf8`.
///
/// Claimed of std: decoding succeeds exactly on valid UTF-8 and then yields
/// the decoded characters.
#[verifier::external_body]
fn utf8_text(bytes: Vec<u8>) -> (r: Option<String>)
    ensures
        r is Some <==> valid_utf8(bytes@),
        r matches Some(s) ==> s@ == decode_utf8(bytes@),
{
    match String::from_utf8(bytes) {
        Ok(s) => Some(s),
        Err(_) => None,
    }
}

// ---------------------------------------------------------------------------
// Keys
// ---------------------------------------------------------------------------

/// The public key written in hexadecimal as `s`: the decoded bytes when
/// they are exactly a key long (as `box_::PublicKey::from_slice` accepts).
pub open spec fn hex_public_key(s: Seq<char>) -> Option<Seq<u8>> {
    match hex_bytes(s) {
        Some(b) => if b.len() == KEY_BYTES {
            Some(b)
        } else {
            None
        },
        None => None,
    }
}

/// Reads a public key written in hexadecimal.
pub fn public_key_from_hex(s: &str) -> (r: Option<Vec<u8>>)
    ensures
        r is Some <==> hex_public_key(s@) is Some,
        r matches Some(k) ==> hex_public_key(s@) == Some(k@) && k@.len() == KEY_BYTES,
{
    match decode_hex(s) {
        Some(b) => if b.len() == KEY_BYTES {
            Some(b)
        } else {
            None
        },
        None => None,
    }
}

/// The key a bridge announces when the link opens: the JSON text
/// `{"type": "key", "pubkey": "<hex>"}`.
pub open spec fn announced_key(text: Seq<char>) -> Option<Seq<u8>> {
    if json_string_member(text, "type"@) == Some("key"@) {
        match json_string_member(text, "pubkey"@) {
            Some(h) => hex_public_key(h),
            None => None,
        }
    } else {
        None
    }
}

/// Reads the key announcement that opens the link.
pub fn parse_key_announcement(text: &str) -> (r: Option<Vec<u8>>)
    ensures
        r is Some <==> announced_key(text@) is Some,
        r matches Some(k) ==> announced_key(text@) == Some(k@) && k@.len() == KEY_BYTES,
{
    match json_string_field(text, "type") {
        Some(t) => {
            let key = copy_str("key");
            if t == key {
                match json_string_field(text, "pubkey") {
                    Some(h) => public_key_from_hex(h.as_str()),
                    None => None,
                }
            } else {
                None
            }
        },
        None => None,
    }
}

/// The key the bridge currently uses.
pub struct BridgeState {
    pk: Vec<u8>,
}

impl BridgeState {
    #[verifier::type_invariant]
    spec fn wf(self) -> bool {
        self.pk@.len() == KEY_BYTES
    }

    /// The bridge's current public key.
    pub closed spec fn key(self) -> Seq<u8> {
        self.pk@
    }

    /// A state holding `pk`.
    pub fn new(pk: Vec<u8>) -> (r: BridgeState)
        requires
            pk@.len() == KEY_BYTES,
        ensures
            r.key() == pk@,
    {
        BridgeState { pk }
    }

    /// Switches to the bridge's new key.
    pub fn rotate(&mut self, new_pk: Vec<u8>)
        requires
            new_pk@.len() == KEY_BYTES,
        ensures
            final(self).key() == new_pk@,
        no_unwind
    {
        self.pk = new_pk;
    }

    /// The current key.
    pub fn key_bytes(&self) -> (r: &[u8])
        ensures
            r@ == self.key(),
            r@.len() == KEY_BYTES,
    {
        proof {
            use_type_invariant(self);
        }
        self.pk.as_slice()
    }
}

// ---------------------------------------------------------------------------
// Messages
// ---------------------------------------------------------------------------

/// The text of a message from the bridge: the box after the 24-byte nonce,
/// opened with the bridge key `pk` and the proxy's secret key `sk`, read as
/// UTF-8.  `None` when the message is too short, does not open or is not
/// UTF-8.
pub open spec fn decrypted(data: Seq<u8>, pk: Seq<u8>, sk: Seq<u8>) -> Option<Seq<char>> {
    if data.len() < NONCE_BYTES {
        None
    } else {
        match box_open(data.skip(NONCE_BYTES as int), data.take(NONCE_BYTES as int), pk, sk) {
            Some(m) => if valid_utf8(m) {
                Some(decode_utf8(m))
            } else {
                None
            },
            None => None,
        }
    }
}

/// Opens a message from the bridge (`try_decrypt`).
pub fn try_decrypt(data: &[u8], state: &BridgeState, esk: &[u8]) -> (r: Option<String>)
    requires
        esk@.len() == KEY_BYTES,
    ensures
        r is Some <==> decrypted(data@, state.key(), esk@) is Some,
        r matches Some(t) ==> decrypted(data@, state.key(), esk@) == Some(t@),
{
    if data.len() < NONCE_BYTES {
        return None;
    }
    let nonce = slice_subrange(data, 0, NONCE_BYTES);
    let body = slice_subrange(data, NONCE_BYTES, data.len());
    assert(nonce@ =~= data@.take(NONCE_BYTES as int));
    assert(body@ =~= data@.skip(NONCE_BYTES as int));
    match open_box(body, nonce, state.key_bytes(), esk) {
        Some(m) => utf8_text(m),
        None => None,
    }
}

/// What the proxy seals for the bridge: its own public key, then the UTF-8
/// bytes of the text.
pub open spec fn sealed_plaintext(epk: Seq<u8>, payload: Seq<char>) -> Seq<u8> {
    epk + encode_utf8(payload)
}

/// The plaintext of a message to the bridge: `epk` followed by the bytes
/// of `payload`.
pub fn sealed_message(payload: &str, epk: &[u8]) -> (r: Vec<u8>)
    ensures
        r@ == sealed_plaintext(epk@, payload@),
{
    let mut buf: Vec<u8> = slice_to_vec(epk);
    let bytes = payload.as_bytes();
    let mut i: usize = 0;
    while i < bytes.len()
        invariant
            i <= bytes@.len(),
            bytes@ == encode_utf8(payload@),
            buf@ == epk@ + bytes@.take(i as int),
        decreases bytes@.len() - i,
    {
        buf.push(bytes[i]);
        assert(bytes@.take(i + 1) =~= bytes@.take(i as int).push(bytes@[i as int]));
        i = i + 1;
    }
    assert(bytes@.take(i as int) =~= bytes@);
    buf
}

/// Seals a text for the bridge (`seal_payload`): the sealed box of
/// [`sealed_message`] for the bridge's current key, which the bridge opens
/// to `epk` followed by the text.
pub fn seal_payload(payload: &str, epk: &[u8], state: &BridgeState) -> (r: Vec<u8>)
    ensures
        r@.len() == sealed_plaintext(epk@, payload@).len() + SEAL_BYTES,
        opens_to(r@, state.key(), sealed_plaintext(epk@, payload@)),
{
    let buf = sealed_message(payload, epk);
    seal_box(buf.as_slice(), state.key_bytes())
}

/// Whether a message starts with `\k `, the short form of a key rotation.
pub open spec fn is_short_rotation(text: Seq<char>) -> bool {
    text.len() >= 3 && text[0] == '\\' && text[1] == 'k' && text[2] == ' '
}

/// Whether a message from the bridge asks for a key rotation: the JSON
/// object `{"type": "key_rot", "pubkey": "<hex>"}`, or a message starting
/// with `\k `.
pub open spec fn is_rotation(text: Seq<char>) -> bool {
    is_short_rotation(text) || json_string_member(text, "type"@) == Some("key_rot"@)
}

/// The new key of a rotation message, when it is a valid key: the
/// trimmed hexadecimal text after `\k `, or the `pubkey` member of the
/// JSON form.
pub open spec fn rotation_key(text: Seq<char>) -> Option<Seq<u8>> {
    if is_short_rotation(text) {
        hex_public_key(trim(text.skip(3)))
    } else {
        match json_string_member(text, "pubkey"@) {
            Some(h) => hex_public_key(h),
            None => None,
        }
    }
}

/// What the proxy does with a decrypted message from the bridge.
pub enum Incoming {
    /// The message was a key rotation (applied when its key was valid); it
    /// is not forwarded.
    KeyRotation,
    /// The message holds commands to run, in order.
    Batch(Vec<BridgeCommand>),
    /// The message is plain chat, forwarded to the frontend as it is.
    Forward,
}

/// The proxy's side of the encrypted link (`encrypted_bridge_proxy`): the
/// bridge's key and the proxy's own key pair.
pub struct BridgeProxy {
    state: BridgeState,
    epk: Vec<u8>,
    esk: Vec<u8>,
}

impl BridgeProxy {
    #[verifier::type_invariant]
    spec fn wf(self) -> bool {
        &&& self.epk@.len() == KEY_BYTES
        &&& self.esk@.len() == KEY_BYTES
    }

    /// The bridge's current public key.
    pub closed spec fn bridge_key(self) -> Seq<u8> {
        self.state.key()
    }

    /// The proxy's public key.
    pub closed spec fn own_public_key(self) -> Seq<u8> {
        self.epk@
    }

    /// The proxy's secret key.
    pub closed spec fn own_secret_key(self) -> Seq<u8> {
        self.esk@
    }

    /// Opens the link from the bridge's first message: `None` unless it
    /// announces a valid key; otherwise a proxy for that key with a fresh
    /// key pair of its own.
    pub fn from_announcement(text: &str) -> (r: Option<BridgeProxy>)
        ensures
            r is Some <==> announced_key(text@) is Some,
            r matches Some(p) ==> announced_key(text@) == Some(p.bridge_key())
                && p.own_public_key().len() == KEY_BYTES && p.own_secret_key().len()
                == KEY_BYTES && p.own_public_key() == public_key_of(p.own_secret_key()),
    {
        match parse_key_announcement(text) {
            Some(pk) => {
                let (epk, esk) = new_key_pair();
                Some(BridgeProxy { state: BridgeState::new(pk), epk, esk })
            },
            None => None,
        }
    }

    /// Opens a message from the bridge.
    pub fn decrypt(&self, data: &[u8]) -> (r: Option<String>)
        ensures
            r is Some <==> decrypted(data@, self.bridge_key(), self.own_secret_key()) is Some,
            r matches Some(t) ==> decrypted(data@, self.bridge_key(), self.own_secret_key())
                == Some(t@),
    {
        proof {
            use_type_invariant(self);
        }
        try_decrypt(data, &self.state, self.esk.as_slice())
    }

    /// Seals a text for the bridge: the bridge, holding the key pair of its
    /// current key, opens it to the proxy's public key followed by the text.
    pub fn seal(&self, payload: &str) -> (r: Vec<u8>)
        ensures
            r@.len() == sealed_plaintext(self.own_public_key(), payload@).len() + SEAL_BYTES,
            opens_to(r@, self.bridge_key(), sealed_plaintext(self.own_public_key(), payload@)),
    {
        seal_payload(payload, self.epk.as_slice(), &self.state)
    }

    /// Decides what to do with a decrypted message: a rotation switches to
    /// the new key when it is valid (and keeps the old one otherwise); a
    /// message with commands becomes a batch; anything else is forwarded.
    pub fn classify(&mut self, text: &str) -> (r: Incoming)
        ensures
            final(self).own_public_key() == old(self).own_public_key(),
            final(self).own_secret_key() == old(self).own_secret_key(),
            is_rotation(text@) ==> r is KeyRotation && final(self).bridge_key() == match rotation_key(text@) {
                Some(k) => k,
                None => old(self).bridge_key(),
            },
            !is_rotation(text@) ==> final(self).bridge_key() == old(self).bridge_key(),
            !is_rotation(text@) && commands(text@).len() > 0 ==> (r matches Incoming::Batch(c)
                && commands_match(c@, commands(text@))),
            !is_rotation(text@) && commands(text@).len() == 0 ==> r is Forward,
    {
        proof {
            use_type_invariant(&*self);
        }
        let v = chars_of(text);
        if v.len() >= 3 && v[0] == '\\' && v[1] == 'k' && v[2] == ' ' {
            let (lo, hi) = trim_bounds(&v, 3, v.len());
            assert(v@.subrange(3, v@.len() as int) =~= text@.skip(3));
            let hex = string_of_range(&v, lo, hi);
            match public_key_from_hex(hex.as_str()) {
                Some(k) => self.state.rotate(k),
                None => {},
            }
            return Incoming::KeyRotation;
        }
        let is_key_rot = match json_string_field(text, "type") {
            Some(t) => str_eq(t.as_str(), "key_rot"),
            None => false,
        };
        if is_key_rot {
            proof {
                reveal_strlit("key_rot");
            }
            match json_string_field(text, "pubkey") {
                Some(h) => match public_key_from_hex(h.as_str()) {
                    Some(k) => self.state.rotate(k),
                    None => {},
                },
                None => {},
            }
            return Incoming::KeyRotation;
        }
        let cmds = extract_commands(text);
        if cmds.len() > 0 {
            Incoming::Batch(cmds)
        } else {
            Incoming::Forward
        }
    }
}

} // verus!
