use retana::bridge::{
    parse_key_announcement, public_key_from_hex, seal_payload, sealed_message, try_decrypt,
    BridgeProxy, BridgeState, Incoming,
};
use sodiumoxide::crypto::{box_, sealedbox};

fn keypair() -> (box_::PublicKey, box_::SecretKey) {
    sodiumoxide::init().unwrap();
    box_::gen_keypair()
}

fn boxed(text: &[u8], to: &box_::PublicKey, from: &box_::SecretKey) -> Vec<u8> {
    let nonce = box_::gen_nonce();
    let mut data = nonce.as_ref().to_vec();
    data.extend(box_::seal(text, &nonce, to, from));
    data
}

fn announcement(pk: &box_::PublicKey) -> String {
    format!("{{\"type\":\"key\",\"pubkey\":\"{}\"}}", hex::encode(pk.as_ref()))
}

#[test]
fn key_announcement_is_read() {
    let (pk, _) = keypair();
    assert_eq!(parse_key_announcement(&announcement(&pk)), Some(pk.as_ref().to_vec()));
    let upper = format!("{{\"pubkey\":\"{}\",\"type\":\"key\"}}", hex::encode_upper(pk.as_ref()));
    assert_eq!(parse_key_announcement(&upper), Some(pk.as_ref().to_vec()));
}

#[test]
fn bad_key_announcements_are_refused() {
    let (pk, _) = keypair();
    let h = hex::encode(pk.as_ref());
    assert_eq!(parse_key_announcement(&format!("{{\"type\":\"hello\",\"pubkey\":\"{}\"}}", h)), None);
    assert_eq!(parse_key_announcement("{\"type\":\"key\",\"pubkey\":\"abcd\"}"), None);
    assert_eq!(parse_key_announcement("{\"type\":\"key\",\"pubkey\":\"zz\"}"), None);
    assert_eq!(parse_key_announcement("{\"type\":\"key\"}"), None);
    assert_eq!(parse_key_announcement("not json"), None);
    assert_eq!(parse_key_announcement(&format!("[\"key\",\"{}\"]", h)), None);
}

#[test]
fn hex_keys() {
    let key = [0xABu8; 32];
    assert_eq!(public_key_from_hex(&"ab".repeat(32)), Some(key.to_vec()));
    assert_eq!(public_key_from_hex(&"AB".repeat(32)), Some(key.to_vec()));
    assert_eq!(public_key_from_hex(&"ab".repeat(31)), None);
    assert_eq!(public_key_from_hex(&format!("{}a", "ab".repeat(32))), None);
    assert_eq!(public_key_from_hex(&format!("{}g0", "ab".repeat(31))), None);
}

#[test]
fn messages_from_the_bridge_are_opened() {
    let (bpk, bsk) = keypair();
    let (ppk, psk) = keypair();
    let state = BridgeState::new(bpk.as_ref().to_vec());
    let data = boxed("你好 \\cabc123 ls\\e".as_bytes(), &ppk, &bsk);
    assert_eq!(try_decrypt(&data, &state, psk.as_ref()), Some("你好 \\cabc123 ls\\e".to_string()));
    let (_, other) = keypair();
    assert_eq!(try_decrypt(&data, &state, other.as_ref()), None);
    assert_eq!(try_decrypt(&data[..20], &state, psk.as_ref()), None);
    let bad_utf8 = boxed(&[0xff, 0xfe], &ppk, &bsk);
    assert_eq!(try_decrypt(&bad_utf8, &state, psk.as_ref()), None);
}

#[test]
fn messages_to_the_bridge_are_sealed_with_the_proxy_key_first() {
    let (bpk, bsk) = keypair();
    let state = BridgeState::new(bpk.as_ref().to_vec());
    let epk = [7u8; 32];
    assert_eq!(sealed_message("hi", &epk), [&epk[..], b"hi"].concat());
    let sealed = seal_payload("hi", &epk, &state);
    assert_eq!(sealed.len(), 32 + 2 + 48);
    let opened = sealedbox::open(&sealed, &bpk, &bsk).unwrap();
    assert_eq!(opened, [&epk[..], b"hi"].concat());
}

#[test]
fn proxy_round_trip_and_key_rotation() {
    let (bpk, bsk) = keypair();
    let mut proxy = BridgeProxy::from_announcement(&announcement(&bpk)).unwrap();
    // Learn the proxy's key from a sealed message, as the bridge does.
    let opened = sealedbox::open(&proxy.seal("ping"), &bpk, &bsk).unwrap();
    let epk = box_::PublicKey::from_slice(&opened[..32]).unwrap();
    assert_eq!(&opened[32..], b"ping");
    let msg = boxed(b"hello", &epk, &bsk);
    assert_eq!(proxy.decrypt(&msg), Some("hello".to_string()));

    // Rotate to a new bridge key.
    let (npk, nsk) = keypair();
    let rotation = format!("\\k  {}  ", hex::encode(npk.as_ref()));
    assert!(matches!(proxy.classify(&rotation), Incoming::KeyRotation));
    assert_eq!(proxy.decrypt(&boxed(b"after", &epk, &nsk)), Some("after".to_string()));
    assert_eq!(proxy.decrypt(&boxed(b"stale", &epk, &bsk)), None);
    let sealed = proxy.seal("x");
    assert!(sealedbox::open(&sealed, &npk, &nsk).is_ok());

    // An invalid rotation keeps the key and is not forwarded.
    assert!(matches!(proxy.classify("\\k nothex"), Incoming::KeyRotation));
    assert_eq!(proxy.decrypt(&boxed(b"still", &epk, &nsk)), Some("still".to_string()));
}

#[test]
fn announcement_without_key_opens_nothing() {
    assert!(BridgeProxy::from_announcement("{\"type\":\"hello\"}").is_none());
}

#[test]
fn messages_are_classified() {
    let (bpk, _) = keypair();
    let mut proxy = BridgeProxy::from_announcement(&announcement(&bpk)).unwrap();
    match proxy.classify("do \\cabc123 ls\\e now") {
        Incoming::Batch(cmds) => {
            assert_eq!(cmds.len(), 1);
            assert_eq!(cmds[0].id, "abc123");
            assert_eq!(cmds[0].cmd, "ls");
        }
        _ => panic!("expected a batch"),
    }
    assert!(matches!(proxy.classify("just chat"), Incoming::Forward));
    assert!(matches!(proxy.classify("\\cabc123   \\e"), Incoming::Forward));
    match proxy.classify("\\cab\\e\\c中中 echo\\e") {
        Incoming::Batch(cmds) => {
            assert_eq!(cmds.len(), 1);
            assert_eq!(cmds[0].id, "中中 ech");
            assert_eq!(cmds[0].cmd, "o");
        }
        _ => panic!("expected a batch"),
    }
}

#[test]
fn json_key_rotation_switches_the_key() {
    let (bpk, bsk) = keypair();
    let mut proxy = BridgeProxy::from_announcement(&announcement(&bpk)).unwrap();
    let opened = sealedbox::open(&proxy.seal("ping"), &bpk, &bsk).unwrap();
    let epk = box_::PublicKey::from_slice(&opened[..32]).unwrap();

    let (npk, nsk) = keypair();
    let rotation = format!("{{\"type\":\"key_rot\",\"pubkey\":\"{}\"}}", hex::encode(npk.as_ref()));
    assert!(matches!(proxy.classify(&rotation), Incoming::KeyRotation));
    assert_eq!(proxy.decrypt(&boxed(b"after", &epk, &nsk)), Some("after".to_string()));
    assert_eq!(proxy.decrypt(&boxed(b"stale", &epk, &bsk)), None);
    let opened = sealedbox::open(&proxy.seal("x"), &npk, &nsk).unwrap();
    assert_eq!(opened, [epk.as_ref(), b"x"].concat());

    // A rotation with a bad key keeps the current one and is not forwarded.
    assert!(matches!(
        proxy.classify("{\"type\":\"key_rot\",\"pubkey\":\"abcd\"}"),
        Incoming::KeyRotation
    ));
    assert_eq!(proxy.decrypt(&boxed(b"still", &epk, &nsk)), Some("still".to_string()));
    // Other JSON is plain chat.
    assert!(matches!(proxy.classify("{\"type\":\"chat\"}"), Incoming::Forward));
}
