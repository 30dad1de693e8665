use openssl::bn::BigNum;
use openssl::hash::MessageDigest;
use openssl::pkey::PKey;
use openssl::rsa::Rsa;
use openssl::sign::Verifier;

use ssh_keys::agent::{add_reply, sign_response, Agent, Dispatch, SignRequest};
use ssh_keys::config::Config;
use ssh_keys::connection::{
    encode_frame, region_reply, region_request, ConnAction, Connection, ReadResult,
};
use ssh_keys::key::{KeyError, PublicKey};
use ssh_keys::wire::{write_mpint, write_string, write_u32};

fn rsa_2048() -> Rsa<openssl::pkey::Private> {
    Rsa::generate(2048).unwrap()
}

fn add_identity_body(rsa: &Rsa<openssl::pkey::Private>, name: &str) -> Vec<u8> {
    let mut body = vec![17u8];
    write_string(&mut body, b"ssh-rsa");
    write_mpint(&mut body, &rsa.n().to_vec());
    write_mpint(&mut body, &rsa.e().to_vec());
    write_mpint(&mut body, &rsa.d().to_vec());
    write_mpint(&mut body, &rsa.iqmp().unwrap().to_vec());
    write_mpint(&mut body, &rsa.p().unwrap().to_vec());
    write_mpint(&mut body, &rsa.q().unwrap().to_vec());
    write_string(&mut body, name.as_bytes());
    body
}

fn public_blob(rsa: &Rsa<openssl::pkey::Private>) -> Vec<u8> {
    let mut blob = Vec::new();
    write_string(&mut blob, b"ssh-rsa");
    write_mpint(&mut blob, &rsa.e().to_vec());
    write_mpint(&mut blob, &rsa.n().to_vec());
    blob
}

fn sign_request_body(blob: &[u8], msg: &[u8], flags: u32) -> Vec<u8> {
    let mut body = vec![13u8];
    write_string(&mut body, blob);
    write_string(&mut body, msg);
    write_u32(&mut body, flags);
    body
}

fn reply(d: Dispatch) -> Vec<u8> {
    match d {
        Dispatch::Reply(b) => b,
        _ => panic!("expected a ready reply"),
    }
}

fn confirm(d: Dispatch) -> SignRequest {
    match d {
        Dispatch::Confirm(q) => q,
        _ => panic!("expected a confirmation"),
    }
}

/// Runs one whole frame through a connection and the agent; the broker
/// answers `approve`, and persisting always succeeds.
fn round_trip(agent: &mut Agent, frame: &[u8], approve: bool) -> Vec<u8> {
    let mut conn = Connection::new();
    assert!(matches!(conn.start(), ConnAction::Read(4)));
    let len = match conn.step(ReadResult::Data(frame[..4].to_vec())) {
        ConnAction::Read(n) => n,
        _ => panic!("expected a body read"),
    };
    let body = match conn.step(ReadResult::Data(frame[4..4 + len].to_vec())) {
        ConnAction::Dispatch(b) => b,
        _ => panic!("expected a dispatch"),
    };
    let resp = match agent.handle_request(&body) {
        Dispatch::Reply(b) => b,
        Dispatch::Persist => add_reply(true),
        Dispatch::Confirm(q) => q.respond(approve),
    };
    assert!(matches!(conn.resume(), ConnAction::Read(4)));
    encode_frame(&resp)
}

fn verify(rsa: &Rsa<openssl::pkey::Private>, md: MessageDigest, msg: &[u8], sig: &[u8]) -> bool {
    let pkey = PKey::from_rsa(rsa.clone()).unwrap();
    let mut v = Verifier::new(md, &pkey).unwrap();
    v.verify_oneshot(sig, msg).unwrap()
}

/// Splits a SIGN_RESPONSE body into the signature type and the raw signature.
fn split_sign_response(resp: &[u8]) -> (Vec<u8>, Vec<u8>) {
    assert_eq!(resp[0], 14);
    let blob_len = u32::from_be_bytes([resp[1], resp[2], resp[3], resp[4]]) as usize;
    let blob = &resp[5..];
    assert_eq!(blob.len(), blob_len);
    let ty_len = u32::from_be_bytes([blob[0], blob[1], blob[2], blob[3]]) as usize;
    let ty = blob[4..4 + ty_len].to_vec();
    let rest = &blob[4 + ty_len..];
    let sig_len = u32::from_be_bytes([rest[0], rest[1], rest[2], rest[3]]) as usize;
    assert_eq!(rest.len(), 4 + sig_len);
    (ty, rest[4..].to_vec())
}

fn agent_with_key(rsa: &Rsa<openssl::pkey::Private>) -> Agent {
    let mut agent = Agent::new(Config::default());
    let body = add_identity_body(rsa, "k1");
    assert!(matches!(agent.handle_request(&body), Dispatch::Persist));
    agent
}

#[test]
fn empty_config_lists_no_identities() {
    let mut agent = Agent::new(Config::default());
    let resp = round_trip(&mut agent, &[0, 0, 0, 1, 0x0B], true);
    assert_eq!(resp, vec![0, 0, 0, 5, 0x0C, 0, 0, 0, 0]);
}

#[test]
fn added_key_is_listed_with_its_comment() {
    let rsa = rsa_2048();
    let mut agent = Agent::new(Config::default());
    let resp = round_trip(&mut agent, &encode_frame(&add_identity_body(&rsa, "k1")), true);
    assert_eq!(resp, vec![0, 0, 0, 1, 6]);
    let resp = reply(agent.handle_request(&[11]));
    let mut expected = vec![12u8, 0, 0, 0, 1];
    write_string(&mut expected, &public_blob(&rsa));
    write_string(&mut expected, b"k1");
    assert_eq!(resp, expected);
}

#[test]
fn sign_flags_zero_uses_sha1() {
    let rsa = rsa_2048();
    let mut agent = agent_with_key(&rsa);
    let frame = encode_frame(&sign_request_body(&public_blob(&rsa), b"abc", 0));
    let resp = round_trip(&mut agent, &frame, true);
    let (ty, sig) = split_sign_response(&resp[4..]);
    assert_eq!(ty, b"ssh-rsa".to_vec());
    assert!(verify(&rsa, MessageDigest::sha1(), b"abc", &sig));
}

#[test]
fn sign_flags_two_uses_sha256() {
    let rsa = rsa_2048();
    let mut agent = agent_with_key(&rsa);
    let frame = encode_frame(&sign_request_body(&public_blob(&rsa), b"abc", 2));
    let resp = round_trip(&mut agent, &frame, true);
    let (ty, sig) = split_sign_response(&resp[4..]);
    assert_eq!(ty, b"rsa-sha2-256".to_vec());
    assert!(verify(&rsa, MessageDigest::sha256(), b"abc", &sig));
}

#[test]
fn sign_flags_six_uses_sha512() {
    let rsa = rsa_2048();
    let mut agent = agent_with_key(&rsa);
    let frame = encode_frame(&sign_request_body(&public_blob(&rsa), b"abc", 6));
    let resp = round_trip(&mut agent, &frame, true);
    let (ty, sig) = split_sign_response(&resp[4..]);
    assert_eq!(ty, b"rsa-sha2-512".to_vec());
    assert!(verify(&rsa, MessageDigest::sha512(), b"abc", &sig));
}

#[test]
fn sign_with_unknown_key_fails() {
    let held = rsa_2048();
    let other = rsa_2048();
    let mut agent = agent_with_key(&held);
    let frame = encode_frame(&sign_request_body(&public_blob(&other), b"abc", 0));
    assert_eq!(round_trip(&mut agent, &frame, true), vec![0, 0, 0, 1, 5]);
}

#[test]
fn denied_signature_fails() {
    let rsa = rsa_2048();
    let mut agent = agent_with_key(&rsa);
    let frame = encode_frame(&sign_request_body(&public_blob(&rsa), b"abc", 0));
    assert_eq!(round_trip(&mut agent, &frame, false), vec![0, 0, 0, 1, 5]);
}

#[test]
fn truncated_frame_closes_and_agent_serves_next_client() {
    let mut agent = Agent::new(Config::default());
    let mut conn = Connection::new();
    let len = match conn.step(ReadResult::Data(vec![0, 0, 0, 10])) {
        ConnAction::Read(n) => n,
        _ => panic!("expected a body read"),
    };
    assert_eq!(len, 10);
    // Three bytes came, then the peer closed: the read of ten bytes failed.
    assert!(matches!(conn.step(ReadResult::Eof), ConnAction::Close(false)));
    assert!(matches!(conn.step(ReadResult::Data(vec![1, 2, 3])), ConnAction::Close(true)));
    let resp = round_trip(&mut agent, &[0, 0, 0, 1, 0x0B], true);
    assert_eq!(resp, vec![0, 0, 0, 5, 0x0C, 0, 0, 0, 0]);
}

#[test]
fn short_body_read_closes_with_error() {
    let mut conn = Connection::new();
    assert!(matches!(conn.step(ReadResult::Data(vec![0, 0, 0, 10])), ConnAction::Read(10)));
    assert!(matches!(conn.step(ReadResult::Data(vec![1, 2, 3])), ConnAction::Close(false)));
}

#[test]
fn zero_length_frame_is_answered_with_failure() {
    let mut agent = Agent::new(Config::default());
    let mut conn = Connection::new();
    assert!(matches!(conn.step(ReadResult::Data(vec![0, 0, 0, 0])), ConnAction::Read(0)));
    let body = match conn.step(ReadResult::Data(vec![])) {
        ConnAction::Dispatch(b) => b,
        _ => panic!("expected a dispatch"),
    };
    assert_eq!(encode_frame(&reply(agent.handle_request(&body))), vec![0, 0, 0, 1, 5]);
    assert!(matches!(conn.resume(), ConnAction::Read(4)));
}

#[test]
fn eof_between_frames_closes_cleanly() {
    let mut conn = Connection::new();
    assert!(matches!(conn.step(ReadResult::Eof), ConnAction::Close(true)));
    let mut conn = Connection::new();
    assert!(matches!(conn.step(ReadResult::Failed), ConnAction::Close(false)));
}

#[test]
fn pageant_region_holds_one_frame() {
    let mut region = vec![0u8; 64];
    region[..5].copy_from_slice(&[0, 0, 0, 1, 11]);
    assert_eq!(region_request(&region), Some(vec![11]));
    assert_eq!(region_request(&[0, 0, 0, 9, 1]), None);
    let mut agent = Agent::new(Config::default());
    let resp = reply(agent.handle_request(&region_request(&region).unwrap()));
    assert_eq!(region_reply(&resp, region.len()), Some(vec![0, 0, 0, 5, 12, 0, 0, 0, 0]));
    assert_eq!(region_reply(&resp, 8), None);
    assert_eq!(region_reply(&resp, 9), Some(vec![0, 0, 0, 5, 12, 0, 0, 0, 0]));
}

#[test]
fn oversized_key_part_is_refused_for_signing() {
    let k = ssh_keys::key::RsaPrivateKey {
        n: vec![0x0f],
        e: vec![3],
        d: vec![0u8; ssh_keys::key::MAX_BIGNUM_BYTES + 1],
        p: vec![3],
        q: vec![5],
        dp: vec![1],
        dq: vec![3],
        iqmp: vec![2],
    };
    let key = ssh_keys::key::PrivateKey::RSA(k);
    assert!(matches!(key.sign(b"m", 0), Err(KeyError::TooLarge)));
}

#[test]
fn public_keys_compare_as_integers() {
    let padded = PublicKey::RSA { e: vec![0, 3], n: vec![0, 0, 0x85] };
    let short = PublicKey::RSA { e: vec![3], n: vec![0x85] };
    assert!(padded == short);
    assert_eq!(padded.encode(), short.encode());
    let back = PublicKey::decode(&padded.encode()).unwrap();
    assert!(back == padded);
}

#[test]
fn large_frame_length_is_read_big_endian() {
    let mut conn = Connection::new();
    match conn.step(ReadResult::Data(vec![0x01, 0x02, 0x03, 0x04])) {
        ConnAction::Read(n) => assert_eq!(n, 0x01020304),
        _ => panic!("expected a body read"),
    }
}

#[test]
fn unknown_opcode_fails() {
    let mut agent = Agent::new(Config::default());
    assert_eq!(reply(agent.handle_request(&[42, 1, 2, 3])), vec![5]);
    assert_eq!(reply(agent.handle_request(&[])), vec![5]);
    assert_eq!(round_trip(&mut agent, &[0, 0, 0, 1, 200], true), vec![0, 0, 0, 1, 5]);
}

#[test]
fn adding_a_held_key_again_changes_nothing() {
    let rsa = rsa_2048();
    let mut agent = agent_with_key(&rsa);
    let again = add_identity_body(&rsa, "other name");
    assert_eq!(reply(agent.handle_request(&again)), vec![6]);
    assert_eq!(agent.config().keys.len(), 1);
    assert_eq!(agent.config().keys[0].name(), "k1");
}

#[test]
fn identities_follow_first_insertion_order() {
    let a = rsa_2048();
    let b = rsa_2048();
    let mut agent = Agent::new(Config::default());
    for (rsa, name) in [(&a, "a"), (&b, "b"), (&a, "a2")] {
        match agent.handle_request(&add_identity_body(rsa, name)) {
            Dispatch::Persist | Dispatch::Reply(_) => {}
            Dispatch::Confirm(_) => panic!("no confirmation expected"),
        }
    }
    let resp = reply(agent.handle_request(&[11]));
    let mut expected = vec![12u8, 0, 0, 0, 2];
    write_string(&mut expected, &public_blob(&a));
    write_string(&mut expected, b"a");
    write_string(&mut expected, &public_blob(&b));
    write_string(&mut expected, b"b");
    assert_eq!(resp, expected);
}

#[test]
fn malformed_add_identity_fails_and_keeps_store() {
    let rsa = rsa_2048();
    let mut agent = agent_with_key(&rsa);
    let mut body = add_identity_body(&rsa_2048(), "x");
    body.truncate(body.len() - 3);
    assert_eq!(reply(agent.handle_request(&body)), vec![5]);
    let mut wrong_type = vec![17u8];
    write_string(&mut wrong_type, b"ssh-dss");
    assert_eq!(reply(agent.handle_request(&wrong_type)), vec![5]);
    assert_eq!(agent.config().keys.len(), 1);
}

#[test]
fn factor_of_one_is_refused() {
    let mut body = vec![17u8];
    write_string(&mut body, b"ssh-rsa");
    for part in [&[0x0fu8][..], &[3], &[7], &[1], &[1], &[5]] {
        write_mpint(&mut body, part);
    }
    write_string(&mut body, b"bad");
    let mut agent = Agent::new(Config::default());
    assert_eq!(reply(agent.handle_request(&body)), vec![5]);
    assert_eq!(agent.config().keys.len(), 0);
}

#[test]
fn crt_exponents_are_computed_on_ingest() {
    let rsa = rsa_2048();
    let agent = agent_with_key(&rsa);
    let kp = &agent.config().keys[0];
    match kp.private() {
        ssh_keys::key::PrivateKey::RSA(k) => {
            assert_eq!(k.dp, rsa.dmp1().unwrap().to_vec());
            assert_eq!(k.dq, rsa.dmq1().unwrap().to_vec());
            assert_eq!(k.n, rsa.n().to_vec());
        }
    }
}

#[test]
fn non_utf8_comment_is_refused() {
    let rsa = rsa_2048();
    let mut body = add_identity_body(&rsa, "");
    body.truncate(body.len() - 4);
    write_string(&mut body, &[0xff, 0xfe]);
    let mut agent = Agent::new(Config::default());
    assert_eq!(reply(agent.handle_request(&body)), vec![5]);
}

#[test]
fn sign_request_carries_a_copy_of_the_key() {
    let rsa = rsa_2048();
    let mut agent = agent_with_key(&rsa);
    let q = confirm(agent.handle_request(&sign_request_body(&public_blob(&rsa), b"m", 4)));
    assert_eq!(q.msg, b"m".to_vec());
    assert_eq!(q.flags, 4);
    assert_eq!(q.key_pair.name(), "k1");
    assert!(*q.key_pair.public() == *agent.config().keys[0].public());
}

#[test]
fn truncated_sign_request_fails() {
    let rsa = rsa_2048();
    let mut agent = agent_with_key(&rsa);
    let mut body = sign_request_body(&public_blob(&rsa), b"abc", 0);
    body.truncate(body.len() - 1);
    assert_eq!(reply(agent.handle_request(&body)), vec![5]);
}

#[test]
fn add_reply_reports_persistence() {
    assert_eq!(add_reply(true), vec![6]);
    assert_eq!(add_reply(false), vec![5]);
}

#[test]
fn sign_response_frames_the_blob() {
    assert_eq!(sign_response(Ok(vec![1, 2])), vec![14, 0, 0, 0, 2, 1, 2]);
    assert_eq!(sign_response(Err(KeyError::Crypto)), vec![5]);
}

#[test]
fn public_key_round_trips() {
    let rsa = rsa_2048();
    let blob = public_blob(&rsa);
    let pk = PublicKey::decode(&blob).unwrap();
    assert_eq!(pk.encode(), blob);
    assert_eq!(pk.key_type(), "ssh-rsa");
    let e_only = PublicKey::RSA { e: vec![1, 0, 1], n: rsa.n().to_vec() };
    assert!(pk == e_only);
}

#[test]
fn public_key_decode_errors() {
    assert!(matches!(PublicKey::decode(&[0, 0]), Err(KeyError::Wire(_))));
    let mut blob = Vec::new();
    write_string(&mut blob, b"ssh-ed25519");
    assert!(matches!(PublicKey::decode(&blob), Err(KeyError::UnknownKeyType)));
}

#[test]
fn decoded_mpint_drops_leading_zeros() {
    let mut blob = Vec::new();
    write_string(&mut blob, b"ssh-rsa");
    write_string(&mut blob, &[0, 0, 3]);
    write_string(&mut blob, &[0, 0x85]);
    let pk = PublicKey::decode(&blob).unwrap();
    assert!(pk == PublicKey::RSA { e: vec![3], n: vec![0x85] });
    let mut expected = Vec::new();
    write_string(&mut expected, b"ssh-rsa");
    write_string(&mut expected, &[3]);
    write_string(&mut expected, &[0, 0x85]);
    assert_eq!(pk.encode(), expected);
}

#[test]
fn bignum_magnitudes_match_openssl() {
    let n = BigNum::from_u32(0x8000_0001).unwrap();
    let mut out = Vec::new();
    write_mpint(&mut out, &n.to_vec());
    assert_eq!(out, vec![0, 0, 0, 5, 0, 0x80, 0, 0, 1]);
}
