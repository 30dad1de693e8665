use ssh_keys::agent::RequesterInfo;
use ssh_keys::config::Config;
use ssh_keys::copy_id::{
    authorized_key_line, blob_base64, plan_authorized_keys_edit, user_host_split,
    AuthorizedKeysEdit,
};
use ssh_keys::key::{digest_of_flags, signature_blob, Digest, KeyPair, PrivateKey, RsaPrivateKey};
use ssh_keys::requester::{
    choose_anchor, compose_requester_info, describe_process, file_description_query,
    is_section_candidate, names_mapping, pick_primary_window,
};
use ssh_keys::utils::{str_contains, Finally, StrExt};
use ssh_keys::wire::{strip_leading_zeros, write_mpint, write_string, Reader, WireError};

#[test]
fn primary_window_prefers_visible() {
    assert_eq!(pick_primary_window(&[false, true, true]), Some(1));
    assert_eq!(pick_primary_window(&[false, false]), Some(0));
    assert_eq!(pick_primary_window(&[]), None);
}

#[test]
fn anchor_prefers_visible_then_any_window_then_outermost() {
    assert_eq!(choose_anchor(&[None, Some(false), Some(true)]), Some(2));
    assert_eq!(choose_anchor(&[None, Some(false), Some(false)]), Some(1));
    assert_eq!(choose_anchor(&[None, None, None]), Some(2));
    assert_eq!(choose_anchor(&[]), None);
}

#[test]
fn process_description_formats() {
    let (short, long) = describe_process(
        4242,
        "ssh.exe",
        "C:\\Windows\\ssh.exe",
        Some("OpenSSH client"),
        Some("Terminal"),
        Some("ssh host"),
    );
    assert_eq!(short, "ssh.exe - OpenSSH client - Terminal");
    assert_eq!(long, "4242 : ssh.exe - OpenSSH client - Terminal : ssh host");
    let (short, long) = describe_process(7, "git.exe", "C:\\git.exe", None, Some(""), None);
    assert_eq!(short, "git.exe");
    assert_eq!(long, "7 : git.exe : C:\\git.exe");
    let (_, long) = describe_process(0, "a", "b", None, None, None);
    assert_eq!(long, "0 : a : b");
}

#[test]
fn requester_info_joins_paragraphs() {
    let info: RequesterInfo = compose_requester_info(
        "s".to_string(),
        &["one".to_string(), "two".to_string(), "three".to_string()],
    );
    assert_eq!(info.description_short, "s");
    assert_eq!(info.description_long, "one\n\ntwo\n\nthree");
    let info = compose_requester_info("s".to_string(), &[]);
    assert_eq!(info.description_long, "");
}

#[test]
fn file_description_query_uses_language_then_code_page() {
    assert_eq!(file_description_query(0x04b0_0409), "\\StringFileInfo\\040904b0\\FileDescription");
    assert_eq!(file_description_query(0), "\\StringFileInfo\\00000000\\FileDescription");
}

#[test]
fn section_handles_of_other_processes_are_candidates() {
    assert!(is_section_candidate(42, 10, 11));
    assert!(!is_section_candidate(42, 11, 11));
    assert!(!is_section_candidate(41, 10, 11));
    assert!(names_mapping("\\BaseNamedObjects\\PageantRequest1234", "PageantRequest1234"));
    assert!(!names_mapping("\\BaseNamedObjects\\Other", "PageantRequest1234"));
}

#[test]
fn text_search() {
    assert!(str_contains("abcabd", "abd"));
    assert!(str_contains("abc", ""));
    assert!(!str_contains("ab", "abc"));
    assert!(!str_contains("aXbXc", "abc"));
}

#[test]
fn authorized_keys_edits() {
    assert_eq!(plan_authorized_keys_edit("", "QUJD"), AuthorizedKeysEdit::Append { newline_first: false });
    assert_eq!(
        plan_authorized_keys_edit("ssh-rsa X a", "QUJD"),
        AuthorizedKeysEdit::Append { newline_first: true }
    );
    assert_eq!(
        plan_authorized_keys_edit("ssh-rsa X a\n", "QUJD"),
        AuthorizedKeysEdit::Append { newline_first: false }
    );
    assert_eq!(plan_authorized_keys_edit("ssh-rsa QUJD k\n", "QUJD"), AuthorizedKeysEdit::AlreadyPresent);
}

#[test]
fn authorized_key_line_and_base64() {
    let b64 = blob_base64(b"ABC").unwrap();
    assert_eq!(b64, "QUJD");
    assert_eq!(blob_base64(b"AB").unwrap(), "QUI=");
    assert_eq!(authorized_key_line("ssh-rsa", &b64, "k1"), "ssh-rsa QUJD k1\n");
}

#[test]
fn user_and_host_split_at_the_only_at_sign() {
    assert_eq!(user_host_split("alice@example.org"), Some(5));
    assert_eq!(user_host_split("@host"), Some(0));
    assert_eq!(user_host_split("example.org"), None);
    assert_eq!(user_host_split("a@b@c"), None);
}

fn small_key(name: &str, n: u8) -> KeyPair {
    let k = RsaPrivateKey::from_parts(&[n], &[3], &[7], &[5], &[11], &[3], &[7], &[2]);
    KeyPair::new(PrivateKey::RSA(k), name.to_string())
}

#[test]
fn config_finds_first_key_by_name() {
    let config = Config { keys: vec![small_key("a", 55), small_key("b", 57), small_key("b", 59)] };
    assert_eq!(config.find_by_name("b"), Some(1));
    assert_eq!(config.find_by_name("c"), None);
    assert_eq!(Config::default().keys.len(), 0);
}

#[test]
fn key_parts_drop_leading_zeros() {
    let k = RsaPrivateKey::from_parts(&[0, 0, 9], &[3], &[0], &[5], &[11], &[3], &[7], &[2]);
    assert_eq!(k.n, vec![9]);
    assert_eq!(k.d, vec![0u8; 0]);
    let kp = KeyPair::new(PrivateKey::RSA(k), "x".to_string());
    let copy = kp.duplicate();
    assert_eq!(copy.name(), "x");
    assert!(*copy.public() == *kp.public());
}

#[test]
fn digest_selection_from_flags() {
    assert_eq!(digest_of_flags(0), Digest::Sha1);
    assert_eq!(digest_of_flags(1), Digest::Sha1);
    assert_eq!(digest_of_flags(2), Digest::Sha256);
    assert_eq!(digest_of_flags(4), Digest::Sha512);
    assert_eq!(digest_of_flags(6), Digest::Sha512);
}

#[test]
fn signature_blob_layout() {
    let mut expected = Vec::new();
    write_string(&mut expected, b"rsa-sha2-256");
    write_string(&mut expected, &[9, 8]);
    assert_eq!(signature_blob(2, &[9, 8]), expected);
    let mut expected = Vec::new();
    write_string(&mut expected, b"ssh-rsa");
    write_string(&mut expected, &[]);
    assert_eq!(signature_blob(0, &[]), expected);
}

#[test]
fn reader_reads_wire_values() {
    let mut buf = vec![7u8];
    write_string(&mut buf, b"hi");
    write_string(&mut buf, &[0, 0, 0x81]);
    let mut r = Reader::new(&buf);
    assert_eq!(r.read_u8(), Ok(7));
    assert_eq!(r.read_string_utf8().unwrap(), "hi");
    assert_eq!(r.read_mpint().unwrap(), vec![0x81]);
    assert_eq!(r.remaining(), 0);
    assert_eq!(r.read_u8(), Err(WireError::Truncated));
    let short = [0u8, 0, 0, 5, 1];
    assert!(matches!(Reader::new(&short).read_string(), Err(WireError::Truncated)));
    let mut bad = Vec::new();
    write_string(&mut bad, &[0xc3]);
    assert!(matches!(Reader::new(&bad).read_string_utf8(), Err(WireError::NotUtf8)));
}

#[test]
fn mpint_sign_marker() {
    let mut out = Vec::new();
    write_mpint(&mut out, &[0x7f]);
    write_mpint(&mut out, &[0x80]);
    write_mpint(&mut out, &[]);
    assert_eq!(out, vec![0, 0, 0, 1, 0x7f, 0, 0, 0, 2, 0, 0x80, 0, 0, 0, 0]);
    assert_eq!(strip_leading_zeros(&[0, 0, 1, 0]), vec![1, 0]);
    assert_eq!(strip_leading_zeros(&[0, 0]), Vec::<u8>::new());
}

#[test]
fn utf16_with_terminator() {
    assert_eq!("Ab".to_utf16_null(), vec![0x41, 0x62, 0]);
    assert_eq!("\u{1F600}".to_utf16_null(), vec![0xD83D, 0xDE00, 0]);
}

#[test]
fn deferred_action_runs_once() {
    let cell = std::cell::Cell::new(0);
    let f = Finally::new(|| cell.set(cell.get() + 1));
    assert_eq!(cell.get(), 0);
    f.run();
    assert_eq!(cell.get(), 1);
}

fn wire_key(p: &[u8], name: &[u8]) -> Vec<u8> {
    let mut body = Vec::new();
    write_string(&mut body, b"ssh-rsa");
    for part in [&[0x0fu8][..], &[3], &[7], &[2], p, &[5]] {
        write_mpint(&mut body, part);
    }
    write_string(&mut body, name);
    body
}

#[test]
fn key_pair_from_wire_errors_and_success() {
    let bad = wire_key(&[1], b"k");
    assert!(matches!(KeyPair::from_wire(&mut Reader::new(&bad)), Err(ssh_keys::key::KeyError::BadFactor)));
    let good = wire_key(&[3], b"k");
    let kp = KeyPair::from_wire(&mut Reader::new(&good)).unwrap();
    assert_eq!(kp.name(), "k");
    let PrivateKey::RSA(k) = kp.private();
    // d = 7: 7 mod (3 - 1) = 1 and 7 mod (5 - 1) = 3.
    assert_eq!(k.dp, vec![1]);
    assert_eq!(k.dq, vec![3]);
    assert!(*kp.public() == ssh_keys::key::PublicKey::RSA { e: vec![3], n: vec![0x0f] });
    let cut = &good[..good.len() - 1];
    assert!(matches!(
        KeyPair::from_wire(&mut Reader::new(cut)),
        Err(ssh_keys::key::KeyError::Wire(WireError::Truncated))
    ));
}

#[test]
fn add_key_appends_only_new_public_keys() {
    let mut agent = ssh_keys::agent::Agent::new(Config::default());
    assert!(agent.add_key(small_key("a", 55)));
    assert!(!agent.add_key(small_key("b", 55)));
    assert!(agent.add_key(small_key("c", 57)));
    assert_eq!(agent.config().keys.len(), 2);
    agent.config_mut().keys.clear();
    assert_eq!(agent.config().keys.len(), 0);
}

#[test]
fn oversized_key_part_is_refused_on_ingest() {
    let p = vec![1u8; ssh_keys::key::MAX_BIGNUM_BYTES + 1];
    let body = wire_key(&p, b"k");
    assert!(matches!(KeyPair::from_wire(&mut Reader::new(&body)), Err(ssh_keys::key::KeyError::TooLarge)));
    let p = vec![1u8; ssh_keys::key::MAX_BIGNUM_BYTES];
    let body = wire_key(&p, b"k");
    assert!(KeyPair::from_wire(&mut Reader::new(&body)).is_ok());
}
