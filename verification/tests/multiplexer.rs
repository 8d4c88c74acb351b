use sshchat::config::resolve_setting;
use sshchat::config::server_settings;
use sshchat::multiplexer::Auth;
use sshchat::multiplexer::DataOutcome;
use sshchat::multiplexer::Handler;
use sshchat::registry::Entry;
use sshchat::registry::Registry;

#[test]
fn new_client_assigns_increasing_ids() {
    let mut template = Handler::template();
    let a = template.new_client();
    let b = template.new_client();
    assert_eq!(a.id, 1);
    assert_eq!(b.id, 2);
    assert_eq!(a.username, "");
    assert_eq!(b.username, "");
}

#[test]
fn password_auth_accepts_on_valid_verdict() {
    let mut template = Handler::template();
    let mut h = template.new_client();
    assert_eq!(h.auth_password("alice", Some(true)), Auth::Accept);
    assert_eq!(h.username, "alice");
}

#[test]
fn password_auth_rejects_on_invalid_verdict() {
    let mut template = Handler::template();
    let mut h = template.new_client();
    assert_eq!(
        h.auth_password("carol", Some(false)),
        Auth::Reject { proceed_with_password: true }
    );
    assert_eq!(h.username, "");
}

#[test]
fn password_auth_accepts_when_the_oracle_call_fails() {
    let mut template = Handler::template();
    let mut h = template.new_client();
    assert_eq!(h.auth_password("zoe", None), Auth::Accept);
    assert_eq!(h.username, "zoe");
}

#[test]
fn s1_happy_chat() {
    let mut template = Handler::template();
    let mut alice = template.new_client();
    let mut bob = template.new_client();
    assert_eq!(alice.auth_password("alice", Some(true)), Auth::Accept);
    assert_eq!(bob.auth_password("bob", Some(true)), Auth::Accept);

    let mut reg = Registry::new();
    let open_a = alice.channel_open_session(&mut reg, 0, 0);
    assert!(open_a.accept);
    assert_eq!(open_a.banner, "alice connected to the server.\r\n");
    assert_eq!(open_a.targets, vec![Entry { conn: alice.id, chan: 0, handle: 0 }]);

    let open_b = bob.channel_open_session(&mut reg, 0, 1);
    assert!(open_b.accept);
    assert_eq!(open_b.banner, "bob connected to the server.\r\n");
    assert_eq!(open_b.targets.len(), 2);

    match alice.data(&reg, b"hi\n") {
        DataOutcome::Chat { line, targets } => {
            assert_eq!(line, "[alice]: hi\n\r\n");
            assert_eq!(targets.len(), 2);
            assert!(targets.contains(&Entry { conn: alice.id, chan: 0, handle: 0 }));
            assert!(targets.contains(&Entry { conn: bob.id, chan: 0, handle: 1 }));
        }
        DataOutcome::Disconnect { .. } => panic!("a chat payload must not disconnect"),
    }
}

#[test]
fn s2_reject() {
    let mut template = Handler::template();
    let mut carol = template.new_client();
    assert_eq!(
        carol.auth_password("carol", Some(false)),
        Auth::Reject { proceed_with_password: true }
    );
    assert_eq!(carol.username, "");
}

#[test]
fn s3_disconnect() {
    let mut template = Handler::template();
    let mut dan = template.new_client();
    let mut eve = template.new_client();
    assert_eq!(dan.auth_password("dan", Some(true)), Auth::Accept);
    assert_eq!(eve.auth_password("eve", Some(true)), Auth::Accept);

    let mut reg = Registry::new();
    dan.channel_open_session(&mut reg, 0, 0);
    eve.channel_open_session(&mut reg, 0, 1);

    match dan.data(&reg, &[0x03]) {
        DataOutcome::Disconnect { banner, targets } => {
            assert_eq!(banner, "dan disconnected from the server.\r\n");
            assert_eq!(targets, vec![Entry { conn: eve.id, chan: 0, handle: 1 }]);
        }
        DataOutcome::Chat { .. } => panic!("the sentinel byte must disconnect"),
    }
}

#[test]
fn s4_publickey_refusal() {
    let mut template = Handler::template();
    let mut frank = template.new_client();
    assert_eq!(frank.auth_publickey(), Auth::Reject { proceed_with_password: true });
    assert_eq!(frank.auth_password("frank", Some(true)), Auth::Accept);

    let mut reg = Registry::new();
    let open = frank.channel_open_session(&mut reg, 0, 0);
    assert_eq!(open.banner, "frank connected to the server.\r\n");
    assert_eq!(open.targets.len(), 1);
}

#[test]
fn s5_forward_stub() {
    let mut template = Handler::template();
    let mut gina = template.new_client();
    gina.auth_password("gina", Some(true));
    let f = gina.tcpip_forward("example.com", 0);
    assert!(f.accept);
    assert_eq!(f.address, "example.com");
    assert_eq!(f.port, 0);
    assert_eq!(f.originator_address, "1.2.3.4");
    assert_eq!(f.originator_port, 1234);
    assert_eq!(f.greeting, "Hello from a forwarded port");
    assert!(f.send_eof);
}

#[test]
fn s6_non_utf8_payload() {
    let mut template = Handler::template();
    let mut hugo = template.new_client();
    let mut ivy = template.new_client();
    hugo.auth_password("hugo", Some(true));
    ivy.auth_password("ivy", Some(true));

    let mut reg = Registry::new();
    hugo.channel_open_session(&mut reg, 0, 0);
    ivy.channel_open_session(&mut reg, 0, 1);

    match hugo.data(&reg, &[0xFF, 0xFE]) {
        DataOutcome::Chat { line, targets } => {
            assert_eq!(line, "[hugo]: \u{FFFD}\u{FFFD}\r\n");
            assert_eq!(targets.len(), 2);
        }
        DataOutcome::Disconnect { .. } => panic!("a chat payload must not disconnect"),
    }
}

#[test]
fn two_byte_payload_with_sentinel_is_chat() {
    let mut template = Handler::template();
    let mut h = template.new_client();
    h.auth_password("kim", Some(true));
    let reg = Registry::new();
    match h.data(&reg, &[0x03, 0x03]) {
        DataOutcome::Chat { line, .. } => {
            assert_eq!(line, "[kim]: \u{3}\u{3}\r\n");
        }
        DataOutcome::Disconnect { .. } => panic!("only the single byte 0x03 disconnects"),
    }
}

#[test]
fn settings_are_the_fixed_ones() {
    let s = server_settings();
    assert_eq!(s.inactivity_timeout_secs, 3600);
    assert_eq!(s.auth_rejection_delay_initial_secs, 0);
    assert_eq!(s.auth_rejection_delay_secs, 3);
    assert_eq!(s.port, 2222);
}

#[test]
fn settings_resolve_to_the_found_value_or_empty() {
    assert_eq!(resolve_setting(Some("root".to_string())), "root");
    assert_eq!(resolve_setting(None), "");
}
