use pftp::client::Client;
use pftp::handshake::{ConnectCommand, ConnectReply, ConnectionError, ConnectionErrorKind, Handshake};
use pftp::ssh::{AddressError, Endpoint, Ssh};

fn login(host: &str) -> Ssh {
    Ssh::new(host.to_string(), "deploy".to_string(), "secret".to_string())
}

#[test]
fn new_keeps_a_plain_address() {
    let ssh = login("example.org:22");
    assert_eq!(ssh.host, "example.org:22");
    assert_eq!(ssh.username, "deploy");
    assert_eq!(ssh.password, "secret");
}

#[test]
fn new_takes_the_scheme_off() {
    assert_eq!(login("sftp://example.org:22").host, "example.org:22");
}

#[test]
fn new_trims_before_it_takes_the_scheme_off() {
    assert_eq!(login("  sftp://example.org:22\n").host, "example.org:22");
    assert_eq!(login("\u{3000}example.org:22\u{a0}").host, "example.org:22");
}

#[test]
fn new_takes_a_repeated_scheme_off() {
    assert_eq!(login("sftp://sftp://example.org:22").host, "example.org:22");
}

#[test]
fn new_leaves_whitespace_behind_the_scheme() {
    assert_eq!(login("sftp:// example.org:22").host, " example.org:22");
}

#[test]
fn new_leaves_other_schemes_and_inner_text() {
    assert_eq!(login("ssh://example.org:22").host, "ssh://example.org:22");
    assert_eq!(login("xsftp://example.org:22").host, "xsftp://example.org:22");
    assert_eq!(login("SFTP://example.org:22").host, "SFTP://example.org:22");
    assert_eq!(login("a b:22").host, "a b:22");
    assert_eq!(login("sftp:/").host, "sftp:/");
    assert_eq!(login("sftp://").host, "");
    assert_eq!(login("").host, "");
    assert_eq!(login("\u{200b}h:1").host, "\u{200b}h:1");
}

#[test]
fn new_does_as_trim_and_trim_start_matches() {
    let inputs = vec![
        " sftp://h:1 ", "sftp://sftp://sftp://h", "\t\tsftp://a\r\n", "sftp:/sftp://h", "  ",
        "sftp://  x  ", "é sftp://",
    ];
    for input in inputs {
        let want = input.trim().trim_start_matches("sftp://").to_string();
        assert_eq!(login(input).host, want);
    }
}

#[test]
fn endpoint_splits_host_and_port() {
    assert_eq!(
        login("example.org:22").endpoint(),
        Ok(Endpoint { host: "example.org".to_string(), port: 22 })
    );
    assert_eq!(
        login("sftp://10.0.0.7:2222").endpoint(),
        Ok(Endpoint { host: "10.0.0.7".to_string(), port: 2222 })
    );
}

#[test]
fn endpoint_takes_the_port_up_to_the_next_colon() {
    assert_eq!(
        login("example.org:22:rest").endpoint(),
        Ok(Endpoint { host: "example.org".to_string(), port: 22 })
    );
}

#[test]
fn endpoint_accepts_the_edges_of_the_port_range() {
    assert_eq!(login("h:0").endpoint(), Ok(Endpoint { host: "h".to_string(), port: 0 }));
    assert_eq!(login("h:65535").endpoint(), Ok(Endpoint { host: "h".to_string(), port: 65535 }));
    assert_eq!(login("h:+80").endpoint(), Ok(Endpoint { host: "h".to_string(), port: 80 }));
    assert_eq!(login("h:00080").endpoint(), Ok(Endpoint { host: "h".to_string(), port: 80 }));
    assert_eq!(login(":22").endpoint(), Ok(Endpoint { host: "".to_string(), port: 22 }));
}

#[test]
fn endpoint_without_colon_misses_the_port() {
    assert_eq!(login("example.org").endpoint(), Err(AddressError::MissingPort));
    assert_eq!(login("").endpoint(), Err(AddressError::MissingPort));
}

#[test]
fn endpoint_rejects_what_is_no_port() {
    let bad = vec!["h:", "h:ssh", "h:65536", "h:-1", "h: 22", "h:22 x", "h::22", "[::1]:22", "h:2a"];
    for address in bad {
        assert_eq!(login(address).endpoint(), Err(AddressError::InvalidPort));
    }
}

#[test]
fn endpoint_reads_the_port_as_parse_does() {
    let cases: Vec<(&str, Option<u16>)> = vec![
        ("0", Some(0)),
        ("22", Some(22)),
        ("+22", Some(22)),
        ("0022", Some(22)),
        ("65535", Some(65535)),
        ("65536", None),
        ("99999999999999999999", None),
        ("", None),
        ("+", None),
        ("-1", None),
        ("-0", None),
        ("++1", None),
        ("2 2", None),
        (" 22", None),
        ("22 ", None),
        ("2_2", None),
        ("0x16", None),
        ("\u{ff12}\u{ff12}", None),
    ];
    for (text, want) in cases {
        let ssh = Ssh {
            host: format!("h:{}", text),
            username: String::new(),
            password: String::new(),
        };
        assert_eq!(text.parse::<u16>().ok(), want);
        match want {
            Some(port) => {
                assert_eq!(ssh.endpoint(), Ok(Endpoint { host: "h".to_string(), port }))
            }
            None => assert_eq!(ssh.endpoint(), Err(AddressError::InvalidPort)),
        }
    }
}

#[test]
fn endpoint_counts_characters_not_bytes() {
    assert_eq!(
        login("\u{e9}\u{e0}\u{fc}:8022:x").endpoint(),
        Ok(Endpoint { host: "\u{e9}\u{e0}\u{fc}".to_string(), port: 8022 })
    );
    assert_eq!(login("sftp://\u{3042}:1").host, "\u{3042}:1");
}

fn run_to_end(handshake: &mut Handshake, replies: Vec<ConnectReply>) -> Vec<ConnectCommand> {
    let mut seen: Vec<ConnectCommand> = vec![handshake.command()];
    for reply in replies {
        handshake.advance(reply);
        seen.push(handshake.command());
    }
    seen
}

#[test]
fn connect_asks_for_the_five_steps_in_order() {
    let mut handshake = login("sftp://example.org:2022").connect();
    let seen = run_to_end(
        &mut handshake,
        vec![
            ConnectReply::Done,
            ConnectReply::Done,
            ConnectReply::Done,
            ConnectReply::Done,
            ConnectReply::Done,
        ],
    );
    assert_eq!(
        seen,
        vec![
            ConnectCommand::Dial { host: "example.org".to_string(), port: 2022 },
            ConnectCommand::Authenticate {
                username: "deploy".to_string(),
                password: "secret".to_string()
            },
            ConnectCommand::OpenChannel,
            ConnectCommand::RequestSubsystem { name: "sftp".to_string(), want_reply: true },
            ConnectCommand::StartSftp,
            ConnectCommand::Ready,
        ]
    );
    assert!(handshake.finished());
    assert_eq!(handshake.into_result(), Some(Ok(())));
}

#[test]
fn connect_is_not_over_before_the_last_step() {
    let mut handshake = login("h:22").connect();
    assert!(!handshake.finished());
    handshake.advance(ConnectReply::Done);
    handshake.advance(ConnectReply::Done);
    assert!(!handshake.finished());
    assert_eq!(handshake.command(), ConnectCommand::OpenChannel);
    assert_eq!(handshake.into_result(), None);
}

#[test]
fn refused_login_fails_the_handshake() {
    let mut handshake = login("h:22").connect();
    handshake.advance(ConnectReply::Done);
    handshake.advance(ConnectReply::Refused);
    let error = ConnectionError {
        kind: ConnectionErrorKind::AuthenticationFailed,
        detail: String::new(),
    };
    assert!(handshake.finished());
    assert_eq!(handshake.command(), ConnectCommand::Failed(error.clone()));
    assert_eq!(handshake.into_result(), Some(Err(error)));
}

#[test]
fn failed_dial_means_unreachable() {
    let mut handshake = login("h:22").connect();
    handshake.advance(ConnectReply::Failed("connection refused".to_string()));
    assert_eq!(
        handshake.into_result(),
        Some(Err(ConnectionError {
            kind: ConnectionErrorKind::Unreachable,
            detail: "connection refused".to_string()
        }))
    );
}

#[test]
fn refused_dial_means_unreachable() {
    let mut handshake = login("h:22").connect();
    handshake.advance(ConnectReply::Refused);
    assert_eq!(
        handshake.into_result(),
        Some(Err(ConnectionError { kind: ConnectionErrorKind::Unreachable, detail: String::new() }))
    );
}

#[test]
fn later_failures_are_failures_to_negotiate() {
    let mut at: usize = 1;
    while at < 5 {
        let mut handshake = login("h:22").connect();
        let mut taken: usize = 0;
        while taken < at {
            handshake.advance(ConnectReply::Done);
            taken += 1;
        }
        handshake.advance(ConnectReply::Failed("broken".to_string()));
        assert_eq!(
            handshake.into_result(),
            Some(Err(ConnectionError {
                kind: ConnectionErrorKind::Negotiation,
                detail: "broken".to_string()
            }))
        );
        at += 1;
    }
}

#[test]
fn refusal_behind_the_login_is_a_failure_to_negotiate() {
    let mut handshake = login("h:22").connect();
    handshake.advance(ConnectReply::Done);
    handshake.advance(ConnectReply::Done);
    handshake.advance(ConnectReply::Done);
    handshake.advance(ConnectReply::Refused);
    assert_eq!(
        handshake.into_result(),
        Some(Err(ConnectionError { kind: ConnectionErrorKind::Negotiation, detail: String::new() }))
    );
}

#[test]
fn nothing_is_tried_again_after_a_failure() {
    let mut handshake = login("h:22").connect();
    handshake.advance(ConnectReply::Failed("down".to_string()));
    let failed = handshake.clone();
    handshake.advance(ConnectReply::Done);
    handshake.advance(ConnectReply::Done);
    assert_eq!(handshake, failed);
    assert!(matches!(handshake.command(), ConnectCommand::Failed(_)));
}

#[test]
fn nothing_changes_once_the_session_stands() {
    let mut handshake = login("h:22").connect();
    let mut taken: usize = 0;
    while taken < 5 {
        handshake.advance(ConnectReply::Done);
        taken += 1;
    }
    let ready = handshake.clone();
    handshake.advance(ConnectReply::Failed("late".to_string()));
    assert_eq!(handshake, ready);
    assert_eq!(handshake.command(), ConnectCommand::Ready);
}

#[test]
fn address_without_port_fails_before_dialling() {
    let handshake = login("example.org").connect();
    assert!(handshake.finished());
    assert_eq!(
        handshake.command(),
        ConnectCommand::Failed(ConnectionError {
            kind: ConnectionErrorKind::InvalidAddress,
            detail: "the address holds no port".to_string()
        })
    );
}

#[test]
fn address_with_bad_port_fails_before_dialling() {
    let handshake = login("example.org:http").connect();
    assert_eq!(
        handshake.into_result(),
        Some(Err(ConnectionError {
            kind: ConnectionErrorKind::InvalidAddress,
            detail: "the port is not a number from 0 to 65535".to_string()
        }))
    );
}

#[test]
fn every_server_key_is_accepted() {
    let client = Client;
    assert!(client.check_server_key("SHA256:abcdef"));
    assert!(client.check_server_key(""));
}
