use base64::Engine;
use owa_enum::color::{Color, GREEN, RESET};
use owa_enum::ntlm::{parse_challenge, NtlmError, NTLM};
use owa_enum::owa::{
    classify_auth, classify_login, derive_timeout, owa_endpoints, scan_next, scan_start,
    DomainError, LoginOutcome, Owa, OwaAuthMethod, OwaResult, ScanStep,
};
use owa_enum::sink::ResultSink;
use owa_enum::text::{contains, strip_prefix};

fn challenge(name_units: &[u16], offset: u32) -> Vec<u8> {
    let mut raw = vec![0u8; offset as usize];
    raw[0..8].copy_from_slice(b"NTLMSSP\0");
    raw[8] = 2;
    let len = (name_units.len() * 2) as u16;
    raw[12..14].copy_from_slice(&len.to_le_bytes());
    raw[14..16].copy_from_slice(&len.to_le_bytes());
    raw[16..20].copy_from_slice(&offset.to_le_bytes());
    for u in name_units {
        raw.extend_from_slice(&u.to_le_bytes());
    }
    raw
}

fn units(s: &str) -> Vec<u16> {
    s.encode_utf16().collect()
}

#[test]
fn text_contains_and_prefix() {
    assert!(contains("https://x/owa/auth/logon.aspx", "/owa/auth"));
    assert!(!contains("https://x/ow", "/owa/auth"));
    assert!(contains("abc", ""));
    assert_eq!(strip_prefix("NTLM abc", "NTLM "), Some("abc"));
    assert_eq!(strip_prefix("Basic abc", "NTLM "), None);
}

#[test]
fn color_wrap_and_rgb() {
    assert_eq!(Color::wrap("[+]", GREEN), "\x1b[32m[+]\x1b[0m");
    assert_eq!(RESET, "\x1b[0m");
    assert_eq!(Color::rgb(1, 22, 255), "\x1b[38;5;1;22;255m");
    assert_eq!(Color::rgb(0, 100, 9), "\x1b[38;5;0;100;9m");
}

#[test]
fn challenge_round_trips_domain() {
    for name in ["CORP", "dömain", "A\u{1F600}B", "x"] {
        let raw = challenge(&units(name), 56);
        assert_eq!(parse_challenge(&raw), Ok(name.to_string()));
    }
}

#[test]
fn challenge_bounds_violation_is_malformed() {
    let mut raw = challenge(&units("CORP"), 48);
    raw[16..20].copy_from_slice(&50u32.to_le_bytes());
    assert_eq!(parse_challenge(&raw), Err(NtlmError::MalformedChallenge));
    for (off, len) in [(0xFFFF_FFFFu32, 2u16), (40, 0xFFFF), (57, 0)] {
        let mut raw = challenge(&units("CORP"), 48);
        raw[12..14].copy_from_slice(&len.to_le_bytes());
        raw[16..20].copy_from_slice(&off.to_le_bytes());
        assert_eq!(parse_challenge(&raw), Err(NtlmError::MalformedChallenge));
    }
    assert_eq!(parse_challenge(&vec![0u8; 19]), Err(NtlmError::MalformedChallenge));
}

#[test]
fn challenge_errors() {
    let raw = challenge(&[], 48);
    assert_eq!(parse_challenge(&raw), Err(NtlmError::NoTargetName));
    let raw = challenge(&[0xD800, 0x0041], 48);
    assert_eq!(parse_challenge(&raw), Err(NtlmError::InvalidEncoding));
    let mut raw = challenge(&units("AB"), 48);
    raw[12] = 3;
    assert_eq!(parse_challenge(&raw), Err(NtlmError::InvalidEncoding));
}

#[test]
fn parse_domain_decodes_base64() {
    let raw = challenge(&units("CONTOSO"), 56);
    let text = base64::engine::general_purpose::STANDARD.encode(&raw);
    assert_eq!(NTLM::parse_domain(&text), Ok("CONTOSO".to_string()));
    assert_eq!(NTLM::parse_domain("not base64!"), Err(NtlmError::DecodeError));
}

#[test]
fn auth_method_from_headers() {
    let none: Vec<String> = vec![];
    assert_eq!(classify_auth(Some("/owa/auth/logon.aspx"), &none), OwaAuthMethod::Form);
    assert_eq!(
        classify_auth(Some("https://login.microsoftonline.com/common/oauth2"), &none),
        OwaAuthMethod::Oauth
    );
    assert_eq!(classify_auth(Some("/elsewhere"), &none), OwaAuthMethod::Unknown);
    assert_eq!(classify_auth(None, &vec!["NTLM".to_string()]), OwaAuthMethod::Ntlm);
    assert_eq!(classify_auth(None, &vec!["Basic realm=x".to_string()]), OwaAuthMethod::Basic);
    assert_eq!(
        classify_auth(None, &vec!["Basic realm=x".to_string(), "NTLM".to_string()]),
        OwaAuthMethod::Ntlm
    );
    assert_eq!(classify_auth(None, &vec!["Negotiate".to_string()]), OwaAuthMethod::Unknown);
    assert_eq!(classify_auth(None, &none), OwaAuthMethod::Unknown);
    assert_eq!(OwaAuthMethod::Form.name(), "Form");
    assert_eq!(OwaAuthMethod::Oauth.name(), "Oauth");
}

#[test]
fn login_outcome_classification() {
    assert_eq!(classify_login(&LoginOutcome::Timeout), OwaResult::UserNotFound);
    assert_eq!(classify_login(&LoginOutcome::TransportError), OwaResult::UserExists);
    let failed = LoginOutcome::Response {
        location: Some("https://x/owa/auth/logon.aspx?reason=2".to_string()),
    };
    assert_eq!(classify_login(&failed), OwaResult::UserExists);
    let other = LoginOutcome::Response { location: Some("https://x/owa/".to_string()) };
    assert_eq!(classify_login(&other), OwaResult::PasswordValid);
    let no_reason = LoginOutcome::Response {
        location: Some("https://x/owa/auth/logon.aspx".to_string()),
    };
    assert_eq!(classify_login(&no_reason), OwaResult::PasswordValid);
    assert_eq!(classify_login(&LoginOutcome::Response { location: None }), OwaResult::PasswordValid);
}

#[test]
fn scan_stops_at_first_unauthorized() {
    let endpoints = owa_endpoints();
    assert_eq!(endpoints[0], "/ews");
    assert_eq!(endpoints.len(), 5);
    let statuses = [None, Some(200u16), Some(401), Some(401), Some(404)];
    let mut step = scan_start(endpoints.len());
    let mut probed = 0;
    let found = loop {
        match step {
            ScanStep::Probe(i) => {
                probed += 1;
                step = scan_next(endpoints.len(), i, statuses[i]);
            }
            ScanStep::Found(i) => break Some(i),
            ScanStep::NotFound => break None,
        }
    };
    assert_eq!(found, Some(2));
    assert_eq!(probed, 3);
    assert_eq!(scan_next(5, 4, Some(500)), ScanStep::NotFound);
    assert_eq!(scan_start(0), ScanStep::NotFound);
}

#[test]
fn login_form_fields() {
    let owa = Owa::new("https://mail.example.com".to_string(), Some("CORP".to_string()));
    let data = owa.get_login_data("alice", "pw");
    let expected = [
        ("destination", "https://mail.example.com/owa"),
        ("flags", "4"),
        ("forcedownlevel", "0"),
        ("username", "CORP\\alice"),
        ("password", "pw"),
        ("passwordText", ""),
        ("isUtf8", "1"),
    ];
    assert_eq!(data.len(), 7);
    for (got, want) in data.iter().zip(expected.iter()) {
        assert_eq!(got.0, want.0);
        assert_eq!(got.1, want.1);
    }
    assert_eq!(owa.login_url(), "https://mail.example.com/owa/auth.owa");
    assert_eq!(owa.auth_probe_url(), "https://mail.example.com/owa/");
    assert_eq!(owa.calibration_login_data()[3].1, "CORP\\IWillN3v3rEx1stInAD0ma!nIth1nk");
}

#[test]
fn domain_learnt_from_challenge() {
    let text = base64::engine::general_purpose::STANDARD.encode(challenge(&units("CORP"), 56));
    let header = format!("NTLM {}", text);
    let mut owa = Owa::new("https://x".to_string(), None);
    assert!(owa.needs_domain());
    assert_eq!(owa.get_domain_name(None), Err(DomainError::NoChallenge));
    assert_eq!(owa.get_domain_name(Some("Negotiate abc")), Err(DomainError::NoChallenge));
    assert_eq!(
        owa.get_domain_name(Some("NTLM ???")),
        Err(DomainError::Challenge(NtlmError::DecodeError))
    );
    assert_eq!(owa.get_domain(), "");
    assert_eq!(owa.get_domain_name(Some(&header)), Ok(()));
    assert_eq!(owa.get_domain(), "CORP");
    let mut known = Owa::new("https://x".to_string(), Some("KNOWN".to_string()));
    assert_eq!(known.get_domain_name(Some(&header)), Ok(()));
    assert_eq!(known.get_domain(), "KNOWN");
}

#[test]
fn timeout_is_half_of_baseline() {
    assert_eq!(derive_timeout(3_000_000_001), 1_500_000_000);
    assert_eq!(derive_timeout(0), 0);
}

#[test]
fn end_to_end_form_target() {
    let none: Vec<String> = vec![];
    assert_eq!(classify_auth(Some("/owa/auth/logon.aspx?url=x"), &none), OwaAuthMethod::Form);
    let owa = Owa::new("https://mail.example.com".to_string(), Some("CORP".to_string()));
    assert!(!owa.needs_domain());
    let password = "Azerty@123";
    let answers = [
        ("alice", LoginOutcome::Response {
            location: Some("https://mail.example.com/owa/auth/logon.aspx?reason=2".to_string()),
        }),
        ("bob", LoginOutcome::Response { location: None }),
    ];
    let mut sink = ResultSink::new();
    let mut outcomes = vec![];
    for (user, answer) in answers.iter() {
        let r = classify_login(answer);
        outcomes.push((user.to_string(), r));
        sink.record(user, password, r);
    }
    assert_eq!(outcomes[0], ("alice".to_string(), OwaResult::UserExists));
    assert_eq!(outcomes[1], ("bob".to_string(), OwaResult::PasswordValid));
    assert_eq!(sink.lines(), vec!["alice".to_string(), "bob:Azerty@123".to_string()]);
    assert_eq!(sink.contents(), "alice\nbob:Azerty@123\n");
}

#[test]
fn outcomes_do_not_depend_on_order() {
    let events = [
        ("a", OwaResult::UserExists),
        ("b", OwaResult::UserNotFound),
        ("c", OwaResult::PasswordValid),
        ("d", OwaResult::UserExists),
    ];
    let mut in_order = ResultSink::new();
    for (u, r) in events.iter() {
        in_order.record(u, "pw", *r);
    }
    let mut shuffled = ResultSink::new();
    for i in [3usize, 1, 0, 2] {
        shuffled.record(events[i].0, "pw", events[i].1);
    }
    let mut x = in_order.lines();
    let mut y = shuffled.lines();
    x.sort();
    y.sort();
    assert_eq!(x, y);
    assert_eq!(x, vec!["a".to_string(), "c:pw".to_string(), "d".to_string()]);
}
