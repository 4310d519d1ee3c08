use castr::auth::{bearer_token, hash_password, AuthReply, AuthRequest, Identity};
use castr::outside::Timestamp;
use castr::state::AppState;
use castr::types::{RecordConfig, RecordOverflowAction};

fn config() -> RecordConfig {
    RecordConfig {
        enabled: false,
        max_size_bytes: 100,
        overflow_action: RecordOverflowAction::Archive,
        max_archived_files: 0,
    }
}

fn server() -> AppState {
    AppState::new(false, config(), None)
}

fn request(username: &str, password: &str) -> AuthRequest {
    AuthRequest { username: username.to_string(), password: password.to_string() }
}

fn at(secs: i64) -> Timestamp {
    Timestamp { secs, nanos: 0 }
}

fn refusal(reply: &AuthReply) -> (u16, &str) {
    match reply {
        AuthReply::Refused { status, refusal } => (*status, refusal.error.as_str()),
        AuthReply::Granted { .. } => panic!("granted"),
    }
}

fn granted(reply: &AuthReply) -> (u16, &str, &str, &str) {
    match reply {
        AuthReply::Granted { status, body } => {
            (*status, body.token.as_str(), body.username.as_str(), body.message.as_str())
        }
        AuthReply::Refused { .. } => panic!("refused"),
    }
}

#[test]
fn passwords_are_kept_as_sha256() {
    assert_eq!(
        hash_password("abc"),
        "ba7816bf8f01cfea414140de5dae2223b00361a396177a9cb410ff61f20015ad"
    );
    assert_eq!(
        hash_password(""),
        "e3b0c44298fc1c149afbf4c8996fb92427ae41e4649b934ca495991b7852b855"
    );
    assert_ne!(hash_password("secret"), "secret");
}

#[test]
fn registration_gives_a_token_that_stands_for_the_user() {
    let mut s = server();
    let r = s.register_with(&request("  alice ", "abc"), "t1".to_string(), at(7));
    assert_eq!(granted(&r), (201, "t1", "alice", "Successfully registered and logged in!"));
    let user = s.verify_token("t1").unwrap();
    assert_eq!(user.username, "alice");
    assert_eq!(user.token, "t1");
    assert_eq!(user.created_at, at(7));
    assert_eq!(
        user.password_hash,
        "ba7816bf8f01cfea414140de5dae2223b00361a396177a9cb410ff61f20015ad"
    );
    assert!(s.verify_token("").is_none());
    assert!(s.verify_token("t2").is_none());
}

#[test]
fn registration_is_refused_where_it_is_disabled() {
    let mut s = AppState::new(true, config(), None);
    let r = s.register_with(&request("alice", "abc"), "t1".to_string(), at(7));
    assert_eq!(
        refusal(&r),
        (403, "New user registration has been disabled by the server administrator.")
    );
    assert!(s.verify_token("t1").is_none());
    assert_eq!(s.save_auth().users.len(), 0);
}

#[test]
fn registration_needs_a_name_and_three_characters_of_password() {
    let text = "Username required and password must be at least 3 characters";
    let mut s = server();
    assert_eq!(refusal(&s.register(&request("", "abc"))), (400, text));
    assert_eq!(refusal(&s.register(&request(" \t ", "abc"))), (400, text));
    assert_eq!(refusal(&s.register(&request("bob", "ab"))), (400, text));
    assert_eq!(refusal(&s.register(&request("bob", "\u{e9}a"))), (400, text));
    assert_eq!(refusal(&s.register(&request("bob", "\u{1f600}"))), (400, text));
    assert_eq!(s.save_auth().users.len(), 0);
    assert_eq!(granted(&s.register(&request("bob", "\u{e9}ab"))).2, "bob");
}

#[test]
fn name_is_registered_once() {
    let mut s = server();
    s.register_with(&request("alice", "abc"), "t1".to_string(), at(7));
    let r = s.register_with(&request(" alice", "other"), "t2".to_string(), at(8));
    assert_eq!(refusal(&r), (409, "Username is already registered. Please log in."));
    assert!(s.verify_token("t2").is_none());
    assert_eq!(s.verify_token("t1").unwrap().created_at, at(7));
    assert_eq!(granted(&s.register(&request("Alice", "abc"))).2, "Alice");
}

#[test]
fn login_replaces_the_token() {
    let mut s = server();
    s.register_with(&request("alice", "abc"), "t1".to_string(), at(7));
    s.register_with(&request("bob", "xyz"), "t2".to_string(), at(8));
    let r = s.login_with(&request("alice ", "abc"), "t3".to_string());
    assert_eq!(granted(&r), (200, "t3", "alice", "Login successful"));
    assert!(s.verify_token("t1").is_none());
    assert_eq!(s.verify_token("t3").unwrap().username, "alice");
    assert_eq!(s.verify_token("t3").unwrap().created_at, at(7));
    assert_eq!(s.verify_token("t2").unwrap().username, "bob");
    assert_eq!(s.save_auth().tokens.len(), 2);
}

#[test]
fn login_is_refused_without_the_password() {
    let mut s = server();
    s.register_with(&request("alice", "abc"), "t1".to_string(), at(7));
    let text = "Invalid username or password";
    assert_eq!(refusal(&s.login(&request("alice", "abd"))), (401, text));
    assert_eq!(refusal(&s.login(&request("carol", "abc"))), (401, text));
    assert_eq!(refusal(&s.login(&request("alice", ""))), (401, text));
    assert_eq!(s.verify_token("t1").unwrap().token, "t1");
}

#[test]
fn tokens_are_random_identifiers() {
    let mut s = server();
    let first = granted(&s.register(&request("alice", "abc"))).1.to_string();
    let second = granted(&s.login(&request("alice", "abc"))).1.to_string();
    assert_ne!(first, second);
    for token in [&first, &second] {
        assert_eq!(token.len(), 36);
        for (i, c) in token.chars().enumerate() {
            if i == 8 || i == 13 || i == 18 || i == 23 {
                assert_eq!(c, '-');
            } else {
                assert!(c.is_ascii_digit() || ('a'..='f').contains(&c));
            }
        }
        assert_eq!(token.as_bytes()[14], b'4');
        assert!(b"89ab".contains(&token.as_bytes()[19]));
    }
    assert!(s.verify_token(&first).is_none());
    let user = s.verify_token(&second).unwrap();
    assert_eq!(user.token, second);
    assert!(user.created_at.secs > 1_700_000_000);
    assert!(user.created_at.nanos < 1_000_000_000);
}

#[test]
fn header_gives_the_token() {
    assert_eq!(bearer_token(Some("Bearer abc")), "abc");
    assert_eq!(bearer_token(Some("abc")), "abc");
    assert_eq!(bearer_token(Some("Bearer Bearer abc")), "abc");
    assert_eq!(bearer_token(Some("bearer abc")), "bearer abc");
    assert_eq!(bearer_token(None), "");
}

#[test]
fn one_is_known_by_the_token() {
    let mut s = server();
    s.register_with(&request("alice", "abc"), "t1".to_string(), at(7));
    match s.whoami(Some("Bearer t1")) {
        Identity::Known { status, username, created_at } => {
            assert_eq!((status, username.as_str(), created_at), (200, "alice", at(7)));
        }
        Identity::Unknown { .. } => panic!("unknown"),
    }
    for header in [None, Some("Bearer "), Some("Bearer t2"), Some("")] {
        match s.whoami(header) {
            Identity::Unknown { status, error } => {
                assert_eq!((status, error.as_str()), (401, "Unauthorized"));
            }
            Identity::Known { .. } => panic!("known"),
        }
    }
}

#[test]
fn accounts_outlast_the_server() {
    let mut s = server();
    s.register_with(&request("alice", "abc"), "t1".to_string(), at(7));
    let kept = s.save_auth();
    let mut again = AppState::new(true, config(), Some(kept));
    assert_eq!(again.verify_token("t1").unwrap().username, "alice");
    assert_eq!(granted(&again.login_with(&request("alice", "abc"), "t2".to_string())).1, "t2");
    assert!(again.verify_token("t1").is_none());
    assert_eq!(again.get_stream_list().len(), 0);
}
