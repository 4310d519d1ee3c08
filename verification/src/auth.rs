//! Who may watch: registering, logging in, and what a request is answered.
use crate::outside;
use crate::outside::Timestamp;
use crate::state;
use crate::state::AppState;
use crate::text;
use crate::types;
use crate::types::User;
use vstd::prelude::*;
use vstd::utf8::*;

verus! {

/// A name and a password.
#[derive(Debug)]
pub struct AuthRequest {
    pub username: String,
    pub password: String,
}

/// The answer to one who is let in.
#[derive(Debug)]
pub struct AuthResponse {
    pub token: String,
    pub username: String,
    pub message: String,
}

/// The answer to one who is not.
#[derive(Debug)]
pub struct ErrorResponse {
    pub error: String,
}

/// An answer, with its HTTP status.
#[derive(Debug)]
pub enum AuthReply {
    Granted { status: u16, body: AuthResponse },
    Refused { status: u16, refusal: ErrorResponse },
}

/// An answer, by its texts.
pub enum ReplyView {
    Granted { status: u16, token: Seq<char>, username: Seq<char>, message: Seq<char> },
    Refused { status: u16, error: Seq<char> },
}

impl View for AuthReply {
    type V = ReplyView;

    open spec fn view(&self) -> ReplyView {
        match *self {
            AuthReply::Granted { status, body } => ReplyView::Granted {
                status,
                token: body.token@,
                username: body.username@,
                message: body.message@,
            },
            AuthReply::Refused { status, refusal } => ReplyView::Refused {
                status,
                error: refusal.error@,
            },
        }
    }
}

/// What is kept of a password: the hexadecimal digits of the SHA-256 digest of its UTF-8 bytes.
pub open spec fn password_digest(password: Seq<char>) -> Seq<char> {
    text::hex_text(outside::sha256(encode_utf8(password)))
}

/// What is kept of a password.
pub fn hash_password(password: &str) -> (r: String)
    ensures
        r@ == password_digest(password@),
        r@.len() == 64,
{
    let digest: Vec<u8> = outside::sha256_digest(password.as_bytes());
    text::hex_of(digest.as_slice())
}

/// Whether a name and a password can be registered at all: the name is not blank, and the
/// password has at least three characters.
pub open spec fn acceptable(username: Seq<char>, password: Seq<char>) -> bool {
    text::trimmed(username).len() > 0 && password.len() >= 3
}

/// What a request to register is answered.
pub open spec fn register_reply(
    v: state::AppView,
    username: Seq<char>,
    password: Seq<char>,
    token: Seq<char>,
) -> ReplyView {
    let name = text::trimmed(username);
    if v.disable_registration {
        ReplyView::Refused {
            status: 403,
            error: "New user registration has been disabled by the server administrator."@,
        }
    } else if !acceptable(username, password) {
        ReplyView::Refused {
            status: 400,
            error: "Username required and password must be at least 3 characters"@,
        }
    } else if v.users.contains_key(name) {
        ReplyView::Refused {
            status: 409,
            error: "Username is already registered. Please log in."@,
        }
    } else {
        ReplyView::Granted {
            status: 201,
            token,
            username: name,
            message: "Successfully registered and logged in!"@,
        }
    }
}

/// Everything known after a request to register: where it was granted, a new user with a token.
pub open spec fn registered(
    v: state::AppView,
    username: Seq<char>,
    password: Seq<char>,
    token: Seq<char>,
    now: Timestamp,
) -> state::AppView {
    let name = text::trimmed(username);
    if register_reply(v, username, password, token) is Granted {
        state::AppView {
            users: v.users.insert(
                name,
                types::UserView {
                    username: name,
                    password_hash: password_digest(password),
                    token,
                    created_at: now,
                },
            ),
            tokens: v.tokens.insert(token, name),
            ..v
        }
    } else {
        v
    }
}

/// Whether a name and a password belong to a user.
pub open spec fn credentials_match(
    v: state::AppView,
    username: Seq<char>,
    password: Seq<char>,
) -> bool {
    let name = text::trimmed(username);
    v.users.contains_key(name) && v.users[name].password_hash == password_digest(password)
}

/// What a request to log in is answered.
pub open spec fn login_reply(
    v: state::AppView,
    username: Seq<char>,
    password: Seq<char>,
    token: Seq<char>,
) -> ReplyView {
    if credentials_match(v, username, password) {
        ReplyView::Granted {
            status: 200,
            token,
            username: text::trimmed(username),
            message: "Login successful"@,
        }
    } else {
        ReplyView::Refused { status: 401, error: "Invalid username or password"@ }
    }
}

/// Everything known after a request to log in: where it was granted, the user's token is a new
/// one, and the one before stands for nobody.
pub open spec fn logged_in(
    v: state::AppView,
    username: Seq<char>,
    password: Seq<char>,
    token: Seq<char>,
) -> state::AppView {
    let name = text::trimmed(username);
    if credentials_match(v, username, password) {
        state::AppView {
            users: v.users.insert(name, types::UserView { token, ..v.users[name] }),
            tokens: v.tokens.remove(v.users[name].token).insert(token, name),
            ..v
        }
    } else {
        v
    }
}

/// "Bearer "
pub open spec fn bearer() -> Seq<char> {
    seq!['B', 'e', 'a', 'r', 'e', 'r', ' ']
}

/// The token in an authorization header: what follows "Bearer ", or the empty text without a
/// header.
pub open spec fn token_in_header(header: Option<Seq<char>>) -> Seq<char> {
    match header {
        Some(h) => text::without_leading(h, bearer()),
        None => Seq::empty(),
    }
}

/// The token in an authorization header.
pub fn bearer_token(header: Option<&str>) -> (r: String)
    ensures
        r@ == token_in_header(match header {
            Some(h) => Some(h@),
            None => None,
        }),
{
    proof {
        reveal_strlit("Bearer ");
        assert("Bearer "@ =~= bearer());
    }
    match header {
        Some(h) => text::trim_leading(h, "Bearer ").to_owned(),
        None => String::new(),
    }
}

/// Who one is, with the HTTP status of the answer.
#[derive(Debug)]
pub enum Identity {
    Known { status: u16, username: String, created_at: Timestamp },
    Unknown { status: u16, error: String },
}

/// Who one is, by the texts of the answer.
pub enum IdentityView {
    Known { status: u16, username: Seq<char>, created_at: Timestamp },
    Unknown { status: u16, error: Seq<char> },
}

impl View for Identity {
    type V = IdentityView;

    open spec fn view(&self) -> IdentityView {
        match *self {
            Identity::Known { status, username, created_at } => IdentityView::Known {
                status,
                username: username@,
                created_at,
            },
            Identity::Unknown { status, error } => IdentityView::Unknown { status, error: error@ },
        }
    }
}

/// Who the one with a token is.
pub open spec fn identity(v: state::AppView, token: Seq<char>) -> IdentityView {
    match state::holder(v, token) {
        Some(u) => IdentityView::Known {
            status: 200,
            username: u.username,
            created_at: u.created_at,
        },
        None => IdentityView::Unknown { status: 401, error: "Unauthorized"@ },
    }
}

/// A refusal with its text.
fn refuse(status: u16, error: &str) -> (r: AuthReply)
    ensures
        r@ == (ReplyView::Refused { status, error: error@ }),
{
    AuthReply::Refused { status, refusal: ErrorResponse { error: error.to_owned() } }
}

/// A grant with its text.
fn grant(status: u16, token: String, username: String, message: &str) -> (r: AuthReply)
    ensures
        r@ == (ReplyView::Granted { status, token: token@, username: username@, message: message@ }),
{
    AuthReply::Granted {
        status,
        body: AuthResponse { token, username, message: message.to_owned() },
    }
}

impl AppState {
    /// Answers a request to register, with the token and the moment that a new user gets.
    pub fn register_with(&mut self, request: &AuthRequest, token: String, now: Timestamp) -> (r:
        AuthReply)
        requires
            old(self).wf(),
        ensures
            final(self).wf(),
            final(self)@ == registered(
                old(self)@,
                request.username@,
                request.password@,
                token@,
                now,
            ),
            r@ == register_reply(old(self)@, request.username@, request.password@, token@),
    {
        if self.disable_registration {
            return refuse(
                403,
                "New user registration has been disabled by the server administrator.",
            );
        }
        let username: String = text::trim(request.username.as_str()).to_owned();
        if username.as_str().is_empty() || text::chars_of(request.password.as_str()).len() < 3 {
            return refuse(
                400,
                "Username required and password must be at least 3 characters",
            );
        }
        if self.users.contains_key(username.as_str()) {
            return refuse(409, "Username is already registered. Please log in.");
        }
        let user = User {
            username: username.clone(),
            password_hash: hash_password(request.password.as_str()),
            token: token.clone(),
            created_at: now,
        };
        self.users.insert(username.clone(), user);
        self.tokens.insert(token.clone(), username.clone());
        proof {
            let after = registered(
                old(self)@,
                request.username@,
                request.password@,
                token@,
                now,
            );
            assert(self@.users =~= after.users);
            assert(self@.tokens =~= after.tokens);
        }
        grant(201, token, username, "Successfully registered and logged in!")
    }

    /// Answers a request to register.
    pub fn register(&mut self, request: &AuthRequest) -> (r: AuthReply)
        requires
            old(self).wf(),
        ensures
            final(self).wf(),
            exists|token: Seq<char>, now: Timestamp|
                {
                    &&& outside::chance_may_give(token) && outside::uuid_text(token)
                    &&& outside::clock_may_give(now.secs, now.nanos)
                    &&& final(self)@ == #[trigger] registered(
                        old(self)@,
                        request.username@,
                        request.password@,
                        token,
                        now,
                    )
                    &&& r@ == register_reply(
                        old(self)@,
                        request.username@,
                        request.password@,
                        token,
                    )
                },
    {
        let token: String = outside::random_uuid();
        let now: Timestamp = outside::utc_now();
        let ghost t = token@;
        let r = self.register_with(request, token, now);
        assert(self@ == registered(old(self)@, request.username@, request.password@, t, now));
        r
    }

    /// Answers a request to log in, with the token that the user gets.
    pub fn login_with(&mut self, request: &AuthRequest, token: String) -> (r: AuthReply)
        requires
            old(self).wf(),
        ensures
            final(self).wf(),
            final(self)@ == logged_in(old(self)@, request.username@, request.password@, token@),
            r@ == login_reply(old(self)@, request.username@, request.password@, token@),
    {
        let username: String = text::trim(request.username.as_str()).to_owned();
        let password_hash: String = hash_password(request.password.as_str());
        let mut former: Option<String> = None;
        if let Some(user) = self.users.get_mut(username.as_str()) {
            if text::same_text(user.password_hash.as_str(), password_hash.as_str()) {
                former = Some(user.token.clone());
                user.token = token.clone();
            }
        }
        match former {
            Some(old_token) => {
                self.tokens.remove(old_token.as_str());
                self.tokens.insert(token.clone(), username.clone());
                proof {
                    let after = logged_in(
                        old(self)@,
                        request.username@,
                        request.password@,
                        token@,
                    );
                    assert(self@.users =~= after.users);
                    assert(self@.tokens =~= after.tokens);
                }
                grant(200, token, username, "Login successful")
            },
            None => {
                assert(self@.users =~= old(self)@.users);
                refuse(401, "Invalid username or password")
            },
        }
    }

    /// Answers a request to log in.
    pub fn login(&mut self, request: &AuthRequest) -> (r: AuthReply)
        requires
            old(self).wf(),
        ensures
            final(self).wf(),
            exists|token: Seq<char>|
                {
                    &&& outside::chance_may_give(token) && outside::uuid_text(token)
                    &&& final(self)@ == #[trigger] logged_in(
                        old(self)@,
                        request.username@,
                        request.password@,
                        token,
                    )
                    &&& r@ == login_reply(
                        old(self)@,
                        request.username@,
                        request.password@,
                        token,
                    )
                },
    {
        let token: String = outside::random_uuid();
        let ghost t = token@;
        let r = self.login_with(request, token);
        assert(self@ == logged_in(old(self)@, request.username@, request.password@, t));
        r
    }

    /// Answers the question who the one with an authorization header is.
    pub fn whoami(&self, header: Option<&str>) -> (r: Identity)
        requires
            self.wf(),
        ensures
            r@ == identity(
                self@,
                token_in_header(match header {
                    Some(h) => Some(h@),
                    None => None,
                }),
            ),
    {
        let token: String = bearer_token(header);
        match self.verify_token(token.as_str()) {
            Some(user) => Identity::Known {
                status: 200,
                username: user.username,
                created_at: user.created_at,
            },
            None => Identity::Unknown { status: 401, error: "Unauthorized".to_owned() },
        }
    }
}

} // verus!
