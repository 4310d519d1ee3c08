//! Who is let in: what a request to register, to log in, or to be told who one is comes to.
use crate::auth;
use crate::outside;
use crate::outside::Timestamp;
use crate::state;
use crate::text;
use vstd::prelude::*;
use vstd::utf8::*;

verus! {

/// A request to register is granted exactly where registering is not disabled, the name is not blank, the
/// password has three characters or more, and the name, without the white space around it, is nobody's.
/// The answer then holds the token and the name.
pub proof fn law_who_may_register(
    v: state::AppView,
    username: Seq<char>,
    password: Seq<char>,
    token: Seq<char>,
)
    ensures
        ({
            let name = text::trimmed(username);
            let reply = auth::register_reply(v, username, password, token);
            &&& reply is Granted <==> (!v.disable_registration && name.len() > 0 && password.len()
                >= 3 && !v.users.contains_key(name))
            &&& reply is Granted ==> reply == (auth::ReplyView::Granted {
                status: 201,
                token,
                username: name,
                message: "Successfully registered and logged in!"@,
            })
        }),
{
}

/// Why a request to register is refused: registering is disabled; or else the name is blank or the
/// password has less than three characters; or else the name is taken.
pub proof fn law_why_registering_is_refused(
    v: state::AppView,
    username: Seq<char>,
    password: Seq<char>,
    token: Seq<char>,
)
    ensures
        ({
            let name = text::trimmed(username);
            let reply = auth::register_reply(v, username, password, token);
            &&& v.disable_registration ==> reply == (auth::ReplyView::Refused {
                status: 403,
                error: "New user registration has been disabled by the server administrator."@,
            })
            &&& !v.disable_registration && (name.len() == 0 || password.len() < 3) ==> reply == (
            auth::ReplyView::Refused {
                status: 400,
                error: "Username required and password must be at least 3 characters"@,
            })
            &&& !v.disable_registration && name.len() > 0 && password.len() >= 3
                && v.users.contains_key(name) ==> reply == (auth::ReplyView::Refused {
                status: 409,
                error: "Username is already registered. Please log in."@,
            })
        }),
{
}

/// Whether everything known stays as it is but for the users and their tokens.
pub open spec fn only_accounts_change(v: state::AppView, w: state::AppView) -> bool {
    &&& w.streams == v.streams
    &&& w.order == v.order
    &&& w.disable_registration == v.disable_registration
    &&& w.record_config == v.record_config
}

/// Whether only one user differs.
pub open spec fn same_but_user(v: state::AppView, w: state::AppView, name: Seq<char>) -> bool {
    &&& w.users.contains_key(name)
    &&& forall|other: Seq<char>|
        other != name ==> #[trigger] w.users.contains_key(other) == v.users.contains_key(other)
    &&& forall|other: Seq<char>| #[trigger]
        v.users.contains_key(other) && other != name ==> w.users[other] == v.users[other]
}

/// One who registers is a user under the trimmed name, with the digest of the password, the token and the
/// moment; the token stands for that name, and all other users and tokens stay. One who is refused
/// changes nothing.
pub proof fn law_what_registering_leaves(
    v: state::AppView,
    username: Seq<char>,
    password: Seq<char>,
    token: Seq<char>,
    now: Timestamp,
)
    ensures
        ({
            let name = text::trimmed(username);
            let w = auth::registered(v, username, password, token, now);
            let granted = !v.disable_registration && name.len() > 0 && password.len() >= 3
                && !v.users.contains_key(name);
            &&& granted ==> {
                &&& only_accounts_change(v, w)
                &&& same_but_user(v, w, name)
                &&& w.users[name].username == name
                &&& w.users[name].password_hash == auth::password_digest(password)
                &&& w.users[name].token == token
                &&& w.users[name].created_at == now
                &&& w.tokens == v.tokens.insert(token, name)
            }
            &&& !granted ==> w == v
        }),
{
}

/// A request to log in is granted exactly where there is a user of the trimmed name whose digest is that
/// of the password. The answer then holds the token and the name; any other is the same refusal.
pub proof fn law_who_may_log_in(
    v: state::AppView,
    username: Seq<char>,
    password: Seq<char>,
    token: Seq<char>,
)
    ensures
        ({
            let name = text::trimmed(username);
            let reply = auth::login_reply(v, username, password, token);
            let known = v.users.contains_key(name) && v.users[name].password_hash
                == auth::password_digest(password);
            &&& known ==> reply == (auth::ReplyView::Granted {
                status: 200,
                token,
                username: name,
                message: "Login successful"@,
            })
            &&& !known ==> reply == (auth::ReplyView::Refused {
                status: 401,
                error: "Invalid username or password"@,
            })
        }),
{
}

/// One who logs in has the new token, which stands for the name, and the one before stands for nobody any
/// more, unless it is the same; nothing else of the user, and no other user, changes. One who is refused
/// changes nothing.
pub proof fn law_what_logging_in_leaves(
    v: state::AppView,
    username: Seq<char>,
    password: Seq<char>,
    token: Seq<char>,
)
    ensures
        ({
            let name = text::trimmed(username);
            let w = auth::logged_in(v, username, password, token);
            let known = v.users.contains_key(name) && v.users[name].password_hash
                == auth::password_digest(password);
            &&& known ==> {
                let before = v.users[name];
                &&& only_accounts_change(v, w)
                &&& same_but_user(v, w, name)
                &&& w.users[name].token == token
                &&& w.users[name].username == before.username
                &&& w.users[name].password_hash == before.password_hash
                &&& w.users[name].created_at == before.created_at
                &&& w.tokens.contains_key(token) && w.tokens[token] == name
                &&& before.token != token ==> !w.tokens.contains_key(before.token)
                &&& forall|other: Seq<char>|
                    other != token && other != before.token ==> {
                        &&& #[trigger] w.tokens.contains_key(other) == v.tokens.contains_key(other)
                        &&& v.tokens.contains_key(other) ==> w.tokens[other] == v.tokens[other]
                    }
            }
            &&& !known ==> w == v
        }),
{
}

/// The digest of a password is the SHA-256 digest of its UTF-8 bytes in hexadecimal digits, two for each
/// byte, the high half first.
pub proof fn law_password_digest(password: Seq<char>, i: int)
    ensures
        ({
            let raw = outside::sha256(encode_utf8(password));
            let d = auth::password_digest(password);
            &&& d == text::hex_text(raw)
            &&& d.len() == 2 * raw.len()
            &&& 0 <= i < raw.len() ==> d[2 * i] == text::hex_digit(raw[i] as int / 16) && d[2 * i
                + 1] == text::hex_digit(raw[i] as int % 16)
        }),
{
    let raw = outside::sha256(encode_utf8(password));
    if 0 <= i < raw.len() {
        crate::words::law_hexadecimal(raw, i);
    }
}

/// The token in an authorization header is what follows "Bearer " at its start, however often that stands
/// there; without a header it is empty.
pub proof fn law_token_in_a_header(rest: Seq<char>)
    ensures
        auth::token_in_header(None) == Seq::<char>::empty(),
        auth::token_in_header(Some("Bearer "@ + rest)) == auth::token_in_header(Some(rest)),
        rest.len() < 7 || rest.take(7) != "Bearer "@ ==> auth::token_in_header(Some(rest)) == rest,
{
    reveal_strlit("Bearer ");
    assert("Bearer "@ =~= auth::bearer());
    crate::words::law_leading_parts_go(rest, auth::bearer());
}

/// One is known by a token exactly where it is not empty and stands for a user; the answer is then the
/// name of that user and the moment of registering. Any other is unauthorized.
pub proof fn law_who_one_is(v: state::AppView, token: Seq<char>)
    ensures
        ({
            let known = token.len() > 0 && v.tokens.contains_key(token) && v.users.contains_key(
                v.tokens[token],
            );
            &&& known ==> auth::identity(v, token) == (auth::IdentityView::Known {
                status: 200,
                username: v.users[v.tokens[token]].username,
                created_at: v.users[v.tokens[token]].created_at,
            })
            &&& !known ==> auth::identity(v, token) == (auth::IdentityView::Unknown {
                status: 401,
                error: "Unauthorized"@,
            })
        }),
{
}

/// One who has just registered is known by the token at once, and can log in with the same name and
/// password; nobody else can register under that name.
pub proof fn law_registering_is_enough(
    v: state::AppView,
    username: Seq<char>,
    password: Seq<char>,
    token: Seq<char>,
    now: Timestamp,
    other: Seq<char>,
    later: Seq<char>,
)
    requires
        !v.disable_registration,
        text::trimmed(username).len() > 0,
        password.len() >= 3,
        !v.users.contains_key(text::trimmed(username)),
        token.len() > 0,
    ensures
        ({
            let w = auth::registered(v, username, password, token, now);
            &&& auth::identity(w, token) == (auth::IdentityView::Known {
                status: 200,
                username: text::trimmed(username),
                created_at: now,
            })
            &&& auth::login_reply(w, username, password, later) == (auth::ReplyView::Granted {
                status: 200,
                token: later,
                username: text::trimmed(username),
                message: "Login successful"@,
            })
            &&& auth::register_reply(w, username, other, later) is Refused
        }),
{
}

} // verus!
