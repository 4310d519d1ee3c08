//! What holds of accounts and their tokens, over any number of requests.
use crate::auth;
use crate::outside;
use crate::outside::Timestamp;
use crate::state;
use crate::text;
use crate::types;
use vstd::prelude::*;
use vstd::utf8::*;

verus! {

/// Each user is kept under its own name and has exactly one token, which stands for that user.
pub open spec fn sessions_agree(v: state::AppView) -> bool {
    &&& forall|name: Seq<char>| #[trigger]
        v.users.contains_key(name) ==> {
            &&& v.users[name].username == name
            &&& v.tokens.contains_key(v.users[name].token)
            &&& v.tokens[v.users[name].token] == name
        }
    &&& forall|token: Seq<char>| #[trigger]
        v.tokens.contains_key(token) ==> {
            &&& v.users.contains_key(v.tokens[token])
            &&& v.users[v.tokens[token]].token == token
        }
}

/// A server that knows no user yet has no token without a user.
pub proof fn law_sessions_agree_at_first(v: state::AppView)
    requires
        v.users == Map::<Seq<char>, types::UserView>::empty(),
        v.tokens == Map::<Seq<char>, Seq<char>>::empty(),
    ensures
        sessions_agree(v),
{
}

/// A request to register leaves each user with exactly one token, as long as the token that it
/// hands out is not in use.
pub proof fn law_registering_keeps_sessions(
    v: state::AppView,
    username: Seq<char>,
    password: Seq<char>,
    token: Seq<char>,
    now: Timestamp,
)
    requires
        sessions_agree(v),
        !v.tokens.contains_key(token),
    ensures
        sessions_agree(auth::registered(v, username, password, token, now)),
{
    let w = auth::registered(v, username, password, token, now);
    let name = text::trimmed(username);
    if auth::register_reply(v, username, password, token) is Granted {
        assert forall|n: Seq<char>| #[trigger] w.users.contains_key(n) implies {
            &&& w.users[n].username == n
            &&& w.tokens.contains_key(w.users[n].token)
            &&& w.tokens[w.users[n].token] == n
        } by {
            if n != name {
                assert(v.users.contains_key(n));
            }
        }
        assert forall|t: Seq<char>| #[trigger] w.tokens.contains_key(t) implies {
            &&& w.users.contains_key(w.tokens[t])
            &&& w.users[w.tokens[t]].token == t
        } by {
            if t != token {
                assert(v.tokens.contains_key(t));
            }
        }
    }
}

/// A request to log in leaves each user with exactly one token, as long as the token that it
/// hands out is not in use.
pub proof fn law_logging_in_keeps_sessions(
    v: state::AppView,
    username: Seq<char>,
    password: Seq<char>,
    token: Seq<char>,
)
    requires
        sessions_agree(v),
        !v.tokens.contains_key(token),
    ensures
        sessions_agree(auth::logged_in(v, username, password, token)),
{
    let w = auth::logged_in(v, username, password, token);
    let name = text::trimmed(username);
    if auth::credentials_match(v, username, password) {
        assert forall|n: Seq<char>| #[trigger] w.users.contains_key(n) implies {
            &&& w.users[n].username == n
            &&& w.tokens.contains_key(w.users[n].token)
            &&& w.tokens[w.users[n].token] == n
        } by {
            assert(v.users.contains_key(n));
        }
        assert forall|t: Seq<char>| #[trigger] w.tokens.contains_key(t) implies {
            &&& w.users.contains_key(w.tokens[t])
            &&& w.users[w.tokens[t]].token == t
        } by {
            if t != token {
                assert(v.tokens.contains_key(t));
            }
        }
    }
}

/// The token that a granted registration hands out stands for the new user.
pub proof fn law_registration_lets_in(
    v: state::AppView,
    username: Seq<char>,
    password: Seq<char>,
    token: Seq<char>,
    now: Timestamp,
)
    requires
        auth::register_reply(v, username, password, token) is Granted,
        token.len() > 0,
    ensures
        state::holder(auth::registered(v, username, password, token, now), token) == Some(
            types::UserView {
                username: text::trimmed(username),
                password_hash: auth::password_digest(password),
                token,
                created_at: now,
            },
        ),
{
}

/// One who has registered can log in with the same name and password.
pub proof fn law_login_after_registration(
    v: state::AppView,
    username: Seq<char>,
    password: Seq<char>,
    token: Seq<char>,
    now: Timestamp,
    next: Seq<char>,
)
    requires
        auth::register_reply(v, username, password, token) is Granted,
    ensures
        auth::login_reply(
            auth::registered(v, username, password, token, now),
            username,
            password,
            next,
        ) == (auth::ReplyView::Granted {
            status: 200,
            token: next,
            username: text::trimmed(username),
            message: "Login successful"@,
        }),
{
}

/// Two numbers below sixteen with the same hexadecimal digit are the same.
proof fn lemma_hex_digit_injective(m: int, n: int)
    requires
        0 <= m < 16,
        0 <= n < 16,
        text::hex_digit(m) == text::hex_digit(n),
    ensures
        m == n,
{
}

/// Where the digits of a byte stand.
proof fn lemma_hex_text_digits(b: Seq<u8>, i: int)
    requires
        0 <= i < b.len(),
    ensures
        text::hex_text(b)[2 * i] == text::hex_digit(b[i] as int / 16),
        text::hex_text(b)[2 * i + 1] == text::hex_digit(b[i] as int % 16),
{
    assert((2 * i) / 2 == i && (2 * i) % 2 == 0);
    assert((2 * i + 1) / 2 == i && (2 * i + 1) % 2 == 1);
}

/// Two runs of bytes with the same hexadecimal digits are the same.
proof fn lemma_hex_text_injective(a: Seq<u8>, b: Seq<u8>)
    requires
        text::hex_text(a) == text::hex_text(b),
    ensures
        a == b,
{
    assert(text::hex_text(a).len() == 2 * a.len());
    assert(text::hex_text(b).len() == 2 * b.len());
    assert forall|i: int| 0 <= i < a.len() implies a[i] == b[i] by {
        lemma_hex_text_digits(a, i);
        lemma_hex_text_digits(b, i);
        lemma_hex_digit_injective(a[i] as int / 16, b[i] as int / 16);
        lemma_hex_digit_injective(a[i] as int % 16, b[i] as int % 16);
    }
    assert(a =~= b);
}

/// One who has registered can log in under that name with exactly the passwords that have the
/// same SHA-256 digest as the one that was registered.
pub proof fn law_login_needs_the_password(
    v: state::AppView,
    username: Seq<char>,
    password: Seq<char>,
    token: Seq<char>,
    now: Timestamp,
    tried: Seq<char>,
)
    requires
        auth::register_reply(v, username, password, token) is Granted,
    ensures
        auth::credentials_match(
            auth::registered(v, username, password, token, now),
            username,
            tried,
        ) <==> outside::sha256(encode_utf8(tried)) == outside::sha256(encode_utf8(password)),
{
    let a = outside::sha256(encode_utf8(tried));
    let b = outside::sha256(encode_utf8(password));
    if text::hex_text(a) == text::hex_text(b) {
        lemma_hex_text_injective(a, b);
    }
}

/// After logging in, the new token stands for the user, and the one before stands for nobody
/// unless it is the same.
pub proof fn law_login_replaces_the_token(
    v: state::AppView,
    username: Seq<char>,
    password: Seq<char>,
    token: Seq<char>,
)
    requires
        auth::credentials_match(v, username, password),
        token.len() > 0,
    ensures
        ({
            let w = auth::logged_in(v, username, password, token);
            let user = v.users[text::trimmed(username)];
            &&& state::holder(w, token) == Some(types::UserView { token, ..user })
            &&& user.token != token ==> state::holder(w, user.token) is None
        }),
{
}

/// Registering and logging in leave the tokens of all other users as they are.
pub proof fn law_others_stay_logged_in(
    v: state::AppView,
    username: Seq<char>,
    password: Seq<char>,
    token: Seq<char>,
    now: Timestamp,
    other: Seq<char>,
)
    requires
        sessions_agree(v),
        !v.tokens.contains_key(token),
        v.tokens.contains_key(other),
        v.tokens[other] != text::trimmed(username),
    ensures
        state::holder(auth::registered(v, username, password, token, now), other) == state::holder(
            v,
            other,
        ),
        state::holder(auth::logged_in(v, username, password, token), other) == state::holder(
            v,
            other,
        ),
{
    let name = text::trimmed(username);
    if auth::credentials_match(v, username, password) {
        assert(v.users.contains_key(name));
        assert(v.users[name].token != other);
    }
}

/// A refused request changes nothing.
pub proof fn law_refused_changes_nothing(
    v: state::AppView,
    username: Seq<char>,
    password: Seq<char>,
    token: Seq<char>,
    now: Timestamp,
)
    ensures
        auth::register_reply(v, username, password, token) is Refused ==> auth::registered(
            v,
            username,
            password,
            token,
            now,
        ) == v,
        auth::login_reply(v, username, password, token) is Refused ==> auth::logged_in(
            v,
            username,
            password,
            token,
        ) == v,
{
}

/// A name can be registered only once: whoever asks for it afterwards is refused.
pub proof fn law_name_is_taken(
    v: state::AppView,
    username: Seq<char>,
    password: Seq<char>,
    token: Seq<char>,
    now: Timestamp,
    again: Seq<char>,
    password_again: Seq<char>,
    token_again: Seq<char>,
)
    requires
        auth::register_reply(v, username, password, token) is Granted,
        text::trimmed(again) == text::trimmed(username),
    ensures
        auth::register_reply(
            auth::registered(v, username, password, token, now),
            again,
            password_again,
            token_again,
        ) is Refused,
        auth::acceptable(again, password_again) ==> auth::register_reply(
            auth::registered(v, username, password, token, now),
            again,
            password_again,
            token_again,
        ) == (auth::ReplyView::Refused {
            status: 409,
            error: "Username is already registered. Please log in."@,
        }),
{
}

/// While registration is disabled, the users stay the same but for their tokens.
pub proof fn law_no_new_users_while_disabled(
    v: state::AppView,
    username: Seq<char>,
    password: Seq<char>,
    token: Seq<char>,
    now: Timestamp,
)
    requires
        v.disable_registration,
    ensures
        auth::registered(v, username, password, token, now) == v,
        auth::logged_in(v, username, password, token).users.dom() == v.users.dom(),
        auth::logged_in(v, username, password, token).disable_registration,
{
    let w = auth::logged_in(v, username, password, token);
    assert(w.users.dom() =~= v.users.dom());
}

/// Texts that are trimmed once are trimmed for good.
pub proof fn lemma_trimmed_twice(s: Seq<char>)
    ensures
        text::trimmed(text::trimmed(s)) == text::trimmed(s),
{
    lemma_start_trimmed(s);
    let a = text::trimmed_start(s);
    lemma_end_trimmed(a);
    let b = text::trimmed_end(a);
    assert(text::trimmed_start(b) == b);
    assert(text::trimmed_end(b) == b);
}

proof fn lemma_start_trimmed(s: Seq<char>)
    ensures
        text::trimmed_start(s).len() > 0 ==> !text::white_space(text::trimmed_start(s)[0]),
    decreases s.len(),
{
    if s.len() > 0 && text::white_space(s[0]) {
        lemma_start_trimmed(s.skip(1));
    }
}

proof fn lemma_end_trimmed(s: Seq<char>)
    ensures
        text::trimmed_end(s).is_prefix_of(s),
        text::trimmed_end(s).len() > 0 ==> !text::white_space(text::trimmed_end(s).last()),
        text::trimmed_end(s).len() > 0 ==> text::trimmed_end(s)[0] == s[0],
    decreases s.len(),
{
    if s.len() > 0 && text::white_space(s.last()) {
        lemma_end_trimmed(s.drop_last());
        let t = text::trimmed_end(s);
        assert(s.subrange(0, t.len() as int) =~= s.drop_last().subrange(0, t.len() as int));
    } else {
        assert(s.subrange(0, s.len() as int) =~= s);
    }
}

/// White space around a name does not count: a request is answered, and has the same effect, as
/// one with the bare name.
pub proof fn law_blanks_around_a_name_do_not_count(
    v: state::AppView,
    username: Seq<char>,
    password: Seq<char>,
    token: Seq<char>,
    now: Timestamp,
)
    ensures
        ({
            let bare = text::trimmed(username);
            &&& auth::register_reply(v, bare, password, token) == auth::register_reply(
                v,
                username,
                password,
                token,
            )
            &&& auth::registered(v, bare, password, token, now) == auth::registered(
                v,
                username,
                password,
                token,
                now,
            )
            &&& auth::login_reply(v, bare, password, token) == auth::login_reply(
                v,
                username,
                password,
                token,
            )
            &&& auth::logged_in(v, bare, password, token) == auth::logged_in(
                v,
                username,
                password,
                token,
            )
        }),
{
    lemma_trimmed_twice(username);
}

/// A header of "Bearer " and a token gives the token, unless the token itself starts so.
pub proof fn law_header_gives_the_token(token: Seq<char>)
    requires
        !auth::bearer().is_prefix_of(token),
    ensures
        auth::token_in_header(Some(auth::bearer() + token)) == token,
{
    let h = auth::bearer() + token;
    assert(h.subrange(0, 7) =~= auth::bearer());
    assert(h.skip(7) =~= token);
    reveal_with_fuel(text::without_leading, 2);
}

/// One who has logged in is known by the token, in a header as it is sent.
pub proof fn law_known_after_login(
    v: state::AppView,
    username: Seq<char>,
    password: Seq<char>,
    token: Seq<char>,
)
    requires
        auth::credentials_match(v, username, password),
        outside::uuid_text(token),
    ensures
        ({
            let user = v.users[text::trimmed(username)];
            auth::identity(
                auth::logged_in(v, username, password, token),
                auth::token_in_header(Some(auth::bearer() + token)),
            ) == (auth::IdentityView::Known {
                status: 200,
                username: user.username,
                created_at: user.created_at,
            })
        }),
{
    if auth::bearer().is_prefix_of(token) {
        assert(token.subrange(0, 7)[0] == 'B');
        assert(outside::lower_hex(token[0]));
    }
    law_header_gives_the_token(token);
}

/// A server that starts with the users and tokens that another kept knows the same tokens for the
/// same users.
pub proof fn law_restart_keeps_sessions(v: state::AppView, w: state::AppView, token: Seq<char>)
    requires
        w.users == v.users,
        w.tokens == v.tokens,
    ensures
        state::holder(w, token) == state::holder(v, token),
        auth::identity(w, token) == auth::identity(v, token),
{
}

} // verus!
