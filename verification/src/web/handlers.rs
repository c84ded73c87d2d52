//! Pages and login.

use vstd::prelude::*;

use crate::auth::{
    claims_json, generate_stateless_nonce, hash_password_sha256, is_good_nonce, is_timely,
    jwt_encode, law_cookie_opens_session, law_nonce_is_good_for_a_minute, nonce_at, session_of,
    text_digest, token_for, verify_stateless_nonce, Claims, Session,
};
use crate::text::{
    concat2, concat3, eq_ignore_ascii_case, opt_str, opt_text, pieces, same_but_case, split, texts,
    trim, trimmed,
};

verus! {

/// An error that a request is answered with.
#[derive(Debug, Clone, PartialEq, Eq)]
pub struct AppError(pub String);

/// What the login form sends: the challenge, and what was made of it and the password.
#[derive(Debug, Clone, PartialEq, Eq)]
pub struct LoginPayload {
    pub username: String,
    pub nonce: String,
    pub response: String,
}

/// A challenge for the login form.
#[derive(Debug, Clone, PartialEq, Eq)]
pub struct NonceResponse {
    pub nonce: String,
}

/// The challenge for the login form.
pub fn get_nonce_handler(jwt_secret: &str, now: u64) -> (r: NonceResponse)
    ensures
        r.nonce@ == nonce_at(jwt_secret@, now),
{
    NonceResponse { nonce: generate_stateless_nonce(jwt_secret, now) }
}

/// The client that a proxy names: the first address in `X-Forwarded-For`.
pub open spec fn forwarded_client(header: Option<Seq<char>>) -> Seq<char> {
    match header {
        Some(h) => trimmed(pieces(h, ',')[0]),
        None => "unknown"@,
    }
}

/// The address of the client, given the `X-Forwarded-For` header.
pub fn client_ip(forwarded_for: Option<&str>) -> (r: String)
    ensures
        r@ == forwarded_client(opt_str(forwarded_for)),
{
    match forwarded_for {
        Some(h) => {
            let parts = split(h, ',');
            proof {
                assert(pieces(h@, ',').len() > 0);
                assert(texts(parts@).len() == parts@.len());
                assert(pieces(h@, ',')[0] == parts@[0]@);
            }
            trim(parts[0]).to_owned()
        },
        None => "unknown".to_owned(),
    }
}

/// What a request for a page is answered with.
#[derive(Debug, Clone, Copy, PartialEq, Eq)]
pub enum PageAnswer {
    /// Another page.
    Redirect(&'static str),
    /// An embedded file.
    Page(&'static str),
}

/// The answer is to go to `to`.
pub open spec fn redirects(a: PageAnswer, to: Seq<char>) -> bool {
    a matches PageAnswer::Redirect(p) && p@ == to
}

/// The answer is the file `page`.
pub open spec fn shows(a: PageAnswer, page: Seq<char>) -> bool {
    a matches PageAnswer::Page(p) && p@ == page
}

/// The main page, for those who are logged in.
pub fn index_handler(authenticated: bool) -> (r: PageAnswer)
    ensures
        authenticated ==> shows(r, "index.html"@),
        !authenticated ==> redirects(r, "/login"@),
{
    if authenticated {
        PageAnswer::Page("index.html")
    } else {
        PageAnswer::Redirect("/login")
    }
}

/// The login page, for those who are not logged in.
pub fn login_get_handler(authenticated: bool) -> (r: PageAnswer)
    ensures
        authenticated ==> redirects(r, "/"@),
        !authenticated ==> shows(r, "login.html"@),
{
    if authenticated {
        PageAnswer::Redirect("/")
    } else {
        PageAnswer::Page("login.html")
    }
}

/// The error for a page that is not embedded.
pub fn missing_page(page: &str) -> (r: AppError)
    ensures
        r.0@ == "嵌入资源缺失: "@ + page@,
{
    AppError(concat2("嵌入资源缺失: ", page))
}

/// What a login is answered with.
#[derive(Debug, Clone, PartialEq, Eq)]
pub struct LoginReply<S = String> {
    /// The status of the response.
    pub status: u16,
    pub success: bool,
    pub msg: S,
    /// The cookie to set.
    pub set_cookie: Option<S>,
}

impl View for LoginReply {
    type V = LoginReply<Seq<char>>;

    open spec fn view(&self) -> LoginReply<Seq<char>> {
        LoginReply {
            status: self.status,
            success: self.success,
            msg: self.msg@,
            set_cookie: opt_text(self.set_cookie),
        }
    }
}

/// What the login form has to make of a challenge: the digest of the challenge, the name of the
/// administrator and the digest of the password.
pub open spec fn expected_response(
    nonce: Seq<char>,
    admin_username: Seq<char>,
    admin_pass_sha: Seq<char>,
) -> Seq<char> {
    text_digest(nonce + admin_username + admin_pass_sha)
}

/// The claims of one who logs in: they hold for a week.
pub open spec fn session_claims(now: u64) -> Claims<Seq<char>> {
    Claims { sub: "admin"@, exp: (now + 604800) as u64, iat: now }
}

/// The cookie that carries a token.
pub open spec fn session_cookie(token: Seq<char>) -> Seq<char> {
    "auth_token="@ + token + "; HttpOnly; Secure; Path=/; SameSite=Lax; Max-Age=604800"@
}

/// A login succeeds with a good challenge and the right response to it.
pub open spec fn may_log_in(
    payload: LoginPayload,
    jwt_secret: Seq<char>,
    admin_username: Seq<char>,
    admin_pass_sha: Seq<char>,
    now: u64,
) -> bool {
    &&& is_good_nonce(payload.nonce@, jwt_secret, now)
    &&& same_but_case(
        payload.response@,
        expected_response(payload.nonce@, admin_username, admin_pass_sha),
    )
}

/// What a login is answered with.
pub open spec fn login_reply(
    payload: LoginPayload,
    jwt_secret: Seq<char>,
    admin_username: Seq<char>,
    admin_pass_sha: Seq<char>,
    now: u64,
) -> LoginReply<Seq<char>> {
    if !is_good_nonce(payload.nonce@, jwt_secret, now) {
        LoginReply {
            status: 401,
            success: false,
            msg: "随机数失效，请刷新页面重试"@,
            set_cookie: None,
        }
    } else if may_log_in(payload, jwt_secret, admin_username, admin_pass_sha, now) {
        LoginReply {
            status: 200,
            success: true,
            msg: "登录成功"@,
            set_cookie: Some(
                session_cookie(token_for(claims_json(session_claims(now)), jwt_secret)),
            ),
        }
    } else {
        LoginReply {
            status: 401,
            success: false,
            msg: "密码错误，请重试"@,
            set_cookie: None,
        }
    }
}

/// The token that a login hands out opens a session for seven days: sent back in a cookie it is
/// accepted for so long, and refused afterwards.
pub open spec fn opens_session(jwt_secret: Seq<char>, now: u64) -> bool {
    let cookie = "auth_token="@ + token_for(claims_json(session_claims(now)), jwt_secret);
    forall|later: u64| #[trigger]
        session_of(Some(cookie), jwt_secret, later) == (if later <= now + 604800 {
            Session::<Seq<u8>>::Open
        } else {
            Session::<Seq<u8>>::Closed
        })
}

/// Answers a login, given the time in seconds.
pub fn login_post_handler(
    payload: &LoginPayload,
    jwt_secret: &str,
    admin_username: &str,
    admin_pass_sha: &str,
    now: u64,
) -> (r: LoginReply)
    requires
        now <= u64::MAX - 604800,
    ensures
        r@ == login_reply(*payload, jwt_secret@, admin_username@, admin_pass_sha@, now),
        may_log_in(*payload, jwt_secret@, admin_username@, admin_pass_sha@, now)
            ==> opens_session(jwt_secret@, now),
{
    if !verify_stateless_nonce(&payload.nonce, jwt_secret, now) {
        return LoginReply {
            status: 401,
            success: false,
            msg: "随机数失效，请刷新页面重试".to_owned(),
            set_cookie: None,
        };
    }
    let expected = hash_password_sha256(
        &concat3(&payload.nonce, admin_username, admin_pass_sha),
    );
    if !eq_ignore_ascii_case(&payload.response, &expected) {
        return LoginReply {
            status: 401,
            success: false,
            msg: "密码错误，请重试".to_owned(),
            set_cookie: None,
        };
    }
    proof {
        reveal_strlit("admin");
    }
    let claims = Claims { sub: "admin".to_owned(), exp: now + 604800, iat: now };
    match jwt_encode(&claims, jwt_secret) {
        Ok(token) => {
            proof {
                assert(claims@ == session_claims(now));
                assert forall|later: u64| #[trigger]
                    session_of(Some("auth_token="@ + token@), jwt_secret@, later) == (if later
                        <= now + 604800 {
                        Session::<Seq<u8>>::Open
                    } else {
                        Session::<Seq<u8>>::Closed
                    }) by {
                    law_cookie_opens_session(token@, claims@, jwt_secret@, later);
                }
            }
            let cookie = concat3(
                "auth_token=",
                &token,
                "; HttpOnly; Secure; Path=/; SameSite=Lax; Max-Age=604800",
            );
            LoginReply {
                status: 200,
                success: true,
                msg: "登录成功".to_owned(),
                set_cookie: Some(cookie),
            }
        },
        Err(_) => LoginReply {
            status: 500,
            success: false,
            msg: "服务器内部错误，登录失败".to_owned(),
            set_cookie: None,
        },
    }
}

/// The cookie that ends a session.
pub fn logout_post_handler() -> (r: &'static str)
    ensures
        r@ == "auth_token=; HttpOnly; Path=/; SameSite=Lax; Max-Age=0"@,
{
    "auth_token=; HttpOnly; Path=/; SameSite=Lax; Max-Age=0"
}

/// A cookie is set exactly where the login succeeds; every other login is answered as
/// unauthorized.
pub proof fn law_only_a_login_sets_a_cookie(
    payload: LoginPayload,
    jwt_secret: Seq<char>,
    admin_username: Seq<char>,
    admin_pass_sha: Seq<char>,
    now: u64,
)
    ensures
        ({
            let r = login_reply(payload, jwt_secret, admin_username, admin_pass_sha, now);
            let ok = may_log_in(payload, jwt_secret, admin_username, admin_pass_sha, now);
            &&& r.set_cookie is Some <==> ok
            &&& r.success <==> ok
            &&& !ok ==> r.status == 401
            &&& ok ==> r.status == 200
        }),
{
}

/// Whoever knows the password logs in: the right response to a challenge of this service is
/// accepted for a minute. A response to a challenge that is too old is refused, right or not.
pub proof fn law_password_logs_in(
    payload: LoginPayload,
    jwt_secret: Seq<char>,
    admin_username: Seq<char>,
    admin_pass_sha: Seq<char>,
    made: u64,
    now: u64,
)
    requires
        payload.nonce@ == nonce_at(jwt_secret, made),
        payload.response@ == expected_response(payload.nonce@, admin_username, admin_pass_sha),
    ensures
        login_reply(payload, jwt_secret, admin_username, admin_pass_sha, now).success
            <==> is_timely(made as int, now as int),
{
    law_nonce_is_good_for_a_minute(jwt_secret, made, now);
}

} // verus!
