//! Which pages and files are sent to whom, and who may connect.

use vstd::prelude::*;

use crate::auth::{claims_json, is_good_nonce, session_of, text_digest, token_for, Session};
use crate::config::AppConfig;
use crate::text::{lemma_index_of_char, pieces, same_but_case, stripped_start, trimmed};
use crate::web::assets::{asset_answer, asset_path, cache_policy, AssetAnswer};
use crate::web::handlers::{
    forwarded_client, login_reply, opens_session, redirects, session_claims, session_cookie, shows,
    LoginPayload, PageAnswer,
};
use crate::web::serve::{plan_for, ServePlan};
use crate::web::state::{change_of, counted, one_less};
use crate::web::ws::{bare_host, is_same_site};

verus! {

// ---------------------------------------------------------------------------
// Files
// ---------------------------------------------------------------------------

/// The file of a path is what follows its slashes; nothing stands for the main page.
pub proof fn law_asset_paths(p: Seq<char>, slashes: Seq<char>)
    requires
        forall|i: int| 0 <= i < slashes.len() ==> #[trigger] slashes[i] == '/',
        p.len() > 0 ==> p[0] != '/',
    ensures
        p.len() > 0 ==> asset_path(slashes + p) == p,
        p.len() == 0 ==> asset_path(slashes + p) == "index.html"@,
    decreases slashes.len(),
{
    lemma_strip_slashes(p, slashes);
}

proof fn lemma_strip_slashes(p: Seq<char>, slashes: Seq<char>)
    requires
        forall|i: int| 0 <= i < slashes.len() ==> #[trigger] slashes[i] == '/',
        p.len() > 0 ==> p[0] != '/',
    ensures
        stripped_start(slashes + p, '/') == p,
    decreases slashes.len(),
{
    if slashes.len() == 0 {
        assert(slashes + p == p);
    } else {
        let s = slashes.drop_first();
        assert((slashes + p).drop_first() == s + p);
        assert forall|i: int| 0 <= i < s.len() implies #[trigger] s[i] == '/' by {
            assert(slashes[i + 1] == '/');
        }
        assert(slashes[0] == '/');
        lemma_strip_slashes(p, s);
    }
}

/// The files under `assets/` may be kept for a year; every other file is asked for anew.
pub proof fn law_cache_policies(name: Seq<char>, path: Seq<char>)
    ensures
        cache_policy("assets/"@ + name) == "public, max-age=31536000, immutable"@,
        !"assets/"@.is_prefix_of(path) ==> cache_policy(path) == "no-cache"@,
{
    let a = "assets/"@;
    assert(a == (a + name).subrange(0, a.len() as int));
}

/// Only the main page asks for a login; every other file is sent to anyone, and every file to one
/// who is logged in.
pub proof fn law_who_gets_a_file(uri_path: Seq<char>)
    ensures
        asset_answer(uri_path, true) == AssetAnswer::File(asset_path(uri_path)),
        asset_path(uri_path) != "index.html"@ ==> asset_answer(uri_path, false) == AssetAnswer::File(
            asset_path(uri_path),
        ),
        asset_path(uri_path) == "index.html"@ ==> asset_answer(uri_path, false) == AssetAnswer::<
            Seq<char>,
        >::Login,
{
}

// ---------------------------------------------------------------------------
// Listeners and viewers
// ---------------------------------------------------------------------------

/// The listeners: plain HTTP where HTTPS is off, plain HTTP in its place where there is no usable
/// certificate, and otherwise HTTPS, with a redirect exactly where one is asked for and has a port
/// of its own.
pub proof fn law_listeners(c: AppConfig<Seq<char>>)
    ensures
        !c.enable_https ==> plan_for(c, true) == ServePlan::PlainHttp && plan_for(c, false)
            == ServePlan::PlainHttp,
        c.enable_https ==> plan_for(c, false) == ServePlan::FallbackHttp,
        c.enable_https && c.enable_http_redirect && c.http_port != c.https_port ==> plan_for(c, true)
            == (ServePlan::Https { redirect: true }),
        c.enable_https && (!c.enable_http_redirect || c.http_port == c.https_port) ==> plan_for(
            c,
            true,
        ) == (ServePlan::Https { redirect: false }),
{
}

/// The counter of viewers follows what they say: it grows by one who begins to watch, shrinks by
/// one who stops, stays for one who says the same again, and never goes below zero.
pub proof fn law_viewers_are_counted(count: int, n: usize)
    ensures
        counted(count, change_of(false, true)) == count + 1,
        counted(count, change_of(true, false)) == count - 1,
        counted(count, change_of(true, true)) == count,
        counted(count, change_of(false, false)) == count,
        n > 0 ==> one_less(n) == n - 1,
        one_less(0) == 0,
{
}

// ---------------------------------------------------------------------------
// Origins
// ---------------------------------------------------------------------------

/// The usual ports do not belong to the host; any other port does.
pub proof fn law_usual_ports(h: Seq<char>)
    ensures
        bare_host(h + ":80"@) == h,
        bare_host(h + ":443"@) == h,
        !":80"@.is_suffix_of(h) && !":443"@.is_suffix_of(h) ==> bare_host(h) == h,
{
    reveal_strlit(":80");
    reveal_strlit(":443");
    let a = h + ":80"@;
    let b = h + ":443"@;
    assert(a.skip(a.len() - 3) == ":80"@);
    assert(":80"@.is_suffix_of(a));
    assert(a.take(a.len() - 3) == h);
    assert(b.last() == '3');
    assert(!":80"@.is_suffix_of(b)) by {
        assert(":80"@.last() == '0');
    }
    assert(":443"@.is_suffix_of(b));
    assert(b.take(b.len() - 4) == h);
}

/// A request that does not name its host or its origin is let through; one that names both is let
/// through exactly where they are the same host.
pub proof fn law_missing_origin(host: Seq<char>, origin: Seq<char>)
    ensures
        is_same_site(None, Some(origin)),
        is_same_site(Some(host), None),
        is_same_site(None, None),
        is_same_site(Some(host), Some(host)) || crate::text::found_from(host, "://"@, 0) is Some,
        crate::text::found_from(origin, "://"@, 0) is None && bare_host(origin) != bare_host(host)
            ==> !is_same_site(Some(host), Some(origin)),
{
}

// ---------------------------------------------------------------------------
// Logins
// ---------------------------------------------------------------------------

/// The client that a proxy names is what stands before the first comma of its header.
pub proof fn law_forwarded_client(client: Seq<char>, rest: Seq<char>)
    requires
        !client.contains(','),
    ensures
        forwarded_client(Some(client)) == trimmed(client),
        forwarded_client(Some(client + ","@ + rest)) == trimmed(client),
        forwarded_client(None) == "unknown"@,
{
    reveal_strlit(",");
    let s = client + ","@ + rest;
    assert forall|j: int| 0 <= j < client.len() implies client[j] != ',' by {
        assert(client.contains(client[j]));
    }
    lemma_index_of_char(client, ',', client.len() as int);
    assert(pieces(client, ',')[0] == client);
    assert forall|j: int| 0 <= j < client.len() implies s[j] != ',' by {
        assert(s[j] == client[j]);
    }
    lemma_index_of_char(s, ',', client.len() as int);
    assert(s.take(client.len() as int) == client);
    assert(pieces(s, ',')[0] == client);
}

/// A login succeeds exactly where the challenge is good and the response is, but for the case of
/// its letters, the digest of the challenge, the administrator's name and the digest of the
/// password, in this order. A bad challenge and a wrong response are told apart.
pub proof fn law_login(
    payload: LoginPayload,
    jwt_secret: Seq<char>,
    admin: Seq<char>,
    pass_sha: Seq<char>,
    now: u64,
)
    ensures
        ({
            let r = login_reply(payload, jwt_secret, admin, pass_sha, now);
            let good = is_good_nonce(payload.nonce@, jwt_secret, now);
            let right = same_but_case(
                payload.response@,
                text_digest(payload.nonce@ + admin + pass_sha),
            );
            &&& r.success <==> good && right
            &&& good && right ==> r.status == 200 && r.msg == "登录成功"@
            &&& good && !right ==> r.status == 401 && r.msg == "密码错误，请重试"@
            &&& !good ==> r.status == 401 && r.msg == "随机数失效，请刷新页面重试"@
            &&& !(good && right) ==> r.set_cookie is None
            &&& good && right ==> r.set_cookie == Some(
                session_cookie(token_for(claims_json(session_claims(now)), jwt_secret)),
            )
        }),
{
}

/// The claims of one who logs in are those of the administrator, made now, and hold for seven
/// days; the cookie that carries them lives as long and is sent only over HTTPS and kept from
/// scripts.
pub proof fn law_session(now: u64, token: Seq<char>)
    requires
        now <= u64::MAX - 7 * 24 * 3600,
    ensures
        session_claims(now).sub == "admin"@,
        session_claims(now).iat == now,
        session_claims(now).exp == now + 7 * 24 * 3600,
        session_cookie(token) == "auth_token="@ + token
            + "; HttpOnly; Secure; Path=/; SameSite=Lax; Max-Age=604800"@,
{
}

/// A session that a login opens is open for seven days, to the second.
pub proof fn law_session_length(jwt_secret: Seq<char>, now: u64)
    requires
        opens_session(jwt_secret, now),
        now < u64::MAX - 7 * 24 * 3600,
    ensures
        ({
            let cookie = "auth_token="@ + token_for(claims_json(session_claims(now)), jwt_secret);
            let week: u64 = 604800;
            &&& session_of(Some(cookie), jwt_secret, now) == Session::<Seq<u8>>::Open
            &&& session_of(Some(cookie), jwt_secret, (now + week) as u64) == Session::<Seq<u8>>::Open
            &&& session_of(Some(cookie), jwt_secret, (now + week + 1) as u64) == Session::<
                Seq<u8>,
            >::Closed
        }),
{
}

/// A page answer is either a page to go to or a file, and only the one that it names.
pub proof fn law_page_answers(p: &'static str, to: Seq<char>)
    ensures
        redirects(PageAnswer::Redirect(p), to) <==> p@ == to,
        shows(PageAnswer::Page(p), to) <==> p@ == to,
        !redirects(PageAnswer::Page(p), to),
        !shows(PageAnswer::Redirect(p), to),
{
}

} // verus!
