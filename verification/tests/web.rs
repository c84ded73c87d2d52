//! Pages, logins and the commands of the web socket.

use quectel_webui::actor::action::{AtAction, DiagnosticType};
use quectel_webui::auth::{
    hash_password_sha256, is_authenticated, jwt_decode, Claims, Session, TokenPayload,
};
use quectel_webui::config::{AppConfig, EnvValues};
use quectel_webui::web::assets::{asset_headers, asset_of, cache_control, static_handler, AssetAnswer};
use quectel_webui::web::handlers::{
    client_ip, get_nonce_handler, index_handler, login_get_handler, login_post_handler,
    logout_post_handler, missing_page, LoginPayload, PageAnswer,
};
use quectel_webui::web::serve::{serve_plan, ServePlan};
use quectel_webui::web::state::{safe_dec_active_views, ActiveViewGuard, ViewChange};
use quectel_webui::web::ws::{
    handle_ws, parse_diagnostic, same_site, ws_handler, Field, Payload, Scalar, UpgradeAnswer,
    WsCommand, WsRequest,
};

fn text(s: &str) -> String {
    s.to_string()
}

#[test]
fn assets_and_their_headers() {
    assert_eq!(asset_of("/"), "index.html");
    assert_eq!(asset_of(""), "index.html");
    assert_eq!(asset_of("//assets/a.js"), "assets/a.js");
    assert_eq!(cache_control("assets/a.js"), "public, max-age=31536000, immutable");
    assert_eq!(cache_control("index.html"), "no-cache");
    for (path, mime) in [
        ("index.html", "text/html"),
        ("assets/a.js", "text/javascript"),
        ("assets/a.css", "text/css"),
        ("logo.svg", "image/svg+xml"),
        ("unknown.zzzzz", "application/octet-stream"),
        ("plain", "application/octet-stream"),
    ] {
        let h = asset_headers(path);
        assert_eq!(h.content_type, mime);
        assert_eq!(h.content_type, mime_guess::from_path(path).first_or_octet_stream().as_ref());
        assert_eq!(h.cache_control, cache_control(path));
    }
}

#[test]
fn the_main_page_needs_a_login() {
    assert_eq!(static_handler("/index.html", false), AssetAnswer::Login);
    assert_eq!(static_handler("/", false), AssetAnswer::Login);
    assert_eq!(static_handler("/index.html", true), AssetAnswer::File(text("index.html")));
    assert_eq!(static_handler("/login.html", false), AssetAnswer::File(text("login.html")));
    assert!(matches!(index_handler(false), PageAnswer::Redirect("/login")));
    assert!(matches!(index_handler(true), PageAnswer::Page("index.html")));
    assert!(matches!(login_get_handler(true), PageAnswer::Redirect("/")));
    assert!(matches!(login_get_handler(false), PageAnswer::Page("login.html")));
    assert_eq!(missing_page("login.html").0, "嵌入资源缺失: login.html");
}

#[test]
fn addresses_of_clients() {
    assert_eq!(client_ip(None), "unknown");
    assert_eq!(client_ip(Some(" 1.2.3.4 , 5.6.7.8")), "1.2.3.4");
    assert_eq!(client_ip(Some("")), "");
}

#[test]
fn the_password_logs_in() {
    let now = 1_700_000_000;
    let sha = hash_password_sha256("admin123");
    let nonce = get_nonce_handler("secret", now).nonce;
    let response = hash_password_sha256(&format!("{}{}{}", nonce, "admin", sha));
    let payload = LoginPayload { username: text("anyone"), nonce: nonce.clone(), response: response.to_uppercase() };
    let r = login_post_handler(&payload, "secret", "admin", &sha, now + 30);
    assert_eq!((r.status, r.success, r.msg.as_str()), (200, true, "登录成功"));
    let cookie = r.set_cookie.unwrap();
    let token = cookie.strip_suffix("; HttpOnly; Secure; Path=/; SameSite=Lax; Max-Age=604800").unwrap();
    assert_eq!(is_authenticated(Some(token), "secret", now + 30), Session::Open);
    assert_eq!(is_authenticated(Some(token), "secret", now + 30 + 604800), Session::Open);
    assert_eq!(is_authenticated(Some(token), "secret", now + 31 + 604800), Session::Closed);
    let claims = Claims { sub: text("admin"), exp: now + 30 + 604800, iat: now + 30 };
    let token = token.strip_prefix("auth_token=").unwrap();
    assert_eq!(jwt_decode(token, "secret", now), Ok(TokenPayload::Claims(claims)));
    let r = login_post_handler(&payload, "secret", "admin", &sha, now + 61);
    assert_eq!((r.status, r.success, r.msg.as_str()), (401, false, "随机数失效，请刷新页面重试"));
    assert_eq!(r.set_cookie, None);
    let payload = LoginPayload { username: text("admin"), nonce, response: text("x") };
    let r = login_post_handler(&payload, "secret", "admin", &sha, now);
    assert_eq!((r.status, r.success, r.msg.as_str()), (401, false, "密码错误，请重试"));
    assert_eq!(r.set_cookie, None);
    assert_eq!(logout_post_handler(), "auth_token=; HttpOnly; Path=/; SameSite=Lax; Max-Age=0");
}

fn config(https: &str, redirect: &str, http_port: &str, https_port: &str) -> AppConfig {
    let env = EnvValues {
        serial_port: None,
        jwt_secret: Some(text("secret")),
        password: None,
        username: None,
        enable_https: Some(text(https)),
        http_redirect: Some(text(redirect)),
        http_port: Some(text(http_port)),
        port: None,
        https_port: Some(text(https_port)),
    };
    AppConfig::from_env(&env, 0, 0)
}

#[test]
fn plans_to_serve() {
    assert!(matches!(serve_plan(&config("0", "1", "80", "443"), true), ServePlan::PlainHttp));
    assert!(matches!(serve_plan(&config("1", "1", "80", "443"), false), ServePlan::FallbackHttp));
    assert!(matches!(serve_plan(&config("1", "1", "80", "443"), true), ServePlan::Https { redirect: true }));
    assert!(matches!(serve_plan(&config("1", "0", "80", "443"), true), ServePlan::Https { redirect: false }));
    assert!(matches!(serve_plan(&config("1", "1", "443", "443"), true), ServePlan::Https { redirect: false }));
}

#[test]
fn visits_are_balanced() {
    let (mut g, change) = ActiveViewGuard::new();
    assert_eq!(change, ViewChange::Enter);
    assert_eq!(g.set(true), ViewChange::Keep);
    assert_eq!(g.set(false), ViewChange::Leave);
    assert_eq!(g.set(false), ViewChange::Keep);
    assert_eq!(g.close(), ViewChange::Keep);
    assert_eq!(g.set(true), ViewChange::Enter);
    assert_eq!(g.close(), ViewChange::Leave);
    assert_eq!(safe_dec_active_views(0), 0);
    assert_eq!(safe_dec_active_views(2), 1);
}

#[test]
fn pages_of_other_sites_are_refused() {
    assert!(same_site(None, Some("https://evil")));
    assert!(same_site(Some("host"), None));
    assert!(same_site(Some("host"), Some("https://host")));
    assert!(same_site(Some("host:443"), Some("https://host")));
    assert!(same_site(Some("host"), Some("http://host:80")));
    assert!(same_site(Some("host:80"), Some("host:443")));
    assert!(same_site(Some("host"), Some("a://host://x")));
    assert!(!same_site(Some("host:8443"), Some("https://host")));
    assert!(!same_site(Some("host"), Some("https://other")));
    assert!(matches!(ws_handler(false, Some("h"), Some("https://h")), UpgradeAnswer::Unauthorized));
    assert!(matches!(ws_handler(true, Some("h"), Some("https://x")), UpgradeAnswer::Forbidden));
    assert!(matches!(ws_handler(true, Some("h"), Some("https://h")), UpgradeAnswer::Accept));
}

fn plain(action: &str) -> WsRequest {
    handle_ws(&WsCommand { action: text(action), payload: Payload::Absent })
}

fn with_text(action: &str, s: &str) -> WsRequest {
    handle_ws(&WsCommand { action: text(action), payload: Payload::Single(Scalar::Text(text(s))) })
}

fn with(action: &str, fields: Vec<(&str, Scalar)>) -> WsRequest {
    let fields = fields.into_iter().map(|(n, value)| Field { name: text(n), value }).collect();
    handle_ws(&WsCommand { action: text(action), payload: Payload::Object(fields) })
}

fn t(s: &str) -> Scalar {
    Scalar::Text(text(s))
}

#[test]
fn commands_without_payload() {
    for (name, action) in [
        ("read_imei", AtAction::ReadImei),
        ("net_connect", AtAction::NetConnect(true)),
        ("net_disconnect", AtAction::NetConnect(false)),
        ("network_scan", AtAction::NetworkScan),
        ("get_sms_list", AtAction::GetSmsList),
        ("get_device_info", AtAction::GetDeviceInfo),
        ("reboot", AtAction::Reboot),
        ("factory_reset", AtAction::FactoryReset),
        ("get_usb_config", AtAction::GetUsbConfig),
        ("get_mbn_list", AtAction::GetMbnList),
        ("mbn_deactivate", AtAction::DeactivateMbn),
        ("manual_at", AtAction::ManualAt(text(""))),
        ("write_imei", AtAction::WriteImei(text(""))),
        ("set_interval", AtAction::SetInterval(3)),
        ("set_apn", AtAction::SetApn(text(""), text(""), text(""), 0)),
        ("set_network_mode", AtAction::SetNetworkMode(text("auto"))),
        ("set_mode_pref", AtAction::SetNetworkMode(text("auto"))),
        ("send_sms", AtAction::SendSms(text(""), text(""))),
        ("flight_mode", AtAction::FlightMode(false)),
        ("mbn_autosel", AtAction::SetMbnAutoSel(false)),
        ("set_band_lock", AtAction::SetBandLock { is_nr5g: false, bands: text("") }),
        (
            "set_cell_lock",
            AtAction::SetCellLock { tech: text("lte"), pci: 0, earfcn: 0, band: None, enable: true },
        ),
        ("set_usb_net_mode", AtAction::SetUsbNetMode(0)),
        ("set_sim_slot", AtAction::SetSimSlot(0)),
        ("set_mbn", AtAction::SetMbn(text(""))),
        ("set_eth_config", AtAction::SetEthConfig { driver: text("r8125"), pcie_rc: true }),
        ("set_ippt_config", AtAction::SetIpptConfig { mode: text("dmz") }),
    ] {
        assert_eq!(plain(name), WsRequest::Act(action), "{}", name);
    }
    assert_eq!(plain("get_static_info"), WsRequest::StaticInfo);
    assert_eq!(plain("get_backend_log"), WsRequest::BackendLog);
    assert_eq!(plain("set_view_state"), WsRequest::ViewState(false));
    assert_eq!(plain("get_diagnostics"), WsRequest::Unknown);
    assert_eq!(plain("anything"), WsRequest::Unknown);
}

#[test]
fn commands_with_a_value() {
    assert_eq!(with_text("manual_at", "ATI"), WsRequest::Act(AtAction::ManualAt(text("ATI"))));
    assert_eq!(with_text("write_imei", "86"), WsRequest::Act(AtAction::WriteImei(text("86"))));
    assert_eq!(with_text("set_interval", "30"), WsRequest::Act(AtAction::SetInterval(30)));
    assert_eq!(with_text("set_interval", "x"), WsRequest::Act(AtAction::SetInterval(3)));
    assert_eq!(with_text("set_view_state", "active"), WsRequest::ViewState(true));
    assert_eq!(with_text("set_view_state", "hidden"), WsRequest::ViewState(false));
    assert_eq!(with_text("flight_mode", "1"), WsRequest::Act(AtAction::FlightMode(true)));
    assert_eq!(with_text("mbn_autosel", "1"), WsRequest::Act(AtAction::SetMbnAutoSel(true)));
    assert_eq!(with_text("set_network_mode", "lte"), WsRequest::Act(AtAction::SetNetworkMode(text("lte"))));
    assert_eq!(with_text("set_mode_pref", "nr5g"), WsRequest::Act(AtAction::SetNetworkMode(text("nr5g"))));
    assert_eq!(with_text("set_usb_net_mode", "257"), WsRequest::Act(AtAction::SetUsbNetMode(1)));
    let number = |action: &str, n: u64| {
        handle_ws(&WsCommand { action: text(action), payload: Payload::Single(Scalar::Uint(n)) })
    };
    assert_eq!(number("set_interval", 60), WsRequest::Act(AtAction::SetInterval(60)));
    assert_eq!(number("set_usb_net_mode", 258), WsRequest::Act(AtAction::SetUsbNetMode(2)));
    assert_eq!(number("manual_at", 1), WsRequest::Act(AtAction::ManualAt(text(""))));
}

#[test]
fn commands_with_fields() {
    assert_eq!(
        with("set_apn", vec![("apn", t("a")), ("user", t("u")), ("pass", t("p")), ("auth", t("2"))]),
        WsRequest::Act(AtAction::SetApn(text("a"), text("u"), text("p"), 2))
    );
    assert_eq!(
        with("set_apn", vec![("apn", t("a")), ("auth", Scalar::Uint(2))]),
        WsRequest::Act(AtAction::SetApn(text("a"), text(""), text(""), 0))
    );
    assert_eq!(
        with("set_apn", vec![("auth", t("256"))]),
        WsRequest::Act(AtAction::SetApn(text(""), text(""), text(""), 0))
    );
    assert_eq!(
        with("send_sms", vec![("message", t("hi")), ("recipient", t("1"))]),
        WsRequest::Act(AtAction::SendSms(text("1"), text("hi")))
    );
    assert_eq!(
        with("set_band_lock", vec![("is_nr5g", Scalar::Bool(true)), ("band", t("78"))]),
        WsRequest::Act(AtAction::SetBandLock { is_nr5g: true, bands: text("78") })
    );
    assert_eq!(
        with("set_band_lock", vec![("nr5g", Scalar::Other), ("is_nr5g", Scalar::Bool(true)), ("bands", t("1"))]),
        WsRequest::Act(AtAction::SetBandLock { is_nr5g: false, bands: text("1") })
    );
    assert_eq!(
        with(
            "set_cell_lock",
            vec![
                ("tech", t("5g")),
                ("pci", Scalar::Uint(4294967297)),
                ("earfcn", Scalar::Uint(2)),
                ("band", Scalar::Uint(78)),
                ("enable", Scalar::Bool(false)),
            ]
        ),
        WsRequest::Act(AtAction::SetCellLock { tech: text("5g"), pci: 1, earfcn: 2, band: Some(78), enable: false })
    );
    assert_eq!(with("set_sim_slot", vec![("slot", Scalar::Uint(2))]), WsRequest::Act(AtAction::SetSimSlot(2)));
    assert_eq!(with("set_mbn", vec![("name", t("x"))]), WsRequest::Act(AtAction::SetMbn(text("x"))));
    assert_eq!(
        with("set_eth_config", vec![("driver", t("r8168")), ("pcie_rc", Scalar::Bool(false))]),
        WsRequest::Act(AtAction::SetEthConfig { driver: text("r8168"), pcie_rc: false })
    );
    assert_eq!(
        with("set_ippt_config", vec![("mode", t("nat"))]),
        WsRequest::Act(AtAction::SetIpptConfig { mode: text("nat") })
    );
}

#[test]
fn names_of_diagnostics() {
    for (names, d) in [
        (["neighbour", "neighbor"], DiagnosticType::Neighbour),
        (["qlt", "qlts"], DiagnosticType::Qlts),
        (["mbn_list", "qmbncfg"], DiagnosticType::MbnList),
        (["autosel_query", "autosel"], DiagnosticType::AutoSelQuery),
    ] {
        for name in names {
            assert_eq!(parse_diagnostic(name), Some(d));
            assert_eq!(with_text("get_diagnostics", name), WsRequest::Act(AtAction::GetDiagnostics(d)));
        }
        assert_eq!(parse_diagnostic(d.name()), Some(d));
    }
    assert_eq!(parse_diagnostic(""), None);
}
