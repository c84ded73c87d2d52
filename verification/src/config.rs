//! The configuration, as the environment gives it.

use vstd::prelude::*;
use vstd::string::StringExecFns;

use crate::auth::{hash_password_sha256, text_digest};
use crate::number::{decimal, parse_uint, parsed_uint, push_decimal, push_wide_decimal};
use crate::text::{concat2, eq_ignore_ascii_case, same, same_but_case};

verus! {

/// The environment variables that matter, where they are set.
#[derive(Debug, Clone, PartialEq, Eq)]
pub struct EnvValues {
    /// `AT_SERIAL_PORT`
    pub serial_port: Option<String>,
    /// `JWT_SECRET`
    pub jwt_secret: Option<String>,
    /// `WEBUI_PASSWORD`
    pub password: Option<String>,
    /// `WEBUI_USERNAME`
    pub username: Option<String>,
    /// `ENABLE_HTTPS`
    pub enable_https: Option<String>,
    /// `HTTP_REDIRECT`
    pub http_redirect: Option<String>,
    /// `HTTP_PORT`
    pub http_port: Option<String>,
    /// `PORT`
    pub port: Option<String>,
    /// `HTTPS_PORT`
    pub https_port: Option<String>,
}

/// The configuration of the service.
#[derive(Debug, Clone, PartialEq, Eq)]
pub struct AppConfig<S = String> {
    pub serial_path: S,
    pub jwt_secret: S,
    pub admin_username: S,
    pub admin_pass_sha: S,
    pub enable_https: bool,
    pub enable_http_redirect: bool,
    pub http_port: u16,
    pub https_port: u16,
    /// Address and port, as text.
    pub http_addr: S,
    pub https_addr: S,
}

impl View for AppConfig {
    type V = AppConfig<Seq<char>>;

    open spec fn view(&self) -> AppConfig<Seq<char>> {
        AppConfig {
            serial_path: self.serial_path@,
            jwt_secret: self.jwt_secret@,
            admin_username: self.admin_username@,
            admin_pass_sha: self.admin_pass_sha@,
            enable_https: self.enable_https,
            enable_http_redirect: self.enable_http_redirect,
            http_port: self.http_port,
            https_port: self.https_port,
            http_addr: self.http_addr@,
            https_addr: self.https_addr@,
        }
    }
}

/// `o`, or `default` where it is not set.
pub open spec fn setting(o: Option<String>, default: Seq<char>) -> Seq<char> {
    match o {
        Some(s) => s@,
        None => default,
    }
}

/// A switch: on with `1` or `true`, and on where it is not set.
pub open spec fn switch(o: Option<String>) -> bool {
    match o {
        Some(s) => s@ == "1"@ || same_but_case(s@, "true"@),
        None => true,
    }
}

/// A port, or `default` where it is not set or is none.
pub open spec fn port_setting(o: Option<String>, default: u16) -> u16 {
    match o {
        Some(s) => match parsed_uint(s@, u16::MAX as nat) {
            Some(p) => p as u16,
            None => default,
        },
        None => default,
    }
}

/// The key where none is set: a digest of the time and the process.
pub open spec fn fallback_key(nanos: u128, pid: u32) -> Seq<char> {
    text_digest("jwt_rand_"@ + decimal(nanos as nat) + "_"@ + decimal(pid as nat))
}

/// The address that listens on every interface.
pub open spec fn any_address(port: u16) -> Seq<char> {
    "0.0.0.0:"@ + decimal(port as nat)
}

/// The configuration that the environment gives at a time, in a process.
pub open spec fn configured(env: EnvValues, nanos: u128, pid: u32) -> AppConfig<Seq<char>> {
    let http_port = port_setting(
        if env.http_port is Some {
            env.http_port
        } else {
            env.port
        },
        80,
    );
    let https_port = port_setting(env.https_port, 443);
    AppConfig {
        serial_path: setting(env.serial_port, "/dev/smd11"@),
        jwt_secret: setting(env.jwt_secret, fallback_key(nanos, pid)),
        admin_username: setting(env.username, "admin"@),
        admin_pass_sha: text_digest(setting(env.password, "admin123"@)),
        enable_https: switch(env.enable_https),
        enable_http_redirect: switch(env.http_redirect),
        http_port,
        https_port,
        http_addr: any_address(http_port),
        https_addr: any_address(https_port),
    }
}

fn read_setting(o: &Option<String>, default: &str) -> (r: String)
    ensures
        r@ == setting(*o, default@),
{
    match o {
        Some(s) => s.clone(),
        None => default.to_owned(),
    }
}

fn read_switch(o: &Option<String>) -> (r: bool)
    ensures
        r == switch(*o),
{
    match o {
        Some(s) => same(s, "1") || eq_ignore_ascii_case(s, "true"),
        None => true,
    }
}

fn read_port(o: &Option<String>, default: u16) -> (r: u16)
    ensures
        r == port_setting(*o, default),
{
    match o {
        Some(s) => match parse_uint(s, u16::MAX as u64) {
            Some(p) => p as u16,
            None => default,
        },
        None => default,
    }
}

fn make_key(nanos: u128, pid: u32) -> (r: String)
    ensures
        r@ == fallback_key(nanos, pid),
{
    let mut seed = "jwt_rand_".to_owned();
    push_wide_decimal(&mut seed, nanos);
    seed.append("_");
    push_decimal(&mut seed, pid as u64);
    hash_password_sha256(&seed)
}

fn address_of(port: u16) -> (r: String)
    ensures
        r@ == any_address(port),
{
    concat2("0.0.0.0:", &crate::number::decimal_text(port as u64))
}

impl AppConfig {
    /// The configuration that the environment gives. The time in nanoseconds and the process
    /// number make the key where none is set.
    pub fn from_env(env: &EnvValues, nanos: u128, pid: u32) -> (r: AppConfig)
        ensures
            r@ == configured(*env, nanos, pid),
    {
        let jwt_secret = match &env.jwt_secret {
            Some(s) => s.clone(),
            None => make_key(nanos, pid),
        };
        let http_port: u16 = read_port(
            if env.http_port.is_some() {
                &env.http_port
            } else {
                &env.port
            },
            80,
        );
        let https_port: u16 = read_port(&env.https_port, 443);
        let password = read_setting(&env.password, "admin123");
        AppConfig {
            serial_path: read_setting(&env.serial_port, "/dev/smd11"),
            jwt_secret,
            admin_username: read_setting(&env.username, "admin"),
            admin_pass_sha: hash_password_sha256(&password),
            enable_https: read_switch(&env.enable_https),
            enable_http_redirect: read_switch(&env.http_redirect),
            http_port,
            https_port,
            http_addr: address_of(http_port),
            https_addr: address_of(https_port),
        }
    }
}

} // verus!
