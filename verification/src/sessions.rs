//! The decisions made while opening a profile in Chrome and while testing its proxy.

use vstd::prelude::*;
use crate::browser::{candidates_seen, detect_default_browser_binary, first_present, AppPaths, BrowserCandidate};
use crate::color::{chrome_argb_color, parse_profile_color, spec_parse_color};
use crate::http::{extract_ip_from_body, http_response_body, response_overflows, spec_extract_ip, spec_response_body};
use crate::launch::Profile;
use crate::text::{
    chars_of, concat, has_prefix, i64_text, int_text, is_text, join2, nat_text, opt_view,
    starts_with, to_string, trim_chars, trim_seq, u64_text,
};

verus! {

/// A browser path set on a profile is used unless it is blank.
pub open spec fn usable_path(path: Option<Seq<char>>) -> bool {
    path is Some && trim_seq(path->Some_0).len() > 0
}

pub open spec fn no_browser_error() -> Seq<char> {
    "No Chrome/Chromium binary found. Set a browser binary path on the profile."@
}

/// The browser binary a profile is opened with: the one set on it unless blank, else the
/// first known browser whose binary is there (as `present` answers), else an error.
pub fn select_browser_binary<F: Fn(&String) -> bool>(
    configured: &Option<String>,
    paths: &AppPaths,
    os: &str,
    arch: &str,
    present: &F,
) -> (out: Result<String, String>)
    requires
        forall|s: &String| call_requires(*present, (s,)),
    ensures
        usable_path(opt_view(*configured)) ==> (out matches Ok(b) && Some(b@) == opt_view(*configured)),
        !usable_path(opt_view(*configured)) ==> exists|cs: Seq<BrowserCandidate>|
            candidates_seen(cs, *paths, os@, arch@, *present) && match #[trigger] first_present(cs) {
                Some(b) => out matches Ok(r) && r@ == b,
                None => out matches Err(e) && e@ == no_browser_error(),
            },
{
    if let Some(path) = configured {
        if trim_chars(&chars_of(path.as_str())).len() > 0 {
            return Ok(path.clone());
        }
    }
    match detect_default_browser_binary(paths, os, arch, present) {
        Some(b) => Ok(b),
        None => Err("No Chrome/Chromium binary found. Set a browser binary path on the profile.".to_string()),
    }
}

/// The message given when the browser binary chosen is not on disk.
pub fn missing_binary_message(path: &str) -> (out: String)
    ensures
        out@ == "Browser binary does not exist: "@ + path@,
{
    join2("Browser binary does not exist: ", &chars_of(path))
}

/// What Chrome's `Preferences` file of a profile is given before it opens: the profile's name,
/// the avatar, and, when the profile has a colour, the theme colour as Chrome's ARGB integer.
pub struct PreferenceUpdate {
    pub name: String,
    pub avatar_index: i64,
    pub user_color: Option<i32>,
}

/// The ARGB integer of a colour with channels `rgb`.
pub open spec fn argb(rgb: (u8, u8, u8)) -> int {
    rgb.0 * 65536 + rgb.1 * 256 + rgb.2 - 16777216
}

/// What the `Preferences` of `profile` are given, or the error of its colour.
pub fn chrome_preference_update(profile: &Profile) -> (out: Result<PreferenceUpdate, String>)
    ensures
        match profile.profile_color {
            None => out matches Ok(u) && u.name@ == profile.name@ && u.avatar_index == 26 && u.user_color is None,
            Some(c) => match spec_parse_color(c@) {
                Ok(rgb) => out matches Ok(u) && u.name@ == profile.name@ && u.avatar_index == 26
                    && u.user_color == Some(argb(rgb) as i32) && -16777216 <= argb(rgb) < 0,
                Err(m) => out matches Err(e) && e@ == m,
            },
        },
{
    let user_color = match &profile.profile_color {
        Some(c) => match parse_profile_color(c.as_str()) {
            Ok((r, g, b)) => Some(chrome_argb_color(r, g, b)),
            Err(e) => return Err(e),
        },
        None => None,
    };
    Ok(PreferenceUpdate { name: profile.name.clone(), avatar_index: 26, user_color })
}

// ---------------------------------------------------------------------------
// Testing a profile's proxy
// ---------------------------------------------------------------------------

/// The outcome of testing a profile's proxy.
pub struct ProxyTestResult {
    pub ok: bool,
    pub message: String,
    pub observed_ip: Option<String>,
}

/// The next step of a proxy test.
pub enum ProxyTestStep {
    /// The test ends here with this outcome.
    Report(ProxyTestResult),
    /// Connect to `address` and send `request` through the proxy.
    Probe { address: String, request: String },
}

/// The request sent through a proxy under test: an IP echo service asked for JSON.
pub open spec fn probe_request() -> Seq<char> {
    "GET http://api.ipify.org/?format=json HTTP/1.1\r\nHost: api.ipify.org\r\nConnection: close\r\n\r\n"@
}

/// What testing the proxy of `profile` (after any relay is set up) starts with: nothing to
/// test when its scheme, host or port is missing; only an HTTP proxy (the relay's) is
/// probed; else a connection to `host:port`.
pub fn proxy_test_step(profile: &Profile) -> (out: ProxyTestStep)
    ensures
        match (profile.proxy_scheme, profile.proxy_host, profile.proxy_port) {
            (Some(s), Some(h), Some(p)) => if s@ == "http"@ {
                out matches ProxyTestStep::Probe { address, request }
                    && address@ == h@ + ":"@ + int_text(p as int) && request@ == probe_request()
            } else {
                out matches ProxyTestStep::Report(r) && !r.ok && r.observed_ip is None
                    && r.message@ == "Proxy test currently uses the local HTTP relay path."@
            },
            _ => out matches ProxyTestStep::Report(r) && !r.ok && r.observed_ip is None
                && r.message@ == "No proxy is configured for this profile."@,
        },
{
    match (&profile.proxy_scheme, &profile.proxy_host, profile.proxy_port) {
        (Some(s), Some(h), Some(p)) => {
            if !is_text(&chars_of(s.as_str()), "http") {
                return ProxyTestStep::Report(ProxyTestResult {
                    ok: false,
                    message: "Proxy test currently uses the local HTTP relay path.".to_string(),
                    observed_ip: None,
                });
            }
            let address = concat(&concat(&chars_of(h.as_str()), &chars_of(":")), &i64_text(p));
            ProxyTestStep::Probe {
                address: to_string(&address),
                request: "GET http://api.ipify.org/?format=json HTTP/1.1\r\nHost: api.ipify.org\r\nConnection: close\r\n\r\n".to_string(),
            }
        },
        _ => ProxyTestStep::Report(ProxyTestResult {
            ok: false,
            message: "No proxy is configured for this profile.".to_string(),
            observed_ip: None,
        }),
    }
}

/// A response whose status line says 200, over HTTP/1.1 or HTTP/1.0.
pub open spec fn answered_ok(response: Seq<char>) -> bool {
    has_prefix(response, "HTTP/1.1 200"@) || has_prefix(response, "HTTP/1.0 200"@)
}

/// The message of a proxy test, by the relay it went through, if any.
pub open spec fn test_message(relay_port: Option<u16>) -> Seq<char> {
    match relay_port {
        Some(p) => "Proxy test used local relay 127.0.0.1:"@ + nat_text(p as nat) + "."@,
        None => "Proxy test used configured proxy directly."@,
    }
}

/// The outcome of a proxy test that got `response`: it passes on status 200; the address
/// seen is the one the body reports.
pub fn proxy_test_result(response: &str, relay_port: Option<u16>) -> (out: ProxyTestResult)
    requires
        !response_overflows(response@),
    ensures
        out.ok == answered_ok(response@),
        out.message@ == test_message(relay_port),
        opt_view(out.observed_ip) == spec_extract_ip(spec_response_body(response@)),
{
    let body = http_response_body(response);
    let observed_ip = extract_ip_from_body(body.as_str());
    let r = chars_of(response);
    let ok = starts_with(&r, &chars_of("HTTP/1.1 200")) || starts_with(&r, &chars_of("HTTP/1.0 200"));
    let message = match relay_port {
        Some(p) => to_string(&concat(
            &concat(&chars_of("Proxy test used local relay 127.0.0.1:"), &u64_text(p as u64)),
            &chars_of("."),
        )),
        None => "Proxy test used configured proxy directly.".to_string(),
    };
    ProxyTestResult { ok, message, observed_ip }
}

} // verus!
