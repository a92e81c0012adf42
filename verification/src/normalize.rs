//! Normalisation of the values a user enters for profiles and proxies.

use vstd::prelude::*;
use crate::external::{to_lowercase, unicode_lowercase};
use crate::text::{chars_of, concat, i64_text, int_text, is_text, join2, join3, opt_view, to_string, trim, trim_seq};

verus! {

/// `Some` of the trimmed text when it is not blank, else `None`.
pub open spec fn spec_optional_text(o: Option<Seq<char>>) -> Option<Seq<char>> {
    match o {
        Some(s) => if trim_seq(s).len() > 0 {
            Some(trim_seq(s))
        } else {
            None
        },
        None => None,
    }
}

/// The trimmed text of an optional field, or `None` when it is absent or blank.
pub fn normalize_optional_text(value: Option<String>) -> (out: Option<String>)
    ensures
        opt_view(out) == spec_optional_text(opt_view(value)),
{
    match value {
        Some(v) => {
            let t = trim(v.as_str());
            if t.as_str().is_empty() {
                None
            } else {
                Some(t)
            }
        },
        None => None,
    }
}

/// The trimmed proxy host, or `None` when it is absent or blank.
pub fn normalize_proxy_host(host: Option<String>) -> (out: Option<String>)
    ensures
        opt_view(out) == spec_optional_text(opt_view(host)),
{
    normalize_optional_text(host)
}

/// A trimmed required name, or the error `"<label> is required."` when it is blank.
pub fn normalize_required_name(name: &str, label: &str) -> (out: Result<String, String>)
    ensures
        res_view(out) == if trim_seq(name@).len() > 0 {
            Ok::<Seq<char>, Seq<char>>(trim_seq(name@))
        } else {
            Err(label@ + " is required."@)
        },
{
    let t = trim(name);
    if t.as_str().is_empty() {
        let l = chars_of(label);
        let suffix = chars_of(" is required.");
        return Err(to_string(&concat(&l, &suffix)));
    }
    Ok(t)
}

/// A trimmed profile name, or `"Profile name is required."` when it is blank.
pub fn normalize_profile_name(name: &str) -> (out: Result<String, String>)
    ensures
        res_view(out) == if trim_seq(name@).len() > 0 {
            Ok::<Seq<char>, Seq<char>>(trim_seq(name@))
        } else {
            Err("Profile name is required."@)
        },
{
    let t = trim(name);
    if t.as_str().is_empty() {
        return Err("Profile name is required.".to_string());
    }
    Ok(t)
}


/// The error of a proxy port out of range.
pub open spec fn port_error(value: int) -> Seq<char> {
    "Proxy port must be between 1 and 65535, got "@ + int_text(value) + "."@
}

/// A proxy port in 1..=65535, or the range error.
pub fn normalize_proxy_port(port: Option<i64>) -> (out: Result<Option<i64>, String>)
    ensures
        match port {
            Some(v) => if 1 <= v <= 65535 {
                out == Ok::<Option<i64>, String>(Some(v))
            } else {
                out matches Err(e) && e@ == port_error(v as int)
            },
            None => out == Ok::<Option<i64>, String>(None),
        },
{
    match port {
        Some(value) => {
            if 1 <= value && value <= 65535 {
                Ok(Some(value))
            } else {
                Err(join3("Proxy port must be between 1 and 65535, got ", &i64_text(value), "."))
            }
        },
        None => Ok(None),
    }
}

/// The error of a window dimension out of range.
pub open spec fn dimension_error(name: Seq<char>, value: int) -> Seq<char> {
    name + " must be between 1 and 10000, got "@ + int_text(value) + "."@
}

/// The error of a window coordinate out of range.
pub open spec fn coordinate_error(name: Seq<char>, value: int) -> Seq<char> {
    name + " must be between -10000 and 10000, got "@ + int_text(value) + "."@
}

/// A window dimension in 1..=10000, or the range error naming the field.
pub fn normalize_dimension(value: Option<i64>, name: &str) -> (out: Result<Option<i64>, String>)
    ensures
        match value {
            Some(v) => if 1 <= v <= 10000 {
                out == Ok::<Option<i64>, String>(Some(v))
            } else {
                out matches Err(e) && e@ == dimension_error(name@, v as int)
            },
            None => out == Ok::<Option<i64>, String>(None),
        },
{
    match value {
        Some(v) => {
            if 1 <= v && v <= 10000 {
                Ok(Some(v))
            } else {
                let head = chars_of(name);
                let msg = concat(&concat(&concat(&head, &chars_of(" must be between 1 and 10000, got ")), &i64_text(v)), &chars_of("."));
                Err(to_string(&msg))
            }
        },
        None => Ok(None),
    }
}

/// A window coordinate in -10000..=10000, or the range error naming the field.
pub fn normalize_coordinate(value: Option<i64>, name: &str) -> (out: Result<Option<i64>, String>)
    ensures
        match value {
            Some(v) => if -10000 <= v <= 10000 {
                out == Ok::<Option<i64>, String>(Some(v))
            } else {
                out matches Err(e) && e@ == coordinate_error(name@, v as int)
            },
            None => out == Ok::<Option<i64>, String>(None),
        },
{
    match value {
        Some(v) => {
            if -10000 <= v && v <= 10000 {
                Ok(Some(v))
            } else {
                let head = chars_of(name);
                let msg = concat(&concat(&concat(&head, &chars_of(" must be between -10000 and 10000, got ")), &i64_text(v)), &chars_of("."));
                Err(to_string(&msg))
            }
        },
        None => Ok(None),
    }
}

/// The proxy schemes a profile may use.
pub open spec fn is_supported_scheme(s: Seq<char>) -> bool {
    s == "http"@ || s == "https"@ || s == "socks4"@ || s == "socks5"@
}

/// What a scheme that has been trimmed and lowercased (`lowered`) normalises to.
pub open spec fn spec_scheme_choice(lowered: Option<Seq<char>>) -> Result<Option<Seq<char>>, Seq<char>> {
    match lowered {
        Some(v) => if v.len() == 0 {
            Ok(None)
        } else if is_supported_scheme(v) {
            Ok(Some(v))
        } else {
            Err("Unsupported proxy scheme: "@ + v)
        },
        None => Ok(None),
    }
}

/// The trimmed, lowercased form of an optional field.
pub open spec fn spec_lowered(o: Option<Seq<char>>) -> Option<Seq<char>> {
    match o {
        Some(s) => Some(unicode_lowercase(trim_seq(s))),
        None => None,
    }
}

pub open spec fn opt_res_view(r: Result<Option<String>, String>) -> Result<Option<Seq<char>>, Seq<char>> {
    match r {
        Ok(o) => Ok(opt_view(o)),
        Err(e) => Err(e@),
    }
}

pub open spec fn res_view(r: Result<String, String>) -> Result<Seq<char>, Seq<char>> {
    match r {
        Ok(o) => Ok(o@),
        Err(e) => Err(e@),
    }
}

/// Decides a proxy scheme once it has been trimmed and lowercased: blank means no proxy,
/// one of http, https, socks4, socks5 is kept, anything else is refused.
pub fn proxy_scheme_choice(lowered: Option<String>) -> (out: Result<Option<String>, String>)
    ensures
        opt_res_view(out) == spec_scheme_choice(opt_view(lowered)),
{
    match lowered {
        Some(v) => {
            let cv = chars_of(v.as_str());
            if cv.len() == 0 {
                Ok(None)
            } else if is_text(&cv, "http") || is_text(&cv, "https") || is_text(&cv, "socks4")
                || is_text(&cv, "socks5") {
                Ok(Some(v))
            } else {
                Err(join2("Unsupported proxy scheme: ", &cv))
            }
        },
        None => Ok(None),
    }
}

/// An optional field that is absent or holds only whitespace.
pub open spec fn blank_text(value: Option<Seq<char>>) -> bool {
    match value {
        Some(v) => trim_seq(v).len() == 0,
        None => true,
    }
}

/// The trimmed, lowercased form of an optional field.
pub fn lowered_text(value: Option<String>) -> (out: Option<String>)
    ensures
        opt_view(out) == spec_lowered(opt_view(value)),
        blank_text(opt_view(value)) ==> (out is None || (out matches Some(o) && o@.len() == 0)),
        value is Some && vstd::utf8::is_ascii_chars(trim_seq(value->Some_0@)) ==> (out matches Some(o)
            && o@ == crate::text::lower_seq(trim_seq(value->Some_0@))),
{
    match value {
        Some(v) => {
            let t = trim(v.as_str());
            Some(to_lowercase(t.as_str()))
        },
        None => None,
    }
}

/// A proxy scheme, trimmed and lowercased; `None` when absent or blank; an error when it is
/// not one of http, https, socks4, socks5.
pub fn normalize_proxy_scheme(scheme: Option<String>) -> (out: Result<Option<String>, String>)
    ensures
        opt_res_view(out) == spec_scheme_choice(spec_lowered(opt_view(scheme))),
        blank_text(opt_view(scheme)) ==> out == Ok::<Option<String>, String>(None),
        scheme is Some && vstd::utf8::is_ascii_chars(trim_seq(scheme->Some_0@)) ==> opt_res_view(out)
            == spec_scheme_choice(Some(crate::text::lower_seq(trim_seq(scheme->Some_0@)))),
{
    proxy_scheme_choice(lowered_text(scheme))
}

/// The WebRTC policies a profile may use.
pub open spec fn is_webrtc_policy(s: Seq<char>) -> bool {
    s == "default"@ || s == "public_only"@ || s == "proxy_only"@
}

/// What a WebRTC policy that has been trimmed and lowercased (`lowered`) normalises to,
/// given the older on/off switch `disabled`.
pub open spec fn spec_webrtc_choice(lowered: Option<Seq<char>>, disabled: Option<bool>) -> Result<Seq<char>, Seq<char>> {
    match lowered {
        Some(v) if v.len() > 0 => if is_webrtc_policy(v) {
            Ok(v)
        } else {
            Err("Unsupported WebRTC policy: "@ + v)
        },
        _ => if disabled == Some(true) {
            Ok("proxy_only"@)
        } else {
            Ok("default"@)
        },
    }
}

/// Decides a WebRTC policy once it has been trimmed and lowercased.
pub fn webrtc_policy_choice(lowered: Option<String>, disabled: Option<bool>) -> (out: Result<String, String>)
    ensures
        res_view(out) == spec_webrtc_choice(opt_view(lowered), disabled),
{
    if let Some(v) = lowered {
        let cv = chars_of(v.as_str());
        if cv.len() > 0 {
            if is_text(&cv, "default") || is_text(&cv, "public_only") || is_text(&cv, "proxy_only") {
                return Ok(v);
            } else {
                return Err(join2("Unsupported WebRTC policy: ", &cv));
            }
        }
    }
    let off = match disabled {
        Some(b) => b,
        None => false,
    };
    if off {
        Ok("proxy_only".to_string())
    } else {
        Ok("default".to_string())
    }
}

/// A WebRTC policy: the given one trimmed and lowercased when it is one of default,
/// public_only, proxy_only; else `proxy_only` when WebRTC was switched off, else `default`.
pub fn normalize_webrtc_policy(policy: Option<String>, disabled: Option<bool>) -> (out: Result<String, String>)
    ensures
        res_view(out) == spec_webrtc_choice(spec_lowered(opt_view(policy)), disabled),
        blank_text(opt_view(policy)) ==> res_view(out) == Ok::<Seq<char>, Seq<char>>(
            if disabled == Some(true) { "proxy_only"@ } else { "default"@ },
        ),
        policy is Some && vstd::utf8::is_ascii_chars(trim_seq(policy->Some_0@)) ==> res_view(out)
            == spec_webrtc_choice(Some(crate::text::lower_seq(trim_seq(policy->Some_0@))), disabled),
{
    webrtc_policy_choice(lowered_text(policy), disabled)
}

/// Whether a policy keeps WebRTC off direct UDP.
pub open spec fn spec_udp_restricted(policy: Seq<char>) -> bool {
    policy == "public_only"@ || policy == "proxy_only"@
}

pub fn is_webrtc_direct_udp_restricted(policy: &str) -> (r: bool)
    ensures
        r == spec_udp_restricted(policy@),
{
    let cp = chars_of(policy);
    is_text(&cp, "public_only") || is_text(&cp, "proxy_only")
}

/// The name under which a profile's proxy password is kept in the keychain.
pub fn keychain_service(profile_id: &str) -> (out: String)
    ensures
        out@ == "com.xiaochi.local-chromium-manager.proxy."@ + profile_id@,
{
    join2("com.xiaochi.local-chromium-manager.proxy.", &chars_of(profile_id))
}


/// The error of a proxy that is only partly filled in.
pub open spec fn partial_proxy_error() -> Seq<char> {
    "Proxy scheme, host, and port are all required when proxy is enabled."@
}

/// What `normalize_proxy_settings` gives: the scheme's error first, then the port's, then,
/// when some but not all of scheme, host and port are given, the partial-proxy error.
pub open spec fn spec_proxy_settings(
    scheme: Option<Seq<char>>,
    host: Option<Seq<char>>,
    port: Option<i64>,
) -> Result<(Option<Seq<char>>, Option<Seq<char>>, Option<i64>), Seq<char>> {
    match spec_scheme_choice(spec_lowered(scheme)) {
        Err(e) => Err(e),
        Ok(s) => {
            let h = spec_optional_text(host);
            match port {
                Some(v) if !(1 <= v <= 65535) => Err(port_error(v as int)),
                _ => {
                    let some_given = s is Some || h is Some || port is Some;
                    let all_given = s is Some && h is Some && port is Some;
                    if some_given && !all_given {
                        Err(partial_proxy_error())
                    } else {
                        Ok((s, h, port))
                    }
                },
            }
        },
    }
}

pub open spec fn settings_view(
    r: Result<(Option<String>, Option<String>, Option<i64>), String>,
) -> Result<(Option<Seq<char>>, Option<Seq<char>>, Option<i64>), Seq<char>> {
    match r {
        Ok((s, h, p)) => Ok((opt_view(s), opt_view(h), p)),
        Err(e) => Err(e@),
    }
}

/// A profile's own proxy: either none of scheme, host and port, or all three, normalised.
pub fn normalize_proxy_settings(
    scheme: Option<String>,
    host: Option<String>,
    port: Option<i64>,
) -> (out: Result<(Option<String>, Option<String>, Option<i64>), String>)
    ensures
        settings_view(out) == spec_proxy_settings(opt_view(scheme), opt_view(host), port),
{
    let scheme = match normalize_proxy_scheme(scheme) {
        Ok(s) => s,
        Err(e) => return Err(e),
    };
    let host = normalize_proxy_host(host);
    let port = match normalize_proxy_port(port) {
        Ok(p) => p,
        Err(e) => return Err(e),
    };
    if scheme.is_some() || host.is_some() || port.is_some() {
        if scheme.is_none() || host.is_none() || port.is_none() {
            return Err(
                "Proxy scheme, host, and port are all required when proxy is enabled.".to_string(),
            );
        }
    }
    Ok((scheme, host, port))
}

/// What `normalize_required_proxy_settings` gives.
pub open spec fn spec_required_proxy_settings(
    scheme: Seq<char>,
    host: Seq<char>,
    port: i64,
) -> Result<(Seq<char>, Seq<char>, i64), Seq<char>> {
    match spec_scheme_choice(spec_lowered(Some(scheme))) {
        Err(e) => Err(e),
        Ok(None) => Err("Proxy scheme is required."@),
        Ok(Some(s)) => match spec_optional_text(Some(host)) {
            None => Err("Proxy host is required."@),
            Some(h) => if 1 <= port <= 65535 {
                Ok((s, h, port))
            } else {
                Err(port_error(port as int))
            },
        },
    }
}

pub open spec fn required_view(r: Result<(String, String, i64), String>) -> Result<(Seq<char>, Seq<char>, i64), Seq<char>> {
    match r {
        Ok((s, h, p)) => Ok((s@, h@, p)),
        Err(e) => Err(e@),
    }
}

/// A saved proxy's scheme, host and port, all three required and normalised.
pub fn normalize_required_proxy_settings(
    scheme: String,
    host: String,
    port: i64,
) -> (out: Result<(String, String, i64), String>)
    ensures
        required_view(out) == spec_required_proxy_settings(scheme@, host@, port),
        trim_seq(scheme@).len() == 0 ==> required_view(out) == Err::<(Seq<char>, Seq<char>, i64), Seq<char>>(
            "Proxy scheme is required."@,
        ),
{
    let scheme = match normalize_proxy_scheme(Some(scheme)) {
        Ok(Some(s)) => s,
        Ok(None) => return Err("Proxy scheme is required.".to_string()),
        Err(e) => return Err(e),
    };
    let host = match normalize_proxy_host(Some(host)) {
        Some(h) => h,
        None => return Err("Proxy host is required.".to_string()),
    };
    let port = match normalize_proxy_port(Some(port)) {
        Ok(Some(p)) => p,
        Ok(None) => return Err("Proxy port is required.".to_string()),
        Err(e) => return Err(e),
    };
    Ok((scheme, host, port))
}

/// Normalising an optional text field a second time changes nothing: what is stored is
/// already in normal form.
pub proof fn law_optional_text_stable(value: Option<Seq<char>>)
    ensures
        spec_optional_text(spec_optional_text(value)) == spec_optional_text(value),
{
    if let Some(s) = value {
        crate::text::lemma_trim_idempotent(s);
    }
}

/// A profile's own proxy is all or nothing: normalising scheme, host and port gives either
/// none of them or all three, the scheme one of http, https, socks4, socks5, the host
/// trimmed and not blank, the port in 1..=65535.
pub proof fn law_proxy_all_or_nothing(scheme: Option<Seq<char>>, host: Option<Seq<char>>, port: Option<i64>)
    ensures
        spec_proxy_settings(scheme, host, port) matches Ok((s, h, p)) ==> {
            &&& (s is Some && h is Some && p is Some) || (s is None && h is None && p is None)
            &&& s is Some ==> is_supported_scheme(s->Some_0)
            &&& h is Some ==> h->Some_0.len() > 0 && trim_seq(h->Some_0) == h->Some_0
            &&& p is Some ==> 1 <= p->Some_0 <= 65535
        },
{
    if let Some(hv) = host {
        crate::text::lemma_trim_idempotent(hv);
    }
}

/// The four proxy types, SOCKS5, SOCKS4, HTTP and HTTPS, are each accepted as they stand
/// (once trimmed and lowercased); any other scheme that is not blank is refused with an error
/// that names it; a blank or absent scheme means no proxy.
pub proof fn law_proxy_schemes_accepted(v: Seq<char>)
    ensures
        (spec_scheme_choice(Some(v)) == Ok::<Option<Seq<char>>, Seq<char>>(Some(v))) <==> (v == "http"@
            || v == "https"@ || v == "socks4"@ || v == "socks5"@),
        v.len() > 0 && !(v == "http"@ || v == "https"@ || v == "socks4"@ || v == "socks5"@)
            ==> spec_scheme_choice(Some(v)) == Err::<Option<Seq<char>>, Seq<char>>(
            "Unsupported proxy scheme: "@ + v,
        ),
        v.len() == 0 ==> spec_scheme_choice(Some(v)) == Ok::<Option<Seq<char>>, Seq<char>>(None),
        spec_scheme_choice(None) == Ok::<Option<Seq<char>>, Seq<char>>(None),
{
    reveal_strlit("http");
    reveal_strlit("https");
    reveal_strlit("socks4");
    reveal_strlit("socks5");
}

/// Every profile ends up with one of the three WebRTC policies.
pub proof fn law_webrtc_policy_supported(lowered: Option<Seq<char>>, disabled: Option<bool>)
    ensures
        spec_webrtc_choice(lowered, disabled) matches Ok(v) ==> is_webrtc_policy(v),
{
    reveal_strlit("default");
    reveal_strlit("proxy_only");
}

} // verus!
