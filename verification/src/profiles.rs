//! What the app makes of the values entered for a profile or a saved proxy, in the order the
//! app checks them, and what becomes of the proxy passwords kept in the keychain.

use vstd::prelude::*;
use crate::color::{normalize_profile_color, spec_profile_color};
use crate::http::sv;
use crate::normalize::{
    coordinate_error, dimension_error, normalize_coordinate, normalize_dimension,
    normalize_optional_text, normalize_profile_name, normalize_proxy_settings,
    normalize_required_name, normalize_required_proxy_settings, normalize_webrtc_policy,
    is_webrtc_direct_udp_restricted, spec_lowered, spec_optional_text, spec_proxy_settings,
    spec_required_proxy_settings, spec_udp_restricted, spec_webrtc_choice,
};
use crate::external::{json_encode_strings, json_string_list, json_strings_text};
use crate::launch::Profile;
use crate::records::{
    profile_read_from, profile_row_error, proxy_read_from, proxy_row_error, spec_datetime, ProfileRow,
    ProxyProfile, ProxyProfileRow,
};
use crate::text::{opt_view, trim_seq};

verus! {

/// The values entered for a browser profile.
pub struct ProfileInput {
    pub name: String,
    pub notes: Option<String>,
    pub tags: Option<Vec<String>>,
    pub browser_binary_path: Option<String>,
    pub proxy_id: Option<String>,
    pub proxy_scheme: Option<String>,
    pub proxy_host: Option<String>,
    pub proxy_port: Option<i64>,
    pub proxy_username: Option<String>,
    pub proxy_password: Option<String>,
    pub user_agent: Option<String>,
    pub language: Option<String>,
    pub timezone: Option<String>,
    pub profile_color: Option<String>,
    pub webrtc_policy: Option<String>,
    pub webrtc_disabled: Option<bool>,
    pub window_width: Option<i64>,
    pub window_height: Option<i64>,
    pub window_x: Option<i64>,
    pub window_y: Option<i64>,
    pub launch_args: Option<Vec<String>>,
    pub startup_urls: Option<Vec<String>>,
}

/// The values of a browser profile once they are checked and normalised.
pub struct ProfileFields {
    pub name: String,
    pub notes: String,
    pub tags: Vec<String>,
    pub browser_binary_path: Option<String>,
    pub proxy_id: Option<String>,
    pub proxy_scheme: Option<String>,
    pub proxy_host: Option<String>,
    pub proxy_port: Option<i64>,
    pub proxy_username: Option<String>,
    pub proxy_password: Option<String>,
    pub user_agent: Option<String>,
    pub language: Option<String>,
    pub timezone: Option<String>,
    pub profile_color: Option<String>,
    pub webrtc_policy: String,
    pub webrtc_disabled: bool,
    pub window_width: Option<i64>,
    pub window_height: Option<i64>,
    pub window_x: Option<i64>,
    pub window_y: Option<i64>,
    pub launch_args: Vec<String>,
    pub startup_urls: Vec<String>,
}

/// The error of a window dimension or coordinate, if out of range.
pub open spec fn dimension_issue(name: Seq<char>, value: Option<i64>) -> Option<Seq<char>> {
    match value {
        Some(v) if !(1 <= v <= 10000) => Some(dimension_error(name, v as int)),
        _ => None,
    }
}

pub open spec fn coordinate_issue(name: Seq<char>, value: Option<i64>) -> Option<Seq<char>> {
    match value {
        Some(v) if !(-10000 <= v <= 10000) => Some(coordinate_error(name, v as int)),
        _ => None,
    }
}

/// The first error among the values entered for a profile, checked in this order: the name,
/// the proxy, the colour, the WebRTC policy, the window's width, height, x and y.
pub open spec fn profile_input_error(i: ProfileInput) -> Option<Seq<char>> {
    if trim_seq(i.name@).len() == 0 {
        Some("Profile name is required."@)
    } else if spec_proxy_settings(opt_view(i.proxy_scheme), opt_view(i.proxy_host), i.proxy_port) is Err {
        Some(spec_proxy_settings(opt_view(i.proxy_scheme), opt_view(i.proxy_host), i.proxy_port)->Err_0)
    } else if spec_profile_color(opt_view(i.profile_color)) is Err {
        Some(spec_profile_color(opt_view(i.profile_color))->Err_0)
    } else if spec_webrtc_choice(spec_lowered(opt_view(i.webrtc_policy)), i.webrtc_disabled) is Err {
        Some(spec_webrtc_choice(spec_lowered(opt_view(i.webrtc_policy)), i.webrtc_disabled)->Err_0)
    } else if dimension_issue("Window width"@, i.window_width) is Some {
        dimension_issue("Window width"@, i.window_width)
    } else if dimension_issue("Window height"@, i.window_height) is Some {
        dimension_issue("Window height"@, i.window_height)
    } else if coordinate_issue("Window X"@, i.window_x) is Some {
        coordinate_issue("Window X"@, i.window_x)
    } else {
        coordinate_issue("Window Y"@, i.window_y)
    }
}

pub open spec fn list_or_empty(v: Option<Vec<String>>) -> Seq<Seq<char>> {
    match v {
        Some(v) => sv(v@),
        None => Seq::empty(),
    }
}

/// `f` holds the values entered in `i`, normalised.
pub open spec fn fields_from(f: ProfileFields, i: ProfileInput) -> bool {
    let proxy = spec_proxy_settings(opt_view(i.proxy_scheme), opt_view(i.proxy_host), i.proxy_port)->Ok_0;
    let policy = spec_webrtc_choice(spec_lowered(opt_view(i.webrtc_policy)), i.webrtc_disabled)->Ok_0;
    &&& f.name@ == trim_seq(i.name@)
    &&& f.notes@ == (match i.notes { Some(n) => n@, None => Seq::empty() })
    &&& sv(f.tags@) == list_or_empty(i.tags)
    &&& opt_view(f.browser_binary_path) == opt_view(i.browser_binary_path)
    &&& opt_view(f.proxy_id) == spec_optional_text(opt_view(i.proxy_id))
    &&& opt_view(f.proxy_scheme) == proxy.0
    &&& opt_view(f.proxy_host) == proxy.1
    &&& f.proxy_port == proxy.2
    &&& opt_view(f.proxy_username) == spec_optional_text(opt_view(i.proxy_username))
    &&& opt_view(f.proxy_password) == opt_view(i.proxy_password)
    &&& opt_view(f.user_agent) == spec_optional_text(opt_view(i.user_agent))
    &&& opt_view(f.language) == spec_optional_text(opt_view(i.language))
    &&& opt_view(f.timezone) == spec_optional_text(opt_view(i.timezone))
    &&& opt_view(f.profile_color) == spec_profile_color(opt_view(i.profile_color))->Ok_0
    &&& f.webrtc_policy@ == policy
    &&& f.webrtc_disabled == spec_udp_restricted(policy)
    &&& f.window_width == i.window_width
    &&& f.window_height == i.window_height
    &&& f.window_x == i.window_x
    &&& f.window_y == i.window_y
    &&& sv(f.launch_args@) == list_or_empty(i.launch_args)
    &&& sv(f.startup_urls@) == list_or_empty(i.startup_urls)
}

fn vec_or_empty(v: Option<Vec<String>>) -> (out: Vec<String>)
    ensures
        sv(out@) == list_or_empty(v),
{
    match v {
        Some(v) => v,
        None => Vec::new(),
    }
}

/// The values entered for a profile, checked and normalised, or the first error among them.
pub fn normalize_profile_fields(input: ProfileInput) -> (out: Result<ProfileFields, String>)
    ensures
        match out {
            Ok(f) => profile_input_error(input) is None && fields_from(f, input),
            Err(e) => profile_input_error(input) == Some(e@),
        },
{
    let ProfileInput {
        name, notes, tags, browser_binary_path, proxy_id, proxy_scheme, proxy_host, proxy_port,
        proxy_username, proxy_password, user_agent, language, timezone, profile_color,
        webrtc_policy, webrtc_disabled, window_width, window_height, window_x, window_y,
        launch_args, startup_urls,
    } = input;
    let name = match normalize_profile_name(name.as_str()) {
        Ok(n) => n,
        Err(e) => return Err(e),
    };
    let tags = vec_or_empty(tags);
    let (proxy_scheme, proxy_host, proxy_port) = match normalize_proxy_settings(proxy_scheme, proxy_host, proxy_port) {
        Ok(s) => s,
        Err(e) => return Err(e),
    };
    let proxy_username = normalize_optional_text(proxy_username);
    let user_agent = normalize_optional_text(user_agent);
    let language = normalize_optional_text(language);
    let timezone = normalize_optional_text(timezone);
    let profile_color = match normalize_profile_color(profile_color) {
        Ok(c) => c,
        Err(e) => return Err(e),
    };
    let webrtc_policy = match normalize_webrtc_policy(webrtc_policy, webrtc_disabled) {
        Ok(p) => p,
        Err(e) => return Err(e),
    };
    let window_width = match normalize_dimension(window_width, "Window width") {
        Ok(v) => v,
        Err(e) => return Err(e),
    };
    let window_height = match normalize_dimension(window_height, "Window height") {
        Ok(v) => v,
        Err(e) => return Err(e),
    };
    let window_x = match normalize_coordinate(window_x, "Window X") {
        Ok(v) => v,
        Err(e) => return Err(e),
    };
    let window_y = match normalize_coordinate(window_y, "Window Y") {
        Ok(v) => v,
        Err(e) => return Err(e),
    };
    let webrtc_disabled = is_webrtc_direct_udp_restricted(webrtc_policy.as_str());
    let notes = match notes {
        Some(n) => n,
        None => String::new(),
    };
    Ok(ProfileFields {
        name,
        notes,
        tags,
        browser_binary_path,
        proxy_id: normalize_optional_text(proxy_id),
        proxy_scheme,
        proxy_host,
        proxy_port,
        proxy_username,
        proxy_password,
        user_agent,
        language,
        timezone,
        profile_color,
        webrtc_policy,
        webrtc_disabled,
        window_width,
        window_height,
        window_x,
        window_y,
        launch_args: vec_or_empty(launch_args),
        startup_urls: vec_or_empty(startup_urls),
    })
}

/// The values of a profile that decide its proxy, checked and normalised: these are checked
/// first, and a new profile's proxy is settled (a saved proxy looked up, a password saved)
/// before its other values are checked.
pub struct ProfileHead {
    pub name: String,
    pub proxy_id: Option<String>,
    pub proxy_scheme: Option<String>,
    pub proxy_host: Option<String>,
    pub proxy_port: Option<i64>,
    pub proxy_username: Option<String>,
    pub proxy_password: Option<String>,
}

/// `h` holds the proxy values entered in `i`, normalised, as `fields_from` gives them.
pub open spec fn head_from(h: ProfileHead, i: ProfileInput) -> bool {
    let proxy = spec_proxy_settings(opt_view(i.proxy_scheme), opt_view(i.proxy_host), i.proxy_port)->Ok_0;
    &&& h.name@ == trim_seq(i.name@)
    &&& opt_view(h.proxy_id) == spec_optional_text(opt_view(i.proxy_id))
    &&& opt_view(h.proxy_scheme) == proxy.0
    &&& opt_view(h.proxy_host) == proxy.1
    &&& h.proxy_port == proxy.2
    &&& opt_view(h.proxy_username) == spec_optional_text(opt_view(i.proxy_username))
    &&& opt_view(h.proxy_password) == opt_view(i.proxy_password)
}

/// The first error among a profile's name and proxy values.
pub open spec fn head_input_error(i: ProfileInput) -> Option<Seq<char>> {
    if trim_seq(i.name@).len() == 0 {
        Some("Profile name is required."@)
    } else if spec_proxy_settings(opt_view(i.proxy_scheme), opt_view(i.proxy_host), i.proxy_port) is Err {
        Some(spec_proxy_settings(opt_view(i.proxy_scheme), opt_view(i.proxy_host), i.proxy_port)->Err_0)
    } else {
        None
    }
}

/// The name and proxy values entered for a profile, checked and normalised, or the first
/// error among them, which is then also the first error among all its values.
pub fn normalize_profile_head(input: &ProfileInput) -> (out: Result<ProfileHead, String>)
    ensures
        match out {
            Ok(h) => head_input_error(*input) is None && head_from(h, *input),
            Err(e) => head_input_error(*input) == Some(e@) && profile_input_error(*input) == Some(e@),
        },
{
    let name = match normalize_profile_name(input.name.as_str()) {
        Ok(n) => n,
        Err(e) => return Err(e),
    };
    let (proxy_scheme, proxy_host, proxy_port) = match normalize_proxy_settings(
        input.proxy_scheme.clone(),
        input.proxy_host.clone(),
        input.proxy_port,
    ) {
        Ok(s) => s,
        Err(e) => return Err(e),
    };
    Ok(ProfileHead {
        name,
        proxy_id: normalize_optional_text(input.proxy_id.clone()),
        proxy_scheme,
        proxy_host,
        proxy_port,
        proxy_username: normalize_optional_text(input.proxy_username.clone()),
        proxy_password: input.proxy_password.clone(),
    })
}

/// The head of a profile's values holds the same name and proxy values as all of them.
pub proof fn law_head_agrees_with_fields(h: ProfileHead, f: ProfileFields, i: ProfileInput)
    requires
        head_from(h, i),
        fields_from(f, i),
    ensures
        h.name@ == f.name@,
        opt_view(h.proxy_id) == opt_view(f.proxy_id),
        opt_view(h.proxy_scheme) == opt_view(f.proxy_scheme),
        opt_view(h.proxy_host) == opt_view(f.proxy_host),
        h.proxy_port == f.proxy_port,
        opt_view(h.proxy_username) == opt_view(f.proxy_username),
        opt_view(h.proxy_password) == opt_view(f.proxy_password),
{
}

/// The values entered for a saved proxy.
pub struct ProxyProfileInput {
    pub name: String,
    pub scheme: String,
    pub host: String,
    pub port: i64,
    pub username: Option<String>,
    pub password: Option<String>,
    pub notes: Option<String>,
}

/// The values of a saved proxy once they are checked and normalised.
pub struct ProxyFields {
    pub name: String,
    pub scheme: String,
    pub host: String,
    pub port: i64,
    pub username: Option<String>,
    pub password: Option<String>,
    pub notes: String,
}

/// The first error among the values entered for a saved proxy: the name, then the scheme,
/// host and port.
pub open spec fn proxy_input_error(i: ProxyProfileInput) -> Option<Seq<char>> {
    if trim_seq(i.name@).len() == 0 {
        Some("Proxy name is required."@)
    } else if spec_required_proxy_settings(i.scheme@, i.host@, i.port) is Err {
        Some(spec_required_proxy_settings(i.scheme@, i.host@, i.port)->Err_0)
    } else {
        None
    }
}

/// `f` holds the values entered in `i`, normalised.
pub open spec fn proxy_fields_from(f: ProxyFields, i: ProxyProfileInput) -> bool {
    let settings = spec_required_proxy_settings(i.scheme@, i.host@, i.port)->Ok_0;
    &&& f.name@ == trim_seq(i.name@)
    &&& f.scheme@ == settings.0
    &&& f.host@ == settings.1
    &&& f.port == settings.2
    &&& opt_view(f.username) == spec_optional_text(opt_view(i.username))
    &&& opt_view(f.password) == opt_view(i.password)
    &&& f.notes@ == (match i.notes { Some(n) => n@, None => Seq::empty() })
}

/// The values entered for a saved proxy, checked and normalised, or the first error.
pub fn normalize_proxy_fields(input: ProxyProfileInput) -> (out: Result<ProxyFields, String>)
    ensures
        match out {
            Ok(f) => proxy_input_error(input) is None && proxy_fields_from(f, input),
            Err(e) => proxy_input_error(input) == Some(e@),
        },
{
    let ProxyProfileInput { name, scheme, host, port, username, password, notes } = input;
    proof {
        reveal_strlit("Proxy name");
        reveal_strlit(" is required.");
        reveal_strlit("Proxy name is required.");
        assert("Proxy name"@ + " is required."@ =~= "Proxy name is required."@);
    }
    let name = match normalize_required_name(name.as_str(), "Proxy name") {
        Ok(n) => n,
        Err(e) => return Err(e),
    };
    let (scheme, host, port) = match normalize_required_proxy_settings(scheme, host, port) {
        Ok(s) => s,
        Err(e) => return Err(e),
    };
    let notes = match notes {
        Some(n) => n,
        None => String::new(),
    };
    Ok(ProxyFields { name, scheme, host, port, username: normalize_optional_text(username), password, notes })
}

// ---------------------------------------------------------------------------
// Keychain items
// ---------------------------------------------------------------------------

/// What becomes of the keychain item that holds a proxy password.
pub enum SecretPlan {
    /// Save this password for this username; the item saved is then the one kept.
    Save { username: String, password: String },
    /// Delete this item, if any; none is kept.
    Clear { existing: Option<String> },
    /// Keep this item, if any.
    Keep { existing: Option<String> },
}

/// A password is saved when there is a username and a non-empty password.
pub open spec fn saves_password(username: Option<Seq<char>>, password: Option<Seq<char>>) -> bool {
    username is Some && password is Some && password->Some_0.len() > 0
}

pub open spec fn is_save(p: SecretPlan, username: Option<Seq<char>>, password: Option<Seq<char>>) -> bool {
    p matches SecretPlan::Save { username: u, password: w } && Some(u@) == username && Some(w@) == password
}

pub open spec fn is_keep(p: SecretPlan, existing: Option<Seq<char>>) -> bool {
    p matches SecretPlan::Keep { existing: e } && opt_view(e) == existing
}

pub open spec fn is_clear(p: SecretPlan, existing: Option<Seq<char>>) -> bool {
    p matches SecretPlan::Clear { existing: e } && opt_view(e) == existing
}

fn save_plan(username: &Option<String>, password: &Option<String>) -> (out: Option<SecretPlan>)
    ensures
        saves_password(opt_view(*username), opt_view(*password)) ==> out is Some && is_save(out->Some_0, opt_view(*username), opt_view(*password)),
        !saves_password(opt_view(*username), opt_view(*password)) ==> out is None,
{
    match (username, password) {
        (Some(u), Some(w)) => if w.as_str().is_empty() {
            None
        } else {
            Some(SecretPlan::Save { username: u.clone(), password: w.clone() })
        },
        _ => None,
    }
}

/// The keychain item of a new proxy or profile: saved when a username and a non-empty
/// password are given, else none.
pub fn new_secret_plan(username: &Option<String>, password: &Option<String>) -> (out: SecretPlan)
    ensures
        if saves_password(opt_view(*username), opt_view(*password)) {
            is_save(out, opt_view(*username), opt_view(*password))
        } else {
            is_keep(out, None)
        },
{
    match save_plan(username, password) {
        Some(p) => p,
        None => SecretPlan::Keep { existing: None },
    }
}

/// The keychain item of a saved proxy being updated: saved anew when a username and a
/// non-empty password are given; deleted when no username is; else the existing one kept.
pub fn proxy_secret_plan(username: &Option<String>, password: &Option<String>, existing: Option<String>) -> (out: SecretPlan)
    ensures
        if saves_password(opt_view(*username), opt_view(*password)) {
            is_save(out, opt_view(*username), opt_view(*password))
        } else if username is None {
            is_clear(out, opt_view(existing))
        } else {
            is_keep(out, opt_view(existing))
        },
{
    match save_plan(username, password) {
        Some(p) => p,
        None => if username.is_none() {
            SecretPlan::Clear { existing }
        } else {
            SecretPlan::Keep { existing }
        },
    }
}

/// Where a profile's proxy comes from.
pub enum ProxySource {
    /// The saved proxy `proxy_id`; the profile's own keychain item, if any, is deleted.
    Saved { proxy_id: String, delete: Option<String> },
    /// The profile's own proxy settings, with this plan for its keychain item.
    Own(SecretPlan),
}

/// Where the proxy of a new profile comes from: the saved proxy chosen, else its own settings,
/// with a password saved when a username and a non-empty password are given.
pub fn new_profile_proxy_source(head: &ProfileHead) -> (out: ProxySource)
    ensures
        match head.proxy_id {
            Some(id) => out matches ProxySource::Saved { proxy_id, delete } && proxy_id@ == id@ && delete is None,
            None => out matches ProxySource::Own(plan) && if saves_password(opt_view(head.proxy_username), opt_view(head.proxy_password)) {
                is_save(plan, opt_view(head.proxy_username), opt_view(head.proxy_password))
            } else {
                is_keep(plan, None)
            },
        },
{
    match &head.proxy_id {
        Some(id) => ProxySource::Saved { proxy_id: id.clone(), delete: None },
        None => ProxySource::Own(new_secret_plan(&head.proxy_username, &head.proxy_password)),
    }
}

/// Where the proxy of a profile being updated comes from, given its keychain item `existing`:
/// the saved proxy chosen (the item deleted); else no proxy when no scheme is set (the item
/// deleted); else its own settings, with the password saved anew when a username and a
/// non-empty password are given, or the item kept.
pub fn updated_profile_proxy_source(head: &ProfileHead, existing: Option<String>) -> (out: ProxySource)
    ensures
        match head.proxy_id {
            Some(id) => out matches ProxySource::Saved { proxy_id, delete } && proxy_id@ == id@ && opt_view(delete) == opt_view(existing),
            None => out matches ProxySource::Own(plan) && if head.proxy_scheme is None {
                is_clear(plan, opt_view(existing))
            } else if saves_password(opt_view(head.proxy_username), opt_view(head.proxy_password)) {
                is_save(plan, opt_view(head.proxy_username), opt_view(head.proxy_password))
            } else {
                is_keep(plan, opt_view(existing))
            },
        },
{
    match &head.proxy_id {
        Some(id) => ProxySource::Saved { proxy_id: id.clone(), delete: existing },
        None => if head.proxy_scheme.is_none() {
            ProxySource::Own(SecretPlan::Clear { existing })
        } else {
            match save_plan(&head.proxy_username, &head.proxy_password) {
                Some(p) => ProxySource::Own(p),
                None => ProxySource::Own(SecretPlan::Keep { existing }),
            }
        },
    }
}

/// The proxy a profile is stored with.
pub struct ProxyAssignment {
    pub proxy_id: Option<String>,
    pub scheme: Option<String>,
    pub host: Option<String>,
    pub port: Option<i64>,
    pub username: Option<String>,
    pub secret_ref: Option<String>,
}

/// A profile that uses the saved proxy `proxy` (as found by its id) takes its id, scheme,
/// host, port and username, and keeps no keychain item of its own.
pub fn assign_saved_proxy(proxy: Option<ProxyProfile>) -> (out: Result<ProxyAssignment, String>)
    ensures
        match proxy {
            Some(p) => out matches Ok(a) && {
                &&& opt_view(a.proxy_id) == Some(p.id@)
                &&& opt_view(a.scheme) == Some(p.scheme@)
                &&& opt_view(a.host) == Some(p.host@)
                &&& a.port == Some(p.port)
                &&& opt_view(a.username) == opt_view(p.username)
                &&& a.secret_ref is None
            },
            None => out matches Err(e) && e@ == "Selected proxy profile was not found."@,
        },
{
    match proxy {
        Some(p) => Ok(ProxyAssignment {
            proxy_id: Some(p.id),
            scheme: Some(p.scheme),
            host: Some(p.host),
            port: Some(p.port),
            username: p.username,
            secret_ref: None,
        }),
        None => Err("Selected proxy profile was not found.".to_string()),
    }
}

/// A profile with its own proxy keeps its settings and the keychain item `secret_ref`.
pub fn assign_own_proxy(head: &ProfileHead, secret_ref: Option<String>) -> (out: ProxyAssignment)
    ensures
        out.proxy_id is None,
        opt_view(out.scheme) == opt_view(head.proxy_scheme),
        opt_view(out.host) == opt_view(head.proxy_host),
        out.port == head.proxy_port,
        opt_view(out.username) == opt_view(head.proxy_username),
        opt_view(out.secret_ref) == opt_view(secret_ref),
{
    ProxyAssignment {
        proxy_id: None,
        scheme: head.proxy_scheme.clone(),
        host: head.proxy_host.clone(),
        port: head.proxy_port,
        username: head.proxy_username.clone(),
        secret_ref,
    }
}

// ---------------------------------------------------------------------------
// What is saved of a profile
// ---------------------------------------------------------------------------

/// `row` is what is saved of profile `id` with values `f`, proxy `a` and user-data directory
/// `dir`, created at `created` and last changed at `updated` (RFC 3339 texts).
pub open spec fn row_written(
    row: ProfileRow,
    id: Seq<char>,
    f: ProfileFields,
    a: ProxyAssignment,
    dir: Seq<char>,
    created: Seq<char>,
    updated: Seq<char>,
) -> bool {
    &&& row.id@ == id
    &&& row.name@ == f.name@
    &&& row.notes@ == f.notes@
    &&& row.tags_json@ == json_strings_text(sv(f.tags@))
    &&& json_string_list(row.tags_json@) == Ok::<Seq<Seq<char>>, Seq<char>>(sv(f.tags@))
    &&& opt_view(row.browser_binary_path) == opt_view(f.browser_binary_path)
    &&& row.user_data_dir@ == dir
    &&& opt_view(row.proxy_id) == opt_view(a.proxy_id)
    &&& opt_view(row.proxy_scheme) == opt_view(a.scheme)
    &&& opt_view(row.proxy_host) == opt_view(a.host)
    &&& row.proxy_port == a.port
    &&& opt_view(row.proxy_username) == opt_view(a.username)
    &&& opt_view(row.proxy_password_secret_ref) == opt_view(a.secret_ref)
    &&& opt_view(row.user_agent) == opt_view(f.user_agent)
    &&& opt_view(row.language) == opt_view(f.language)
    &&& opt_view(row.timezone) == opt_view(f.timezone)
    &&& opt_view(row.profile_color) == opt_view(f.profile_color)
    &&& opt_view(row.webrtc_policy) == Some(f.webrtc_policy@)
    &&& row.webrtc_disabled == (if f.webrtc_disabled { 1i64 } else { 0i64 })
    &&& row.window_width == f.window_width
    &&& row.window_height == f.window_height
    &&& row.window_x == f.window_x
    &&& row.window_y == f.window_y
    &&& row.launch_args_json@ == json_strings_text(sv(f.launch_args@))
    &&& json_string_list(row.launch_args_json@) == Ok::<Seq<Seq<char>>, Seq<char>>(sv(f.launch_args@))
    &&& row.startup_urls_json@ == json_strings_text(sv(f.startup_urls@))
    &&& json_string_list(row.startup_urls_json@) == Ok::<Seq<Seq<char>>, Seq<char>>(sv(f.startup_urls@))
    &&& row.created_at@ == created
    &&& row.updated_at@ == updated
    &&& row.last_launched_at is None
}

/// What is saved of profile `id` with values `fields`, proxy `proxy` and user-data directory
/// `user_data_dir`, created at `created_at` and last changed at `updated_at`.
pub fn profile_row(
    id: String,
    fields: ProfileFields,
    proxy: ProxyAssignment,
    user_data_dir: String,
    created_at: String,
    updated_at: String,
) -> (row: ProfileRow)
    ensures
        row_written(row, id@, fields, proxy, user_data_dir@, created_at@, updated_at@),
{
    let tags_json = json_encode_strings(&fields.tags);
    let launch_args_json = json_encode_strings(&fields.launch_args);
    let startup_urls_json = json_encode_strings(&fields.startup_urls);
    ProfileRow {
        id,
        name: fields.name,
        notes: fields.notes,
        tags_json,
        browser_binary_path: fields.browser_binary_path,
        user_data_dir,
        proxy_id: proxy.proxy_id,
        proxy_scheme: proxy.scheme,
        proxy_host: proxy.host,
        proxy_port: proxy.port,
        proxy_username: proxy.username,
        proxy_password_secret_ref: proxy.secret_ref,
        user_agent: fields.user_agent,
        language: fields.language,
        timezone: fields.timezone,
        profile_color: fields.profile_color,
        webrtc_policy: Some(fields.webrtc_policy),
        webrtc_disabled: if fields.webrtc_disabled { 1 } else { 0 },
        window_width: fields.window_width,
        window_height: fields.window_height,
        window_x: fields.window_x,
        window_y: fields.window_y,
        launch_args_json,
        startup_urls_json,
        created_at,
        updated_at,
        last_launched_at: None,
    }
}

/// A profile saved reads back with the values it was saved with: reading the row saved for
/// values `f` and proxy `a` (with times that parse) fails on no column, and gives a profile
/// whose name, notes, tags, browser, proxy, identity, colour, WebRTC policy, window, arguments
/// and pages are those of `f` and `a`, never launched and not marked running.
pub proof fn law_saved_profile_reads_back(
    row: ProfileRow,
    id: Seq<char>,
    f: ProfileFields,
    a: ProxyAssignment,
    dir: Seq<char>,
    created: Seq<char>,
    updated: Seq<char>,
    p: Profile,
)
    requires
        row_written(row, id, f, a, dir, created, updated),
        spec_datetime(created) is Ok,
        spec_datetime(updated) is Ok,
        f.webrtc_disabled == spec_udp_restricted(f.webrtc_policy@),
        profile_read_from(p, row),
    ensures
        profile_row_error(row) is None,
        p.id@ == id,
        p.name@ == f.name@,
        p.notes@ == f.notes@,
        sv(p.tags@) == sv(f.tags@),
        opt_view(p.browser_binary_path) == opt_view(f.browser_binary_path),
        p.user_data_dir@ == dir,
        opt_view(p.proxy_id) == opt_view(a.proxy_id),
        opt_view(p.proxy_scheme) == opt_view(a.scheme),
        opt_view(p.proxy_host) == opt_view(a.host),
        p.proxy_port == a.port,
        opt_view(p.proxy_username) == opt_view(a.username),
        p.proxy_password_saved == a.secret_ref is Some,
        opt_view(p.user_agent) == opt_view(f.user_agent),
        opt_view(p.language) == opt_view(f.language),
        opt_view(p.timezone) == opt_view(f.timezone),
        opt_view(p.profile_color) == opt_view(f.profile_color),
        p.webrtc_policy@ == f.webrtc_policy@,
        p.webrtc_disabled == f.webrtc_disabled,
        p.window_width == f.window_width,
        p.window_height == f.window_height,
        p.window_x == f.window_x,
        p.window_y == f.window_y,
        sv(p.launch_args@) == sv(f.launch_args@),
        sv(p.startup_urls@) == sv(f.startup_urls@),
        p.created_at == spec_datetime(created)->Ok_0,
        p.updated_at == spec_datetime(updated)->Ok_0,
        p.last_launched_at is None,
        !p.running,
{
}

/// What is saved of saved proxy `id` with values `fields` and keychain item `secret_ref`,
/// created at `created_at` and last changed at `updated_at`.
pub fn proxy_row(id: String, fields: ProxyFields, secret_ref: Option<String>, created_at: String, updated_at: String) -> (row: ProxyProfileRow)
    ensures
        row.id@ == id@,
        row.name@ == fields.name@,
        row.scheme@ == fields.scheme@,
        row.host@ == fields.host@,
        row.port == fields.port,
        opt_view(row.username) == opt_view(fields.username),
        opt_view(row.password_secret_ref) == opt_view(secret_ref),
        row.notes@ == fields.notes@,
        row.created_at@ == created_at@,
        row.updated_at@ == updated_at@,
{
    ProxyProfileRow {
        id,
        name: fields.name,
        scheme: fields.scheme,
        host: fields.host,
        port: fields.port,
        username: fields.username,
        password_secret_ref: secret_ref,
        notes: fields.notes,
        created_at,
        updated_at,
    }
}

/// A saved proxy reads back with the values it was saved with, its password marked saved
/// exactly when a keychain item was kept.
pub proof fn law_saved_proxy_reads_back(row: ProxyProfileRow, f: ProxyFields, secret_ref: Option<Seq<char>>, p: ProxyProfile)
    requires
        row.name@ == f.name@,
        row.scheme@ == f.scheme@,
        row.host@ == f.host@,
        row.port == f.port,
        opt_view(row.username) == opt_view(f.username),
        opt_view(row.password_secret_ref) == secret_ref,
        row.notes@ == f.notes@,
        spec_datetime(row.created_at@) is Ok,
        spec_datetime(row.updated_at@) is Ok,
        proxy_read_from(p, row),
    ensures
        proxy_row_error(row) is None,
        p.name@ == f.name@,
        p.scheme@ == f.scheme@,
        p.host@ == f.host@,
        p.port == f.port,
        opt_view(p.username) == opt_view(f.username),
        p.password_saved == secret_ref is Some,
        p.notes@ == f.notes@,
{
}

} // verus!
