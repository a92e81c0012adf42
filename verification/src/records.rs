//! Stored profiles and proxies: the text columns they are kept in and what is read back.

use vstd::prelude::*;
use crate::external::{
    json_decode_strings, json_encode_strings, json_string_list, json_strings_text, parse_rfc3339,
    rfc3339_instant,
};
use crate::http::sv;
use crate::launch::{Profile, Timestamp};
use crate::normalize::spec_udp_restricted;
use crate::text::opt_view;

verus! {

/// A date-and-time column as the library reads it.
pub open spec fn spec_datetime(text: Seq<char>) -> Result<Timestamp, Seq<char>> {
    match rfc3339_instant(text) {
        Ok((s, n)) => Ok(Timestamp { seconds: s, nanos: n }),
        Err(e) => Err(e),
    }
}

pub open spec fn ts_res_view(r: Result<Timestamp, String>) -> Result<Timestamp, Seq<char>> {
    match r {
        Ok(t) => Ok(t),
        Err(e) => Err(e@),
    }
}

/// An RFC 3339 date-and-time, as an instant in UTC.
pub fn parse_datetime(value: String) -> (out: Result<Timestamp, String>)
    ensures
        ts_res_view(out) == spec_datetime(value@),
{
    match parse_rfc3339(value.as_str()) {
        Ok((seconds, nanos)) => Ok(Timestamp { seconds, nanos }),
        Err(e) => Err(e),
    }
}

/// An optional RFC 3339 date-and-time.
pub open spec fn spec_optional_datetime(value: Option<Seq<char>>) -> Result<Option<Timestamp>, Seq<char>> {
    match value {
        None => Ok(None),
        Some(v) => match spec_datetime(v) {
            Ok(t) => Ok(Some(t)),
            Err(e) => Err(e),
        },
    }
}

pub open spec fn opt_ts_res_view(r: Result<Option<Timestamp>, String>) -> Result<Option<Timestamp>, Seq<char>> {
    match r {
        Ok(t) => Ok(t),
        Err(e) => Err(e@),
    }
}

/// An optional RFC 3339 date-and-time, as an optional instant in UTC.
pub fn parse_optional_datetime(value: Option<String>) -> (out: Result<Option<Timestamp>, String>)
    ensures
        opt_ts_res_view(out) == spec_optional_datetime(opt_view(value)),
{
    match value {
        None => Ok(None),
        Some(v) => match parse_datetime(v) {
            Ok(t) => Ok(Some(t)),
            Err(e) => Err(e),
        },
    }
}

pub open spec fn list_res_view(r: Result<Vec<String>, String>) -> Result<Seq<Seq<char>>, Seq<char>> {
    match r {
        Ok(v) => Ok(sv(v@)),
        Err(e) => Err(e@),
    }
}

/// A JSON array of strings, read from its column.
pub fn decode_json_vec(value: String) -> (out: Result<Vec<String>, String>)
    ensures
        list_res_view(out) == json_string_list(value@),
{
    json_decode_strings(value.as_str())
}

/// A list of strings as the JSON text of its column, which `decode_json_vec` reads back as
/// the same list.
pub fn encode_json(value: &Vec<String>) -> (out: Result<String, String>)
    ensures
        out matches Ok(s) && s@ == json_strings_text(sv(value@)),
        out matches Ok(s) && json_string_list(s@) matches Ok(read) && read == sv(value@),
{
    Ok(json_encode_strings(value))
}

/// The columns of a stored profile, as read from the database.
pub struct ProfileRow {
    pub id: String,
    pub name: String,
    pub notes: String,
    pub tags_json: String,
    pub browser_binary_path: Option<String>,
    pub user_data_dir: String,
    pub proxy_id: Option<String>,
    pub proxy_scheme: Option<String>,
    pub proxy_host: Option<String>,
    pub proxy_port: Option<i64>,
    pub proxy_username: Option<String>,
    pub proxy_password_secret_ref: Option<String>,
    pub user_agent: Option<String>,
    pub language: Option<String>,
    pub timezone: Option<String>,
    pub profile_color: Option<String>,
    pub webrtc_policy: Option<String>,
    pub webrtc_disabled: i64,
    pub window_width: Option<i64>,
    pub window_height: Option<i64>,
    pub window_x: Option<i64>,
    pub window_y: Option<i64>,
    pub launch_args_json: String,
    pub startup_urls_json: String,
    pub created_at: String,
    pub updated_at: String,
    pub last_launched_at: Option<String>,
}

/// The WebRTC policy of a stored profile: its own, or, for rows from before policies were
/// kept, `proxy_only` when WebRTC was switched off and `default` otherwise.
pub open spec fn stored_webrtc_policy(policy: Option<Seq<char>>, disabled: i64) -> Seq<char> {
    match policy {
        Some(p) => p,
        None => if disabled != 0 {
            "proxy_only"@
        } else {
            "default"@
        },
    }
}

/// The first column of `row` that cannot be read, by its error, in the order the columns
/// are read: tags, launch arguments, startup pages, creation, update and launch times.
pub open spec fn profile_row_error(row: ProfileRow) -> Option<Seq<char>> {
    if json_string_list(row.tags_json@) is Err {
        Some(json_string_list(row.tags_json@)->Err_0)
    } else if json_string_list(row.launch_args_json@) is Err {
        Some(json_string_list(row.launch_args_json@)->Err_0)
    } else if json_string_list(row.startup_urls_json@) is Err {
        Some(json_string_list(row.startup_urls_json@)->Err_0)
    } else if spec_datetime(row.created_at@) is Err {
        Some(spec_datetime(row.created_at@)->Err_0)
    } else if spec_datetime(row.updated_at@) is Err {
        Some(spec_datetime(row.updated_at@)->Err_0)
    } else if spec_optional_datetime(opt_view(row.last_launched_at)) is Err {
        Some(spec_optional_datetime(opt_view(row.last_launched_at))->Err_0)
    } else {
        None
    }
}

/// `p` is the profile stored in `row`.
pub open spec fn profile_read_from(p: Profile, row: ProfileRow) -> bool {
    let policy = stored_webrtc_policy(opt_view(row.webrtc_policy), row.webrtc_disabled);
    &&& p.id@ == row.id@
    &&& p.name@ == row.name@
    &&& p.notes@ == row.notes@
    &&& sv(p.tags@) == json_string_list(row.tags_json@)->Ok_0
    &&& opt_view(p.browser_binary_path) == opt_view(row.browser_binary_path)
    &&& p.user_data_dir@ == row.user_data_dir@
    &&& opt_view(p.proxy_id) == opt_view(row.proxy_id)
    &&& opt_view(p.proxy_scheme) == opt_view(row.proxy_scheme)
    &&& opt_view(p.proxy_host) == opt_view(row.proxy_host)
    &&& p.proxy_port == row.proxy_port
    &&& opt_view(p.proxy_username) == opt_view(row.proxy_username)
    &&& p.proxy_password_saved == row.proxy_password_secret_ref is Some
    &&& opt_view(p.user_agent) == opt_view(row.user_agent)
    &&& opt_view(p.language) == opt_view(row.language)
    &&& opt_view(p.timezone) == opt_view(row.timezone)
    &&& opt_view(p.profile_color) == opt_view(row.profile_color)
    &&& p.webrtc_policy@ == policy
    &&& p.webrtc_disabled == spec_udp_restricted(policy)
    &&& p.window_width == row.window_width
    &&& p.window_height == row.window_height
    &&& p.window_x == row.window_x
    &&& p.window_y == row.window_y
    &&& sv(p.launch_args@) == json_string_list(row.launch_args_json@)->Ok_0
    &&& sv(p.startup_urls@) == json_string_list(row.startup_urls_json@)->Ok_0
    &&& p.created_at == spec_datetime(row.created_at@)->Ok_0
    &&& p.updated_at == spec_datetime(row.updated_at@)->Ok_0
    &&& p.last_launched_at == spec_optional_datetime(opt_view(row.last_launched_at))->Ok_0
    &&& !p.running
}

/// The profile stored in `row`, or the error of its first column that cannot be read.
pub fn profile_from_row(row: ProfileRow) -> (out: Result<Profile, String>)
    ensures
        match out {
            Ok(p) => profile_row_error(row) is None && profile_read_from(p, row),
            Err(e) => profile_row_error(row) == Some(e@),
        },
{
    let webrtc_disabled = row.webrtc_disabled != 0;
    let webrtc_policy = match row.webrtc_policy {
        Some(p) => p,
        None => if webrtc_disabled {
            "proxy_only".to_string()
        } else {
            "default".to_string()
        },
    };
    let tags = match decode_json_vec(row.tags_json) {
        Ok(v) => v,
        Err(e) => return Err(e),
    };
    let launch_args = match decode_json_vec(row.launch_args_json) {
        Ok(v) => v,
        Err(e) => return Err(e),
    };
    let startup_urls = match decode_json_vec(row.startup_urls_json) {
        Ok(v) => v,
        Err(e) => return Err(e),
    };
    let created_at = match parse_datetime(row.created_at) {
        Ok(v) => v,
        Err(e) => return Err(e),
    };
    let updated_at = match parse_datetime(row.updated_at) {
        Ok(v) => v,
        Err(e) => return Err(e),
    };
    let last_launched_at = match parse_optional_datetime(row.last_launched_at) {
        Ok(v) => v,
        Err(e) => return Err(e),
    };
    let restricted = crate::normalize::is_webrtc_direct_udp_restricted(webrtc_policy.as_str());
    Ok(Profile {
        id: row.id,
        name: row.name,
        notes: row.notes,
        tags,
        browser_binary_path: row.browser_binary_path,
        user_data_dir: row.user_data_dir,
        proxy_id: row.proxy_id,
        proxy_scheme: row.proxy_scheme,
        proxy_host: row.proxy_host,
        proxy_port: row.proxy_port,
        proxy_username: row.proxy_username,
        proxy_password_saved: row.proxy_password_secret_ref.is_some(),
        user_agent: row.user_agent,
        language: row.language,
        timezone: row.timezone,
        profile_color: row.profile_color,
        webrtc_policy,
        webrtc_disabled: restricted,
        window_width: row.window_width,
        window_height: row.window_height,
        window_x: row.window_x,
        window_y: row.window_y,
        launch_args,
        startup_urls,
        created_at,
        updated_at,
        last_launched_at,
        running: false,
    })
}

/// A saved proxy.
pub struct ProxyProfile {
    pub id: String,
    pub name: String,
    pub scheme: String,
    pub host: String,
    pub port: i64,
    pub username: Option<String>,
    pub password_saved: bool,
    pub notes: String,
    pub created_at: Timestamp,
    pub updated_at: Timestamp,
}

/// The columns of a saved proxy, as read from the database.
pub struct ProxyProfileRow {
    pub id: String,
    pub name: String,
    pub scheme: String,
    pub host: String,
    pub port: i64,
    pub username: Option<String>,
    pub password_secret_ref: Option<String>,
    pub notes: String,
    pub created_at: String,
    pub updated_at: String,
}

/// The first time column of `row` that cannot be read, by its error.
pub open spec fn proxy_row_error(row: ProxyProfileRow) -> Option<Seq<char>> {
    if spec_datetime(row.created_at@) is Err {
        Some(spec_datetime(row.created_at@)->Err_0)
    } else if spec_datetime(row.updated_at@) is Err {
        Some(spec_datetime(row.updated_at@)->Err_0)
    } else {
        None
    }
}

/// `p` is the proxy stored in `row`.
pub open spec fn proxy_read_from(p: ProxyProfile, row: ProxyProfileRow) -> bool {
    &&& p.id@ == row.id@
    &&& p.name@ == row.name@
    &&& p.scheme@ == row.scheme@
    &&& p.host@ == row.host@
    &&& p.port == row.port
    &&& opt_view(p.username) == opt_view(row.username)
    &&& p.password_saved == row.password_secret_ref is Some
    &&& p.notes@ == row.notes@
    &&& p.created_at == spec_datetime(row.created_at@)->Ok_0
    &&& p.updated_at == spec_datetime(row.updated_at@)->Ok_0
}

/// The proxy stored in `row`, or the error of its first time column that cannot be read.
pub fn proxy_profile_from_row(row: ProxyProfileRow) -> (out: Result<ProxyProfile, String>)
    ensures
        match out {
            Ok(p) => proxy_row_error(row) is None && proxy_read_from(p, row),
            Err(e) => proxy_row_error(row) == Some(e@),
        },
{
    let created_at = match parse_datetime(row.created_at) {
        Ok(v) => v,
        Err(e) => return Err(e),
    };
    let updated_at = match parse_datetime(row.updated_at) {
        Ok(v) => v,
        Err(e) => return Err(e),
    };
    Ok(ProxyProfile {
        id: row.id,
        name: row.name,
        scheme: row.scheme,
        host: row.host,
        port: row.port,
        username: row.username,
        password_saved: row.password_secret_ref.is_some(),
        notes: row.notes,
        created_at,
        updated_at,
    })
}

} // verus!
