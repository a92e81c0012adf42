//! Profiles and the command line that opens one in Chrome.

use vstd::prelude::*;
use crate::http::sv;
use crate::text::{chars_of, concat, has_prefix, i64_text, int_text, is_text, starts_with, to_string, trim_chars, trim_seq};

verus! {

/// An instant, in whole seconds since the Unix epoch and nanoseconds beyond them.
#[derive(Clone, Copy, Debug, PartialEq, Eq, Structural)]
pub struct Timestamp {
    pub seconds: i64,
    pub nanos: u32,
}

/// A browser profile and its settings.
pub struct Profile {
    pub id: String,
    pub name: String,
    pub notes: String,
    pub tags: Vec<String>,
    pub browser_binary_path: Option<String>,
    pub user_data_dir: String,
    pub proxy_id: Option<String>,
    pub proxy_scheme: Option<String>,
    pub proxy_host: Option<String>,
    pub proxy_port: Option<i64>,
    pub proxy_username: Option<String>,
    pub proxy_password_saved: bool,
    pub user_agent: Option<String>,
    pub language: Option<String>,
    pub timezone: Option<String>,
    pub profile_color: Option<String>,
    pub webrtc_policy: String,
    pub webrtc_disabled: bool,
    pub window_width: Option<i64>,
    pub window_height: Option<i64>,
    pub window_x: Option<i64>,
    pub window_y: Option<i64>,
    pub launch_args: Vec<String>,
    pub startup_urls: Vec<String>,
    pub created_at: Timestamp,
    pub updated_at: Timestamp,
    pub last_launched_at: Option<Timestamp>,
    pub running: bool,
}

pub open spec fn or_default(o: Option<i64>, d: i64) -> i64 {
    match o {
        Some(v) => v,
        None => d,
    }
}

/// The user's own arguments that are kept: trimmed, without blank ones and without any that
/// would set the user-data directory.
pub open spec fn kept_args(args: Seq<Seq<char>>) -> Seq<Seq<char>>
    decreases args.len(),
{
    if args.len() == 0 {
        Seq::empty()
    } else {
        let rest = kept_args(args.drop_last());
        let t = trim_seq(args.last());
        if t.len() > 0 && !has_prefix(t, "--user-data-dir"@) {
            rest.push(t)
        } else {
            rest
        }
    }
}

/// The startup pages: trimmed, without blank ones.
pub open spec fn kept_urls(urls: Seq<Seq<char>>) -> Seq<Seq<char>>
    decreases urls.len(),
{
    if urls.len() == 0 {
        Seq::empty()
    } else {
        let rest = kept_urls(urls.drop_last());
        let t = trim_seq(urls.last());
        if t.len() > 0 {
            rest.push(t)
        } else {
            rest
        }
    }
}

/// One of the user's own arguments sets a proxy server.
pub open spec fn custom_sets_proxy(args: Seq<Seq<char>>) -> bool {
    exists|i: int| 0 <= i < args.len() && has_prefix(trim_seq(#[trigger] args[i]), "--proxy-server"@)
}

pub open spec fn webrtc_flag_public() -> Seq<char> {
    "--webrtc-ip-handling-policy=default_public_interface_only"@
}

pub open spec fn webrtc_flag_proxied() -> Seq<char> {
    "--webrtc-ip-handling-policy=disable_non_proxied_udp"@
}

pub open spec fn webrtc_flag_force() -> Seq<char> {
    "--force-webrtc-ip-handling-policy"@
}

/// The flags that hold the user-data directory, the first-run prompts, the window and its
/// place (1280x900 at 80,80 unless set).
pub open spec fn base_args(p: Profile) -> Seq<Seq<char>> {
    seq![
        "--user-data-dir="@ + p.user_data_dir@,
        "--no-first-run"@,
        "--no-default-browser-check"@,
        "--new-window"@,
        "--window-size="@ + int_text(or_default(p.window_width, 1280) as int) + ","@ + int_text(
            or_default(p.window_height, 900) as int,
        ),
        "--window-position="@ + int_text(or_default(p.window_x, 80) as int) + ","@ + int_text(
            or_default(p.window_y, 80) as int,
        ),
    ]
}

/// The flags for the user agent and the language.
pub open spec fn identity_args(p: Profile) -> Seq<Seq<char>> {
    let ua = match p.user_agent {
        Some(u) => seq!["--user-agent="@ + u@],
        None => Seq::empty(),
    };
    let lang = match p.language {
        Some(l) => seq!["--lang="@ + l@, "--accept-lang="@ + l@],
        None => Seq::empty(),
    };
    ua + lang
}

/// The WebRTC flags: by policy, and for the older switch when the policy is the default.
pub open spec fn webrtc_args(p: Profile) -> Seq<Seq<char>> {
    let by_policy = if p.webrtc_policy@ == "public_only"@ {
        seq![webrtc_flag_public(), webrtc_flag_force()]
    } else if p.webrtc_policy@ == "proxy_only"@ {
        seq![webrtc_flag_proxied(), webrtc_flag_force()]
    } else {
        Seq::empty()
    };
    let by_switch = if p.webrtc_disabled && p.webrtc_policy@ == "default"@ {
        seq![webrtc_flag_proxied(), webrtc_flag_force()]
    } else {
        Seq::empty()
    };
    by_policy + by_switch
}

/// The proxy flag from the profile's proxy, when it has scheme, host and port and the
/// user's own arguments set no proxy.
pub open spec fn proxy_args(p: Profile) -> Seq<Seq<char>> {
    if !custom_sets_proxy(sv(p.launch_args@)) && p.proxy_scheme is Some && p.proxy_host is Some
        && p.proxy_port is Some {
        seq![
            "--proxy-server="@ + p.proxy_scheme->Some_0@ + "://"@ + p.proxy_host->Some_0@ + ":"@
                + int_text(p.proxy_port->Some_0 as int),
        ]
    } else {
        Seq::empty()
    }
}

/// The pages to open: the startup pages, or a blank page when there are none.
pub open spec fn page_args(p: Profile) -> Seq<Seq<char>> {
    let urls = kept_urls(sv(p.startup_urls@));
    if urls.len() == 0 {
        seq!["about:blank"@]
    } else {
        urls
    }
}

/// The command line that opens profile `p`.
pub open spec fn spec_launch_args(p: Profile) -> Seq<Seq<char>> {
    base_args(p) + identity_args(p) + webrtc_args(p) + proxy_args(p) + kept_args(
        sv(p.launch_args@),
    ) + page_args(p)
}

fn lit(s: &str) -> (out: String)
    ensures
        out@ == s@,
{
    s.to_string()
}

fn pair_flag(flag: &str, a: i64, b: i64) -> (out: String)
    ensures
        out@ == flag@ + int_text(a as int) + ","@ + int_text(b as int),
{
    let v = concat(&concat(&concat(&chars_of(flag), &i64_text(a)), &chars_of(",")), &i64_text(b));
    to_string(&v)
}

fn push_string(out: &mut Vec<String>, s: String)
    ensures
        sv(final(out)@) == sv(old(out)@).push(s@),
{
    out.push(s);
    assert(sv(out@) =~= sv(old(out)@).push(s@));
}

/// Whether one of the user's own arguments sets a proxy server.
fn sets_proxy(args: &Vec<String>) -> (r: bool)
    ensures
        r == custom_sets_proxy(sv(args@)),
{
    let flag = chars_of("--proxy-server");
    for i in 0..args.len()
        invariant
            flag@ == "--proxy-server"@,
            forall|k: int| 0 <= k < i ==> !has_prefix(trim_seq(#[trigger] sv(args@)[k]), "--proxy-server"@),
    {
        let t = trim_chars(&chars_of(args[i].as_str()));
        assert(sv(args@)[i as int] == args@[i as int]@);
        if starts_with(&t, &flag) {
            return true;
        }
    }
    false
}

fn keep_args(args: &Vec<String>, out: &mut Vec<String>)
    ensures
        sv(final(out)@) == sv(old(out)@) + kept_args(sv(args@)),
{
    let flag = chars_of("--user-data-dir");
    let ghost start = sv(out@);
    for i in 0..args.len()
        invariant
            flag@ == "--user-data-dir"@,
            sv(out@) == start + kept_args(sv(args@).take(i as int)),
    {
        assert(sv(args@).take(i + 1).drop_last() =~= sv(args@).take(i as int));
        assert(sv(args@).take(i + 1).last() == args@[i as int]@);
        let t = trim_chars(&chars_of(args[i].as_str()));
        if t.len() > 0 && !starts_with(&t, &flag) {
            push_string(out, to_string(&t));
        }
    }
    assert(sv(args@).take(args.len() as int) =~= sv(args@));
}

fn keep_urls(urls: &Vec<String>) -> (out: Vec<String>)
    ensures
        sv(out@) == kept_urls(sv(urls@)),
{
    let mut out: Vec<String> = Vec::new();
    for i in 0..urls.len()
        invariant
            sv(out@) == kept_urls(sv(urls@).take(i as int)),
    {
        assert(sv(urls@).take(i + 1).drop_last() =~= sv(urls@).take(i as int));
        assert(sv(urls@).take(i + 1).last() == urls@[i as int]@);
        let t = trim_chars(&chars_of(urls[i].as_str()));
        if t.len() > 0 {
            push_string(&mut out, to_string(&t));
        }
    }
    assert(sv(urls@).take(urls.len() as int) =~= sv(urls@));
    out
}

fn push_base_args(profile: &Profile, args: &mut Vec<String>)
    ensures
        sv(final(args)@) == sv(old(args)@) + base_args(*profile),
{
    let ghost start = sv(args@);
    let mut first = chars_of("--user-data-dir=");
    first = concat(&first, &chars_of(profile.user_data_dir.as_str()));
    push_string(args, to_string(&first));
    push_string(args, lit("--no-first-run"));
    push_string(args, lit("--no-default-browser-check"));
    push_string(args, lit("--new-window"));
    let width = match profile.window_width { Some(v) => v, None => 1280 };
    let height = match profile.window_height { Some(v) => v, None => 900 };
    let x = match profile.window_x { Some(v) => v, None => 80 };
    let y = match profile.window_y { Some(v) => v, None => 80 };
    push_string(args, pair_flag("--window-size=", width, height));
    push_string(args, pair_flag("--window-position=", x, y));
    assert(sv(args@) =~= start + base_args(*profile));
}

fn push_identity_args(profile: &Profile, args: &mut Vec<String>)
    ensures
        sv(final(args)@) == sv(old(args)@) + identity_args(*profile),
{
    let ghost start = sv(args@);
    if let Some(user_agent) = &profile.user_agent {
        push_string(args, to_string(&concat(&chars_of("--user-agent="), &chars_of(user_agent.as_str()))));
    }
    if let Some(language) = &profile.language {
        push_string(args, to_string(&concat(&chars_of("--lang="), &chars_of(language.as_str()))));
        push_string(args, to_string(&concat(&chars_of("--accept-lang="), &chars_of(language.as_str()))));
    }
    assert(sv(args@) =~= start + identity_args(*profile));
}

fn push_webrtc_args(profile: &Profile, args: &mut Vec<String>)
    ensures
        sv(final(args)@) == sv(old(args)@) + webrtc_args(*profile),
{
    let ghost start = sv(args@);
    let policy = chars_of(profile.webrtc_policy.as_str());
    if is_text(&policy, "public_only") {
        push_string(args, lit("--webrtc-ip-handling-policy=default_public_interface_only"));
        push_string(args, lit("--force-webrtc-ip-handling-policy"));
    } else if is_text(&policy, "proxy_only") {
        push_string(args, lit("--webrtc-ip-handling-policy=disable_non_proxied_udp"));
        push_string(args, lit("--force-webrtc-ip-handling-policy"));
    }
    if profile.webrtc_disabled && is_text(&policy, "default") {
        push_string(args, lit("--webrtc-ip-handling-policy=disable_non_proxied_udp"));
        push_string(args, lit("--force-webrtc-ip-handling-policy"));
    }
    assert(sv(args@) =~= start + webrtc_args(*profile));
}

fn push_proxy_args(profile: &Profile, args: &mut Vec<String>)
    ensures
        sv(final(args)@) == sv(old(args)@) + proxy_args(*profile),
{
    let ghost start = sv(args@);
    if !sets_proxy(&profile.launch_args) {
        if let Some(scheme) = &profile.proxy_scheme {
            if let Some(host) = &profile.proxy_host {
                if let Some(port) = profile.proxy_port {
                    let v = concat(
                        &concat(&concat(&concat(&chars_of("--proxy-server="), &chars_of(scheme.as_str())), &chars_of("://")), &chars_of(host.as_str())),
                        &concat(&chars_of(":"), &i64_text(port)),
                    );
                    assert(v@ =~= "--proxy-server="@ + scheme@ + "://"@ + host@ + ":"@ + int_text(port as int));
                    push_string(args, to_string(&v));
                }
            }
        }
    }
    assert(sv(args@) =~= start + proxy_args(*profile));
}

fn push_page_args(profile: &Profile, args: &mut Vec<String>)
    ensures
        sv(final(args)@) == sv(old(args)@) + page_args(*profile),
{
    let ghost start = sv(args@);
    let urls = keep_urls(&profile.startup_urls);
    if urls.len() == 0 {
        push_string(args, lit("about:blank"));
    } else {
        let mut i: usize = 0;
        while i < urls.len()
            invariant
                i <= urls.len(),
                sv(args@) == start + sv(urls@).take(i as int),
            decreases urls.len() - i,
        {
            push_string(args, urls[i].clone());
            assert(sv(urls@).take(i + 1) =~= sv(urls@).take(i as int).push(urls@[i as int]@));
            i += 1;
        }
        assert(sv(urls@).take(urls.len() as int) =~= sv(urls@));
    }
    assert(sv(args@) =~= start + page_args(*profile));
}

/// The command line that opens `profile` in Chrome: its own user-data directory first, the
/// window, identity and WebRTC flags, its proxy unless the user's own arguments set one,
/// the user's own arguments (never a second user-data directory), then the startup pages.
pub fn build_launch_args(profile: &Profile) -> (args: Vec<String>)
    ensures
        sv(args@) == spec_launch_args(*profile),
{
    let mut args: Vec<String> = Vec::new();
    assert(sv(args@) =~= Seq::<Seq<char>>::empty());
    push_base_args(profile, &mut args);
    push_identity_args(profile, &mut args);
    push_webrtc_args(profile, &mut args);
    push_proxy_args(profile, &mut args);
    keep_args(&profile.launch_args, &mut args);
    push_page_args(profile, &mut args);
    assert(sv(args@) =~= spec_launch_args(*profile));
    args
}


// ---------------------------------------------------------------------------
// Laws of the command line
// ---------------------------------------------------------------------------

proof fn lemma_not_prefix(s: Seq<char>, p: Seq<char>, k: int)
    requires
        0 <= k < p.len(),
        k < s.len(),
        s[k] != p[k],
    ensures
        !has_prefix(s, p),
{
    if has_prefix(s, p) {
        assert(s.subrange(0, p.len() as int)[k] == s[k]);
    }
}

proof fn lemma_kept_args_no_data_dir(args: Seq<Seq<char>>)
    ensures
        forall|k: int| 0 <= k < kept_args(args).len() ==> !has_prefix(#[trigger] kept_args(args)[k], "--user-data-dir"@),
    decreases args.len(),
{
    if args.len() > 0 {
        lemma_kept_args_no_data_dir(args.drop_last());
        let rest = kept_args(args.drop_last());
        assert forall|k: int| 0 <= k < kept_args(args).len() implies !has_prefix(
            #[trigger] kept_args(args)[k],
            "--user-data-dir"@,
        ) by {
            if k < rest.len() {
                assert(kept_args(args)[k] == rest[k]);
            }
        }
    }
}

proof fn lemma_kept_args_keeps_proxy(args: Seq<Seq<char>>, i: int)
    requires
        0 <= i < args.len(),
        has_prefix(trim_seq(args[i]), "--proxy-server"@),
    ensures
        exists|k: int| 0 <= k < kept_args(args).len() && has_prefix(#[trigger] kept_args(args)[k], "--proxy-server"@),
    decreases args.len(),
{
    reveal_strlit("--proxy-server");
    reveal_strlit("--user-data-dir");
    if i == args.len() - 1 {
        let t = trim_seq(args.last());
        assert(t.subrange(0, 14)[2] == t[2]);
        assert(t[2] == 'p');
        lemma_not_prefix(t, "--user-data-dir"@, 2);
        assert(kept_args(args).last() == t);
    } else {
        lemma_kept_args_keeps_proxy(args.drop_last(), i);
        let k = choose|k: int| 0 <= k < kept_args(args.drop_last()).len() && has_prefix(#[trigger] kept_args(args.drop_last())[k], "--proxy-server"@);
        assert(kept_args(args)[k] == kept_args(args.drop_last())[k]);
    }
}

/// Profile isolation: the first argument always chooses the profile's own user-data
/// directory, and no later argument chooses another one unless it is one of the profile's
/// own startup pages (which Chrome opens as pages, not as flags).
pub proof fn law_launch_args_keep_profile_isolation(p: Profile)
    ensures
        spec_launch_args(p)[0] == "--user-data-dir="@ + p.user_data_dir@,
        forall|i: int|
            1 <= i < spec_launch_args(p).len() && has_prefix(#[trigger] spec_launch_args(p)[i], "--user-data-dir"@)
                ==> kept_urls(sv(p.startup_urls@)).contains(spec_launch_args(p)[i]),
{
    reveal_strlit("--user-data-dir");
    reveal_strlit("--no-first-run");
    reveal_strlit("--no-default-browser-check");
    reveal_strlit("--new-window");
    reveal_strlit("--window-size=");
    reveal_strlit("--window-position=");
    reveal_strlit("--user-agent=");
    reveal_strlit("--lang=");
    reveal_strlit("--accept-lang=");
    reveal_strlit("--webrtc-ip-handling-policy=default_public_interface_only");
    reveal_strlit("--webrtc-ip-handling-policy=disable_non_proxied_udp");
    reveal_strlit("--force-webrtc-ip-handling-policy");
    reveal_strlit("--proxy-server=");
    reveal_strlit("about:blank");
    let args = spec_launch_args(p);
    let b = base_args(p);
    let id = identity_args(p);
    let w = webrtc_args(p);
    let px = proxy_args(p);
    let ka = kept_args(sv(p.launch_args@));
    let pg = page_args(p);
    let d = "--user-data-dir"@;
    lemma_kept_args_no_data_dir(sv(p.launch_args@));
    assert forall|i: int| 1 <= i < args.len() && has_prefix(#[trigger] args[i], d)
        implies kept_urls(sv(p.startup_urls@)).contains(args[i]) by {
        let n1 = b.len() as int;
        let n2 = n1 + id.len();
        let n3 = n2 + w.len();
        let n4 = n3 + px.len();
        let n5 = n4 + ka.len();
        if i < n1 {
            let x = b[i];
            assert(x == args[i]);
            lemma_not_prefix(x, d, 2);
        } else if i < n2 {
            let x = id[i - n1];
            assert(x == args[i]);
            if p.user_agent is Some && i == n1 {
                lemma_not_prefix(x, d, 7);
            } else {
                lemma_not_prefix(x, d, 2);
            }
        } else if i < n3 {
            let x = w[i - n2];
            assert(x == args[i]);
            lemma_not_prefix(x, d, 2);
        } else if i < n4 {
            let x = px[i - n3];
            assert(x == args[i]);
            lemma_not_prefix(x, d, 2);
        } else if i < n5 {
            assert(args[i] == ka[i - n4]);
        } else {
            let x = pg[i - n5];
            assert(x == args[i]);
            if kept_urls(sv(p.startup_urls@)).len() == 0 {
                lemma_not_prefix(x, d, 0);
            } else {
                assert(kept_urls(sv(p.startup_urls@))[i - n5] == x);
            }
        }
    }
}


/// Startup pages split over two lists are kept as each list's pages, in order; a single URL
/// is kept, trimmed, exactly when it is not blank.
pub proof fn law_startup_pages_concat(a: Seq<Seq<char>>, b: Seq<Seq<char>>, u: Seq<char>)
    ensures
        kept_urls(a + b) == kept_urls(a) + kept_urls(b),
        kept_urls(seq![u]) == (if trim_seq(u).len() > 0 {
            seq![trim_seq(u)]
        } else {
            Seq::<Seq<char>>::empty()
        }),
    decreases b.len(),
{
    assert(seq![u].drop_last() =~= Seq::<Seq<char>>::empty());
    assert(seq![u].last() == u);
    assert(kept_urls(Seq::<Seq<char>>::empty()) == Seq::<Seq<char>>::empty());
    assert(Seq::<Seq<char>>::empty().push(trim_seq(u)) =~= seq![trim_seq(u)]);
    if b.len() == 0 {
        assert(a + b =~= a);
        assert(kept_urls(a) + kept_urls(b) =~= kept_urls(a));
    } else {
        law_startup_pages_concat(a, b.drop_last(), u);
        assert((a + b).drop_last() =~= a + b.drop_last());
        assert((a + b).last() == b.last());
        let t = trim_seq(b.last());
        if t.len() > 0 {
            assert((kept_urls(a) + kept_urls(b.drop_last())).push(t) =~= kept_urls(a) + kept_urls(b.drop_last()).push(t));
        }
    }
}

/// Every startup URL that is not blank is kept, trimmed.
pub proof fn law_every_startup_page_kept(urls: Seq<Seq<char>>, i: int)
    requires
        0 <= i < urls.len(),
        trim_seq(urls[i]).len() > 0,
    ensures
        kept_urls(urls).contains(trim_seq(urls[i])),
{
    let pre = urls.take(i);
    let one = seq![urls[i]];
    let post = urls.skip(i + 1);
    assert(urls =~= pre + one + post);
    law_startup_pages_concat(pre + one, post, urls[i]);
    law_startup_pages_concat(pre, one, urls[i]);
    let k = kept_urls(pre).len() as int;
    assert(kept_urls(urls)[k] == trim_seq(urls[i]));
}

/// Chrome opens every startup page: each startup URL that is not blank stands, trimmed, on
/// the command line, and the command line ends with all of them, in order.
pub proof fn law_startup_pages_opened(p: Profile)
    ensures
        forall|i: int|
            0 <= i < p.startup_urls@.len() && trim_seq(#[trigger] p.startup_urls@[i]@).len() > 0
                ==> spec_launch_args(p).contains(trim_seq(p.startup_urls@[i]@)),
        kept_urls(sv(p.startup_urls@)).len() > 0 ==> spec_launch_args(p).skip(
            spec_launch_args(p).len() - kept_urls(sv(p.startup_urls@)).len(),
        ) == kept_urls(sv(p.startup_urls@)),
{
    let urls = sv(p.startup_urls@);
    let args = spec_launch_args(p);
    let k = kept_urls(urls);
    let off: int = args.len() - page_args(p).len();
    if k.len() > 0 {
        assert(args.skip(off) =~= k);
    }
    assert forall|i: int|
        0 <= i < p.startup_urls@.len() && trim_seq(#[trigger] p.startup_urls@[i]@).len() > 0
            implies args.contains(trim_seq(p.startup_urls@[i]@)) by {
        assert(urls[i] == p.startup_urls@[i]@);
        law_every_startup_page_kept(urls, i);
        let j = choose|j: int| 0 <= j < k.len() && k[j] == trim_seq(urls[i]);
        assert(args[off + j] == k[j]);
    }
}

/// A proxy the user sets among their own arguments wins: the profile's own proxy adds no
/// flag, and the user's flag is passed on.
pub proof fn law_custom_proxy_wins(p: Profile)
    requires
        custom_sets_proxy(sv(p.launch_args@)),
    ensures
        proxy_args(p).len() == 0,
        exists|i: int|
            0 <= i < spec_launch_args(p).len() && has_prefix(#[trigger] spec_launch_args(p)[i], "--proxy-server"@),
{
    let a = sv(p.launch_args@);
    let i = choose|i: int| 0 <= i < a.len() && has_prefix(trim_seq(#[trigger] a[i]), "--proxy-server"@);
    lemma_kept_args_keeps_proxy(a, i);
    let ka = kept_args(a);
    let k = choose|k: int| 0 <= k < ka.len() && has_prefix(#[trigger] ka[k], "--proxy-server"@);
    let off: int = (base_args(p).len() + identity_args(p).len() + webrtc_args(p).len() + proxy_args(p).len()) as int;
    assert(spec_launch_args(p)[off + k] == ka[k]);
}

/// Without a proxy among the user's own arguments, a profile with scheme, host and port gets
/// the flag `--proxy-server=<scheme>://<host>:<port>`.
pub proof fn law_profile_proxy_flag(p: Profile)
    requires
        !custom_sets_proxy(sv(p.launch_args@)),
        p.proxy_scheme is Some,
        p.proxy_host is Some,
        p.proxy_port is Some,
    ensures
        spec_launch_args(p).contains(
            "--proxy-server="@ + p.proxy_scheme->Some_0@ + "://"@ + p.proxy_host->Some_0@ + ":"@
                + int_text(p.proxy_port->Some_0 as int),
        ),
{
    let off: int = (base_args(p).len() + identity_args(p).len() + webrtc_args(p).len()) as int;
    assert(spec_launch_args(p)[off] == proxy_args(p)[0]);
}

/// A policy that keeps WebRTC off direct UDP, or the older off switch with the default
/// policy, is always forced on Chrome.
pub proof fn law_webrtc_restriction_forced(p: Profile)
    requires
        crate::normalize::spec_udp_restricted(p.webrtc_policy@) || (p.webrtc_disabled
            && p.webrtc_policy@ == "default"@),
    ensures
        spec_launch_args(p).contains(webrtc_flag_force()),
{
    let off: int = (base_args(p).len() + identity_args(p).len()) as int;
    let w = webrtc_args(p);
    assert(w[1] == webrtc_flag_force());
    assert(spec_launch_args(p)[off + 1] == w[1]);
}

/// Chrome always opens a page: the command line ends with the last startup page, or with
/// `about:blank` when the profile has none.
pub proof fn law_launch_args_open_a_page(p: Profile)
    ensures
        spec_launch_args(p).len() >= 7,
        spec_launch_args(p).last() == (if kept_urls(sv(p.startup_urls@)).len() == 0 {
            "about:blank"@
        } else {
            kept_urls(sv(p.startup_urls@)).last()
        }),
{
}

} // verus!
