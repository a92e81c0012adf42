//! Where the app keeps its data and browsers, and which browser binaries it can use.

use vstd::prelude::*;
use crate::external::{parent_of, path_parent, path_within, starts_with_path};
use crate::text::{chars_of, concat, is_text, to_string};

verus! {

/// `part` joined onto the path `base`, as `Path::join` does on Unix: an absolute `part`
/// replaces `base`; otherwise a `/` is put between them unless `base` is empty or ends in one.
pub open spec fn path_join(base: Seq<char>, part: Seq<char>) -> Seq<char> {
    if part.len() > 0 && part[0] == '/' {
        part
    } else if base.len() == 0 || base.last() == '/' {
        base + part
    } else {
        base + "/"@ + part
    }
}

/// `part` joined onto the path `base`.
pub fn join_path(base: &str, part: &str) -> (out: String)
    ensures
        out@ == path_join(base@, part@),
{
    let b = chars_of(base);
    let p = chars_of(part);
    if p.len() > 0 && p[0] == '/' {
        return to_string(&p);
    }
    if b.len() == 0 || b[b.len() - 1] == '/' {
        to_string(&concat(&b, &p))
    } else {
        to_string(&concat(&concat(&b, &chars_of("/")), &p))
    }
}

/// The places under the app's data directory.
pub struct AppPaths {
    pub app_data_dir: String,
    pub database_path: String,
    pub config_path: String,
    pub credentials_path: String,
    pub profiles_dir: String,
    pub backups_dir: String,
    pub browsers_dir: String,
}

impl AppPaths {
    /// The places under `app_data_dir`.
    pub fn new(app_data_dir: String) -> (out: Self)
        ensures
            out.app_data_dir@ == app_data_dir@,
            out.database_path@ == path_join(app_data_dir@, "app.db"@),
            out.config_path@ == path_join(app_data_dir@, "config.json"@),
            out.credentials_path@ == path_join(app_data_dir@, "credentials.enc"@),
            out.profiles_dir@ == path_join(app_data_dir@, "profiles"@),
            out.backups_dir@ == path_join(app_data_dir@, "backups"@),
            out.browsers_dir@ == path_join(app_data_dir@, "browsers"@),
    {
        AppPaths {
            database_path: join_path(app_data_dir.as_str(), "app.db"),
            config_path: join_path(app_data_dir.as_str(), "config.json"),
            credentials_path: join_path(app_data_dir.as_str(), "credentials.enc"),
            profiles_dir: join_path(app_data_dir.as_str(), "profiles"),
            backups_dir: join_path(app_data_dir.as_str(), "backups"),
            browsers_dir: join_path(app_data_dir.as_str(), "browsers"),
            app_data_dir,
        }
    }
}

/// The Chrome for Testing platform of an operating system and architecture (as
/// `std::env::consts` names them); only macOS on ARM or x86-64 and Linux on x86-64 are known.
pub open spec fn spec_platform(os: Seq<char>, arch: Seq<char>) -> Result<Seq<char>, Seq<char>> {
    if os == "macos"@ && arch == "aarch64"@ {
        Ok("mac-arm64"@)
    } else if os == "macos"@ && arch == "x86_64"@ {
        Ok("mac-x64"@)
    } else if os == "linux"@ && arch == "x86_64"@ {
        Ok("linux64"@)
    } else {
        Err("Managed Chrome is not wired for this platform yet: "@ + os + "/"@ + arch + "."@)
    }
}

pub open spec fn str_res_view(r: Result<String, String>) -> Result<Seq<char>, Seq<char>> {
    match r {
        Ok(s) => Ok(s@),
        Err(e) => Err(e@),
    }
}

/// The Chrome for Testing platform of `os` and `arch`.
pub fn chrome_for_testing_platform(os: &str, arch: &str) -> (out: Result<String, String>)
    ensures
        str_res_view(out) == spec_platform(os@, arch@),
{
    let o = chars_of(os);
    let a = chars_of(arch);
    if is_text(&o, "macos") && is_text(&a, "aarch64") {
        Ok("mac-arm64".to_string())
    } else if is_text(&o, "macos") && is_text(&a, "x86_64") {
        Ok("mac-x64".to_string())
    } else if is_text(&o, "linux") && is_text(&a, "x86_64") {
        Ok("linux64".to_string())
    } else {
        let m = concat(&concat(&concat(&concat(&chars_of("Managed Chrome is not wired for this platform yet: "), &o), &chars_of("/")), &a), &chars_of("."));
        Err(to_string(&m))
    }
}

pub open spec fn spec_browser_root(paths: AppPaths) -> Seq<char> {
    path_join(paths.browsers_dir@, "chrome-for-testing"@)
}

/// The directory that holds the app's own Chrome for Testing.
pub fn managed_browser_root(paths: &AppPaths) -> (out: String)
    ensures
        out@ == spec_browser_root(*paths),
{
    join_path(paths.browsers_dir.as_str(), "chrome-for-testing")
}

pub open spec fn spec_install_dir(paths: AppPaths, os: Seq<char>, arch: Seq<char>) -> Result<Seq<char>, Seq<char>> {
    match spec_platform(os, arch) {
        Ok(p) => Ok(path_join(spec_browser_root(paths), "chrome-"@ + p)),
        Err(e) => Err(e),
    }
}

/// The directory the app's own Chrome for Testing is installed in on `os` and `arch`.
pub fn managed_browser_install_dir(paths: &AppPaths, os: &str, arch: &str) -> (out: Result<String, String>)
    ensures
        str_res_view(out) == spec_install_dir(*paths, os@, arch@),
{
    let platform = match chrome_for_testing_platform(os, arch) {
        Ok(p) => p,
        Err(e) => return Err(e),
    };
    let root = managed_browser_root(paths);
    let part = to_string(&concat(&chars_of("chrome-"), &chars_of(platform.as_str())));
    Ok(join_path(root.as_str(), part.as_str()))
}

pub open spec fn spec_binary_path(paths: AppPaths, os: Seq<char>, arch: Seq<char>) -> Result<Seq<char>, Seq<char>> {
    match spec_install_dir(paths, os, arch) {
        Err(e) => Err(e),
        Ok(dir) => if os == "macos"@ {
            Ok(path_join(path_join(path_join(path_join(dir, "Google Chrome for Testing.app"@), "Contents"@), "MacOS"@), "Google Chrome for Testing"@))
        } else if os == "linux"@ {
            Ok(path_join(dir, "chrome"@))
        } else {
            Err("Managed Chrome is not wired for this OS yet: "@ + os + "."@)
        },
    }
}

/// The binary of the app's own Chrome for Testing on `os` and `arch`.
pub fn managed_browser_binary_path(paths: &AppPaths, os: &str, arch: &str) -> (out: Result<String, String>)
    ensures
        str_res_view(out) == spec_binary_path(*paths, os@, arch@),
{
    let dir = match managed_browser_install_dir(paths, os, arch) {
        Ok(d) => d,
        Err(e) => return Err(e),
    };
    let o = chars_of(os);
    if is_text(&o, "macos") {
        let a = join_path(dir.as_str(), "Google Chrome for Testing.app");
        let b = join_path(a.as_str(), "Contents");
        let c = join_path(b.as_str(), "MacOS");
        Ok(join_path(c.as_str(), "Google Chrome for Testing"))
    } else if is_text(&o, "linux") {
        Ok(join_path(dir.as_str(), "chrome"))
    } else {
        Err(to_string(&concat(&concat(&chars_of("Managed Chrome is not wired for this OS yet: "), &o), &chars_of("."))))
    }
}

/// Whether the app's own Chrome for Testing is installed, and where.
pub struct ManagedBrowserStatus {
    pub installed: bool,
    pub install_dir: String,
    pub binary_path: Option<String>,
    pub message: String,
}

/// The status of the app's own Chrome for Testing, given whether its binary exists on disk.
pub fn managed_browser_status(paths: &AppPaths, os: &str, arch: &str, binary_exists: bool) -> (out: ManagedBrowserStatus)
    ensures
        out.install_dir@ == spec_browser_root(*paths),
        match spec_binary_path(*paths, os@, arch@) {
            Ok(bp) => {
                &&& out.installed == binary_exists
                &&& crate::text::opt_view(out.binary_path) == (if binary_exists { Some(bp) } else { None })
                &&& out.message@ == (if binary_exists {
                    "Managed Chrome for Testing is installed and will be used by default."@
                } else {
                    "Managed Chrome for Testing is not installed."@
                })
            },
            Err(m) => !out.installed && out.binary_path is None && out.message@ == m,
        },
{
    match managed_browser_binary_path(paths, os, arch) {
        Ok(binary_path) => ManagedBrowserStatus {
            installed: binary_exists,
            install_dir: managed_browser_root(paths),
            binary_path: if binary_exists { Some(binary_path) } else { None },
            message: if binary_exists {
                "Managed Chrome for Testing is installed and will be used by default.".to_string()
            } else {
                "Managed Chrome for Testing is not installed.".to_string()
            },
        },
        Err(message) => ManagedBrowserStatus {
            installed: false,
            install_dir: managed_browser_root(paths),
            binary_path: None,
            message,
        },
    }
}

/// The places used while installing the app's own Chrome for Testing.
pub struct InstallLayout {
    pub root: String,
    pub extract_dir: String,
    pub install_dir: String,
    pub zip_path: String,
    pub extracted_dir: String,
}

/// The places used while installing the app's own Chrome for Testing on `os` and `arch`: the
/// archive and a scratch directory beside the installations, and the folder the archive unpacks to.
pub fn managed_browser_layout(paths: &AppPaths, os: &str, arch: &str) -> (out: Result<InstallLayout, String>)
    ensures
        match spec_platform(os@, arch@) {
            Ok(p) => out matches Ok(l) && {
                &&& l.root@ == spec_browser_root(*paths)
                &&& l.extract_dir@ == path_join(spec_browser_root(*paths), "extracting"@)
                &&& l.install_dir@ == path_join(spec_browser_root(*paths), "chrome-"@ + p)
                &&& l.zip_path@ == path_join(spec_browser_root(*paths), "chrome-for-testing.zip"@)
                &&& l.extracted_dir@ == path_join(path_join(spec_browser_root(*paths), "extracting"@), "chrome-"@ + p)
            },
            Err(m) => out matches Err(e) && e@ == m,
        },
{
    let platform = match chrome_for_testing_platform(os, arch) {
        Ok(p) => p,
        Err(e) => return Err(e),
    };
    let root = managed_browser_root(paths);
    let extract_dir = join_path(root.as_str(), "extracting");
    let install_dir = match managed_browser_install_dir(paths, os, arch) {
        Ok(d) => d,
        Err(e) => return Err(e),
    };
    let zip_path = join_path(root.as_str(), "chrome-for-testing.zip");
    let folder = to_string(&concat(&chars_of("chrome-"), &chars_of(platform.as_str())));
    let extracted_dir = join_path(extract_dir.as_str(), folder.as_str());
    Ok(InstallLayout { root, extract_dir, install_dir, zip_path, extracted_dir })
}

/// A browser the app can open profiles with.
pub struct BrowserCandidate {
    pub name: String,
    pub app_path: String,
    pub binary_path: String,
    pub exists: bool,
}

/// A candidate's name, app path and binary path.
pub open spec fn candidate_view(c: BrowserCandidate) -> (Seq<char>, Seq<char>, Seq<char>) {
    (c.name@, c.app_path@, c.binary_path@)
}

/// The browsers looked for, in order: the app's own Chrome for Testing (when the app's places
/// are given and the platform has one), then Google Chrome and Chromium in `/Applications`.
pub open spec fn spec_candidates(paths: Option<AppPaths>, os: Seq<char>, arch: Seq<char>) -> Seq<(Seq<char>, Seq<char>, Seq<char>)> {
    let managed = match paths {
        Some(p) => match spec_binary_path(p, os, arch) {
            Ok(bp) => seq![("FingerBrow Managed Chrome"@, spec_browser_root(p), bp)],
            Err(_) => Seq::empty(),
        },
        None => Seq::empty(),
    };
    managed + seq![
        ("Google Chrome"@, "/Applications/Google Chrome.app"@, "/Applications/Google Chrome.app/Contents/MacOS/Google Chrome"@),
        ("Chromium"@, "/Applications/Chromium.app"@, "/Applications/Chromium.app/Contents/MacOS/Chromium"@),
    ]
}

fn candidate<F: Fn(&String) -> bool>(name: &str, app_path: String, binary_path: String, present: &F) -> (out: BrowserCandidate)
    requires
        forall|s: &String| call_requires(*present, (s,)),
    ensures
        out.name@ == name@,
        out.app_path@ == app_path@,
        out.binary_path@ == binary_path@,
        call_ensures(*present, (&out.binary_path,), out.exists),
{
    let found = present(&binary_path);
    BrowserCandidate { name: name.to_string(), app_path, binary_path, exists: found }
}

/// The browsers the app knows of, each with whether its binary is there, as `present` answers
/// for the binary's path (the caller asks the file system).
pub fn browser_candidates<F: Fn(&String) -> bool>(paths: Option<&AppPaths>, os: &str, arch: &str, present: &F) -> (out: Vec<BrowserCandidate>)
    requires
        forall|s: &String| call_requires(*present, (s,)),
    ensures
        out@.len() == spec_candidates(match paths { Some(p) => Some(*p), None => None }, os@, arch@).len(),
        forall|i: int| 0 <= i < out@.len() ==> {
            &&& candidate_view(#[trigger] out@[i]) == spec_candidates(match paths { Some(p) => Some(*p), None => None }, os@, arch@)[i]
            &&& call_ensures(*present, (&out@[i].binary_path,), out@[i].exists)
        },
{
    let ghost expected = spec_candidates(match paths { Some(p) => Some(*p), None => None }, os@, arch@);
    let mut out: Vec<BrowserCandidate> = Vec::new();
    if let Some(p) = paths {
        if let Ok(bp) = managed_browser_binary_path(p, os, arch) {
            let root = managed_browser_root(p);
            let c = candidate("FingerBrow Managed Chrome", root, bp, present);
            out.push(c);
        }
    }
    let c = candidate(
        "Google Chrome",
        "/Applications/Google Chrome.app".to_string(),
        "/Applications/Google Chrome.app/Contents/MacOS/Google Chrome".to_string(),
        present,
    );
    out.push(c);
    let c = candidate(
        "Chromium",
        "/Applications/Chromium.app".to_string(),
        "/Applications/Chromium.app/Contents/MacOS/Chromium".to_string(),
        present,
    );
    out.push(c);
    assert(out@.len() == expected.len());
    assert forall|i: int| 0 <= i < out@.len() implies candidate_view(#[trigger] out@[i]) == expected[i] by {
    }
    out
}

/// The binary path of the first candidate whose binary is there.
pub open spec fn first_present(cs: Seq<BrowserCandidate>) -> Option<Seq<char>>
    decreases cs.len(),
{
    if cs.len() == 0 {
        None
    } else if cs[0].exists {
        Some(cs[0].binary_path@)
    } else {
        first_present(cs.drop_first())
    }
}

/// The binary path of the first candidate whose binary is there, if any.
pub fn first_present_binary(candidates: &Vec<BrowserCandidate>) -> (out: Option<String>)
    ensures
        crate::text::opt_view(out) == first_present(candidates@),
{
    let mut i: usize = 0;
    assert(candidates@.skip(0) =~= candidates@);
    while i < candidates.len()
        invariant
            i <= candidates.len(),
            first_present(candidates@) == first_present(candidates@.skip(i as int)),
        decreases candidates.len() - i,
    {
        assert(candidates@.skip(i as int).drop_first() =~= candidates@.skip(i + 1));
        if candidates[i].exists {
            return Some(candidates[i].binary_path.clone());
        }
        i += 1;
    }
    None
}

/// `cs` are the browsers the app knows of on `os` and `arch`, each marked present as `present`
/// may answer for its binary's path.
pub open spec fn candidates_seen<F: Fn(&String) -> bool>(cs: Seq<BrowserCandidate>, paths: AppPaths, os: Seq<char>, arch: Seq<char>, present: F) -> bool {
    &&& cs.len() == spec_candidates(Some(paths), os, arch).len()
    &&& forall|i: int| 0 <= i < cs.len() ==> {
        &&& candidate_view(#[trigger] cs[i]) == spec_candidates(Some(paths), os, arch)[i]
        &&& call_ensures(present, (&cs[i].binary_path,), cs[i].exists)
    }
}

/// The browser binary used when a profile names none: the first known browser whose binary is
/// there, as `present` answers for each binary path.
pub fn detect_default_browser_binary<F: Fn(&String) -> bool>(paths: &AppPaths, os: &str, arch: &str, present: &F) -> (out: Option<String>)
    requires
        forall|s: &String| call_requires(*present, (s,)),
    ensures
        exists|cs: Seq<BrowserCandidate>|
            candidates_seen(cs, *paths, os@, arch@, *present) && #[trigger] first_present(cs) == crate::text::opt_view(out),
{
    let candidates = browser_candidates(Some(paths), os, arch, present);
    first_present_binary(&candidates)
}

/// When the app's own Chrome for Testing is installed, it is the browser used by default,
/// ahead of Google Chrome and Chromium.
pub proof fn law_managed_browser_preferred<F: Fn(&String) -> bool>(
    cs: Seq<BrowserCandidate>,
    paths: AppPaths,
    os: Seq<char>,
    arch: Seq<char>,
    present: F,
)
    requires
        candidates_seen(cs, paths, os, arch, present),
        spec_binary_path(paths, os, arch) is Ok,
        cs.len() > 0 && cs[0].exists,
    ensures
        first_present(cs) == Some(spec_binary_path(paths, os, arch)->Ok_0),
{
    assert(candidate_view(cs[0]) == spec_candidates(Some(paths), os, arch)[0]);
}

/// The browser chosen is the first candidate whose binary is there: whatever stands after it
/// is not looked at, and nothing is chosen when no binary is there.
pub proof fn law_first_present_wins(cs: Seq<BrowserCandidate>, i: int)
    ensures
        0 <= i < cs.len() && cs[i].exists && (forall|j: int| 0 <= j < i ==> !(#[trigger] cs[j]).exists)
            ==> first_present(cs) == Some(cs[i].binary_path@),
        (forall|j: int| 0 <= j < cs.len() ==> !(#[trigger] cs[j]).exists) <==> first_present(cs) is None,
    decreases cs.len(),
{
    if cs.len() > 0 {
        law_first_present_wins(cs.drop_first(), i - 1);
        assert forall|j: int| 0 <= j < cs.len() - 1 implies #[trigger] cs.drop_first()[j] == cs[j + 1] by {}
        if !cs[0].exists {
            if (forall|j: int| 0 <= j < cs.drop_first().len() ==> !(#[trigger] cs.drop_first()[j]).exists) {
                assert forall|j: int| 0 <= j < cs.len() implies !(#[trigger] cs[j]).exists by {
                    if j > 0 {
                        assert(cs[j] == cs.drop_first()[j - 1]);
                    }
                }
            }
            if (forall|j: int| 0 <= j < cs.len() ==> !(#[trigger] cs[j]).exists) {
                assert forall|j: int| 0 <= j < cs.drop_first().len() implies !(#[trigger] cs.drop_first()[j]).exists by {
                    assert(cs.drop_first()[j] == cs[j + 1]);
                }
            }
            if 0 < i < cs.len() && cs[i].exists && (forall|j: int| 0 <= j < i ==> !(#[trigger] cs[j]).exists) {
                assert(cs.drop_first()[i - 1] == cs[i]);
                assert forall|j: int| 0 <= j < i - 1 implies !(#[trigger] cs.drop_first()[j]).exists by {
                    assert(cs.drop_first()[j] == cs[j + 1]);
                }
            }
        } else {
            assert(!(forall|j: int| 0 <= j < cs.len() ==> !(#[trigger] cs[j]).exists));
        }
    }
}

/// When the app's own Chrome for Testing is not there (not installed, or the platform has
/// none) and Google Chrome is, Google Chrome is the browser used by default, ahead of
/// Chromium.
pub proof fn law_google_chrome_before_chromium<F: Fn(&String) -> bool>(
    cs: Seq<BrowserCandidate>,
    paths: AppPaths,
    os: Seq<char>,
    arch: Seq<char>,
    present: F,
)
    requires
        candidates_seen(cs, paths, os, arch, present),
        spec_binary_path(paths, os, arch) is Ok ==> !cs[0].exists,
        cs[cs.len() - 2].exists,
    ensures
        first_present(cs) == Some("/Applications/Google Chrome.app/Contents/MacOS/Google Chrome"@),
{
    let sc = spec_candidates(Some(paths), os, arch);
    let g = cs.len() - 2;
    assert(candidate_view(cs[g]) == sc[g]);
    if spec_binary_path(paths, os, arch) is Ok {
        assert(g == 1);
        law_first_present_wins(cs, 1);
    } else {
        assert(g == 0);
        law_first_present_wins(cs, 0);
    }
}

// ---------------------------------------------------------------------------
// Where each profile keeps its data
// ---------------------------------------------------------------------------

/// The directory of the profile with id `id`.
pub open spec fn spec_profile_dir(paths: AppPaths, id: Seq<char>) -> Seq<char> {
    path_join(paths.profiles_dir@, "profile_"@ + id)
}

/// The Chrome user-data directory of the profile with id `id`.
pub open spec fn spec_user_data_dir(paths: AppPaths, id: Seq<char>) -> Seq<char> {
    path_join(spec_profile_dir(paths, id), "chrome-user-data"@)
}

/// The directory of the profile with id `id`, and the Chrome user-data directory inside it.
pub fn profile_dirs(paths: &AppPaths, id: &str) -> (out: (String, String))
    ensures
        out.0@ == spec_profile_dir(*paths, id@),
        out.1@ == spec_user_data_dir(*paths, id@),
{
    let name = to_string(&concat(&chars_of("profile_"), &chars_of(id)));
    let profile_dir = join_path(paths.profiles_dir.as_str(), name.as_str());
    let user_data_dir = join_path(profile_dir.as_str(), "chrome-user-data");
    (profile_dir, user_data_dir)
}

proof fn lemma_user_data_dir_shape(paths: AppPaths, id: Seq<char>)
    requires
        id.len() == 0 || id.last() != '/',
    ensures
        spec_user_data_dir(paths, id) == (if paths.profiles_dir@.len() == 0 || paths.profiles_dir@.last() == '/' {
            paths.profiles_dir@
        } else {
            paths.profiles_dir@ + "/"@
        }) + "profile_"@ + id + "/"@ + "chrome-user-data"@,
{
    reveal_strlit("profile_");
    reveal_strlit("chrome-user-data");
    reveal_strlit("/");
    let base = paths.profiles_dir@;
    let name = "profile_"@ + id;
    assert(name[0] == 'p');
    let dir = spec_profile_dir(paths, id);
    if base.len() == 0 || base.last() == '/' {
        assert(dir == base + name);
    } else {
        assert(dir == base + "/"@ + name);
    }
    assert(dir.last() != '/') by {
        if id.len() == 0 {
            assert(dir.last() == '_');
        } else {
            assert(dir.last() == id.last());
        }
    }
    assert("chrome-user-data"@[0] == 'c');
}

/// Each profile gets a user-data directory of its own: two different ids give two different
/// directories (for ids that do not end in `/`; `a` and `a/` share one).
#[verifier::spinoff_prover]
#[verifier::rlimit(40)]
pub proof fn law_profiles_have_separate_user_data(paths: AppPaths, a: Seq<char>, b: Seq<char>)
    requires
        a != b,
        a.len() == 0 || a.last() != '/',
        b.len() == 0 || b.last() != '/',
    ensures
        spec_user_data_dir(paths, a) != spec_user_data_dir(paths, b),
{
    lemma_user_data_dir_shape(paths, a);
    lemma_user_data_dir_shape(paths, b);
    let base = if paths.profiles_dir@.len() == 0 || paths.profiles_dir@.last() == '/' {
        paths.profiles_dir@
    } else {
        paths.profiles_dir@ + "/"@
    };
    let pre = base + "profile_"@;
    let post = "/"@ + "chrome-user-data"@;
    assert(spec_user_data_dir(paths, a) =~= pre + a + post);
    assert(spec_user_data_dir(paths, b) =~= pre + b + post);
    if pre + a + post == pre + b + post {
        lemma_middle_determined(pre, a, b, post);
    }
}

proof fn lemma_middle_determined(pre: Seq<char>, a: Seq<char>, b: Seq<char>, post: Seq<char>)
    requires
        pre + a + post == pre + b + post,
    ensures
        a == b,
{
    let sa = pre + a + post;
    let sb = pre + b + post;
    assert(a.len() == b.len()) by {
        assert(sa.len() == sb.len());
    }
    assert forall|i: int| 0 <= i < a.len() implies a[i] == b[i] by {
        assert(sa[pre.len() + i] == a[i]);
        assert(sb[pre.len() + i] == b[i]);
    }
    assert(a =~= b);
}

/// Which directory is removed with a deleted profile's files, given the parent of its
/// user-data directory (`parent`) and whether that parent lies inside the profiles directory
/// (`inside`): the parent when inside, else nothing; a user-data directory without parent is
/// an error.
pub fn deletable_root_given(parent: Option<String>, inside: bool) -> (out: Result<Option<String>, String>)
    ensures
        match parent {
            None => out matches Err(e) && e@ == "Profile directory is invalid."@,
            Some(r) => out matches Ok(o) && crate::text::opt_view(o) == (if inside { Some(r@) } else { None }),
        },
{
    match parent {
        None => Err("Profile directory is invalid.".to_string()),
        Some(r) => if inside {
            Ok(Some(r))
        } else {
            Ok(None)
        },
    }
}

/// The directory removed with the files of a deleted profile whose user-data directory is
/// `user_data_dir`: its parent, and only when that lies inside `profiles_dir`.
pub fn profile_root_to_delete(user_data_dir: &str, profiles_dir: &str) -> (out: Result<Option<String>, String>)
    ensures
        match path_parent(user_data_dir@) {
            None => out matches Err(e) && e@ == "Profile directory is invalid."@,
            Some(r) => out matches Ok(o) && crate::text::opt_view(o) == (if path_within(r, profiles_dir@) {
                Some(r)
            } else {
                None
            }),
        },
{
    let parent = parent_of(user_data_dir);
    let inside = match &parent {
        Some(r) => starts_with_path(r.as_str(), profiles_dir),
        None => false,
    };
    deletable_root_given(parent, inside)
}

} // verus!
