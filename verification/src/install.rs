//! Installing the app's own Chrome for Testing: where its download is found, and the commands
//! and messages of each step.

use vstd::prelude::*;
use crate::external::{chrome_downloads, json_chrome_downloads};
use crate::http::sv;
use crate::text::{chars_of, concat, is_text, to_string};

verus! {

/// The first download entry for `platform` that has a URL.
pub open spec fn first_download(entries: Seq<(Option<Seq<char>>, Option<Seq<char>>)>, platform: Seq<char>) -> Option<Seq<char>>
    decreases entries.len(),
{
    if entries.len() == 0 {
        None
    } else if entries[0].0 == Some(platform) && entries[0].1 is Some {
        entries[0].1
    } else {
        first_download(entries.drop_first(), platform)
    }
}

pub open spec fn url_not_found(platform: Seq<char>) -> Seq<char> {
    "Chrome for Testing download URL not found for "@ + platform + "."@
}

/// What the download URL for `platform` is, given what the metadata reads as.
pub open spec fn spec_download_url(
    downloads: Result<Option<Seq<(Option<Seq<char>>, Option<Seq<char>>)>>, Seq<char>>,
    platform: Seq<char>,
) -> Result<Seq<char>, Seq<char>> {
    match downloads {
        Err(e) => Err(e),
        Ok(None) => Err(url_not_found(platform)),
        Ok(Some(entries)) => match first_download(entries, platform) {
            Some(u) => Ok(u),
            None => Err(url_not_found(platform)),
        },
    }
}

/// The download URL for `platform` among the entries read from the metadata.
pub fn download_url_in(entries: Option<Vec<(Option<String>, Option<String>)>>, platform: &str) -> (out: Result<String, String>)
    ensures
        crate::normalize::res_view(out) == spec_download_url(
            Ok(match entries { Some(v) => Some(crate::external::downloads_view(v)), None => None }),
            platform@,
        ),
{
    let not_found = to_string(&concat(
        &concat(&chars_of("Chrome for Testing download URL not found for "), &chars_of(platform)),
        &chars_of("."),
    ));
    let list = match &entries {
        Some(v) => v,
        None => return Err(not_found),
    };
    let ghost es = crate::external::downloads_view(*list);
    let mut i: usize = 0;
    assert(es.skip(0) =~= es);
    while i < list.len()
        invariant
            i <= list.len(),
            entries == Some(*list),
            es == crate::external::downloads_view(*list),
            not_found@ == url_not_found(platform@),
            first_download(es, platform@) == first_download(es.skip(i as int), platform@),
        decreases list.len() - i,
    {
        assert(es.skip(i as int).drop_first() =~= es.skip(i + 1));
        let (p, u) = &list[i];
        assert(es.skip(i as int)[0] == es[i as int]);
        if let (Some(p), Some(u)) = (p, u) {
            if is_text(&chars_of(p.as_str()), platform) {
                assert(es[i as int] == (Some(p@), Some(u@)));
                return Ok(u.clone());
            }
        }
        i += 1;
    }
    Err(not_found)
}

/// The download URL for `platform` in Chrome for Testing's metadata `metadata`.
pub fn download_url(metadata: &[u8], platform: &str) -> (out: Result<String, String>)
    ensures
        crate::normalize::res_view(out) == spec_download_url(chrome_downloads(metadata@), platform@),
{
    match json_chrome_downloads(metadata) {
        Ok(entries) => download_url_in(entries, platform),
        Err(e) => Err(e),
    }
}

/// A command: the program and its arguments.
pub struct CommandLine {
    pub program: String,
    pub args: Vec<String>,
}

pub open spec fn command_is(c: CommandLine, program: Seq<char>, args: Seq<Seq<char>>) -> bool {
    c.program@ == program && sv(c.args@) == args
}

fn command(program: &str, args: &[&str]) -> (out: CommandLine)
    ensures
        out.program@ == program@,
        out.args@.len() == args@.len(),
        forall|i: int| 0 <= i < args@.len() ==> (#[trigger] out.args@[i])@ == args@[i]@,
{
    let mut v: Vec<String> = Vec::new();
    for i in 0..args.len()
        invariant
            v@.len() == i,
            forall|k: int| 0 <= k < i ==> (#[trigger] v@[k])@ == args@[k]@,
    {
        v.push(args[i].to_string());
    }
    CommandLine { program: program.to_string(), args: v }
}

/// The address of Chrome for Testing's metadata of its latest good versions.
pub open spec fn metadata_url() -> Seq<char> {
    "https://googlechromelabs.github.io/chrome-for-testing/last-known-good-versions-with-downloads.json"@
}

/// The command that fetches Chrome for Testing's metadata.
pub fn metadata_command() -> (out: CommandLine)
    ensures
        command_is(out, "curl"@, seq!["-fsSL"@, metadata_url()]),
{
    let c = command("curl", &["-fsSL", "https://googlechromelabs.github.io/chrome-for-testing/last-known-good-versions-with-downloads.json"]);
    assert(sv(c.args@) =~= seq!["-fsSL"@, metadata_url()]);
    c
}

/// The command that downloads `url` to `zip_path`.
pub fn download_command(zip_path: &str, url: &str) -> (out: CommandLine)
    ensures
        command_is(out, "curl"@, seq!["-fL"@, "--progress-bar"@, "-o"@, zip_path@, url@]),
{
    let c = command("curl", &["-fL", "--progress-bar", "-o", zip_path, url]);
    assert(sv(c.args@) =~= seq!["-fL"@, "--progress-bar"@, "-o"@, zip_path@, url@]);
    c
}

/// The command that unpacks `zip_path` into `extract_dir`: `ditto` on macOS, else `unzip`.
pub fn extract_command(os: &str, zip_path: &str, extract_dir: &str) -> (out: CommandLine)
    ensures
        os@ == "macos"@ ==> command_is(out, "ditto"@, seq!["-x"@, "-k"@, zip_path@, extract_dir@]),
        os@ != "macos"@ ==> command_is(out, "unzip"@, seq!["-q"@, "-o"@, zip_path@, "-d"@, extract_dir@]),
{
    if is_text(&chars_of(os), "macos") {
        let c = command("ditto", &["-x", "-k", zip_path, extract_dir]);
        assert(sv(c.args@) =~= seq!["-x"@, "-k"@, zip_path@, extract_dir@]);
        c
    } else {
        let c = command("unzip", &["-q", "-o", zip_path, "-d", extract_dir]);
        assert(sv(c.args@) =~= seq!["-q"@, "-o"@, zip_path@, "-d"@, extract_dir@]);
        c
    }
}

/// The message of a command that failed while trying to do `action`, with what it wrote to
/// its error stream.
pub fn command_failure(action: &str, errors: &str) -> (out: String)
    ensures
        out@ == "Failed to "@ + action@ + ": "@ + errors@,
{
    to_string(&concat(&concat(&concat(&chars_of("Failed to "), &chars_of(action)), &chars_of(": ")), &chars_of(errors)))
}

/// The message given when the metadata could not be fetched.
pub fn metadata_failure(errors: &str) -> (out: String)
    ensures
        out@ == "Failed to fetch Chrome for Testing metadata: "@ + errors@,
{
    to_string(&concat(&chars_of("Failed to fetch Chrome for Testing metadata: "), &chars_of(errors)))
}

/// The message given when the archive did not unpack to the folder expected.
pub fn missing_folder_message(folder: &str) -> (out: String)
    ensures
        out@ == "Downloaded Chrome archive did not contain expected folder: "@ + folder@,
{
    to_string(&concat(&chars_of("Downloaded Chrome archive did not contain expected folder: "), &chars_of(folder)))
}

/// The message given when the installed binary is not where it should be.
pub fn missing_installed_binary_message(binary: &str) -> (out: String)
    ensures
        out@ == "Managed Chrome installed, but binary was not found: "@ + binary@,
{
    to_string(&concat(&chars_of("Managed Chrome installed, but binary was not found: "), &chars_of(binary)))
}

} // verus!
