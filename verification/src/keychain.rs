//! The proxy passwords kept in the system keychain through the `security` command: the
//! arguments of each call, and what its outcome means.

use vstd::prelude::*;
use crate::http::sv;
use crate::text::{chars_of, concat, occurs_in, find_seq, to_string, trim_end_seq, trim_seq, trim};

verus! {

fn strings(parts: &[&str]) -> (out: Vec<String>)
    ensures
        out@.len() == parts@.len(),
        forall|i: int| 0 <= i < parts@.len() ==> (#[trigger] out@[i])@ == parts@[i]@,
{
    let mut out: Vec<String> = Vec::new();
    for i in 0..parts.len()
        invariant
            out@.len() == i,
            forall|k: int| 0 <= k < i ==> (#[trigger] out@[k])@ == parts@[k]@,
    {
        out.push(parts[i].to_string());
    }
    out
}

/// The arguments of `security` that save a password for `username` under `service`,
/// replacing any item already there. `-w` comes last and takes no value, so `security` asks
/// for the password on its input (`save_password_input`): the password is never an argument.
pub open spec fn save_args(service: Seq<char>, username: Seq<char>) -> Seq<Seq<char>> {
    seq!["add-generic-password"@, "-a"@, username, "-s"@, service, "-U"@, "-w"@]
}

/// The arguments of `security` that save a password for `username` under `service`.
pub fn save_password_args(service: &str, username: &str) -> (out: Vec<String>)
    ensures
        sv(out@) == save_args(service@, username@),
{
    let out = strings(&["add-generic-password", "-a", username, "-s", service, "-U", "-w"]);
    assert(sv(out@) =~= save_args(service@, username@));
    out
}

/// A password that holds a line break: `security` reads the password it prompts for up to
/// the end of a line, so such a password cannot be given to it whole.
pub open spec fn breaks_line(password: Seq<char>) -> bool {
    password.contains('\n') || password.contains('\r')
}

/// What is written to the input of `security` when it saves `password`: the password and,
/// as its prompt asks again, the password once more, each on a line of its own; a password
/// with a line break is refused rather than cut.
pub fn save_password_input(password: &str) -> (out: Result<String, String>)
    ensures
        !breaks_line(password@) ==> (out matches Ok(s) && s@ == password@ + "\n"@ + password@ + "\n"@),
        breaks_line(password@) ==> (out matches Err(e) && e@ == "Proxy passwords with line breaks cannot be saved to Keychain."@),
{
    let p = chars_of(password);
    if crate::text::contains_char(&p, '\n') || crate::text::contains_char(&p, '\r') {
        return Err("Proxy passwords with line breaks cannot be saved to Keychain.".to_string());
    }
    let nl = chars_of("\n");
    Ok(to_string(&concat(&concat(&concat(&p, &nl), &p), &nl)))
}

/// The password never stands among the arguments that save it: an argument equal to it is
/// the username, the service name or one of the fixed words, so a password that is none of
/// these appears in no argument.
pub proof fn law_password_not_in_arguments(service: Seq<char>, username: Seq<char>, password: Seq<char>)
    ensures
        forall|i: int| 0 <= i < save_args(service, username).len() && #[trigger] save_args(service, username)[i] == password
            ==> password == username || password == service || password == "add-generic-password"@
                || password == "-a"@ || password == "-s"@ || password == "-U"@ || password == "-w"@,
        password != username && password != service && password.len() > 2 && password != "add-generic-password"@
            ==> !save_args(service, username).contains(password),
{
    reveal_strlit("-a");
    reveal_strlit("-s");
    reveal_strlit("-U");
    reveal_strlit("-w");
    let a = save_args(service, username);
    if password != username && password != service && password.len() > 2 && password != "add-generic-password"@ {
        assert forall|i: int| 0 <= i < a.len() implies a[i] != password by {
            if i == 1 || i == 3 || i == 5 || i == 6 {
                assert(a[i].len() == 2);
            }
        }
    }
}

/// The arguments of `security` that delete the item `secret_ref`.
pub fn delete_password_args(secret_ref: &str) -> (out: Vec<String>)
    ensures
        sv(out@) == seq!["delete-generic-password"@, "-s"@, secret_ref@],
{
    let out = strings(&["delete-generic-password", "-s", secret_ref]);
    assert(sv(out@) =~= seq!["delete-generic-password"@, "-s"@, secret_ref@]);
    out
}

/// The arguments of `security` that print the password of the item `secret_ref`.
pub fn find_password_args(secret_ref: &str) -> (out: Vec<String>)
    ensures
        sv(out@) == seq!["find-generic-password"@, "-s"@, secret_ref@, "-w"@],
{
    let out = strings(&["find-generic-password", "-s", secret_ref, "-w"]);
    assert(sv(out@) =~= seq!["find-generic-password"@, "-s"@, secret_ref@, "-w"@]);
    out
}

/// What saving a password gave: the item's name when `security` succeeded.
pub fn save_outcome(succeeded: bool, service: String) -> (out: Result<String, String>)
    ensures
        succeeded ==> (out matches Ok(s) && s@ == service@),
        !succeeded ==> (out matches Err(e) && e@ == "Failed to write proxy password to Keychain."@),
{
    if succeeded {
        Ok(service)
    } else {
        Err("Failed to write proxy password to Keychain.".to_string())
    }
}

/// What reading a password gave: the text `security` printed, without trailing whitespace,
/// when it succeeded.
pub fn read_outcome(succeeded: bool, output: &str) -> (out: Result<String, String>)
    ensures
        succeeded ==> (out matches Ok(s) && s@ == trim_end_seq(output@)),
        !succeeded ==> (out matches Err(e) && e@ == "Failed to read proxy password from Keychain."@),
{
    if succeeded {
        Ok(crate::text::trim_end(output))
    } else {
        Err("Failed to read proxy password from Keychain.".to_string())
    }
}

/// `security` reports that the item to delete is not there.
pub open spec fn item_missing(errors: Seq<char>) -> bool {
    occurs_in(errors, "could not be found"@) || occurs_in(errors, "The specified item could not be found"@)
        || occurs_in(errors, "-25300"@)
}

/// What deleting an item gave, from whether `security` succeeded and what it wrote to its error
/// stream: an item that was not there counts as deleted.
pub fn delete_outcome(succeeded: bool, errors: &str) -> (out: Result<(), String>)
    ensures
        (succeeded || item_missing(errors@)) ==> out is Ok,
        !(succeeded || item_missing(errors@)) ==> (out matches Err(e)
            && e@ == "Failed to delete proxy password from Keychain: "@ + trim_seq(errors@)),
{
    if succeeded {
        return Ok(());
    }
    let e = chars_of(errors);
    if find_seq(&e, &chars_of("could not be found")).is_some()
        || find_seq(&e, &chars_of("The specified item could not be found")).is_some()
        || find_seq(&e, &chars_of("-25300")).is_some()
    {
        return Ok(());
    }
    Err(to_string(&concat(&chars_of("Failed to delete proxy password from Keychain: "), &chars_of(trim(errors).as_str()))))
}

} // verus!
