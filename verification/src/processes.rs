//! Which running browser processes belong to a profile, read from the process list that
//! `ps -axo pid=,command=` prints.

use vstd::prelude::*;
use crate::text::{chars_of, find_char, find_seq, first_char, is_whitespace, lines_of, lines_seq, nat_text, occurs_in, parse_unsigned, parse_unsigned_chars, slice_chars, to_string, trim_start_seq, u64_text, concat, vv};

verus! {

/// A browser process that runs a profile.
pub struct RunningProfileProcess {
    pub pid: u32,
    pub command: String,
}

/// The flag that ties a Chrome process to the profile stored in `user_data_dir`.
pub open spec fn profile_flag(user_data_dir: Seq<char>) -> Seq<char> {
    "--user-data-dir="@ + user_data_dir
}

/// The process one line of the process list stands for, if it runs with `needle` on its
/// command line: the line without leading whitespace is split at its first space into the
/// process id (a `u32` in decimal, as `str::parse` reads it) and the command.
pub open spec fn line_process(line: Seq<char>, needle: Seq<char>) -> Option<(u32, Seq<char>)> {
    let t = trim_start_seq(line);
    if !t.contains(' ') {
        None
    } else {
        let k = first_char(t, ' ');
        let command = t.subrange(k + 1, t.len() as int);
        if !occurs_in(command, needle) {
            None
        } else {
            match parse_unsigned(t.subrange(0, k), 10, 0xffff_ffff) {
                Some(pid) => Some((pid as u32, command)),
                None => None,
            }
        }
    }
}

/// The processes that the lines stand for, in order.
pub open spec fn processes_in(lines: Seq<Seq<char>>, needle: Seq<char>) -> Seq<(u32, Seq<char>)>
    decreases lines.len(),
{
    if lines.len() == 0 {
        Seq::empty()
    } else {
        let rest = processes_in(lines.drop_last(), needle);
        match line_process(lines.last(), needle) {
            Some(p) => rest.push(p),
            None => rest,
        }
    }
}

/// A process is counted for a profile only when its command line holds the profile's
/// `--user-data-dir=` flag (as text: the flag of `/p/a` also stands in that of `/p/ab`).
pub proof fn law_processes_carry_the_profile_flag(lines: Seq<Seq<char>>, needle: Seq<char>)
    ensures
        forall|i: int| 0 <= i < processes_in(lines, needle).len() ==>
            occurs_in(#[trigger] processes_in(lines, needle)[i].1, needle),
    decreases lines.len(),
{
    if lines.len() > 0 {
        law_processes_carry_the_profile_flag(lines.drop_last(), needle);
        let rest = processes_in(lines.drop_last(), needle);
        let all = processes_in(lines, needle);
        match line_process(lines.last(), needle) {
            Some(p) => {
                assert(all == rest.push(p));
                assert forall|i: int| 0 <= i < all.len() implies occurs_in(#[trigger] all[i].1, needle) by {
                    if i < rest.len() {
                        assert(all[i] == rest[i]);
                    }
                }
            },
            None => {},
        }
    }
}

/// Leading whitespace is dropped up to the first character that is not whitespace.
proof fn lemma_trim_start_padding(pad: Seq<char>, rest: Seq<char>)
    requires
        forall|k: int| 0 <= k < pad.len() ==> crate::text::is_ws(#[trigger] pad[k]),
        rest.len() > 0,
        !crate::text::is_ws(rest[0]),
    ensures
        trim_start_seq(pad + rest) == rest,
    decreases pad.len(),
{
    if pad.len() == 0 {
        assert(pad + rest =~= rest);
    } else {
        assert((pad + rest).drop_first() =~= pad.drop_first() + rest);
        assert(forall|k: int| 0 <= k < pad.drop_first().len() ==> #[trigger] pad.drop_first()[k] == pad[k + 1]);
        lemma_trim_start_padding(pad.drop_first(), rest);
    }
}

/// Every process id that fits in a `u32` is read, however far `ps` pads it: a line that holds
/// whitespace, the decimal text of `n`, a space and a command stands for process `n` running
/// that command when the command carries the profile's flag, and for no process otherwise.
pub proof fn law_every_pid_read(pad: Seq<char>, n: nat, command: Seq<char>, needle: Seq<char>)
    requires
        n <= 0xffff_ffff,
        forall|k: int| 0 <= k < pad.len() ==> crate::text::is_ws(#[trigger] pad[k]),
    ensures
        occurs_in(command, needle) ==> line_process(pad + nat_text(n) + " "@ + command, needle) == Some(
            (n as u32, command),
        ),
        !occurs_in(command, needle) ==> line_process(pad + nat_text(n) + " "@ + command, needle) is None,
{
    reveal_strlit(" ");
    crate::text::lemma_nat_text_reads_back(n);
    let d = nat_text(n);
    let line = d + " "@ + command;
    let k = d.len() as int;
    assert(line[0] == d[0]);
    assert(crate::text::is_digit_c(d[0]));
    assert(pad + nat_text(n) + " "@ + command =~= pad + line);
    lemma_trim_start_padding(pad, line);
    assert(line[k] == ' ');
    assert forall|j: int| 0 <= j < k implies line[j] != ' ' by {
        assert(line[j] == d[j]);
        assert(crate::text::is_digit_c(d[j]));
    }
    assert(crate::text::is_first_char(line, ' ', k));
    crate::text::lemma_first_char(line, ' ', k);
    assert(line.contains(' '));
    assert(line.subrange(k + 1, line.len() as int) =~= command);
    assert(line.subrange(0, k) =~= d);
    assert(crate::text::unsigned_digits(d) == d);
}

pub open spec fn processes_view(ps: Seq<RunningProfileProcess>) -> Seq<(u32, Seq<char>)> {
    Seq::new(ps.len(), |i: int| (ps[i].pid, ps[i].command@))
}

/// `s` without its leading whitespace.
fn trim_start_chars(s: &Vec<char>) -> (out: Vec<char>)
    ensures
        out@ == trim_start_seq(s@),
{
    let mut i: usize = 0;
    assert(s@.skip(0) =~= s@);
    while i < s.len() && is_whitespace(s[i])
        invariant
            i <= s.len(),
            trim_start_seq(s@) == trim_start_seq(s@.skip(i as int)),
        decreases s.len() - i,
    {
        assert(s@.skip(i as int).drop_first() =~= s@.skip(i + 1));
        i += 1;
    }
    assert(s@.skip(i as int) =~= s@.subrange(i as int, s@.len() as int));
    slice_chars(s, i, s.len())
}

fn process_of_line(line: &Vec<char>, needle: &Vec<char>) -> (out: Option<RunningProfileProcess>)
    ensures
        match out {
            Some(p) => line_process(line@, needle@) == Some((p.pid, p.command@)),
            None => line_process(line@, needle@) is None,
        },
{
    let t = trim_start_chars(line);
    let k = match find_char(&t, ' ') {
        Some(k) => k,
        None => return None,
    };
    let command = slice_chars(&t, k + 1, t.len());
    if find_seq(&command, needle).is_none() {
        return None;
    }
    let pid_text = slice_chars(&t, 0, k);
    match parse_unsigned_chars(&pid_text, 10, 0xffff_ffff) {
        Ok(pid) => Some(RunningProfileProcess { pid: pid as u32, command: to_string(&command) }),
        Err(_) => None,
    }
}

/// The processes in the process list `ps_output` that run the profile stored in
/// `user_data_dir`, in the order the list gives them.
pub fn parse_profile_processes(ps_output: &str, user_data_dir: &str) -> (out: Vec<RunningProfileProcess>)
    ensures
        processes_view(out@) == processes_in(lines_seq(ps_output@), profile_flag(user_data_dir@)),
{
    let needle = concat(&chars_of("--user-data-dir="), &chars_of(user_data_dir));
    let lines = lines_of(&chars_of(ps_output));
    let ghost ls = vv(lines@);
    let mut out: Vec<RunningProfileProcess> = Vec::new();
    for i in 0..lines.len()
        invariant
            ls == vv(lines@),
            needle@ == profile_flag(user_data_dir@),
            processes_view(out@) == processes_in(ls.take(i as int), needle@),
    {
        assert(ls.take(i + 1).drop_last() =~= ls.take(i as int));
        assert(ls.take(i + 1).last() == lines@[i as int]@);
        match process_of_line(&lines[i], &needle) {
            Some(p) => {
                out.push(p);
                assert(processes_view(out@) =~= processes_in(ls.take(i as int), needle@).push(
                    (out@.last().pid, out@.last().command@),
                ));
            },
            None => {},
        }
    }
    assert(ls.take(lines.len() as int) =~= ls);
    out
}

/// The process ids of `processes`, in order.
pub fn process_ids(processes: &Vec<RunningProfileProcess>) -> (out: Vec<u32>)
    ensures
        out@ == Seq::new(processes@.len(), |i: int| processes@[i].pid),
{
    let mut out: Vec<u32> = Vec::new();
    for i in 0..processes.len()
        invariant
            out@ == Seq::new(i as nat, |k: int| processes@[k].pid),
    {
        out.push(processes[i].pid);
        assert(out@ =~= Seq::new((i + 1) as nat, |k: int| processes@[k].pid));
    }
    out
}

/// The process ids in decimal, separated by `", "`.
pub open spec fn pid_list_text(pids: Seq<u32>) -> Seq<char>
    decreases pids.len(),
{
    if pids.len() == 0 {
        Seq::empty()
    } else if pids.len() == 1 {
        nat_text(pids[0] as nat)
    } else {
        pid_list_text(pids.drop_last()) + ", "@ + nat_text(pids.last() as nat)
    }
}

/// The message given when a profile is opened while processes `pids` still run it.
pub open spec fn spec_already_running(pids: Seq<u32>) -> Seq<char> {
    "This profile is already running in Chrome process "@ + pid_list_text(pids)
        + ". Close that profile window and launch again so the latest proxy and browser flags can apply."@
}

/// The message given when a profile is opened while processes `pids` still run it.
pub fn already_running_message(pids: &Vec<u32>) -> (out: String)
    ensures
        out@ == spec_already_running(pids@),
{
    let mut list: Vec<char> = Vec::new();
    for i in 0..pids.len()
        invariant
            list@ == pid_list_text(pids@.take(i as int)),
    {
        assert(pids@.take(i + 1).drop_last() =~= pids@.take(i as int));
        if i == 0 {
            list = u64_text(pids[i] as u64);
            assert(pids@.take(1) =~= seq![pids@[0]]);
        } else {
            list = concat(&concat(&list, &chars_of(", ")), &u64_text(pids[i] as u64));
        }
    }
    assert(pids@.take(pids.len() as int) =~= pids@);
    let m = concat(
        &concat(&chars_of("This profile is already running in Chrome process "), &list),
        &chars_of(". Close that profile window and launch again so the latest proxy and browser flags can apply."),
    );
    to_string(&m)
}

} // verus!
