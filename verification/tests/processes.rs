use fingerbrow::processes::{already_running_message, parse_profile_processes, process_ids};

#[test]
fn processes_of_a_profile_are_found_in_ps_output() {
    let output = "  101 /Applications/Chrome --user-data-dir=/p/a --no-first-run\n\
                  202 /Applications/Chrome --user-data-dir=/p/b\n\
                  x303 /bin/chrome --user-data-dir=/p/a\n\
                  404\n\
                  \t505 helper --type=renderer --user-data-dir=/p/a\r\n";
    let found = parse_profile_processes(output, "/p/a");
    assert_eq!(found.len(), 2);
    assert_eq!(found[0].pid, 101);
    assert_eq!(found[0].command, "/Applications/Chrome --user-data-dir=/p/a --no-first-run");
    assert_eq!(found[1].pid, 505);
    assert_eq!(found[1].command, "helper --type=renderer --user-data-dir=/p/a");
    assert_eq!(process_ids(&found), vec![101, 505]);
    assert!(parse_profile_processes(output, "/p/c").is_empty());
    assert!(parse_profile_processes("99999999999 chrome --user-data-dir=/p/a", "/p/a").is_empty());
}

#[test]
fn running_message_lists_the_pids() {
    assert_eq!(
        already_running_message(&vec![12, 345]),
        "This profile is already running in Chrome process 12, 345. Close that profile window and launch again so the latest proxy and browser flags can apply."
    );
    assert_eq!(
        already_running_message(&vec![7]),
        "This profile is already running in Chrome process 7. Close that profile window and launch again so the latest proxy and browser flags can apply."
    );
}
