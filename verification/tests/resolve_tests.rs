use xtemp::resolve::resolve_replstr;

fn strings(v: &[&str]) -> Vec<String> {
    v.iter().map(|s| s.to_string()).collect()
}

#[test]
fn placeholder_exact_token_no_partial_match() {
    let command = strings(&["echo", "PLACEHOLDER-X"]);
    let r = resolve_replstr(&command, Some("X"), strings(&["p1", "p2"]));
    assert_eq!(r, strings(&["echo", "PLACEHOLDER-X"]));
}

#[test]
fn placeholder_expands_in_place() {
    let command = strings(&["echo", "X", "end"]);
    let r = resolve_replstr(&command, Some("X"), strings(&["p", "q"]));
    assert_eq!(r, strings(&["echo", "p", "q", "end"]));
}

#[test]
fn placeholder_replaces_every_matching_token() {
    let command = strings(&["X", "mid", "X"]);
    let r = resolve_replstr(&command, Some("X"), strings(&["p"]));
    assert_eq!(r, strings(&["p", "mid", "p"]));
}

#[test]
fn placeholder_may_expand_to_nothing() {
    let command = strings(&["run", "X"]);
    let r = resolve_replstr(&command, Some("X"), Vec::new());
    assert_eq!(r, strings(&["run"]));
}

#[test]
fn no_placeholder_appends_in_order() {
    let command = strings(&["cat", "-n"]);
    let r = resolve_replstr(&command, None, strings(&["p", "q"]));
    assert_eq!(r, strings(&["cat", "-n", "p", "q"]));
}

#[test]
fn empty_replacements_leave_command_as_is() {
    let command = strings(&["true"]);
    let r = resolve_replstr(&command, None, Vec::new());
    assert_eq!(r, strings(&["true"]));
}
