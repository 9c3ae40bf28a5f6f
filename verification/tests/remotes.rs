use codex_napi::remotes::parse_owner_repo;

fn pair(owner: &str, repo: &str) -> Option<(String, String)> {
    Some((owner.to_string(), repo.to_string()))
}

#[test]
fn ssh_shorthand_and_https_agree() {
    assert_eq!(parse_owner_repo("git@github.com:openai/codex.git"), pair("openai", "codex"));
    assert_eq!(parse_owner_repo("https://github.com/openai/codex"), pair("openai", "codex"));
}

#[test]
fn unsupported_host_gives_none() {
    assert_eq!(parse_owner_repo("https://gitlab.com/openai/codex"), None);
    assert_eq!(parse_owner_repo("git@bitbucket.org:openai/codex.git"), None);
    assert_eq!(parse_owner_repo(""), None);
}

#[test]
fn every_supported_prefix_is_read() {
    assert_eq!(parse_owner_repo("http://github.com/o/r.git"), pair("o", "r"));
    assert_eq!(parse_owner_repo("git://github.com/o/r"), pair("o", "r"));
    assert_eq!(parse_owner_repo("github.com/o/r"), pair("o", "r"));
    assert_eq!(parse_owner_repo("ssh://git@github.com:o/r.git"), pair("o", "r"));
}

#[test]
fn white_space_and_leading_slashes_are_ignored() {
    assert_eq!(parse_owner_repo("  https://github.com//o/r.git \n"), pair("o", "r"));
    assert_eq!(parse_owner_repo("git@github.com:/o/r"), pair("o", "r"));
}

#[test]
fn repeated_git_suffix_is_dropped() {
    assert_eq!(parse_owner_repo("https://github.com/o/r.git.git"), pair("o", "r"));
}

#[test]
fn repository_keeps_what_follows_the_first_slash() {
    assert_eq!(parse_owner_repo("https://github.com/o/r/tree/main"), pair("o", "r/tree/main"));
}

#[test]
fn trailing_slashes_are_ignored() {
    assert_eq!(parse_owner_repo("https://github.com/o/r/"), pair("o", "r"));
    assert_eq!(parse_owner_repo("git@github.com:o/r.git//"), pair("o", "r"));
    assert_eq!(parse_owner_repo("github.com/o/"), None);
    assert_eq!(parse_owner_repo("github.com/o//"), None);
    assert_eq!(parse_owner_repo("github.com//"), None);
}

#[test]
fn path_without_slash_gives_none() {
    assert_eq!(parse_owner_repo("https://github.com/only-owner"), None);
    assert_eq!(parse_owner_repo("git@github.com:.git"), None);
}

#[test]
fn ssh_mark_wins_over_prefixes() {
    assert_eq!(parse_owner_repo("https://github.com/x/y@github.com:o/r"), pair("o", "r"));
}
