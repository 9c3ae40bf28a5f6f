use codex_napi::remotes::{get_git_origins, urls_from_config, urls_from_remote_list};

#[test]
fn config_listing_gives_what_follows_the_first_space() {
    let listing = "remote.origin.url git@github.com:o/r.git\nremote.up.url   https://github.com/a/b  \n";
    assert_eq!(
        urls_from_config(listing),
        vec!["git@github.com:o/r.git".to_string(), "https://github.com/a/b".to_string()]
    );
}

#[test]
fn config_listing_skips_lines_without_space_and_trims_carriage_returns() {
    assert_eq!(urls_from_config("nospace\n\nkey value\r\nlast x"), vec!["value".to_string(), "x".to_string()]);
    assert_eq!(urls_from_config("key \n"), vec![String::new()]);
    assert_eq!(urls_from_config(""), Vec::<String>::new());
    assert_eq!(urls_from_config("\n\n"), Vec::<String>::new());
}

#[test]
fn remote_list_gives_the_second_word() {
    let listing = "origin\tgit@github.com:o/r.git (fetch)\norigin\tgit@github.com:o/r.git (push)\nlonely\n  up   https://github.com/a/b\r\n";
    assert_eq!(
        urls_from_remote_list(listing),
        vec![
            "git@github.com:o/r.git".to_string(),
            "git@github.com:o/r.git".to_string(),
            "https://github.com/a/b".to_string()
        ]
    );
    assert_eq!(urls_from_remote_list("one\n \n"), Vec::<String>::new());
}

#[test]
fn origins_are_sorted_and_unique() {
    let listing = "remote.b.url zeta\nremote.a.url alpha\nremote.c.url zeta\nremote.d.url Beta\n";
    assert_eq!(
        get_git_origins(Some(listing), Some("x ignored\n")),
        vec!["Beta".to_string(), "alpha".to_string(), "zeta".to_string()]
    );
}

#[test]
fn remote_list_is_the_fallback() {
    let remotes = "origin\tb (fetch)\norigin\ta (push)\n";
    assert_eq!(get_git_origins(None, Some(remotes)), vec!["a".to_string(), "b".to_string()]);
    assert_eq!(get_git_origins(Some("no-urls-here\n"), Some(remotes)), vec!["a".to_string(), "b".to_string()]);
    assert_eq!(get_git_origins(Some(""), None), Vec::<String>::new());
    assert_eq!(get_git_origins(None, None), Vec::<String>::new());
}

#[test]
fn origins_sort_by_code_point() {
    let listing = "k \u{e9}\nk z\nk a\nk ab\nk \nk A\n";
    assert_eq!(
        get_git_origins(Some(listing), None),
        vec!["".to_string(), "A".to_string(), "a".to_string(), "ab".to_string(), "z".to_string(), "\u{e9}".to_string()]
    );
}
