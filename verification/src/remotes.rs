//! Git remotes: reading their addresses out of what `git` printed, and
//! reading owner and repository out of an address.

use vstd::prelude::*;

use crate::text::{
    chars_of, contains_text, drop_char_end, drop_trailing, find_in_window, first_occurrence,
    has_prefix, leading_token, lemma_find_from, owned_range, same_strings, skip_char_start,
    skip_leading, skip_leading_space, skip_space_start, skip_token, skip_token_start,
    sort_unique, strictly_ascending, strip_suffixes, strip_suffixes_end, trim_window, trimmed,
    window_has_at,
};

verus! {

/// Scheme that may stand before the SSH shorthand.
pub const SSH_SCHEME: &'static str = "ssh://";

/// What separates the user from the path in the SSH shorthand.
pub const SSH_HOST_MARK: &'static str = "@github.com:";

/// Ending that a repository path may carry.
pub const GIT_SUFFIX: &'static str = ".git";

/// First of the four beginnings of an address that is not in SSH
/// shorthand.
pub const HTTPS_PREFIX: &'static str = "https://github.com/";

/// Second of the four beginnings.
pub const HTTP_PREFIX: &'static str = "http://github.com/";

/// Third of the four beginnings.
pub const GIT_PREFIX: &'static str = "git://github.com/";

/// Last of the four beginnings: the host alone.
pub const BARE_PREFIX: &'static str = "github.com/";

/// The pattern that separates owner and repository.
pub open spec fn slash() -> Seq<char> {
    seq!['/']
}

/// Owner and repository in the path of an address: slashes at both ends
/// are dropped, then every `.git` at the end, and what is left is cut at
/// its first slash. `None` where no slash is left.
pub open spec fn split_owner_repo(path: Seq<char>) -> Option<(Seq<char>, Seq<char>)> {
    let name = strip_suffixes(drop_trailing(skip_leading(path, '/'), '/'), GIT_SUFFIX@);
    match first_occurrence(name, slash()) {
        Some(at) => Some((name.take(at), name.skip(at + 1))),
        None => None,
    }
}

/// What follows `prefix` in `s`, where `s` begins with it.
pub open spec fn after_prefix(s: Seq<char>, prefix: Seq<char>) -> Option<Seq<char>> {
    if has_prefix(s, prefix) {
        Some(s.skip(prefix.len() as int))
    } else {
        None
    }
}

/// The path of an address that is not in SSH shorthand: what follows the
/// first of the four beginnings that the address has.
pub open spec fn hosted_path(s: Seq<char>) -> Option<Seq<char>> {
    if has_prefix(s, HTTPS_PREFIX@) {
        after_prefix(s, HTTPS_PREFIX@)
    } else if has_prefix(s, HTTP_PREFIX@) {
        after_prefix(s, HTTP_PREFIX@)
    } else if has_prefix(s, GIT_PREFIX@) {
        after_prefix(s, GIT_PREFIX@)
    } else {
        after_prefix(s, BARE_PREFIX@)
    }
}

/// The address that is read once white space around it and a leading
/// `ssh://` are gone.
pub open spec fn bare_address(url: Seq<char>) -> Seq<char> {
    match after_prefix(trimmed(url), SSH_SCHEME@) {
        Some(rest) => rest,
        None => trimmed(url),
    }
}

/// Owner and repository of a remote address. White space around the
/// address and a leading `ssh://` are ignored. An address that holds
/// `@github.com:` is read as SSH shorthand from there on; any other must
/// begin with one of the four supported beginnings.
pub open spec fn owner_repo(url: Seq<char>) -> Option<(Seq<char>, Seq<char>)> {
    let s = bare_address(url);
    match first_occurrence(s, SSH_HOST_MARK@) {
        Some(at) => split_owner_repo(s.skip(at + SSH_HOST_MARK@.len())),
        None => match hosted_path(s) {
            Some(path) => split_owner_repo(path),
            None => None,
        },
    }
}

/// An address for another host names no owner and repository: one that
/// does not hold `@github.com:` and begins with none of the four supported
/// beginnings.
pub proof fn lemma_unsupported_address(url: Seq<char>)
    requires
        !contains_text(bare_address(url), SSH_HOST_MARK@),
        !has_prefix(bare_address(url), HTTPS_PREFIX@),
        !has_prefix(bare_address(url), HTTP_PREFIX@),
        !has_prefix(bare_address(url), GIT_PREFIX@),
        !has_prefix(bare_address(url), BARE_PREFIX@),
    ensures
        owner_repo(url) is None,
{
}

/// Owner and repository in the window `[lo, hi)` of the characters of `url`.
fn split_window(url: &str, chars: &Vec<char>, lo: usize, hi: usize) -> (pair: Option<
    (String, String),
>)
    requires
        chars@ == url@,
        lo <= hi <= chars.len(),
    ensures
        pair.deep_view() == split_owner_repo(chars@.subrange(lo as int, hi as int)),
{
    let suffix = chars_of(GIT_SUFFIX);
    let sep: Vec<char> = vec!['/'];
    assert(sep@ =~= slash());
    let start = skip_char_start(chars, lo, hi, '/');
    let bare_end = drop_char_end(chars, start, hi, '/');
    let end = strip_suffixes_end(chars, start, bare_end, &suffix);
    let ghost name = chars@.subrange(start as int, end as int);
    match find_in_window(chars, start, end, &sep) {
        Some(at) => {
            assert(name.take(at - start) =~= url@.subrange(start as int, at as int));
            assert(name.skip(at - start + 1) =~= url@.subrange(at + 1, end as int));
            let owner = owned_range(url, start, at);
            let repo = owned_range(url, at + 1, end);
            Some((owner, repo))
        },
        None => None,
    }
}

/// Owner and repository of a remote address, or `None` for an address in
/// none of the supported forms.
pub fn parse_owner_repo(url: &str) -> (pair: Option<(String, String)>)
    ensures
        pair.deep_view() == owner_repo(url@),
{
    let chars = chars_of(url);
    let n = chars.len();
    assert(chars@.subrange(0, n as int) =~= url@);
    let (t_lo, hi) = trim_window(&chars, 0, n);
    let ghost t = chars@.subrange(t_lo as int, hi as int);
    let scheme = chars_of(SSH_SCHEME);
    let lo = if window_has_at(&chars, t_lo, hi, t_lo, &scheme) {
        assert(t.skip(scheme@.len() as int) =~= chars@.subrange(t_lo + scheme@.len(), hi as int));
        t_lo + scheme.len()
    } else {
        t_lo
    };
    let ghost s = chars@.subrange(lo as int, hi as int);
    let mark = chars_of(SSH_HOST_MARK);
    match find_in_window(&chars, lo, hi, &mark) {
        Some(at) => {
            assert(s.skip(at - lo + mark@.len()) =~= chars@.subrange(
                at + mark@.len(),
                hi as int,
            ));
            return split_window(url, &chars, at + mark.len(), hi);
        },
        None => {},
    }
    let https = chars_of(HTTPS_PREFIX);
    let http = chars_of(HTTP_PREFIX);
    let git = chars_of(GIT_PREFIX);
    let bare = chars_of(BARE_PREFIX);
    if window_has_at(&chars, lo, hi, lo, &https) {
        assert(s.skip(https@.len() as int) =~= chars@.subrange(lo + https@.len(), hi as int));
        split_window(url, &chars, lo + https.len(), hi)
    } else if window_has_at(&chars, lo, hi, lo, &http) {
        assert(s.skip(http@.len() as int) =~= chars@.subrange(lo + http@.len(), hi as int));
        split_window(url, &chars, lo + http.len(), hi)
    } else if window_has_at(&chars, lo, hi, lo, &git) {
        assert(s.skip(git@.len() as int) =~= chars@.subrange(lo + git@.len(), hi as int));
        split_window(url, &chars, lo + git.len(), hi)
    } else if window_has_at(&chars, lo, hi, lo, &bare) {
        assert(s.skip(bare@.len() as int) =~= chars@.subrange(lo + bare@.len(), hi as int));
        split_window(url, &chars, lo + bare.len(), hi)
    } else {
        None
    }
}

/// The pattern that ends a line.
pub open spec fn newline() -> Seq<char> {
    seq!['\n']
}

/// The pattern that separates key and value in a line of `git config`.
pub open spec fn space() -> Seq<char> {
    seq![' ']
}

/// The first line of a text, without the line feed that ends it.
pub open spec fn first_line(text: Seq<char>) -> Seq<char> {
    match first_occurrence(text, newline()) {
        Some(at) => text.take(at),
        None => text,
    }
}

/// What follows the first line of a text.
pub open spec fn after_first_line(text: Seq<char>) -> Seq<char> {
    match first_occurrence(text, newline()) {
        Some(at) => text.skip(at + 1),
        None => Seq::empty(),
    }
}

/// The address in a line of `git config --get-regexp`: what follows the
/// first space, without the white space around it. `None` for a line
/// without a space.
pub open spec fn config_line_url(line: Seq<char>) -> Option<Seq<char>> {
    match first_occurrence(line, space()) {
        Some(at) => Some(trimmed(line.skip(at + 1))),
        None => None,
    }
}

/// The address in a line of `git remote -v`: the second of the words that
/// white space separates. `None` for a line with fewer than two words.
pub open spec fn remote_line_url(line: Seq<char>) -> Option<Seq<char>> {
    let second = skip_leading_space(skip_token(skip_leading_space(line)));
    if second.len() > 0 {
        Some(leading_token(second))
    } else {
        None
    }
}

/// The addresses in what `git config --get-regexp` printed, line by line.
/// A carriage return before a line feed counts as white space.
pub open spec fn config_urls(text: Seq<char>) -> Seq<Seq<char>>
    decreases text.len(),
    via lines_decrease
{
    if text.len() == 0 {
        Seq::empty()
    } else {
        let rest = config_urls(after_first_line(text));
        match config_line_url(first_line(text)) {
            Some(url) => seq![url] + rest,
            None => rest,
        }
    }
}

/// The addresses in what `git remote -v` printed, line by line.
pub open spec fn remote_urls(text: Seq<char>) -> Seq<Seq<char>>
    decreases text.len(),
    via remote_lines_decrease
{
    if text.len() == 0 {
        Seq::empty()
    } else {
        let rest = remote_urls(after_first_line(text));
        match remote_line_url(first_line(text)) {
            Some(url) => seq![url] + rest,
            None => rest,
        }
    }
}

#[via_fn]
proof fn lines_decrease(text: Seq<char>) {
    lemma_find_from(text, newline(), 0);
}

#[via_fn]
proof fn remote_lines_decrease(text: Seq<char>) {
    lemma_find_from(text, newline(), 0);
}

/// The addresses to go by: those of the configuration where it was read and
/// names any, else those of the remote list where it was read.
pub open spec fn listed_urls(
    config_listing: Option<Seq<char>>,
    remote_listing: Option<Seq<char>>,
) -> Seq<Seq<char>> {
    let from_config = match config_listing {
        Some(text) => config_urls(text),
        None => Seq::empty(),
    };
    if from_config.len() > 0 {
        from_config
    } else {
        match remote_listing {
            Some(text) => remote_urls(text),
            None => Seq::empty(),
        }
    }
}

/// The end of the line that starts at `lo`, and the start of the next.
fn line_window(chars: &Vec<char>, lo: usize) -> (r: (usize, usize))
    requires
        lo < chars.len(),
    ensures
        lo <= r.0 <= r.1 <= chars.len(),
        lo < r.1,
        chars@.subrange(lo as int, r.0 as int) == first_line(chars@.skip(lo as int)),
        chars@.skip(r.1 as int) == after_first_line(chars@.skip(lo as int)),
{
    let n = chars.len();
    let pat: Vec<char> = vec!['\n'];
    assert(pat@ =~= newline());
    assert(chars@.subrange(lo as int, n as int) =~= chars@.skip(lo as int));
    match find_in_window(chars, lo, n, &pat) {
        Some(at) => {
            assert(chars@.subrange(lo as int, at as int) =~= chars@.skip(lo as int).take(at - lo));
            assert(chars@.skip(at + 1) =~= chars@.skip(lo as int).skip(at - lo + 1));
            (at, at + 1)
        },
        None => {
            assert(chars@.skip(n as int) =~= Seq::<char>::empty());
            (n, n)
        },
    }
}

/// The address in the line `[lo, hi)` of what `git config` printed.
fn config_line(text: &str, chars: &Vec<char>, lo: usize, hi: usize) -> (url: Option<String>)
    requires
        chars@ == text@,
        lo <= hi <= chars.len(),
    ensures
        url.deep_view() == config_line_url(chars@.subrange(lo as int, hi as int)),
{
    let pat: Vec<char> = vec![' '];
    assert(pat@ =~= space());
    match find_in_window(chars, lo, hi, &pat) {
        Some(at) => {
            assert(chars@.subrange(lo as int, hi as int).skip(at - lo + 1) =~= chars@.subrange(
                at + 1,
                hi as int,
            ));
            let (from, to) = trim_window(chars, at + 1, hi);
            Some(owned_range(text, from, to))
        },
        None => None,
    }
}

/// The address in the line `[lo, hi)` of what `git remote -v` printed.
fn remote_line(text: &str, chars: &Vec<char>, lo: usize, hi: usize) -> (url: Option<String>)
    requires
        chars@ == text@,
        lo <= hi <= chars.len(),
    ensures
        url.deep_view() == remote_line_url(chars@.subrange(lo as int, hi as int)),
{
    let first = skip_space_start(chars, lo, hi);
    let gap = skip_token_start(chars, first, hi);
    let second = skip_space_start(chars, gap, hi);
    if second < hi {
        let end = skip_token_start(chars, second, hi);
        assert(chars@.subrange(second as int, hi as int).take(hi - second - (hi - end))
            =~= chars@.subrange(second as int, end as int));
        Some(owned_range(text, second, end))
    } else {
        None
    }
}

/// The addresses in what `git config --get-regexp` printed, in the order
/// of the lines.
pub fn urls_from_config(listing: &str) -> (urls: Vec<String>)
    ensures
        urls.deep_view() == config_urls(listing@),
{
    let chars = chars_of(listing);
    let n = chars.len();
    let mut urls: Vec<String> = Vec::new();
    let mut lo: usize = 0;
    assert(chars@.skip(0) =~= listing@);
    assert(urls.deep_view() + config_urls(chars@.skip(0)) =~= config_urls(listing@));
    while lo < n
        invariant
            lo <= n,
            n == chars.len(),
            chars@ == listing@,
            urls.deep_view() + config_urls(chars@.skip(lo as int)) == config_urls(listing@),
        decreases n - lo,
    {
        let ghost before = urls.deep_view();
        let (end, next) = line_window(&chars, lo);
        match config_line(listing, &chars, lo, end) {
            Some(url) => {
                urls.push(url);
                assert(urls.deep_view() =~= before.push(url@));
                assert(urls.deep_view() + config_urls(chars@.skip(next as int)) =~= before + (
                seq![url@] + config_urls(chars@.skip(next as int))));
            },
            None => {},
        }
        lo = next;
    }
    assert(urls.deep_view() + Seq::<Seq<char>>::empty() =~= urls.deep_view());
    urls
}

/// The addresses in what `git remote -v` printed, in the order of the
/// lines.
pub fn urls_from_remote_list(listing: &str) -> (urls: Vec<String>)
    ensures
        urls.deep_view() == remote_urls(listing@),
{
    let chars = chars_of(listing);
    let n = chars.len();
    let mut urls: Vec<String> = Vec::new();
    let mut lo: usize = 0;
    assert(chars@.skip(0) =~= listing@);
    assert(urls.deep_view() + remote_urls(chars@.skip(0)) =~= remote_urls(listing@));
    while lo < n
        invariant
            lo <= n,
            n == chars.len(),
            chars@ == listing@,
            urls.deep_view() + remote_urls(chars@.skip(lo as int)) == remote_urls(listing@),
        decreases n - lo,
    {
        let ghost before = urls.deep_view();
        let (end, next) = line_window(&chars, lo);
        match remote_line(listing, &chars, lo, end) {
            Some(url) => {
                urls.push(url);
                assert(urls.deep_view() =~= before.push(url@));
                assert(urls.deep_view() + remote_urls(chars@.skip(next as int)) =~= before + (
                seq![url@] + remote_urls(chars@.skip(next as int))));
            },
            None => {},
        }
        lo = next;
    }
    assert(urls.deep_view() + Seq::<Seq<char>>::empty() =~= urls.deep_view());
    urls
}

/// The remotes of the working copy, from what `git` printed: the addresses
/// of the configuration listing where it names any, else those of the
/// remote list; `None` stands for a listing that could not be had. The
/// addresses come in ascending order, each once.
pub fn get_git_origins(config_listing: Option<&str>, remote_listing: Option<&str>) -> (origins:
    Vec<String>)
    ensures
        strictly_ascending(origins.deep_view()),
        same_strings(
            origins.deep_view(),
            listed_urls(config_listing.deep_view(), remote_listing.deep_view()),
        ),
{
    let from_config = match config_listing {
        Some(text) => urls_from_config(text),
        None => Vec::new(),
    };
    assert(config_listing is None ==> from_config.deep_view() =~= Seq::<Seq<char>>::empty());
    if from_config.len() > 0 {
        return sort_unique(from_config);
    }
    let from_remotes = match remote_listing {
        Some(text) => urls_from_remote_list(text),
        None => Vec::new(),
    };
    assert(remote_listing is None ==> from_remotes.deep_view() =~= Seq::<Seq<char>>::empty());
    sort_unique(from_remotes)
}

} // verus!
