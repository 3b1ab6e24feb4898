//! Repository URLs: picking the owner and repository name out of a GitHub
//! URL, and building the raw-content URL of a repository's README.

use crate::strutil::{starts_with, str_starts_with};
use vstd::prelude::*;
use vstd::string::StrSliceExecFns;
use vstd::string::StringExecFns;

verus! {

/// Why a repository URL was rejected: it is not a GitHub URL at all, or it
/// carries no owner/repository path.
#[derive(Debug, Clone, PartialEq, Eq, Structural)]
pub enum GithubUrlError {
    NotGithubUrl,
    InvalidFormat,
}

/// `s` with every leading repetition of `p` removed.
pub open spec fn strip_all(s: Seq<char>, p: Seq<char>) -> Seq<char>
    decreases s.len(),
{
    if p.len() > 0 && starts_with(s, p) {
        strip_all(s.skip(p.len() as int), p)
    } else {
        s
    }
}

/// `s` with every trailing repetition of `p` removed.
pub open spec fn strip_all_end(s: Seq<char>, p: Seq<char>) -> Seq<char>
    decreases s.len(),
{
    if p.len() > 0 && p.len() <= s.len() && s.skip(s.len() - p.len()) == p {
        strip_all_end(s.take(s.len() - p.len()), p)
    } else {
        s
    }
}

/// The position of the first `c` in `s`, if any.
pub open spec fn find_ch(s: Seq<char>, c: char) -> Option<int>
    decreases s.len(),
{
    if s.len() == 0 {
        None
    } else if s[0] == c {
        Some(0)
    } else {
        match find_ch(s.skip(1), c) {
            Some(i) => Some(i + 1),
            None => None,
        }
    }
}

/// `find_ch` finds the first occurrence: the character at the returned
/// position is `c` and nothing before it is.
pub proof fn lemma_find_ch(s: Seq<char>, c: char)
    ensures
        match find_ch(s, c) {
            Some(i) => 0 <= i < s.len() && s[i] == c && forall|j: int| 0 <= j < i ==> s[j] != c,
            None => forall|j: int| 0 <= j < s.len() ==> s[j] != c,
        },
    decreases s.len(),
{
    if s.len() > 0 && s[0] != c {
        lemma_find_ch(s.skip(1), c);
        let t = s.skip(1);
        match find_ch(t, c) {
            Some(i) => {
                assert(s[i + 1] == t[i]);
                assert forall|j: int| 0 <= j < i + 1 implies s[j] != c by {
                    if j > 0 {
                        assert(t[j - 1] == s[j]);
                    }
                }
            },
            None => {
                assert forall|j: int| 0 <= j < s.len() implies s[j] != c by {
                    if j > 0 {
                        assert(t[j - 1] == s[j]);
                    }
                }
            },
        }
    }
}

/// A repository URL with its scheme and `www.` prefixes removed.
pub open spec fn github_rest(url: Seq<char>) -> Seq<char> {
    strip_all(strip_all(strip_all(url, "https://"@), "http://"@), "www."@)
}

/// Whether a URL names a repository on GitHub.
pub open spec fn is_github_url(url: Seq<char>) -> bool {
    starts_with(github_rest(url), "github.com/"@)
}

/// The owner/repository path of a GitHub URL.
pub open spec fn github_path(url: Seq<char>) -> Seq<char> {
    strip_all(github_rest(url), "github.com/"@)
}

/// The owner named by a GitHub URL: the path up to the first `/`.
/// Meaningful only when the path holds a `/`.
pub open spec fn github_owner(url: Seq<char>) -> Seq<char> {
    github_path(url).take(find_ch(github_path(url), '/').unwrap())
}

/// The repository named by a GitHub URL: the path segment after the first
/// `/`, with any trailing `.git` removed. Meaningful only when the path
/// holds a `/`.
pub open spec fn github_repo(url: Seq<char>) -> Seq<char> {
    let path = github_path(url);
    let rest = path.skip(find_ch(path, '/').unwrap() + 1);
    let raw = match find_ch(rest, '/') {
        Some(j) => rest.take(j),
        None => rest,
    };
    strip_all_end(raw, ".git"@)
}

/// Removes every leading repetition of `p` from `s`.
fn strip_prefix_all<'a>(s: &'a str, p: &str) -> (r: &'a str)
    ensures
        r@ == strip_all(s@, p@),
    decreases s@.len(),
{
    let plen = p.unicode_len();
    if plen > 0 && str_starts_with(s, p) {
        let slen = s.unicode_len();
        let rest = s.substring_char(plen, slen);
        proof {
            assert(rest@ =~= s@.skip(p@.len() as int));
        }
        strip_prefix_all(rest, p)
    } else {
        s
    }
}

/// Removes every trailing repetition of `p` from `s`.
fn strip_suffix_all<'a>(s: &'a str, p: &str) -> (r: &'a str)
    ensures
        r@ == strip_all_end(s@, p@),
    decreases s@.len(),
{
    let plen = p.unicode_len();
    let slen = s.unicode_len();
    if plen > 0 && crate::strutil::str_ends_with(s, p) {
        let rest = s.substring_char(0, slen - plen);
        proof {
            assert(rest@ =~= s@.take(s@.len() - p@.len()));
        }
        strip_suffix_all(rest, p)
    } else {
        s
    }
}

/// The position of the first `c` in `s`, if any.
fn find_char(s: &str, c: char) -> (r: Option<usize>)
    ensures
        match r {
            Some(i) => find_ch(s@, c) == Some(i as int),
            None => find_ch(s@, c) is None,
        },
{
    proof {
        lemma_find_ch(s@, c);
    }
    let n = s.unicode_len();
    let mut i: usize = 0;
    while i < n
        invariant
            n == s@.len(),
            i <= n,
            forall|j: int| 0 <= j < i ==> s@[j] != c,
        decreases n - i,
    {
        if s.get_char(i) == c {
            proof {
                lemma_find_ch(s@, c);
                match find_ch(s@, c) {
                    Some(k) => {
                        assert(!(k < i) && !(k > i));
                    },
                    None => {
                        assert(false);
                    },
                }
            }
            return Some(i);
        }
        i += 1;
    }
    proof {
        lemma_find_ch(s@, c);
    }
    None
}

/// Picks the owner and repository name out of a GitHub repository URL, in
/// any of the forms `https://github.com/owner/repo`, with or without the
/// scheme, a `www.` prefix, a `.git` suffix, or trailing path segments.
/// Rejects URLs not on `github.com`, and GitHub URLs without both an owner
/// and a repository segment.
pub fn parse_github_url(url: &str) -> (r: Result<(String, String), GithubUrlError>)
    ensures
        r is Err <==> (!is_github_url(url@) || find_ch(github_path(url@), '/') is None),
        r == Err::<(String, String), _>(GithubUrlError::NotGithubUrl) <==> !is_github_url(url@),
        r matches Ok(p) ==> p.0@ == github_owner(url@) && p.1@ == github_repo(url@),
{
    let u1 = strip_prefix_all(url, "https://");
    let u2 = strip_prefix_all(u1, "http://");
    let u3 = strip_prefix_all(u2, "www.");
    if !str_starts_with(u3, "github.com/") {
        return Err(GithubUrlError::NotGithubUrl);
    }
    let path = strip_prefix_all(u3, "github.com/");
    let slash = match find_char(path, '/') {
        Some(i) => i,
        None => {
            return Err(GithubUrlError::InvalidFormat);
        },
    };
    proof {
        lemma_find_ch(path@, '/');
    }
    let owner = path.substring_char(0, slash);
    let plen = path.unicode_len();
    let rest = path.substring_char(slash + 1, plen);
    proof {
        assert(rest@ =~= path@.skip(slash + 1));
    }
    let raw = match find_char(rest, '/') {
        Some(j) => {
            proof {
                lemma_find_ch(rest@, '/');
            }
            rest.substring_char(0, j)
        },
        None => rest,
    };
    let repo = strip_suffix_all(raw, ".git");
    Ok((owner.to_owned(), repo.to_owned()))
}

/// The raw-content URL of a repository's README on the given branch.
pub fn readme_url(owner: &str, repo: &str, branch: &str) -> (r: String)
    ensures
        r@ == "https://raw.githubusercontent.com/"@ + owner@ + "/"@ + repo@ + "/"@ + branch@
            + "/README.md"@,
{
    let mut s = String::from_str("https://raw.githubusercontent.com/");
    s.append(owner);
    s.append("/");
    s.append(repo);
    s.append("/");
    s.append(branch);
    s.append("/README.md");
    s
}

} // verus!
