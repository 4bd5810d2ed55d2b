//! The request parser: turns the lines of a credential-helper request into a
//! validated repository identity.

use vstd::prelude::*;
use vstd::string::StrSliceExecFns;
use vstd::string::StringExecFns;

use crate::strutil::find_char;
use crate::strutil::first_index;
use crate::strutil::lemma_first_index_from_at;
use crate::strutil::lemma_first_index_from_none;
use crate::strutil::lemma_first_index_from_some;
use crate::strutil::str_eq;

verus! {

/// A repository identity: the organization that owns the repository and the
/// repository's name. Equality is structural and case-sensitive.
#[derive(Debug, Eq, Hash)]
pub struct RepoInfo {
    pub organization: String,
    pub name: String,
}

impl Clone for RepoInfo {
    fn clone(&self) -> (r: RepoInfo)
        ensures
            r.organization@ == self.organization@,
            r.name@ == self.name@,
    {
        RepoInfo { organization: self.organization.clone(), name: self.name.clone() }
    }
}

impl PartialEq for RepoInfo {
    fn eq(&self, other: &RepoInfo) -> (r: bool) {
        self.organization == other.organization && self.name == other.name
    }
}

impl vstd::std_specs::cmp::PartialEqSpecImpl for RepoInfo {
    open spec fn obeys_eq_spec() -> bool {
        true
    }

    open spec fn eq_spec(&self, other: &RepoInfo) -> bool {
        self.organization@ == other.organization@ && self.name@ == other.name@
    }
}

/// Why a request was rejected before any token work happened.
#[derive(Clone, Copy, Debug, PartialEq, Eq, Structural)]
pub enum ParseError {
    /// A non-blank line did not have the `attribute=value` shape.
    MalformedInput,
    /// The request's `protocol` attribute was not exactly `https`.
    UnsupportedProtocol,
    /// The request carried no (non-empty) `path` attribute.
    MissingRepoPath,
    /// The `path` attribute held no `/` separating organization and name.
    InvalidRepoPath,
}

/// The repository path and protocol accumulated from `lines[i..]`, starting
/// from the already-accumulated `path` and `protocol`. Reading stops at the
/// first blank line, at the end of the input, or as soon as both attributes
/// have been seen; a non-blank line without `=` is malformed. A repeated
/// attribute appends to the value seen so far; unrecognized attributes are
/// ignored.
pub open spec fn scan_lines(
    lines: Seq<Seq<char>>,
    i: int,
    path: Seq<char>,
    protocol: Seq<char>,
) -> Result<(Seq<char>, Seq<char>), ParseError>
    decreases lines.len() - i,
{
    if i < 0 || i >= lines.len() {
        Ok((path, protocol))
    } else if lines[i].len() == 0 {
        Ok((path, protocol))
    } else {
        match first_index(lines[i], '=') {
            None => Err(ParseError::MalformedInput),
            Some(j) => {
                let line = lines[i];
                let attr = line.subrange(0, j);
                let value = line.subrange(j + 1, line.len() as int);
                let path2 = if attr == "path"@ {
                    path + value
                } else {
                    path
                };
                let protocol2 = if attr != "path"@ && attr == "protocol"@ {
                    protocol + value
                } else {
                    protocol
                };
                if path2.len() > 0 && protocol2.len() > 0 {
                    Ok((path2, protocol2))
                } else {
                    scan_lines(lines, i + 1, path2, protocol2)
                }
            },
        }
    }
}

/// Whether scanning `lines[i..]` from the accumulated `path` and `protocol`
/// comes to a stop — a blank line, a line without `=`, or completeness —
/// before running off the end of the input. Once it does, further lines
/// cannot reach the scan.
pub open spec fn scan_stopped(
    lines: Seq<Seq<char>>,
    i: int,
    path: Seq<char>,
    protocol: Seq<char>,
) -> bool
    decreases lines.len() - i,
{
    if i < 0 || i >= lines.len() {
        false
    } else if lines[i].len() == 0 {
        true
    } else {
        match first_index(lines[i], '=') {
            None => true,
            Some(j) => {
                let line = lines[i];
                let attr = line.subrange(0, j);
                let value = line.subrange(j + 1, line.len() as int);
                let path2 = if attr == "path"@ {
                    path + value
                } else {
                    path
                };
                let protocol2 = if attr != "path"@ && attr == "protocol"@ {
                    protocol + value
                } else {
                    protocol
                };
                if path2.len() > 0 && protocol2.len() > 0 {
                    true
                } else {
                    scan_stopped(lines, i + 1, path2, protocol2)
                }
            },
        }
    }
}

/// Whether the lines read so far already settle the request, so that no
/// further line need be read: the scan met a blank line, a malformed line, or
/// saw both attributes. A reader may hand a request to [`parse_input`] as soon
/// as this returns `true`, or once the stream ends.
pub fn request_complete(lines: &Vec<String>) -> (r: bool)
    ensures
        r == scan_stopped(lines.deep_view(), 0, Seq::<char>::empty(), Seq::<char>::empty()),
{
    let ghost all: Seq<Seq<char>> = lines.deep_view();
    let n = lines.len();
    let mut repo_path = String::new();
    let mut protocol = String::new();
    let mut i: usize = 0;
    while i < n
        invariant_except_break
            i <= n,
            !(repo_path@.len() > 0 && protocol@.len() > 0),
            scan_stopped(all, 0, Seq::<char>::empty(), Seq::<char>::empty()) == scan_stopped(
                all,
                i as int,
                repo_path@,
                protocol@,
            ),
        invariant
            n == all.len(),
            all == lines.deep_view(),
        ensures
            i <= n,
            i < n ==> scan_stopped(all, 0, Seq::<char>::empty(), Seq::<char>::empty()),
            i == n ==> !scan_stopped(all, 0, Seq::<char>::empty(), Seq::<char>::empty()),
        decreases n - i,
    {
        let ghost path0 = repo_path@;
        let ghost protocol0 = protocol@;
        let line = &lines[i];
        proof {
            assert(all[i as int] == line@);
        }
        if line.as_str().is_empty() {
            break ;
        }
        match find_char(line.as_str(), '=') {
            None => {
                return true;
            },
            Some(j) => {
                proof {
                    lemma_first_index_from_some(line@, '=', 0, j as int);
                }
                let len = line.as_str().unicode_len();
                let attr = line.as_str().substring_char(0, j);
                let value = line.as_str().substring_char(j + 1, len);
                if str_eq(attr, "path") {
                    repo_path.append(value);
                } else if str_eq(attr, "protocol") {
                    protocol.append(value);
                }
                if !(repo_path.as_str().is_empty() || protocol.as_str().is_empty()) {
                    proof {
                        assert(scan_stopped(all, i as int, path0, protocol0));
                    }
                    break ;
                }
            },
        }
        i = i + 1;
    }
    if i >= n {
        return false;
    }
    true
}

/// A repository name keeps everything up to a trailing `.git`, which clone
/// URLs may carry.
pub open spec fn strip_git_suffix(s: Seq<char>) -> Seq<char> {
    if s.len() >= 4 && s.subrange(s.len() - 4, s.len() as int) == ".git"@ {
        s.subrange(0, s.len() - 4)
    } else {
        s
    }
}

/// Validation of the accumulated attributes, in order: the protocol must be
/// exactly `https`; the path must be non-empty; the path must hold a `/`. The
/// organization is everything before the first `/`, the name is everything
/// after it, less a trailing `.git`.
pub open spec fn spec_validate(path: Seq<char>, protocol: Seq<char>) -> Result<
    (Seq<char>, Seq<char>),
    ParseError,
> {
    if protocol != "https"@ {
        Err(ParseError::UnsupportedProtocol)
    } else if path.len() == 0 {
        Err(ParseError::MissingRepoPath)
    } else {
        match first_index(path, '/') {
            None => Err(ParseError::InvalidRepoPath),
            Some(j) => Ok(
                (path.subrange(0, j), strip_git_suffix(path.subrange(j + 1, path.len() as int))),
            ),
        }
    }
}

/// What parsing a whole request returns: the organization and repository name,
/// or the first error met.
pub open spec fn spec_parse(lines: Seq<Seq<char>>) -> Result<(Seq<char>, Seq<char>), ParseError> {
    match scan_lines(lines, 0, Seq::<char>::empty(), Seq::<char>::empty()) {
        Ok((path, protocol)) => spec_validate(path, protocol),
        Err(e) => Err(e),
    }
}

/// Law: a trailing `.git` is stripped from a name, and a name is otherwise
/// kept whole.
pub proof fn lemma_git_suffix_stripped(name: Seq<char>)
    ensures
        strip_git_suffix(name + ".git"@) == name,
        name.len() < 4 || name.subrange(name.len() - 4, name.len() as int) != ".git"@
            ==> strip_git_suffix(name) == name,
{
    reveal_strlit(".git");
    let extended = name + ".git"@;
    assert(extended.subrange(extended.len() - 4, extended.len() as int) =~= ".git"@);
    assert(extended.subrange(0, extended.len() - 4) =~= name);
}

/// Law: a request whose lines are exactly `path=<org>/<name>` and
/// `protocol=https`, with no `/` in the organization, parses to that
/// organization and that name, less a trailing `.git` on the name.
pub proof fn lemma_canonical_request_parses(org: Seq<char>, name: Seq<char>, lines: Seq<Seq<char>>)
    requires
        lines.len() == 2,
        lines[0] == "path="@ + org + "/"@ + name,
        lines[1] == "protocol=https"@,
        forall|k: int| 0 <= k < org.len() ==> org[k] != '/',
    ensures
        spec_parse(lines) == Ok::<(Seq<char>, Seq<char>), ParseError>(
            (org, strip_git_suffix(name)),
        ),
{
    reveal_strlit("path=");
    reveal_strlit("path");
    reveal_strlit("protocol=https");
    reveal_strlit("protocol");
    reveal_strlit("https");
    reveal_strlit("/");
    let empty = Seq::<char>::empty();
    let line0 = lines[0];
    let line1 = lines[1];

    // The first line splits at its first `=` into `path` and the repository
    // path.
    assert(line0[4] == '=');
    assert(forall|k: int| 0 <= k < 4 ==> line0[k] != '=');
    lemma_first_index_from_at(line0, '=', 0, 4);
    assert(line0.subrange(0, 4) =~= "path"@);
    let path = line0.subrange(5, line0.len() as int);
    assert(path =~= org + "/"@ + name);
    assert(empty + path =~= path);

    // The second line splits into `protocol` and `https`, which completes the
    // request.
    assert(line1[8] == '=');
    assert(forall|k: int| 0 <= k < 8 ==> line1[k] != '=');
    lemma_first_index_from_at(line1, '=', 0, 8);
    assert(line1.subrange(0, 8) =~= "protocol"@);
    assert(line1.subrange(9, line1.len() as int) =~= "https"@);
    assert(empty + "https"@ =~= "https"@);
    assert(scan_lines(lines, 1, path, empty) == Ok::<(Seq<char>, Seq<char>), ParseError>(
        (path, "https"@),
    ));
    assert(scan_lines(lines, 0, empty, empty) == scan_lines(lines, 1, path, empty));

    // Validation splits the path at its first `/`.
    assert(path[org.len() as int] == '/');
    assert(forall|k: int| 0 <= k < org.len() ==> path[k] == org[k] && path[k] != '/');
    lemma_first_index_from_at(path, '/', 0, org.len() as int);
    assert(path.subrange(0, org.len() as int) =~= org);
    assert(path.subrange(org.len() as int + 1, path.len() as int) =~= name);
}

/// Law: a request whose protocol is anything but `https` is rejected as
/// unsupported, whatever its path holds.
pub proof fn lemma_non_https_rejected(lines: Seq<Seq<char>>, path: Seq<char>, protocol: Seq<char>)
    requires
        scan_lines(lines, 0, Seq::<char>::empty(), Seq::<char>::empty())
            == Ok::<(Seq<char>, Seq<char>), ParseError>((path, protocol)),
        protocol != "https"@,
    ensures
        spec_parse(lines) == Err::<(Seq<char>, Seq<char>), ParseError>(
            ParseError::UnsupportedProtocol,
        ),
{
}

/// Law: an https request whose path holds no `/` is rejected as an invalid
/// repository path.
pub proof fn lemma_slashless_path_rejected(lines: Seq<Seq<char>>, path: Seq<char>)
    requires
        scan_lines(lines, 0, Seq::<char>::empty(), Seq::<char>::empty())
            == Ok::<(Seq<char>, Seq<char>), ParseError>((path, "https"@)),
        path.len() > 0,
        forall|k: int| 0 <= k < path.len() ==> path[k] != '/',
    ensures
        spec_parse(lines) == Err::<(Seq<char>, Seq<char>), ParseError>(ParseError::InvalidRepoPath),
{
    lemma_first_index_from_none(path, '/', 0);
}

/// Law: an https request without a path — none seen, or only empty values —
/// is rejected as missing its repository path.
pub proof fn lemma_missing_path_rejected(lines: Seq<Seq<char>>, path: Seq<char>)
    requires
        scan_lines(lines, 0, Seq::<char>::empty(), Seq::<char>::empty())
            == Ok::<(Seq<char>, Seq<char>), ParseError>((path, "https"@)),
        path.len() == 0,
    ensures
        spec_parse(lines) == Err::<(Seq<char>, Seq<char>), ParseError>(ParseError::MissingRepoPath),
{
}

/// A stopped scan reads nothing past its stop: appending lines changes
/// nothing.
proof fn lemma_stopped_scan_ignores_rest(
    lines: Seq<Seq<char>>,
    more: Seq<Seq<char>>,
    i: int,
    path: Seq<char>,
    protocol: Seq<char>,
)
    requires
        scan_stopped(lines, i, path, protocol),
    ensures
        scan_lines(lines + more, i, path, protocol) == scan_lines(lines, i, path, protocol),
    decreases lines.len() - i,
{
    assert((lines + more)[i] == lines[i]);
    let line = lines[i];
    if line.len() == 0 {
    } else {
        match first_index(line, '=') {
            None => {},
            Some(j) => {
                let attr = line.subrange(0, j);
                let value = line.subrange(j + 1, line.len() as int);
                let path2 = if attr == "path"@ {
                    path + value
                } else {
                    path
                };
                let protocol2 = if attr != "path"@ && attr == "protocol"@ {
                    protocol + value
                } else {
                    protocol
                };
                if path2.len() > 0 && protocol2.len() > 0 {
                } else {
                    lemma_stopped_scan_ignores_rest(lines, more, i + 1, path2, protocol2);
                }
            },
        }
    }
}

/// Law: as soon as the lines read settle a request — a blank line, a malformed
/// line, or both attributes seen — reading further lines cannot change what
/// parsing returns. A reader may therefore stop as soon as
/// [`request_complete`] holds.
pub proof fn lemma_settled_request_parses_alike(lines: Seq<Seq<char>>, more: Seq<Seq<char>>)
    requires
        scan_stopped(lines, 0, Seq::<char>::empty(), Seq::<char>::empty()),
    ensures
        spec_parse(lines + more) == spec_parse(lines),
{
    lemma_stopped_scan_ignores_rest(
        lines,
        more,
        0,
        Seq::<char>::empty(),
        Seq::<char>::empty(),
    );
}

/// Removes a trailing `.git` from `s`, if present.
fn strip_dot_git(s: &str) -> (r: String)
    ensures
        r@ == strip_git_suffix(s@),
{
    let n = s.unicode_len();
    if n >= 4 {
        let tail = s.substring_char(n - 4, n);
        if str_eq(tail, ".git") {
            return s.substring_char(0, n - 4).to_owned();
        }
    }
    s.to_owned()
}

/// Parses the lines of one credential request into a repository identity.
///
/// Lines are consumed until a blank line, the end of the input, or until both
/// `path` and `protocol` have been seen, whichever comes first; the result is
/// exactly what [`spec_parse`] says of the lines' views.
pub fn parse_input(lines: &Vec<String>) -> (r: Result<RepoInfo, ParseError>)
    ensures
        match r {
            Ok(info) => spec_parse(lines.deep_view()) == Ok::<(Seq<char>, Seq<char>), ParseError>(
                (info.organization@, info.name@),
            ),
            Err(e) => spec_parse(lines.deep_view()) == Err::<(Seq<char>, Seq<char>), ParseError>(e),
        },
{
    let ghost all: Seq<Seq<char>> = lines.deep_view();
    let n = lines.len();
    let mut repo_path = String::new();
    let mut protocol = String::new();
    let mut i: usize = 0;
    while i < n
        invariant_except_break
            i <= n,
            !(repo_path@.len() > 0 && protocol@.len() > 0),
            scan_lines(all, 0, Seq::<char>::empty(), Seq::<char>::empty()) == scan_lines(
                all,
                i as int,
                repo_path@,
                protocol@,
            ),
        invariant
            n == all.len(),
            all == lines.deep_view(),
        ensures
            scan_lines(all, 0, Seq::<char>::empty(), Seq::<char>::empty())
                == Ok::<(Seq<char>, Seq<char>), ParseError>((repo_path@, protocol@)),
        decreases n - i,
    {
        let ghost path0 = repo_path@;
        let ghost protocol0 = protocol@;
        let line = &lines[i];
        proof {
            assert(all[i as int] == line@);
        }
        if line.as_str().is_empty() {
            break ;
        }
        match find_char(line.as_str(), '=') {
            None => {
                return Err(ParseError::MalformedInput);
            },
            Some(j) => {
                proof {
                    lemma_first_index_from_some(line@, '=', 0, j as int);
                }
                let len = line.as_str().unicode_len();
                let attr = line.as_str().substring_char(0, j);
                let value = line.as_str().substring_char(j + 1, len);
                if str_eq(attr, "path") {
                    repo_path.append(value);
                } else if str_eq(attr, "protocol") {
                    protocol.append(value);
                }
                if !(repo_path.as_str().is_empty() || protocol.as_str().is_empty()) {
                    proof {
                        assert(scan_lines(all, i as int, path0, protocol0)
                            == Ok::<(Seq<char>, Seq<char>), ParseError>((repo_path@, protocol@)));
                    }
                    break ;
                }
            },
        }
        i = i + 1;
    }
    if !str_eq(protocol.as_str(), "https") {
        return Err(ParseError::UnsupportedProtocol);
    }
    if repo_path.as_str().is_empty() {
        return Err(ParseError::MissingRepoPath);
    }
    match find_char(repo_path.as_str(), '/') {
        None => Err(ParseError::InvalidRepoPath),
        Some(j) => {
            proof {
                lemma_first_index_from_some(repo_path@, '/', 0, j as int);
            }
            let len = repo_path.as_str().unicode_len();
            let organization = repo_path.as_str().substring_char(0, j).to_owned();
            let name = strip_dot_git(repo_path.as_str().substring_char(j + 1, len));
            Ok(RepoInfo { organization, name })
        },
    }
}

} // verus!
