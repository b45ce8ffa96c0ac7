//! The prompts that git hands a `GIT_ASKPASS` program, and the answer it wants.
use vstd::prelude::*;

verus! {

/// The prompt for a username: the location stands in the last quotes.
pub const USERNAME_PROMPT_PATTERN: &'static str = "^Username.*'(.*)'";

/// The prompt for a password: the location, with the user in it, stands in the last quotes.
pub const PASSWORD_PROMPT_PATTERN: &'static str = "^Password.*'(.*://)(.*)@(.*)'";

/// The capture groups that `regex` reports for `pattern` on `haystack`:
/// `None` when the pattern does not compile, `Some(None)` when it does not
/// match, and else each group's text, `None` for a group that took no part.
pub uninterp spec fn regex_captures(pattern: Seq<char>, haystack: Seq<char>) -> Option<
    Option<Seq<Option<Seq<char>>>>,
>;

/// Compiles `pattern` with `regex::Regex::new` and runs `Regex::captures` on
/// `haystack`, handing each group out as an owned string. The contract claims
/// only that the outcome is a function of the pattern and the haystack; what
/// that function is (the regex crate's matching rules) is left unsaid.
#[verifier::external_body]
fn captures(pattern: &str, haystack: &str) -> (r: Option<Option<Vec<Option<String>>>>)
    ensures
        r.deep_view() == regex_captures(pattern@, haystack@),
{
    match regex::Regex::new(pattern) {
        Ok(re) => Some(
            re.captures(haystack).map(
                |caps| caps.iter().map(|m| m.map(|m| m.as_str().to_string())).collect(),
            ),
        ),
        Err(_) => None,
    }
}

/// Which of the two credentials a prompt asks for.
#[derive(Clone, Copy, Debug, PartialEq, Eq, Structural)]
pub enum RequestKind {
    Username,
    Password,
}

/// What a prompt asks: which credential, for which repository location.
#[derive(Debug)]
pub struct AskpassRequest {
    pub location: String,
    pub kind: RequestKind,
}

/// Why a prompt yields no request.
#[derive(Clone, Copy, Debug, PartialEq, Eq, Structural)]
pub enum PromptError {
    /// The text is neither a username nor a password prompt.
    Unrecognized,
    /// A prompt pattern did not compile, or a match lacks a group that the
    /// pattern always fills.
    PatternFailure,
}

/// The group `i` of a match, `None` when it is absent.
pub open spec fn group(groups: Seq<Option<Seq<char>>>, i: int) -> Option<Seq<char>> {
    if 0 <= i < groups.len() {
        groups[i]
    } else {
        None
    }
}

/// The request that the captures of the two prompt patterns describe: a
/// username prompt wins; its location is its first group; a password
/// prompt's location is its first group followed by its third (the user is
/// left out).
pub open spec fn prompt_request(
    username: Option<Option<Seq<Option<Seq<char>>>>>,
    password: Option<Option<Seq<Option<Seq<char>>>>>,
) -> Result<(Seq<char>, RequestKind), PromptError> {
    match (username, password) {
        (Some(Some(groups)), Some(_)) => match group(groups, 1) {
            Some(location) => Ok((location, RequestKind::Username)),
            None => Err(PromptError::PatternFailure),
        },
        (Some(None), Some(Some(groups))) => match (group(groups, 1), group(groups, 3)) {
            (Some(scheme), Some(host_path)) => Ok((scheme + host_path, RequestKind::Password)),
            _ => Err(PromptError::PatternFailure),
        },
        (Some(None), Some(None)) => Err(PromptError::Unrecognized),
        _ => Err(PromptError::PatternFailure),
    }
}

/// The view of a prompt outcome.
pub open spec fn request_view(r: Result<AskpassRequest, PromptError>) -> Result<
    (Seq<char>, RequestKind),
    PromptError,
> {
    match r {
        Ok(req) => Ok((req.location@, req.kind)),
        Err(e) => Err(e),
    }
}

/// Group `i` of `groups`, copied out.
fn group_text(groups: &Vec<Option<String>>, i: usize) -> (r: Option<String>)
    ensures
        r.deep_view() == group(groups.deep_view(), i as int),
{
    if i < groups.len() {
        match &groups[i] {
            Some(s) => Some(s.clone()),
            None => None,
        }
    } else {
        None
    }
}

/// The request that the prompt patterns' captures describe.
pub fn request_from_captures(
    username: Option<Option<Vec<Option<String>>>>,
    password: Option<Option<Vec<Option<String>>>>,
) -> (r: Result<AskpassRequest, PromptError>)
    ensures
        request_view(r) == prompt_request(username.deep_view(), password.deep_view()),
        match r {
            Ok(req) => match req.kind {
                RequestKind::Username => (username.deep_view() matches Some(Some(g)) && g.len() > 1 && g[1]
                    == Some(req.location@)),
                RequestKind::Password => (password.deep_view() matches Some(Some(g)) && g.len() > 3 && g[1]
                    is Some && g[3] is Some && req.location@ == g[1]->0 + g[3]->0),
            },
            Err(_) => true,
        },
{
    proof {
        law_request_location_comes_from_its_groups(username.deep_view(), password.deep_view());
    }
    match (username, password) {
        (Some(Some(groups)), Some(_)) => match group_text(&groups, 1) {
            Some(location) => Ok(AskpassRequest { location, kind: RequestKind::Username }),
            None => Err(PromptError::PatternFailure),
        },
        (Some(None), Some(Some(groups))) => match (group_text(&groups, 1), group_text(&groups, 3)) {
            (Some(scheme), Some(host_path)) => Ok(
                AskpassRequest {
                    location: scheme.concat(host_path.as_str()),
                    kind: RequestKind::Password,
                },
            ),
            _ => Err(PromptError::PatternFailure),
        },
        (Some(None), Some(None)) => Err(PromptError::Unrecognized),
        _ => Err(PromptError::PatternFailure),
    }
}

/// What the prompt `text` asks for, by the username and password prompt patterns.
pub fn parse_askpass_prompt(text: &str) -> (r: Result<AskpassRequest, PromptError>)
    ensures
        request_view(r) == prompt_request(
            regex_captures(USERNAME_PROMPT_PATTERN@, text@),
            regex_captures(PASSWORD_PROMPT_PATTERN@, text@),
        ),
        match r {
            Ok(req) => match req.kind {
                RequestKind::Username => (regex_captures(USERNAME_PROMPT_PATTERN@, text@) matches Some(Some(g)) && g.len() > 1 && g[1]
                    == Some(req.location@)),
                RequestKind::Password => (regex_captures(PASSWORD_PROMPT_PATTERN@, text@) matches Some(Some(g)) && g.len() > 3 && g[1]
                    is Some && g[3] is Some && req.location@ == g[1]->0 + g[3]->0),
            },
            Err(_) => true,
        },
{
    let username = captures(USERNAME_PROMPT_PATTERN, text);
    let password = captures(PASSWORD_PROMPT_PATTERN, text);
    request_from_captures(username, password)
}

impl RequestKind {
    /// The credential that this kind of prompt asks for.
    pub fn pick(self, username: String, password: String) -> (r: String)
        ensures
            r == match self {
                RequestKind::Username => username,
                RequestKind::Password => password,
            },
    {
        match self {
            RequestKind::Username => username,
            RequestKind::Password => password,
        }
    }
}

/// The complaint about a prompt that names no request.
pub fn unrecognized_prompt_message(text: &str) -> (r: String)
    ensures
        r@ == "Unable to identify the request type in '"@ + text@ + "'"@,
{
    String::from_str("Unable to identify the request type in '").concat(text).concat("'")
}

/// Law: whatever a prompt asks for, its location is made of the matched
/// prompt's own text: a username prompt's first group as it stands, a
/// password prompt's first group (the scheme it names) followed at once by
/// its third (host and path), with nothing put in or left out.
pub proof fn law_request_location_comes_from_its_groups(
    username: Option<Option<Seq<Option<Seq<char>>>>>,
    password: Option<Option<Seq<Option<Seq<char>>>>>,
)
    ensures
        match prompt_request(username, password) {
            Ok((location, RequestKind::Username)) => (username matches Some(Some(g)) && g.len()
                > 1 && g[1] == Some(location)),
            Ok((location, RequestKind::Password)) => (password matches Some(Some(g)) && g.len()
                > 3 && g[1] is Some && g[3] is Some && location == g[1]->0 + g[3]->0),
            Err(_) => true,
        },
{
}

/// Law: a password prompt that matches, where no username prompt does, asks
/// for the password of the location that joins its scheme and its host and
/// path, for every scheme (`http://` stays `http://`).
pub proof fn law_password_prompt_keeps_its_scheme(
    groups: Seq<Option<Seq<char>>>,
    scheme: Seq<char>,
    host_path: Seq<char>,
)
    requires
        groups.len() > 3,
        groups[1] == Some(scheme),
        groups[3] == Some(host_path),
    ensures
        prompt_request(Some(None), Some(Some(groups))) == Ok::<
            (Seq<char>, RequestKind),
            PromptError,
        >((scheme + host_path, RequestKind::Password)),
{
}

/// Law: a username prompt that matches asks for the username of the location
/// in its first group, whatever the password pattern gives.
pub proof fn law_username_prompt_names_its_location(
    groups: Seq<Option<Seq<char>>>,
    location: Seq<char>,
    password: Option<Seq<Option<Seq<char>>>>,
)
    requires
        groups.len() > 1,
        groups[1] == Some(location),
    ensures
        prompt_request(Some(Some(groups)), Some(password)) == Ok::<
            (Seq<char>, RequestKind),
            PromptError,
        >((location, RequestKind::Username)),
{
}

} // verus!
