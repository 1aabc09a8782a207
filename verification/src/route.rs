//! From the text of a request to the route it asks for.

use vstd::prelude::*;
use vstd::string::*;
use crate::text::chars_of;

verus! {

/// The shape of a request line: a method in capital letters, the target,
/// and the protocol version, each parted from the next by one space.
pub const REQUEST_LINE: &'static str = "^([A-Z]+) (\\S+) HTTP/(\\S+)";

/// The capture group of [`REQUEST_LINE`] that holds the target.
pub const TARGET_GROUP: usize = 2;

#[verifier::external_type_specification]
#[verifier::external_body]
pub struct ExRegexError(regex::Error);

/// Whether `regex::Regex::new` accepts `pattern`.
pub uninterp spec fn regex_compiles(pattern: Seq<char>) -> bool;

/// What `regex::Regex::captures` finds in `haystack` for the expression
/// compiled from `pattern`: nothing where the expression matches nowhere,
/// else the text of each capture group of the leftmost match, by index,
/// with no text for a group that took no part in it.
pub uninterp spec fn regex_captures(pattern: Seq<char>, haystack: Seq<char>) -> Option<
    Seq<Option<Seq<char>>>,
>;

/// Compiles `pattern` with `regex::Regex::new` and searches `haystack` with
/// `regex::Regex::captures`. The contract names both results and says
/// nothing more of them: the error is the one that compiling gave, and the
/// groups are those of `regex::Captures::iter`, each as the text that
/// `regex::Match::as_str` gives.
#[verifier::external_body]
fn capture_groups(pattern: &str, haystack: &str) -> (found: Result<
    Option<Vec<Option<String>>>,
    regex::Error,
>)
    ensures
        found is Ok <==> regex_compiles(pattern@),
        found matches Ok(groups) ==> groups.deep_view() == regex_captures(pattern@, haystack@),
{
    let expression = regex::Regex::new(pattern)?;
    Ok(
        expression.captures(haystack).map(
            |caps| caps.iter().map(|group| group.map(|m| m.as_str().to_string())).collect(),
        ),
    )
}

/// A target without its query: what stands before the first `?`, or all of
/// it where it has none.
pub open spec fn before_query(target: Seq<char>) -> Seq<char> {
    match target.index_of_first('?') {
        Some(at) => target.take(at),
        None => target,
    }
}

/// The route is the target cut at its first `?`: it is the target's
/// beginning, holds no `?`, and where it is shorter than the target, the
/// character that follows it there is a `?`.
pub proof fn before_query_cuts_at_first_mark(target: Seq<char>)
    ensures
        before_query(target).is_prefix_of(target),
        !before_query(target).contains('?'),
        before_query(target).len() < target.len() ==> target[before_query(target).len() as int]
            == '?',
        !target.contains('?') ==> before_query(target) == target,
{
    target.index_of_first_ensures('?');
}

/// Cuts the query off a target.
pub fn strip_query(target: &str) -> (route: String)
    ensures
        route@ == before_query(target@),
{
    let chars = chars_of(target);
    let mut at: usize = 0;
    while at < chars.len() && chars[at] != '?'
        invariant
            at <= chars.len(),
            forall|i: int| 0 <= i < at ==> chars@[i] != '?',
        decreases chars.len() - at,
    {
        at += 1;
    }
    proof {
        target@.index_of_first_ensures('?');
        if at < chars.len() {
            assert(target@.contains('?'));
        }
    }
    String::from_str(target.substring_char(0, at))
}

/// The target among the groups of a search: the group at [`TARGET_GROUP`],
/// where the search matched and that group took part.
pub open spec fn target_of(found: Option<Seq<Option<Seq<char>>>>) -> Option<Seq<char>> {
    match found {
        Some(groups) => if TARGET_GROUP < groups.len() {
            groups[TARGET_GROUP as int]
        } else {
            None
        },
        None => None,
    }
}

/// The route that a search gives: its target without the query, and `/`
/// where it found no target.
pub open spec fn route_of(found: Option<Seq<Option<Seq<char>>>>) -> Seq<char> {
    match target_of(found) {
        Some(target) => before_query(target),
        None => "/"@,
    }
}

/// The route of a request: that of the search for [`REQUEST_LINE`] in it,
/// and `/` where the expression does not compile.
pub open spec fn request_route(request: Seq<char>) -> Seq<char> {
    if regex_compiles(REQUEST_LINE@) {
        route_of(regex_captures(REQUEST_LINE@, request))
    } else {
        "/"@
    }
}

/// Picks the route out of the groups of a search.
pub fn route_from(found: &Option<Vec<Option<String>>>) -> (route: String)
    ensures
        route@ == route_of(found.deep_view()),
{
    match found {
        Some(groups) => {
            if TARGET_GROUP < groups.len() {
                match &groups[TARGET_GROUP] {
                    Some(target) => strip_query(target.as_str()),
                    None => String::from_str("/"),
                }
            } else {
                String::from_str("/")
            }
        },
        None => String::from_str("/"),
    }
}

/// Reads the route out of a request.
pub fn get_route(request: String) -> (route: String)
    ensures
        route@ == request_route(request@),
{
    match capture_groups(REQUEST_LINE, request.as_str()) {
        Ok(found) => route_from(&found),
        Err(_) => String::from_str("/"),
    }
}

/// Whether the request line of `request` was matched, with `target` as
/// its target.
pub open spec fn has_target(request: Seq<char>, target: Seq<char>) -> bool {
    regex_compiles(REQUEST_LINE@) && target_of(regex_captures(REQUEST_LINE@, request)) == Some(
        target,
    )
}

/// Whether no target was found in `request`: the expression did not
/// compile, the request line was not matched, or its target took no part.
pub open spec fn has_no_target(request: Seq<char>) -> bool {
    !regex_compiles(REQUEST_LINE@) || target_of(regex_captures(REQUEST_LINE@, request)) is None
}

/// The route of a request is its target cut at the first `?`, and `/`
/// where no target was found.
pub proof fn route_of_request(request: Seq<char>, target: Seq<char>)
    ensures
        has_target(request, target) ==> request_route(request) == before_query(target),
        has_no_target(request) ==> request_route(request) == "/"@,
{
}

} // verus!
