//! From a route to the file that answers it, and what the file's name says
//! of its kind.

use vstd::prelude::*;
use vstd::string::*;
use crate::route::{before_query, get_route, has_no_target, has_target, request_route};
use crate::text::{chars_of, same_text};

verus! {

/// The directory under which every served file lies.
pub const DOC_ROOT: &'static str = "/httpd_rd_root";

/// The route that stands for the bare `/`.
pub const INDEX_ROUTE: &'static str = "/index.html";

/// The route that is served for a requested one: the index for `/`, and
/// the route itself otherwise.
pub open spec fn served_route(route: Seq<char>) -> Seq<char> {
    if route == "/"@ {
        INDEX_ROUTE@
    } else {
        route
    }
}

/// The path of the file for a route: the document root, then the route as
/// it stands.
pub open spec fn resolved_path(route: Seq<char>) -> Seq<char> {
    DOC_ROOT@ + route
}

/// Puts the index in the place of the bare `/`.
pub fn index_fallback(route: String) -> (served: String)
    ensures
        served@ == served_route(route@),
{
    if same_text(route.as_str(), "/") {
        String::from_str(INDEX_ROUTE)
    } else {
        route
    }
}

/// Joins a route to the document root.
pub fn resolve_path(route: &str) -> (path: String)
    ensures
        path@ == resolved_path(route@),
{
    String::from_str(DOC_ROOT).concat(route)
}

/// The path of the file that a request asks for: the document root and
/// the served route of the request.
pub open spec fn request_path(request: Seq<char>) -> Seq<char> {
    resolved_path(served_route(request_route(request)))
}

/// Finds the file that a request asks for.
pub fn request_file(request: &str) -> (path: String)
    ensures
        path@ == request_path(request@),
{
    let route = index_fallback(get_route(String::from_str(request)));
    resolve_path(route.as_str())
}

/// A request with target `target` is answered from the file that the
/// target names under the document root once it is cut at its first `?`,
/// and from the index where that leaves the bare `/`.
pub proof fn route_normalisation(request: Seq<char>, target: Seq<char>)
    ensures
        has_target(request, target) && before_query(target) == "/"@ ==> request_path(request)
            == DOC_ROOT@ + INDEX_ROUTE@,
        has_target(request, target) && before_query(target) != "/"@ ==> request_path(request)
            == DOC_ROOT@ + before_query(target),
{
}

/// A request in which no target was found is answered from the index.
pub proof fn route_fallback(request: Seq<char>)
    ensures
        has_no_target(request) ==> request_path(request) == DOC_ROOT@ + INDEX_ROUTE@,
{
}

/// Whether `text` begins with `/`.
pub open spec fn is_rooted(text: Seq<char>) -> bool {
    text.len() > 0 && text[0] == '/'
}

/// The served route begins with `/` wherever the target did, and wherever
/// no target was found.
pub proof fn served_route_is_rooted(request: Seq<char>, target: Seq<char>)
    ensures
        has_no_target(request) ==> is_rooted(served_route(request_route(request))),
        has_target(request, target) && is_rooted(target) ==> is_rooted(
            served_route(request_route(request)),
        ),
{
    reveal_strlit("/");
    reveal_strlit("/index.html");
    target.index_of_first_ensures('?');
}

/// Whether `path` ends in a part that names nothing: a `/`, or a `.` that is
/// a component by itself.
pub open spec fn ends_in_filler(path: Seq<char>) -> bool {
    &&& path.len() > 0
    &&& path.last() == '/' || (path.last() == '.' && (path.len() == 1 || path[path.len() - 2]
        == '/'))
}

/// Where the last component of `path` begins: behind its last `/`, or at
/// the front where it has none.
pub open spec fn last_component_start(path: Seq<char>) -> int {
    match path.index_of_last('/') {
        Some(at) => at + 1,
        None => 0,
    }
}

/// The file name of a path whose components are parted by `/`: its last
/// component, not counting a trailing `/` or `.` component. A path without
/// components has none, nor has one whose last component is `..`.
pub open spec fn file_name(path: Seq<char>) -> Option<Seq<char>>
    decreases path.len(),
{
    if path.len() == 0 {
        None
    } else if ends_in_filler(path) {
        file_name(path.drop_last())
    } else {
        let name = path.skip(last_component_start(path));
        if name == ".."@ {
            None
        } else {
            Some(name)
        }
    }
}

/// The extension of a path: what follows the last `.` of its file name,
/// where the name has a `.` that is not its first character.
pub open spec fn extension_of(path: Seq<char>) -> Option<Seq<char>> {
    match file_name(path) {
        Some(name) => match name.index_of_last('.') {
            Some(dot) => if dot > 0 {
                Some(name.skip(dot + 1))
            } else {
                None
            },
            None => None,
        },
        None => None,
    }
}

/// A file name is not empty and holds no `/`; an extension holds neither
/// `/` nor `.`.
pub proof fn names_are_plain(path: Seq<char>)
    ensures
        file_name(path) matches Some(name) ==> name.len() > 0 && !name.contains('/'),
        extension_of(path) matches Some(found) ==> !found.contains('/') && !found.contains('.'),
    decreases path.len(),
{
    if path.len() > 0 {
        if ends_in_filler(path) {
            names_are_plain(path.drop_last());
        } else {
            path.index_of_last_ensures('/');
            let start = last_component_start(path);
            let name = path.skip(start);
            assert forall|i: int| 0 <= i < name.len() implies name[i] != '/' by {
                assert(name[i] == path[start + i]);
            }
        }
    }
    if let Some(name) = file_name(path) {
        name.index_of_last_ensures('.');
        if let Some(dot) = name.index_of_last('.') {
            let found = name.skip(dot + 1);
            assert forall|i: int| 0 <= i < found.len() implies found[i] != '/' && found[i]
                != '.' by {
                assert(found[i] == name[dot + 1 + i]);
            }
        }
    }
}

/// Dropping trailing filler one character at a time leaves the file name
/// as it was.
proof fn file_name_of_prefix(path: Seq<char>, end: int)
    requires
        0 < end <= path.len(),
        ends_in_filler(path.take(end)),
    ensures
        file_name(path.take(end)) == file_name(path.take(end - 1)),
{
    assert(path.take(end).drop_last() =~= path.take(end - 1));
}

/// Whether the first `end` characters end in filler.
fn filler_before(chars: &Vec<char>, end: usize) -> (filler: bool)
    requires
        end <= chars.len(),
    ensures
        filler == ends_in_filler(chars@.take(end as int)),
{
    if end == 0 {
        false
    } else if chars[end - 1] == '/' {
        true
    } else {
        chars[end - 1] == '.' && (end == 1 || chars[end - 2] == '/')
    }
}

/// Where the file name of `chars` lies in it.
fn name_span(chars: &Vec<char>) -> (span: Option<(usize, usize)>)
    ensures
        match span {
            Some((start, end)) => start < end <= chars.len() && file_name(chars@) == Some(
                chars@.subrange(start as int, end as int),
            ),
            None => file_name(chars@) is None,
        },
{
    let mut end: usize = chars.len();
    assert(chars@.take(end as int) =~= chars@);
    while filler_before(chars, end)
        invariant
            end <= chars.len(),
            file_name(chars@) == file_name(chars@.take(end as int)),
        decreases end,
    {
        proof {
            file_name_of_prefix(chars@, end as int);
        }
        end -= 1;
    }
    if end == 0 {
        return None;
    }
    let mut start: usize = end;
    while start > 0 && chars[start - 1] != '/'
        invariant
            start <= end <= chars.len(),
            forall|i: int| start <= i < end ==> chars@[i] != '/',
        decreases start,
    {
        start -= 1;
    }
    let ghost path = chars@.take(end as int);
    proof {
        path.index_of_last_ensures('/');
        if start > 0 {
            assert(path[start - 1] == '/');
        }
        assert(last_component_start(path) == start);
        assert(path.skip(start as int) =~= chars@.subrange(start as int, end as int));
        assert(!ends_in_filler(path));
        reveal_strlit("..");
    }
    if end - start == 2 && chars[start] == '.' && chars[start + 1] == '.' {
        assert(path.skip(start as int) =~= ".."@);
        None
    } else {
        assert(path.skip(start as int) != ".."@) by {
            if path.skip(start as int) == ".."@ {
                assert(path.skip(start as int)[0] == '.');
                assert(path.skip(start as int)[1] == '.');
            }
        }
        Some((start, end))
    }
}

/// Takes the extension out of a path. The path is read as
/// `std::path::Path` reads one where `/` parts the components.
pub fn extension(path: &str) -> (found: Option<String>)
    ensures
        found.deep_view() == extension_of(path@),
{
    let chars = chars_of(path);
    match name_span(&chars) {
        None => None,
        Some((start, end)) => {
            let ghost name = chars@.subrange(start as int, end as int);
            let mut dot: usize = end;
            while dot > start && chars[dot - 1] != '.'
                invariant
                    start <= dot <= end <= chars.len(),
                    forall|i: int| dot <= i < end ==> chars@[i] != '.',
                decreases dot,
            {
                dot -= 1;
            }
            proof {
                name.index_of_last_ensures('.');
                if dot > start {
                    assert(name[dot - 1 - start] == '.');
                }
            }
            if dot > start + 1 {
                assert(name.index_of_last('.') == Some(dot - 1 - start));
                assert(name.skip(dot - start) =~= path@.subrange(dot as int, end as int));
                Some(String::from_str(path.substring_char(dot, end)))
            } else {
                None
            }
        },
    }
}

} // verus!
