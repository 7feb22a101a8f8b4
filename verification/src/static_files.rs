//! Which file a request for a page or an asset is answered with, and what
//! the answer looks like once the file was read, or was not there. Reading
//! the file is the caller's part.

use crate::response::{STATUS_NOT_FOUND, STATUS_OK};
use crate::text::{ends_with, has_prefix, has_suffix, last_part, starts_with, tail_index, to_chars};
use vstd::prelude::*;
use vstd::string::*;

verus! {

/// The page that is served where the request names none.
pub const START_PAGE: &'static str = "login.html";

/// Where the backend listens that requests under `/api/` are handed to.
pub const BACKEND: &'static str = "http://localhost:2324";

/// The three kinds of file that are served.
#[derive(Clone, Copy, Debug, PartialEq, Eq, Structural)]
pub enum AssetKind {
    Css,
    Js,
    Html,
}

impl AssetKind {
    /// The name of the kind as messages write it.
    pub open spec fn label(self) -> Seq<char> {
        match self {
            AssetKind::Css => "CSS"@,
            AssetKind::Js => "JS"@,
            AssetKind::Html => "HTML"@,
        }
    }

    /// The name of the kind as messages write it.
    pub fn label_text(&self) -> (text: &'static str)
        ensures
            text@ == self.label(),
    {
        match self {
            AssetKind::Css => "CSS",
            AssetKind::Js => "JS",
            AssetKind::Html => "HTML",
        }
    }

    /// The directory that files of the kind are read from.
    pub open spec fn home(self) -> Seq<char> {
        match self {
            AssetKind::Css => "../admin/asses"@,
            AssetKind::Js => "../admin/asses"@,
            AssetKind::Html => "../admin/base"@,
        }
    }

    /// The directory that files of the kind are read from.
    pub fn directory(&self) -> (text: &'static str)
        ensures
            text@ == self.home(),
    {
        match self {
            AssetKind::Css => "../admin/asses",
            AssetKind::Js => "../admin/asses",
            AssetKind::Html => "../admin/base",
        }
    }

    /// The media type that files of the kind are sent as.
    pub open spec fn media_type(self) -> Seq<char> {
        match self {
            AssetKind::Css => "text/css"@,
            AssetKind::Js => "application/javascript"@,
            AssetKind::Html => "text/html"@,
        }
    }

    /// The media type that files of the kind are sent as.
    pub fn content_type(&self) -> (text: &'static str)
        ensures
            text@ == self.media_type(),
    {
        match self {
            AssetKind::Css => "text/css",
            AssetKind::Js => "application/javascript",
            AssetKind::Html => "text/html",
        }
    }
}

/// What a request path asks for.
#[derive(Debug)]
pub enum StaticRoute {
    /// Something of the backend's: the request is handed on.
    Api,
    /// A file of one kind, by its name.
    Asset { kind: AssetKind, file_name: String },
    /// Nothing that is served by name: the start page.
    Default,
}

/// A route as the contracts see it.
pub enum RouteView {
    Api,
    Asset { kind: AssetKind, file_name: Seq<char> },
    Default,
}

impl View for StaticRoute {
    type V = RouteView;

    open spec fn view(&self) -> RouteView {
        match self {
            StaticRoute::Api => RouteView::Api,
            StaticRoute::Asset { kind, file_name } => RouteView::Asset {
                kind: *kind,
                file_name: file_name@,
            },
            StaticRoute::Default => RouteView::Default,
        }
    }
}

/// The route of a path. Paths under `/api/` belong to the backend. A path
/// that ends in `.css`, `.js` or `.html` names a file of that kind: what
/// follows its last slash, whatever directories stand before. The root is
/// the start page, and so is every other path.
pub open spec fn route_of(path: Seq<char>) -> RouteView {
    if has_prefix(path, "/api/"@) {
        RouteView::Api
    } else if has_suffix(path, ".css"@) {
        RouteView::Asset { kind: AssetKind::Css, file_name: last_part(path, '/') }
    } else if has_suffix(path, ".js"@) {
        RouteView::Asset { kind: AssetKind::Js, file_name: last_part(path, '/') }
    } else if has_suffix(path, ".html"@) {
        RouteView::Asset { kind: AssetKind::Html, file_name: last_part(path, '/') }
    } else if path == "/"@ {
        RouteView::Asset { kind: AssetKind::Html, file_name: START_PAGE@ }
    } else {
        RouteView::Default
    }
}

/// What follows the last slash of a path.
fn file_name_of(path: &str, chars: &Vec<char>) -> (name: String)
    requires
        chars@ == path@,
    ensures
        name@ == last_part(path@, '/'),
{
    let start = tail_index(chars, '/');
    path.substring_char(start, chars.len()).to_owned()
}

/// Finds the route of a request path.
pub fn route(path: &str) -> (found: StaticRoute)
    ensures
        found@ == route_of(path@),
{
    let chars = to_chars(path);
    let api = to_chars("/api/");
    let css = to_chars(".css");
    let js = to_chars(".js");
    let html = to_chars(".html");
    let root = to_chars("/");
    if starts_with(&chars, &api) {
        StaticRoute::Api
    } else if ends_with(&chars, &css) {
        StaticRoute::Asset { kind: AssetKind::Css, file_name: file_name_of(path, &chars) }
    } else if ends_with(&chars, &js) {
        StaticRoute::Asset { kind: AssetKind::Js, file_name: file_name_of(path, &chars) }
    } else if ends_with(&chars, &html) {
        StaticRoute::Asset { kind: AssetKind::Html, file_name: file_name_of(path, &chars) }
    } else if chars.len() == root.len() && starts_with(&chars, &root) {
        proof {
            assert(path@.subrange(0, path@.len() as int) == path@);
        }
        StaticRoute::Asset { kind: AssetKind::Html, file_name: START_PAGE.to_owned() }
    } else {
        proof {
            if path@ == "/"@ {
                assert(path@.subrange(0, path@.len() as int) == path@);
            }
        }
        StaticRoute::Default
    }
}

/// The file that a route is answered with: its directory and its name. The
/// backend's routes have none.
pub open spec fn file_of(route: RouteView) -> Option<(Seq<char>, Seq<char>)> {
    match route {
        RouteView::Api => None,
        RouteView::Asset { kind, file_name } => Some((kind.home(), file_name)),
        RouteView::Default => Some((AssetKind::Html.home(), START_PAGE@)),
    }
}

/// The directory and the name of the file that a route is answered with.
pub fn file_to_read(route: &StaticRoute) -> (file: Option<(String, String)>)
    ensures
        match file {
            Some(pair) => file_of(route@) == Some((pair.0@, pair.1@)),
            None => file_of(route@) is None,
        },
{
    match route {
        StaticRoute::Api => None,
        StaticRoute::Asset { kind, file_name } => Some(
            (kind.directory().to_owned(), file_name.clone()),
        ),
        StaticRoute::Default => Some(
            (AssetKind::Html.directory().to_owned(), START_PAGE.to_owned()),
        ),
    }
}

/// The words for a file of `kind` that could not be read.
pub open spec fn read_failure_text(kind: AssetKind, file_name: Seq<char>, cause: Seq<char>) -> Seq<
    char,
> {
    "Failed to read "@ + kind.label() + " file "@ + file_name + ": "@ + cause
}

/// The words for a file of `kind` that could not be read.
pub fn read_failure(kind: AssetKind, file_name: &str, cause: &str) -> (text: String)
    ensures
        text@ == read_failure_text(kind, file_name@, cause@),
{
    let mut text: String = "Failed to read ".to_owned();
    text.append(kind.label_text());
    text.append(" file ");
    text.append(file_name);
    text.append(": ");
    text.append(cause);
    text
}

/// An answer to a request for a page or an asset.
#[derive(Debug)]
pub struct StaticReply {
    pub status: u16,
    pub content_type: Option<String>,
    pub body: String,
}

/// An answer as the contracts see it.
pub struct ReplyView {
    pub status: u16,
    pub content_type: Option<Seq<char>>,
    pub body: Seq<char>,
}

impl View for StaticReply {
    type V = ReplyView;

    open spec fn view(&self) -> ReplyView {
        ReplyView {
            status: self.status,
            content_type: match self.content_type {
                Some(text) => Some(text@),
                None => None,
            },
            body: self.body@,
        }
    }
}

/// What the caller found where the file should be: its content, or the
/// reason why there is none.
pub open spec fn loaded_view(loaded: Result<String, String>) -> Result<Seq<char>, Seq<char>> {
    match loaded {
        Ok(content) => Ok(content@),
        Err(reason) => Err(reason@),
    }
}

/// The words that open the answer for a file that is not there.
pub open spec fn missing_prefix(route: RouteView) -> Seq<char> {
    match route {
        RouteView::Asset { kind, file_name } => kind.label() + " file not found: "@,
        _ => "Default page not found: "@,
    }
}

/// The kind of file that a route is answered with.
pub open spec fn kind_of(route: RouteView) -> AssetKind {
    match route {
        RouteView::Asset { kind, file_name } => kind,
        _ => AssetKind::Html,
    }
}

/// The answer for a route, given what reading its file came to: the
/// content under the media type of the kind, or a plain answer that the
/// file was not found, with the reason.
pub open spec fn reply_for(route: RouteView, loaded: Result<Seq<char>, Seq<char>>) -> ReplyView {
    match loaded {
        Ok(content) => ReplyView {
            status: STATUS_OK,
            content_type: Some(kind_of(route).media_type()),
            body: content,
        },
        Err(reason) => ReplyView {
            status: STATUS_NOT_FOUND,
            content_type: None,
            body: missing_prefix(route) + reason,
        },
    }
}

/// Builds the answer for a route that names a file, or for the start page.
pub fn reply(route: &StaticRoute, loaded: Result<String, String>) -> (answer: StaticReply)
    ensures
        answer@ == reply_for(route@, loaded_view(loaded)),
{
    let kind: AssetKind = match route {
        StaticRoute::Asset { kind, file_name } => *kind,
        _ => AssetKind::Html,
    };
    match loaded {
        Ok(content) => StaticReply {
            status: STATUS_OK,
            content_type: Some(kind.content_type().to_owned()),
            body: content,
        },
        Err(reason) => {
            let mut body: String = match route {
                StaticRoute::Asset { kind, file_name } => {
                    let mut words: String = kind.label_text().to_owned();
                    words.append(" file not found: ");
                    words
                },
                _ => "Default page not found: ".to_owned(),
            };
            body.append(reason.as_str());
            StaticReply { status: STATUS_NOT_FOUND, content_type: None, body }
        },
    }
}

/// The address at the backend that a request is handed on to.
pub open spec fn backend_address(path: Seq<char>, query: Option<Seq<char>>) -> Seq<char> {
    match query {
        Some(query) => BACKEND@ + path + "?"@ + query,
        None => BACKEND@ + path,
    }
}

/// The address at the backend for a path and, where there is one, a query.
pub fn backend_url(path: &str, query: Option<&str>) -> (address: String)
    ensures
        address@ == backend_address(
            path@,
            match query {
                Some(query) => Some(query@),
                None => None,
            },
        ),
{
    let mut address: String = BACKEND.to_owned();
    address.append(path);
    if let Some(query) = query {
        address.append("?");
        address.append(query);
    }
    address
}

} // verus!
