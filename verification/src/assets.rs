//! The pages, by name.
use vstd::prelude::*;

use crate::text::same;

verus! {

/// A page as it is sent.
#[derive(Debug)]
pub struct Asset {
    pub content_type: &'static str,
    pub body: String,
}

/// The copies of the pages that ship with the gateway.
#[derive(Debug)]
pub struct Embedded {
    pub base_css: &'static str,
    pub guest_html: &'static str,
    pub guest_js: &'static str,
    pub operator_html: &'static str,
    pub operator_js: &'static str,
}

/// The content type and the embedded copy of a page. Naming each
/// file here is also what keeps a request from reaching anything else on disk
/// when the gateway is pointed at a directory instead.
pub open spec fn page(name: Seq<char>, embedded: Embedded) -> Option<(Seq<char>, Seq<char>)> {
    if name == "base.css"@ {
        Some(("text/css; charset=utf-8"@, embedded.base_css@))
    } else if name == "guest.html"@ {
        Some(("text/html; charset=utf-8"@, embedded.guest_html@))
    } else if name == "guest.js"@ {
        Some(("text/javascript; charset=utf-8"@, embedded.guest_js@))
    } else if name == "operator.html"@ {
        Some(("text/html; charset=utf-8"@, embedded.operator_html@))
    } else if name == "operator.js"@ {
        Some(("text/javascript; charset=utf-8"@, embedded.operator_js@))
    } else {
        None
    }
}

/// The names that a page is served under.
pub open spec fn is_page(name: Seq<char>) -> bool {
    ||| name == "base.css"@
    ||| name == "guest.html"@
    ||| name == "guest.js"@
    ||| name == "operator.html"@
    ||| name == "operator.js"@
}

/// Whether there is a page of a name. No file is to be opened for any other.
pub fn served(name: &str) -> (r: bool)
    ensures
        r == is_page(name@),
{
    same(name, "base.css") || same(name, "guest.html") || same(name, "guest.js") || same(
        name,
        "operator.html",
    ) || same(name, "operator.js")
}

fn lookup(name: &str, embedded: &Embedded) -> (r: Option<(&'static str, &'static str)>)
    ensures
        match r {
            Some((content_type, body)) => page(name@, *embedded) == Some((content_type@, body@)),
            None => page(name@, *embedded) is None,
        },
{
    if same(name, "base.css") {
        Some(("text/css; charset=utf-8", embedded.base_css))
    } else if same(name, "guest.html") {
        Some(("text/html; charset=utf-8", embedded.guest_html))
    } else if same(name, "guest.js") {
        Some(("text/javascript; charset=utf-8", embedded.guest_js))
    } else if same(name, "operator.html") {
        Some(("text/html; charset=utf-8", embedded.operator_html))
    } else if same(name, "operator.js") {
        Some(("text/javascript; charset=utf-8", embedded.operator_js))
    } else {
        None
    }
}

/// The page of a name: the file where one was read from the directory, else the embedded copy.
pub fn load(name: &str, embedded: &Embedded, file: Option<String>) -> (r: Option<Asset>)
    ensures
        r is Some <==> is_page(name@),
        r matches Some(asset) ==> page(name@, *embedded) matches Some((content_type, copy))
            && asset.content_type@ == content_type && asset.body@ == (match file {
            Some(body) => body@,
            None => copy,
        }),
{
    let Some((content_type, copy)) = lookup(name, embedded) else {
        return None;
    };
    let body = match file {
        Some(body) => body,
        None => copy.to_owned(),
    };
    Some(Asset { content_type, body })
}

/// A page's name is a plain file name: it leads to no other directory.
pub proof fn law_page_names_are_plain(name: Seq<char>)
    requires
        is_page(name),
    ensures
        !name.contains('/'),
        !name.contains('\\'),
        name != ".."@,
{
    reveal_strlit("base.css");
    reveal_strlit("guest.html");
    reveal_strlit("guest.js");
    reveal_strlit("operator.html");
    reveal_strlit("operator.js");
    reveal_strlit("..");
    assert(name.len() >= 8);
    assert(".."@.len() == 2);
}

} // verus!
