//! Puts a page in place of an empty "not found".

use crate::http::{opt_bytes, opt_text, Request, Response, NOT_FOUND};
use crate::interceptor::{Intercept, Interceptor};
use crate::resp::Res;
use crate::text::{chars_of, same_folded, same_ignoring_case, text_of};
use vstd::prelude::*;
use vstd::string::StringExecFns;

verus! {

/// The ending of the name of an HTML document.
pub open spec fn html() -> Seq<char> {
    ".html"@
}

/// The media type of an HTML document.
pub open spec fn html_type() -> Seq<char> {
    "text/html"@
}

/// `path` as far as its last name reaches: without the separators at its
/// end, and without a dot behind a separator there, which stands for the
/// directory itself.
pub open spec fn to_name(path: Seq<char>) -> Seq<char>
    decreases path.len(),
{
    if path.len() > 0 && path.last() == '/' {
        to_name(path.drop_last())
    } else if path.len() >= 2 && path.last() == '.' && path[path.len() - 2] == '/' {
        to_name(path.drop_last())
    } else {
        path
    }
}

/// `path` ends in `.html`, in any case, and the name does not start there.
pub open spec fn ends_html(path: Seq<char>) -> bool {
    &&& path.len() > 5
    &&& same_folded(path.skip(path.len() - 5), html())
    &&& path[path.len() - 6] != '/'
}

/// The path names an HTML document: its last name has the extension
/// `html`, in any case. Separators behind the name do not count.
pub open spec fn names_html(path: Seq<char>) -> bool {
    ends_html(to_name(path))
}

/// What a response is made into, given the page where it could be read: a
/// "not found" gets the page as its body, with the page's length and the
/// media type of a page. Any other response is left as it is, and so is a
/// "not found" where the page could not be read.
pub open spec fn filled(res: Response, page: Option<Seq<u8>>, left: Response) -> bool {
    if res.status == NOT_FOUND && page is Some {
        &&& left.status == res.status
        &&& left.content_length == Some(page->0.len() as u64)
        &&& opt_text(left.content_type) == Some(html_type())
        &&& opt_bytes(left.body) == page
        &&& left.content_disposition == res.content_disposition
        &&& left.location == res.location
    } else {
        left == res
    }
}

/// Whether `path` names an HTML document.
pub fn is_html(path: &str) -> (yes: bool)
    ensures
        yes == names_html(path@),
{
    let chars = chars_of(path);
    let mut len = chars.len();
    assert(chars@.take(len as int) =~= path@);
    while len > 0 && (chars[len - 1] == '/' || (len >= 2 && chars[len - 1] == '.' && chars[len
        - 2] == '/'))
        invariant
            len <= chars.len(),
            chars@ == path@,
            to_name(path@) == to_name(chars@.take(len as int)),
        decreases len,
    {
        assert(chars@.take(len as int).drop_last() =~= chars@.take(len - 1));
        len -= 1;
    }
    let ghost name = chars@.take(len as int);
    assert(to_name(name) == name);
    if len <= 5 {
        return false;
    }
    let tail: Vec<char> = vec![
        chars[len - 5],
        chars[len - 4],
        chars[len - 3],
        chars[len - 2],
        chars[len - 1],
    ];
    assert(tail@ =~= name.skip(len - 5));
    let ending = text_of(&tail);
    same_ignoring_case(ending.as_str(), ".html") && chars[len - 6] != '/'
}

/// Answers a "not found" with the page kept at a path. The page is read
/// through `load`, which gives the bytes of the file at a path where it
/// can be read.
#[derive(Clone)]
pub struct Html404<L> {
    path: String,
    load: L,
}

impl<L: Fn(&str) -> Option<Vec<u8>> + Clone> Html404<L> {
    /// The interceptor for the page at `path`, which must name an HTML
    /// document.
    pub fn new(path: &str, load: L) -> (layer: Interceptor<Self>)
        requires
            names_html(path@),
        ensures
            layer.interceptor.page_path() == path@,
            layer.interceptor.loader() == load,
    {
        Interceptor::new(Self { path: String::from_str(path), load })
    }

    /// The interceptor for the page at `path`, where that names an HTML
    /// document.
    pub fn try_new(path: &str, load: L) -> (layer: Option<Interceptor<Self>>)
        ensures
            layer is Some <==> names_html(path@),
            layer is Some ==> layer->0.interceptor.page_path() == path@
                && layer->0.interceptor.loader() == load,
    {
        if is_html(path) {
            Some(Self::new(path, load))
        } else {
            None
        }
    }

    /// Where the page is kept.
    pub closed spec fn page_path(self) -> Seq<char> {
        self.path@
    }

    /// What the page is read through.
    pub closed spec fn loader(self) -> L {
        self.load
    }

    /// Where the page is kept.
    pub fn path(&self) -> (path: &str)
        ensures
            path@ == self.page_path(),
    {
        self.path.as_str()
    }

    /// Whether the page is to be read for this response: it is, for a "not
    /// found".
    pub fn wants_page(&self, res: &Response) -> (yes: bool)
        ensures
            yes == (res.status == NOT_FOUND),
    {
        res.status == NOT_FOUND
    }

    /// Puts the page in place of the body of a "not found", where a host
    /// has read it on its own.
    pub fn fill(&self, res: &mut Response, page: Option<Vec<u8>>)
        ensures
            filled(*old(res), opt_bytes(page), *final(res)),
    {
        if res.status == NOT_FOUND {
            if let Some(bytes) = page {
                res.content_length = Some(bytes.len() as u64);
                res.content_type = Some(String::from_str("text/html"));
                res.body = Some(bytes);
            }
        }
    }
}

impl<L: Fn(&str) -> Option<Vec<u8>> + Clone> Intercept for Html404<L> {
    type Context = ();

    open spec fn ready(&self) -> bool {
        forall|path: &str| call_requires(self.loader(), (path,))
    }

    /// Every request passes, unchanged.
    open spec fn before_spec(&self, req: Request, left: Request, out: Result<(), Res<()>>) -> bool {
        left == req && out is Ok
    }

    /// For a "not found" the page is read, and put in place of the body
    /// where it could be read. Nothing is read for any other response.
    open spec fn after_spec(&self, ctx: (), res: Response, left: Response) -> bool {
        if res.status == NOT_FOUND {
            exists|path: &str, page: Option<Vec<u8>>|
                {
                    &&& path@ == self.page_path()
                    &&& #[trigger] call_ensures(self.loader(), (path,), page)
                    &&& filled(res, opt_bytes(page), left)
                }
        } else {
            left == res
        }
    }

    fn before(&self, req: &mut Request) -> (out: Result<(), Res<()>>) {
        Ok(())
    }

    fn after(&self, ctx: (), res: &mut Response) {
        if self.wants_page(res) {
            let path = self.path.as_str();
            assert(call_requires(self.loader(), (path,)));
            let page = (self.load)(path);
            let ghost read = page;
            self.fill(res, page);
            assert(call_ensures(self.loader(), (path,), read) && filled(
                *old(res),
                opt_bytes(read),
                *res,
            ));
        }
    }
}

} // verus!
