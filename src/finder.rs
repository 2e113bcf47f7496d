//! Resolving one host: normalizing it into a URL, fetching it through a
//! caller-supplied fetcher, and turning what came back into a record. Every
//! failure degrades to a record without images.
use vstd::prelude::*;

use crate::matcher::parse_document;
use crate::query::{all_plain, favicon, img_tag};
use crate::{is_bare, Logo, Site};

verus! {

/// The serialized URL that `s` parses to, if it parses as an absolute URL.
pub uninterp spec fn url_parse(s: Seq<char>) -> Option<Seq<char>>;

/// Relies on `reqwest::Url::parse` (the `url` crate's parser) and the URL's
/// `Display`, which writes its serialization: the result depends on the
/// text alone.
#[verifier::external_body]
fn parse_url(s: &str) -> (r: Option<String>)
    ensures
        match r {
            Some(u) => url_parse(s@) == Some(u@),
            None => url_parse(s@) is None,
        },
{
    reqwest::Url::parse(s).ok().map(|u| u.to_string())
}

/// The URL a host names: the host itself when it is an absolute URL, else
/// the host under `https://`.
pub open spec fn normalized(raw: Seq<char>) -> Option<Seq<char>> {
    if url_parse(raw) is Some {
        url_parse(raw)
    } else {
        url_parse("https://"@ + raw)
    }
}

pub open spec fn text_of(o: Option<String>) -> Option<Seq<char>> {
    match o {
        Some(s) => Some(s@),
        None => None,
    }
}

pub fn normalize_url(raw: &str) -> (r: Option<String>)
    ensures
        text_of(r) == normalized(raw@),
{
    match parse_url(raw) {
        Some(u) => Some(u),
        None => {
            let with_scheme = String::from_str("https://").concat(raw);
            parse_url(with_scheme.as_str())
        },
    }
}

/// What a fetched page offers: logo and favicon candidates, best first.
pub struct Page {
    pub logos: Vec<Logo>,
    pub favicons: Vec<Logo>,
}

/// Parses a fetched body and collects its candidates: `<img>` logos and
/// `<link>` favicons.
pub fn page_from_body(body: &str) -> (r: Page)
    ensures
        all_plain(r.logos@),
        all_plain(r.favicons@),
{
    let doc = parse_document(body);
    Page { logos: img_tag(&doc), favicons: favicon(&doc) }
}

/// The outcome of resolving one host: a record either way, tagged with
/// whether the host was reached.
pub enum Resolution {
    Found(Site),
    Degraded(Site),
}

pub open spec fn site_of(r: Resolution) -> Site {
    match r {
        Resolution::Found(s) => s,
        Resolution::Degraded(s) => s,
    }
}

pub open spec fn first_of(v: Seq<Logo>) -> Option<Logo> {
    if v.len() > 0 {
        Some(v[0])
    } else {
        None
    }
}

impl Resolution {
    pub fn into_site(self) -> (r: Site)
        ensures
            r == site_of(self),
    {
        match self {
            Resolution::Found(s) => s,
            Resolution::Degraded(s) => s,
        }
    }

    pub fn is_degraded(&self) -> (r: bool)
        ensures
            r == (*self is Degraded),
    {
        match self {
            Resolution::Found(_) => false,
            Resolution::Degraded(_) => true,
        }
    }
}

fn take_first(v: Vec<Logo>) -> (r: Option<Logo>)
    ensures
        r == first_of(v@),
{
    let mut v = v;
    if v.len() > 0 {
        Some(v.remove(0))
    } else {
        None
    }
}

/// The record of a page fetched from `target`.
pub fn site_from_page(target: String, page: Page) -> (r: Site)
    ensures
        r.domain@ == target@,
        r.logo == first_of(page.logos@),
        r.favicon == first_of(page.favicons@),
{
    Site { domain: target, logo: take_first(page.logos), favicon: take_first(page.favicons) }
}

/// Resolves one host. A host that does not parse as a URL, even under
/// `https://`, degrades to a record named by the raw host. Otherwise `fetch`
/// is asked for the normalized URL; a failed fetch degrades to a record
/// named by that URL, and a fetched page gives its first logo and first
/// favicon candidates.
pub fn resolve<F: Fn(&String) -> Option<Page>>(raw: &str, fetch: &F) -> (r: Resolution)
    requires
        forall|t: &String| fetch.requires((t,)),
    ensures
        normalized(raw@) is None ==> r is Degraded && is_bare(site_of(r), raw@),
        (forall|s: &String, p: Option<Page>| #[trigger] fetch.ensures((s,), p) ==> p is None) ==> {
            &&& r is Degraded
            &&& is_bare(site_of(r), match normalized(raw@) {
                Some(t) => t,
                None => raw@,
            })
        },
        normalized(raw@) is Some ==> {
            let t = normalized(raw@).unwrap();
            &&& site_of(r).domain@ == t
            &&& r is Degraded ==> is_bare(site_of(r), t)
                && exists|s: &String| s@ == t && #[trigger] fetch.ensures((s,), None)
            &&& r is Found ==> exists|s: &String, p: Page| s@ == t && #[trigger] fetch.ensures((s,), Some(p))
                && site_of(r).logo == first_of(p.logos@) && site_of(r).favicon == first_of(p.favicons@)
        },
{
    match normalize_url(raw) {
        None => Resolution::Degraded(Site::new(String::from_str(raw))),
        Some(target) => {
            let fetched = fetch(&target);
            match fetched {
                None => Resolution::Degraded(Site::new(target)),
                Some(page) => Resolution::Found(site_from_page(target, page)),
            }
        },
    }
}

} // verus!
