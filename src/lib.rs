//! Brand metadata (logo and favicon) for a list of hosts, resolved under
//! three interchangeable execution strategies.
use vstd::prelude::*;

pub mod csv_writer;
pub mod driver;
pub mod finder;
pub mod matcher;
pub mod query;
pub mod worker;

verus! {

/// One resolved image reference: a logo or a favicon.
#[derive(PartialEq, Debug)]
pub struct Logo {
    pub url: String,
    pub mime: Option<String>,
    pub width: Option<u64>,
    pub height: Option<u64>,
}

/// The metadata record of one host.
#[derive(PartialEq, Debug)]
pub struct Site {
    pub domain: String,
    pub logo: Option<Logo>,
    pub favicon: Option<Logo>,
}

/// A logo with its text fields as sequences of characters.
pub struct LogoView {
    pub url: Seq<char>,
    pub mime: Option<Seq<char>>,
    pub width: Option<u64>,
    pub height: Option<u64>,
}

impl View for Logo {
    type V = LogoView;

    open spec fn view(&self) -> LogoView {
        LogoView {
            url: self.url@,
            mime: match self.mime {
                Some(m) => Some(m@),
                None => None,
            },
            width: self.width,
            height: self.height,
        }
    }
}

/// The text that stands for an image in a record line: its URL, or `null`.
pub open spec fn field_text(l: Option<Logo>) -> Seq<char> {
    match l {
        Some(logo) => logo.url@,
        None => "null"@,
    }
}

/// A record as one line of three comma-separated fields.
pub open spec fn csv_line(s: Site) -> Seq<char> {
    s.domain@ + ", "@ + field_text(s.logo) + ", "@ + field_text(s.favicon)
}

/// A record that carries no image: what a host degrades to when it cannot
/// be parsed, fetched or searched.
pub open spec fn is_bare(s: Site, domain: Seq<char>) -> bool {
    &&& s.domain@ == domain
    &&& s.logo is None
    &&& s.favicon is None
}

impl Logo {
    pub fn new(url: String) -> (r: Logo)
        ensures
            r.url@ == url@,
            r.mime is None,
            r.width is None,
            r.height is None,
    {
        Logo { url, mime: None, width: None, height: None }
    }
}

fn field_str(l: &Option<Logo>) -> (r: &str)
    ensures
        r@ == field_text(*l),
{
    match l {
        Some(logo) => logo.url.as_str(),
        None => "null",
    }
}

impl Site {
    pub fn new(domain: String) -> (r: Site)
        ensures
            is_bare(r, domain@),
    {
        Site { domain, logo: None, favicon: None }
    }

    pub fn to_csv(&self) -> (r: String)
        ensures
            r@ == csv_line(*self),
    {
        let mut r = self.domain.clone();
        r.append(", ");
        r.append(field_str(&self.logo));
        r.append(", ");
        r.append(field_str(&self.favicon));
        r
    }
}

} // verus!
