//! Picking logo and favicon candidates out of what a page's elements carry.
use vstd::prelude::*;

use crate::matcher::{element_attr, opt_texts, parse_selector, select_elements, MatcherBuilder};
use crate::{Logo, LogoView};

verus! {

pub open spec fn is_digit(c: char) -> bool {
    '0' <= c && c <= '9'
}

/// The number that a run of decimal digits denotes.
pub open spec fn digits_value(s: Seq<char>) -> int
    decreases s.len(),
{
    if s.len() == 0 {
        0
    } else {
        digits_value(s.drop_last()) * 10 + (s.last() as u32 - '0' as u32)
    }
}

/// `s` without one leading `+`.
pub open spec fn unsigned_digits(s: Seq<char>) -> Seq<char> {
    if s.len() > 0 && s[0] == '+' {
        s.drop_first()
    } else {
        s
    }
}

/// The `u64` that `s` spells: an optional `+` and at least one decimal digit,
/// with nothing around them, of a value that fits.
pub open spec fn u64_text(s: Seq<char>) -> Option<u64> {
    let d = unsigned_digits(s);
    if d.len() > 0 && (forall|i: int| 0 <= i < d.len() ==> is_digit(#[trigger] d[i])) && digits_value(d) <= u64::MAX {
        Some(digits_value(d) as u64)
    } else {
        None
    }
}

/// Relies on `<u64 as FromStr>::from_str`, which accepts an optional `+`
/// followed by decimal digits, rejects anything else (whitespace included)
/// and rejects values that overflow.
#[verifier::external_body]
fn parse_u64(s: &str) -> (r: Option<u64>)
    ensures
        r == u64_text(s@),
{
    s.parse::<u64>().ok()
}

pub open spec fn pair_texts(pairs: Seq<(String, String)>) -> Seq<(Seq<char>, Seq<char>)> {
    pairs.map_values(|p: (String, String)| (p.0@, p.1@))
}

pub open spec fn plain_logo(url: Seq<char>) -> LogoView {
    LogoView { url, mime: None, width: None, height: None }
}

/// One `og:image*` property: `og:image` starts a new logo, and the width and
/// height properties apply to the latest one; anything else is ignored.
pub open spec fn og_step(
    state: (Seq<LogoView>, Option<LogoView>),
    pair: (Seq<char>, Seq<char>),
) -> (Seq<LogoView>, Option<LogoView>) {
    let (done, current) = state;
    let (property, content) = pair;
    if property == "og:image"@ {
        (
            if current is Some { done.push(current.unwrap()) } else { done },
            Some(plain_logo(content)),
        )
    } else if property == "og:image:width"@ {
        (done, match current {
            Some(l) => Some(LogoView { width: u64_text(content), ..l }),
            None => None,
        })
    } else if property == "og:image:height"@ {
        (done, match current {
            Some(l) => Some(LogoView { height: u64_text(content), ..l }),
            None => None,
        })
    } else {
        state
    }
}

pub open spec fn og_state(pairs: Seq<(Seq<char>, Seq<char>)>) -> (Seq<LogoView>, Option<LogoView>)
    decreases pairs.len(),
{
    if pairs.len() == 0 {
        (Seq::empty(), None)
    } else {
        og_step(og_state(pairs.drop_last()), pairs.last())
    }
}

/// The logos that a page's `og:image*` properties describe, in order.
pub open spec fn og_logos(pairs: Seq<(Seq<char>, Seq<char>)>) -> Seq<LogoView> {
    let (done, current) = og_state(pairs);
    if current is Some { done.push(current.unwrap()) } else { done }
}

pub open spec fn logo_views(v: Seq<Logo>) -> Seq<LogoView> {
    v.map_values(|l: Logo| l@)
}

/// Open Graph logos from a page's `(property, content)` pairs, in document
/// order; extra metadata goes to the last `og:image` seen.
pub fn og_image_from_pairs(pairs: &Vec<(String, String)>) -> (r: Vec<Logo>)
    ensures
        logo_views(r@) == og_logos(pair_texts(pairs@)),
{
    let image = String::from_str("og:image");
    let width = String::from_str("og:image:width");
    let height = String::from_str("og:image:height");
    let mut logos: Vec<Logo> = Vec::new();
    let mut current: Option<Logo> = None;
    let mut i: usize = 0;
    while i < pairs.len()
        invariant
            i <= pairs.len(),
            image@ == "og:image"@,
            width@ == "og:image:width"@,
            height@ == "og:image:height"@,
            (logo_views(logos@), match current {
                Some(l) => Some(l@),
                None => None,
            }) == og_state(pair_texts(pairs@).subrange(0, i as int)),
        decreases pairs.len() - i,
    {
        let ghost pre = pair_texts(pairs@).subrange(0, i as int);
        let ghost views0 = logo_views(logos@);
        let property = &pairs[i].0;
        let content = &pairs[i].1;
        if *property == image {
            match current {
                Some(l) => {
                    logos.push(l);
                    assert(logo_views(logos@) =~= views0.push(l@));
                },
                None => {},
            }
            current = Some(Logo::new(content.clone()));
        } else if *property == width {
            match current {
                Some(l) => {
                    current = Some(Logo { width: parse_u64(content.as_str()), ..l });
                },
                None => {},
            }
        } else if *property == height {
            match current {
                Some(l) => {
                    current = Some(Logo { height: parse_u64(content.as_str()), ..l });
                },
                None => {},
            }
        }
        proof {
            assert(pair_texts(pairs@).subrange(0, i as int + 1).drop_last() =~= pre);
        }
        i = i + 1;
    }
    proof {
        assert(pair_texts(pairs@).subrange(0, pairs.len() as int) =~= pair_texts(pairs@));
    }
    match current {
        Some(l) => {
            let ghost views0 = logo_views(logos@);
            logos.push(l);
            assert(logo_views(logos@) =~= views0.push(l@));
        },
        None => {},
    }
    logos
}

/// The values that are present, in order.
pub open spec fn present(values: Seq<Option<Seq<char>>>) -> Seq<Seq<char>>
    decreases values.len(),
{
    if values.len() == 0 {
        Seq::empty()
    } else {
        let rest = present(values.drop_last());
        match values.last() {
            Some(v) => rest.push(v),
            None => rest,
        }
    }
}

/// A plain logo for each matched element that carries the URL attribute:
/// `urls[i]` is the `i`-th element's value of it, in document order.
pub fn logos_from(urls: Vec<Option<String>>) -> (r: Vec<Logo>)
    ensures
        logo_views(r@) == present(opt_texts(urls@)).map_values(|u: Seq<char>| plain_logo(u)),
        all_plain(r@),
{
    let mut r: Vec<Logo> = Vec::new();
    let mut i: usize = 0;
    while i < urls.len()
        invariant
            i <= urls.len(),
            logo_views(r@) == present(opt_texts(urls@).subrange(0, i as int)).map_values(|u: Seq<char>| plain_logo(u)),
            all_plain(r@),
        decreases urls.len() - i,
    {
        let ghost views0 = logo_views(r@);
        let ghost pre = opt_texts(urls@).subrange(0, i as int);
        assert(opt_texts(urls@).subrange(0, i as int + 1).drop_last() =~= pre);
        match &urls[i] {
            Some(u) => {
                r.push(Logo::new(u.clone()));
                assert(logo_views(r@) =~= views0.push(plain_logo(u@)));
                assert(present(opt_texts(urls@).subrange(0, i as int + 1)) == present(pre).push(u@));
                assert(present(pre).push(u@).map_values(|u: Seq<char>| plain_logo(u)) =~= present(pre).map_values(|u: Seq<char>| plain_logo(u)).push(plain_logo(u@)));
            },
            None => {},
        }
        i = i + 1;
    }
    assert(opt_texts(urls@).subrange(0, urls.len() as int) =~= opt_texts(urls@));
    r
}

pub open spec fn all_plain(v: Seq<Logo>) -> bool {
    forall|i: int| 0 <= i < v.len() ==> (#[trigger] v[i]).mime is None && v[i].width is None && v[i].height is None
}

/// The values of `attr` on the elements that `builder` matches in `doc`, as
/// plain logos; nothing when its selector does not parse.
fn matched_logos(doc: &scraper::Html, builder: MatcherBuilder, attr: &str) -> (r: Vec<Logo>)
    ensures
        all_plain(r@),
{
    match builder.build() {
        None => Vec::new(),
        Some(matcher) => {
            let elements = matcher.matches(doc);
            let mut urls: Vec<Option<String>> = Vec::new();
            let mut i: usize = 0;
            while i < elements.len()
                invariant
                    i <= elements.len(),
                decreases elements.len() - i,
            {
                urls.push(element_attr(&elements[i], attr));
                i = i + 1;
            }
            logos_from(urls)
        },
    }
}

/// Logo candidates: `<img>` tags whose id, class, src or alt, or those of an
/// element above them, contain "logo" or "brand"; the image's src each.
pub fn img_tag(doc: &scraper::Html) -> (r: Vec<Logo>)
    ensures
        all_plain(r@),
{
    let builder = MatcherBuilder::new()
        .select("img")
        .attr("id")
        .attr("class")
        .attr("src")
        .attr("alt")
        .contains("logo")
        .contains("brand");
    matched_logos(doc, builder, "src")
}

/// Favicon candidates: `<link>` tags whose rel contains "icon"; the href
/// each.
pub fn favicon(doc: &scraper::Html) -> (r: Vec<Logo>)
    ensures
        all_plain(r@),
{
    let builder = MatcherBuilder::new().select("link").attr("rel").contains("icon");
    matched_logos(doc, builder, "href")
}

/// Logo candidates from Open Graph `<meta property="og:image*">` tags that
/// carry both a property and a content.
pub fn og_image(doc: &scraper::Html) -> Vec<Logo> {
    match parse_selector("meta[property^='og:image']") {
        None => Vec::new(),
        Some(selector) => {
            let elements = select_elements(doc, &selector);
            let mut pairs: Vec<(String, String)> = Vec::new();
            let mut i: usize = 0;
            while i < elements.len()
                invariant
                    i <= elements.len(),
                decreases elements.len() - i,
            {
                let property = element_attr(&elements[i], "property");
                let content = element_attr(&elements[i], "content");
                match (property, content) {
                    (Some(p), Some(c)) => pairs.push((p, c)),
                    _ => {},
                }
                i = i + 1;
            }
            og_image_from_pairs(&pairs)
        },
    }
}

/// Tries each query in turn and gives the first non-empty result, or
/// nothing when every query comes back empty.
pub fn choice<F: Fn(&scraper::Html) -> Vec<Logo>>(doc: &scraper::Html, queries: &Vec<F>) -> (r: Vec<Logo>)
    requires
        forall|i: int| 0 <= i < queries.len() ==> (#[trigger] queries@[i]).requires((doc,)),
    ensures
        r.len() > 0 ==> exists|i: int| 0 <= i < queries.len() && (#[trigger] queries@[i]).ensures((doc,), r),
        queries.len() == 0 ==> r.len() == 0,
{
    let mut i: usize = 0;
    while i < queries.len()
        invariant
            i <= queries.len(),
            forall|i: int| 0 <= i < queries.len() ==> (#[trigger] queries@[i]).requires((doc,)),
        decreases queries.len() - i,
    {
        let logos = (queries[i])(doc);
        if logos.len() != 0 {
            return logos;
        }
        i = i + 1;
    }
    Vec::new()
}

} // verus!
