//! Heuristic element matching: a CSS selector picks candidate elements, and a
//! candidate is kept when one of the listed attributes, on it or on one of
//! its ancestors, contains one of the target substrings.
use vstd::prelude::*;

verus! {

#[verifier::external_type_specification]
#[verifier::external_body]
pub struct ExSelector(scraper::Selector);

#[verifier::external_type_specification]
#[verifier::external_body]
pub struct ExHtml(scraper::Html);

#[verifier::external_type_specification]
#[verifier::external_body]
pub struct ExElementRef<'a>(scraper::ElementRef<'a>);

/// Relies on `scraper::Html::parse_document`, which parses any text.
#[verifier::external_body]
pub(crate) fn parse_document(body: &str) -> scraper::Html {
    scraper::Html::parse_document(body)
}

/// Relies on `scraper::Html::select`: the elements that match `selector`,
/// in document order.
#[verifier::external_body]
pub(crate) fn select_elements<'a>(doc: &'a scraper::Html, selector: &scraper::Selector) -> Vec<scraper::ElementRef<'a>> {
    doc.select(selector).collect()
}

/// Relies on `scraper::ElementRef::attr`: the element's value of `name`.
#[verifier::external_body]
pub(crate) fn element_attr(e: &scraper::ElementRef, name: &str) -> Option<String> {
    e.attr(name).map(|v| v.to_string())
}

/// Relies on `ego_tree::NodeRef::parent` and `scraper::ElementRef::wrap`:
/// the parent node when it is an element.
#[verifier::external_body]
fn parent_element<'a>(e: &scraper::ElementRef<'a>) -> Option<scraper::ElementRef<'a>> {
    e.parent().and_then(scraper::ElementRef::wrap)
}

/// Relies on `ego_tree::NodeRef::ancestors`: how many nodes stand above the
/// element, which bounds the walk up through its parents.
#[verifier::external_body]
fn ancestor_count(e: &scraper::ElementRef) -> usize {
    e.ancestors().count()
}

/// Whether `s` is a selector group that scraper's CSS parser accepts.
pub uninterp spec fn selector_accepts(s: Seq<char>) -> bool;

/// Relies on `scraper::Selector::parse`: a selector when the text parses as
/// a CSS selector group, which depends on the text alone.
#[verifier::external_body]
pub(crate) fn parse_selector(s: &str) -> (r: Option<scraper::Selector>)
    ensures
        r is Some == selector_accepts(s@),
{
    scraper::Selector::parse(s).ok()
}

/// `t` occurs in `s` as a contiguous run.
pub open spec fn has_substring(s: Seq<char>, t: Seq<char>) -> bool {
    exists|i: int| 0 <= i && i + t.len() <= s.len() && #[trigger] s.subrange(i, i + t.len()) == t
}

/// Relies on `str::contains` with a string pattern: whether `t` occurs in `s`.
#[verifier::external_body]
fn str_contains(s: &str, t: &str) -> (r: bool)
    ensures
        r == has_substring(s@, t@),
{
    s.contains(t)
}

pub open spec fn texts(v: Seq<String>) -> Seq<Seq<char>> {
    v.map_values(|s: String| s@)
}

pub open spec fn opt_texts(v: Seq<Option<String>>) -> Seq<Option<Seq<char>>> {
    v.map_values(|o: Option<String>|
        match o {
            Some(s) => Some(s@),
            None => None,
        }
    )
}

/// Some present value contains some target.
pub open spec fn values_match(values: Seq<Option<Seq<char>>>, targets: Seq<Seq<char>>) -> bool {
    exists|i: int, j: int|
        0 <= i < values.len() && 0 <= j < targets.len() && (#[trigger] values[i]) is Some
            && has_substring(values[i].unwrap(), #[trigger] targets[j])
}

/// An element matches when its own attribute values, or those of one of its
/// ancestors, match.
pub open spec fn element_matches(
    own: Seq<Option<Seq<char>>>,
    ancestors: Seq<Seq<Option<Seq<char>>>>,
    targets: Seq<Seq<char>>,
) -> bool {
    values_match(own, targets) || exists|a: int| 0 <= a < ancestors.len() && values_match(#[trigger] ancestors[a], targets)
}

/// A matcher whose selector has been parsed.
pub struct Matcher {
    selector: scraper::Selector,
    targets: Vec<String>,
    attrs: Vec<String>,
}

/// Collects a selector, attribute names and target substrings.
pub struct MatcherBuilder {
    selector: String,
    targets: Vec<String>,
    attrs: Vec<String>,
}

impl MatcherBuilder {
    pub closed spec fn selector_text(&self) -> Seq<char> {
        self.selector@
    }

    pub closed spec fn targets(&self) -> Seq<Seq<char>> {
        texts(self.targets@)
    }

    pub closed spec fn attrs(&self) -> Seq<Seq<char>> {
        texts(self.attrs@)
    }

    pub fn new() -> (r: MatcherBuilder)
        ensures
            r.selector_text() == Seq::<char>::empty(),
            r.targets() == Seq::<Seq<char>>::empty(),
            r.attrs() == Seq::<Seq<char>>::empty(),
    {
        let r = MatcherBuilder { selector: String::new(), targets: Vec::new(), attrs: Vec::new() };
        assert(r.targets() =~= Seq::<Seq<char>>::empty());
        assert(r.attrs() =~= Seq::<Seq<char>>::empty());
        r
    }

    /// Sets the selector, replacing any earlier one.
    pub fn select(self, selector: &str) -> (r: MatcherBuilder)
        ensures
            r.selector_text() == selector@,
            r.targets() == self.targets(),
            r.attrs() == self.attrs(),
    {
        MatcherBuilder { selector: String::from_str(selector), targets: self.targets, attrs: self.attrs }
    }

    /// Adds an attribute to inspect.
    pub fn attr(self, attr: &str) -> (r: MatcherBuilder)
        ensures
            r.selector_text() == self.selector_text(),
            r.targets() == self.targets(),
            r.attrs() == self.attrs().push(attr@),
    {
        let mut attrs = self.attrs;
        attrs.push(String::from_str(attr));
        let r = MatcherBuilder { selector: self.selector, targets: self.targets, attrs };
        assert(r.attrs() =~= self.attrs().push(attr@));
        r
    }

    /// Adds a substring to look for.
    pub fn contains(self, target: &str) -> (r: MatcherBuilder)
        ensures
            r.selector_text() == self.selector_text(),
            r.targets() == self.targets().push(target@),
            r.attrs() == self.attrs(),
    {
        let mut targets = self.targets;
        targets.push(String::from_str(target));
        let r = MatcherBuilder { selector: self.selector, targets, attrs: self.attrs };
        assert(r.targets() =~= self.targets().push(target@));
        r
    }

    /// Parses the selector; nothing when it is not a valid selector group.
    pub fn build(self) -> (r: Option<Matcher>)
        ensures
            r is Some == selector_accepts(self.selector_text()),
            r is Some ==> r->Some_0.targets() == self.targets() && r->Some_0.attrs() == self.attrs(),
    {
        match parse_selector(self.selector.as_str()) {
            Some(selector) => Some(Matcher { selector, targets: self.targets, attrs: self.attrs }),
            None => None,
        }
    }
}

impl Matcher {
    pub closed spec fn targets(&self) -> Seq<Seq<char>> {
        texts(self.targets@)
    }

    pub closed spec fn attrs(&self) -> Seq<Seq<char>> {
        texts(self.attrs@)
    }

    pub fn selector(&self) -> &scraper::Selector {
        &self.selector
    }

    pub fn attr_names(&self) -> (r: &Vec<String>)
        ensures
            texts(r@) == self.attrs(),
    {
        &self.attrs
    }

    /// The element's values of the listed attributes, in order.
    fn values_of(&self, e: &scraper::ElementRef) -> (r: Vec<Option<String>>)
        ensures
            r.len() == self.attrs().len(),
    {
        let mut r: Vec<Option<String>> = Vec::new();
        let mut i: usize = 0;
        while i < self.attrs.len()
            invariant
                i <= self.attrs.len(),
                r.len() == i,
            decreases self.attrs.len() - i,
        {
            r.push(element_attr(e, self.attrs[i].as_str()));
            i = i + 1;
        }
        r
    }

    /// The listed attributes' values on each element above `e`, nearest
    /// first.
    fn ancestor_values(&self, e: &scraper::ElementRef) -> (r: Vec<Vec<Option<String>>>)
        ensures
            forall|a: int| 0 <= a < r.len() ==> (#[trigger] r@[a]).len() == self.attrs().len(),
    {
        let mut r: Vec<Vec<Option<String>>> = Vec::new();
        let mut fuel: usize = ancestor_count(e);
        let mut current = parent_element(e);
        while fuel > 0
            invariant
                forall|a: int| 0 <= a < r.len() ==> (#[trigger] r@[a]).len() == self.attrs().len(),
            decreases fuel,
        {
            match current {
                Some(p) => {
                    r.push(self.values_of(&p));
                    current = parent_element(&p);
                },
                None => {
                    return r;
                },
            }
            fuel = fuel - 1;
        }
        r
    }

    /// The selected elements of `doc` that match, in document order.
    pub fn matches<'a>(&self, doc: &'a scraper::Html) -> (r: Vec<scraper::ElementRef<'a>>) {
        let selected = select_elements(doc, &self.selector);
        let mut r: Vec<scraper::ElementRef<'a>> = Vec::new();
        let mut i: usize = 0;
        while i < selected.len()
            invariant
                i <= selected.len(),
            decreases selected.len() - i,
        {
            let e = &selected[i];
            let own = self.values_of(e);
            let ancestors = self.ancestor_values(e);
            if self.element_matches(&own, &ancestors) {
                r.push(*e);
            }
            i = i + 1;
        }
        r
    }

    /// Whether some present value contains some target. `values[i]` is the
    /// element's value of the `i`-th attribute, if it has that attribute.
    pub fn attr_matches(&self, values: &Vec<Option<String>>) -> (r: bool)
        ensures
            r == values_match(opt_texts(values@), self.targets()),
    {
        let ghost vs = opt_texts(values@);
        let ghost ts = self.targets();
        let mut i: usize = 0;
        while i < values.len()
            invariant
                i <= values.len(),
                vs == opt_texts(values@),
                ts == self.targets(),
                forall|a: int, b: int| 0 <= a < i && 0 <= b < ts.len() && (#[trigger] vs[a]) is Some
                    ==> !has_substring(vs[a].unwrap(), #[trigger] ts[b]),
            decreases values.len() - i,
        {
            match &values[i] {
                Some(value) => {
                    let mut j: usize = 0;
                    while j < self.targets.len()
                        invariant
                            i < values.len(),
                            j <= self.targets.len(),
                            values@[i as int] == Some(*value),
                            vs == opt_texts(values@),
                            ts == self.targets(),
                            forall|b: int| 0 <= b < j ==> !has_substring(value@, #[trigger] ts[b]),
                        decreases self.targets.len() - j,
                    {
                        if str_contains(value.as_str(), self.targets[j].as_str()) {
                            assert(vs[i as int] is Some && has_substring(vs[i as int].unwrap(), ts[j as int]));
                            return true;
                        }
                        j = j + 1;
                    }
                },
                None => {},
            }
            i = i + 1;
        }
        false
    }

    /// The matching rule for one selected element: `own` holds its values of
    /// the listed attributes, and `ancestors` those of each element above it.
    pub fn element_matches(&self, own: &Vec<Option<String>>, ancestors: &Vec<Vec<Option<String>>>) -> (r: bool)
        ensures
            r == element_matches(
                opt_texts(own@),
                ancestors@.map_values(|v: Vec<Option<String>>| opt_texts(v@)),
                self.targets(),
            ),
    {
        let ghost anc = ancestors@.map_values(|v: Vec<Option<String>>| opt_texts(v@));
        if self.attr_matches(own) {
            return true;
        }
        let mut a: usize = 0;
        while a < ancestors.len()
            invariant
                a <= ancestors.len(),
                anc == ancestors@.map_values(|v: Vec<Option<String>>| opt_texts(v@)),
                forall|b: int| 0 <= b < a ==> !values_match(#[trigger] anc[b], self.targets()),
            decreases ancestors.len() - a,
        {
            if self.attr_matches(&ancestors[a]) {
                assert(values_match(anc[a as int], self.targets()));
                return true;
            }
            a = a + 1;
        }
        false
    }
}

} // verus!
