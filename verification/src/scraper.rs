//! The page scraper: a declarative structural pattern is matched against a
//! fetched page body, producing one map of named text fields per matched
//! fragment. The matching itself is done by the `easy_scraper` crate behind a
//! trusted wrapper; everything around it — the single-use result slot, the
//! first-match lookup and the deduplicating field gather — is verified.

use vstd::prelude::*;

verus! {

/// Why a scrape failed.
#[derive(Clone, Copy, Debug, PartialEq, Eq, Structural)]
pub enum ScrapeError {
    /// No page body could be fetched.
    NetworkError,
    /// The structural pattern did not parse.
    PatternError,
    /// The result slot of this instance was already populated.
    AlreadySet,
}

/// Whether `easy_scraper` accepts the given pattern text.
pub uninterp spec fn scrape_pattern_ok(pattern: Seq<char>) -> bool;

/// The matches of a pattern in a page body: one sequence of
/// (field name, text) pairs per matched fragment. A function of the two
/// texts alone.
pub uninterp spec fn scrape_matches(pattern: Seq<char>, body: Seq<char>) -> Seq<
    Seq<(Seq<char>, Seq<char>)>,
>;

/// Relies on `easy_scraper::Pattern::new` and `easy_scraper::Pattern::matches`:
/// `new` accepts or rejects the pattern text on its own, and `matches` returns
/// every match of the pattern in the document as a map from placeholder name
/// to matched text; both depend on their text arguments alone. `matches`
/// panics on some pattern texts `new` accepts (a text node with an unclosed
/// second placeholder, or a placeholder beside regex metacharacters), so this
/// wrapper only admits the fixed page patterns of this crate, none of which
/// has such a text node.
#[verifier::external_body]
fn run_pattern(pattern: &str, body: &str) -> (r: Option<Vec<Vec<(String, String)>>>)
    requires
        exists|l: Links| pattern@ == links_pattern(l),
    ensures
        r is Some <==> scrape_pattern_ok(pattern@),
        r matches Some(ns) ==> ns.deep_view() == scrape_matches(pattern@, body@),
{
    match easy_scraper::Pattern::new(pattern) {
        Ok(p) => Some(
            p.matches(body).into_iter().map(|m| m.into_iter().collect()).collect(),
        ),
        Err(_) => None,
    }
}

/// The scraped pages.
#[derive(Clone, Copy, Debug, PartialEq, Eq, Structural)]
pub enum Links {
    About,
    Goals,
    Shop,
}

/// The structural pattern associated with each page.
pub open spec fn links_pattern(l: Links) -> Seq<char> {
    match l {
        Links::About => "\n<div data-block-type=\"2\">\n<p>{{about}}</p>\n</div>\n"@,
        Links::Goals => "\n<li>\n<p>{{goal}}</p>\n</li>"@,
        Links::Shop => "\n<div data-controller=\"ProductListImageLoader\">\n<a href=\"{{shop_url}}\" aria-label=\"{{item_name}}\"></a>\n</div>\n"@,
    }
}

/// The path of each page below the site base URL.
pub open spec fn links_path(l: Links) -> Seq<char> {
    match l {
        Links::About => "/about"@,
        Links::Goals => "/goals"@,
        Links::Shop => "/shop"@,
    }
}

impl Links {
    /// The structural pattern used by the scraper for this page.
    pub fn pattern(&self) -> (r: &'static str)
        ensures
            r@ == links_pattern(*self),
    {
        match self {
            Links::About => "\n<div data-block-type=\"2\">\n<p>{{about}}</p>\n</div>\n",
            Links::Goals => "\n<li>\n<p>{{goal}}</p>\n</li>",
            Links::Shop => "\n<div data-controller=\"ProductListImageLoader\">\n<a href=\"{{shop_url}}\" aria-label=\"{{item_name}}\"></a>\n</div>\n",
        }
    }

    /// The page URL: the site base URL followed by the page path.
    pub fn display(&self, site_url: &str) -> (r: String)
        ensures
            r@ == site_url@ + links_path(*self),
    {
        let path = match self {
            Links::About => "/about",
            Links::Goals => "/goals",
            Links::Shop => "/shop",
        };
        String::from_str(site_url).concat(path)
    }
}

/// The first value of the field named `key` in one fragment.
pub open spec fn node_lookup(node: Seq<(Seq<char>, Seq<char>)>, key: Seq<char>) -> Option<
    Seq<char>,
>
    decreases node.len(),
{
    if node.len() == 0 {
        None
    } else if node[0].0 == key {
        Some(node[0].1)
    } else {
        node_lookup(node.drop_first(), key)
    }
}

/// The first fragment holding the field named `key` gives the value.
pub open spec fn first_value(
    nodes: Seq<Seq<(Seq<char>, Seq<char>)>>,
    key: Seq<char>,
) -> Option<Seq<char>>
    decreases nodes.len(),
{
    if nodes.len() == 0 {
        None
    } else {
        match node_lookup(nodes[0], key) {
            Some(v) => Some(v),
            None => first_value(nodes.drop_first(), key),
        }
    }
}

/// Every value of the field named `key`, in first-seen order, without
/// duplicates.
pub open spec fn gather_values(
    nodes: Seq<Seq<(Seq<char>, Seq<char>)>>,
    key: Seq<char>,
) -> Seq<Seq<char>>
    decreases nodes.len(),
{
    if nodes.len() == 0 {
        Seq::empty()
    } else {
        let rest = gather_values(nodes.drop_last(), key);
        match node_lookup(nodes.last(), key) {
            Some(v) => if rest.contains(v) {
                rest
            } else {
                rest + seq![v]
            },
            None => rest,
        }
    }
}

/// A single-use scraper instance: a page identity and a write-once slot for
/// the matches of one fetch.
#[derive(Debug)]
pub struct SteelCutter {
    page: Links,
    node_tree: Option<Vec<Vec<(String, String)>>>,
}

/// The mathematical value of a scraper instance.
pub struct SteelCutterView {
    pub page: Links,
    pub node_tree: Option<Seq<Seq<(Seq<char>, Seq<char>)>>>,
}

impl View for SteelCutter {
    type V = SteelCutterView;

    closed spec fn view(&self) -> SteelCutterView {
        SteelCutterView { page: self.page, node_tree: self.node_tree.deep_view() }
    }
}

fn node_lookup_exec<'a>(node: &'a Vec<(String, String)>, key: &str) -> (r: Option<&'a String>)
    ensures
        match r {
            Some(s) => node_lookup(node.deep_view(), key@) == Some(s@),
            None => node_lookup(node.deep_view(), key@) is None,
        },
{
    let ghost full = node.deep_view();
    proof {
        assert(full.subrange(0, full.len() as int) =~= full);
    }
    let mut i: usize = 0;
    while i < node.len()
        invariant
            full == node.deep_view(),
            i <= full.len(),
            node_lookup(full, key@) == node_lookup(full.subrange(i as int, full.len() as int), key@),
        decreases full.len() - i,
    {
        let ghost tail = full.subrange(i as int, full.len() as int);
        proof {
            assert(tail[0] == full[i as int]);
            assert(tail.drop_first() =~= full.subrange(i + 1, full.len() as int));
        }
        if crate::text::str_eq(node[i].0.as_str(), key) {
            assert(node_lookup(tail, key@) == Some(full[i as int].1));
            return Some(&node[i].1);
        }
        i += 1;
    }
    proof {
        assert(full.subrange(full.len() as int, full.len() as int) =~= Seq::<
            (Seq<char>, Seq<char>),
        >::empty());
    }
    None
}

fn contains_string(v: &Vec<String>, s: &String) -> (r: bool)
    ensures
        r == v.deep_view().contains(s@),
{
    let mut i: usize = 0;
    while i < v.len()
        invariant
            i <= v@.len(),
            forall|j: int| 0 <= j < i ==> v.deep_view()[j] != s@,
        decreases v@.len() - i,
    {
        if crate::text::str_eq(v[i].as_str(), s.as_str()) {
            assert(v.deep_view()[i as int] == s@);
            return true;
        }
        assert(v.deep_view()[i as int] != s@);
        i += 1;
    }
    false
}

/// What `fetch` does: the instance afterwards and the result. Failures of
/// any kind leave the instance as it was.
pub open spec fn spec_fetch(s: SteelCutterView, body: Option<Seq<char>>) -> (
    SteelCutterView,
    Result<(), ScrapeError>,
) {
    match body {
        None => (s, Err(ScrapeError::NetworkError)),
        Some(b) => if !scrape_pattern_ok(links_pattern(s.page)) {
            (s, Err(ScrapeError::PatternError))
        } else if s.node_tree is Some {
            (s, Err(ScrapeError::AlreadySet))
        } else {
            (
                SteelCutterView {
                    page: s.page,
                    node_tree: Some(scrape_matches(links_pattern(s.page), b)),
                },
                Ok(()),
            )
        },
    }
}

impl SteelCutter {
    /// A fresh instance for the given page; useless until `fetch` succeeds.
    pub fn new(page: Links) -> (r: SteelCutter)
        ensures
            r@.page == page,
            r@.node_tree is None,
    {
        SteelCutter { page, node_tree: None }
    }

    /// The page this instance scrapes.
    pub fn page(&self) -> (r: Links)
        ensures
            r == self@.page,
    {
        self.page
    }

    /// Apply the page's pattern to a fetched body and populate the result
    /// slot. `body` is the page text, or `None` when fetching it failed.
    /// The slot is write-once: a second successful fetch is rejected with
    /// `AlreadySet`, and any failure leaves the instance unchanged.
    pub fn fetch(&mut self, body: Option<&str>) -> (r: Result<(), ScrapeError>)
        ensures
            ({
                let (s2, res) = spec_fetch(old(self)@, body.deep_view());
                final(self)@ == s2 && r == res
            }),
    {
        let b = match body {
            Some(b) => b,
            None => {
                return Err(ScrapeError::NetworkError);
            },
        };
        let pattern = self.page.pattern();
        let nodes = match run_pattern(pattern, b) {
            Some(ns) => ns,
            None => {
                return Err(ScrapeError::PatternError);
            },
        };
        if self.node_tree.is_some() {
            return Err(ScrapeError::AlreadySet);
        }
        self.node_tree = Some(nodes);
        Ok(())
    }

    /// The first occurrence of the field named `key` across the matched
    /// fragments; `None` when unfetched or absent.
    pub fn get_node_val<'a>(&'a self, key: &str) -> (r: Option<&'a str>)
        ensures
            match self@.node_tree {
                None => r is None,
                Some(ns) => match r {
                    Some(s) => first_value(ns, key@) == Some(s@),
                    None => first_value(ns, key@) is None,
                },
            },
    {
        let tree = match &self.node_tree {
            Some(t) => t,
            None => {
                return None;
            },
        };
        let ghost full = tree.deep_view();
        proof {
            assert(self@.node_tree == Some(full));
            assert(full.subrange(0, full.len() as int) =~= full);
        }
        let mut i: usize = 0;
        while i < tree.len()
            invariant
                self@.node_tree == Some(full),
                full == tree.deep_view(),
                i <= full.len(),
                first_value(full, key@) == first_value(
                    full.subrange(i as int, full.len() as int),
                    key@,
                ),
            decreases full.len() - i,
        {
            let ghost tail = full.subrange(i as int, full.len() as int);
            proof {
                assert(tail[0] == full[i as int]);
                assert(tail.drop_first() =~= full.subrange(i + 1, full.len() as int));
            }
            if let Some(v) = node_lookup_exec(&tree[i], key) {
                assert(first_value(tail, key@) == Some(v@));
                return Some(v.as_str());
            }
            i += 1;
        }
        proof {
            assert(full.subrange(full.len() as int, full.len() as int) =~= Seq::<
                Seq<(Seq<char>, Seq<char>)>,
            >::empty());
        }
        None
    }

    /// Every distinct value of the field named `key`, in first-seen order;
    /// `None` when unfetched.
    pub fn get_nodes_vec(&self, key: &str) -> (r: Option<Vec<String>>)
        ensures
            match self@.node_tree {
                None => r is None,
                Some(ns) => r matches Some(vs) && vs.deep_view() == gather_values(ns, key@),
            },
    {
        let tree = match &self.node_tree {
            Some(t) => t,
            None => {
                return None;
            },
        };
        let ghost full = tree.deep_view();
        let mut out: Vec<String> = Vec::new();
        let mut i: usize = 0;
        while i < tree.len()
            invariant
                full == tree.deep_view(),
                i <= full.len(),
                out.deep_view() == gather_values(full.subrange(0, i as int), key@),
            decreases full.len() - i,
        {
            let ghost prefix = full.subrange(0, i as int);
            let ghost next_prefix = full.subrange(0, i + 1 as int);
            proof {
                assert(next_prefix.drop_last() =~= prefix);
                assert(next_prefix.last() == full[i as int]);
            }
            if let Some(v) = node_lookup_exec(&tree[i], key) {
                if !contains_string(&out, v) {
                    out.push(v.clone());
                    assert(out.deep_view() =~= gather_values(prefix, key@) + seq![v@]);
                }
            }
            assert(out.deep_view() =~= gather_values(next_prefix, key@));
            i += 1;
        }
        proof {
            assert(full.subrange(0, full.len() as int) =~= full);
        }
        Some(out)
    }
}

} // verus!
