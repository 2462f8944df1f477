//! The texts the built-in commands compute from scraped content before
//! anything is sent: the shop listing, the about blurb, the randomly picked
//! goal and the invite request.

use vstd::prelude::*;

use crate::text::joined;

verus! {

/// The shop listing: for each scraped item, its name, then the site base URL
/// followed by the item's path, then a blank line. Pairs beyond the shorter
/// of the two lists are dropped.
pub open spec fn shop_listing(
    names: Seq<Seq<char>>,
    paths: Seq<Seq<char>>,
    site_url: Seq<char>,
) -> Seq<char>
    decreases names.len(),
{
    if names.len() == 0 || paths.len() == 0 {
        Seq::empty()
    } else {
        names[0] + "\n"@ + site_url + paths[0] + "\n\n"@ + shop_listing(
            names.drop_first(),
            paths.drop_first(),
            site_url,
        )
    }
}

/// Render the shop listing from the scraped item names and paths.
pub fn zip_shop_message(names: &Vec<String>, paths: &Vec<String>, site_url: &str) -> (r: String)
    ensures
        r@ == shop_listing(names.deep_view(), paths.deep_view(), site_url@),
{
    let ghost ns = names.deep_view();
    let ghost ps = paths.deep_view();
    let n = if names.len() < paths.len() {
        names.len()
    } else {
        paths.len()
    };
    // build from the back so the recursion unfolds along the loop
    let mut acc = String::new();
    let mut k: usize = n;
    while k > 0
        invariant
            ns == names.deep_view(),
            ps == paths.deep_view(),
            n <= ns.len() && n <= ps.len(),
            (n == ns.len() || n == ps.len()),
            k <= n,
            acc@ == shop_listing(
                ns.subrange(k as int, ns.len() as int),
                ps.subrange(k as int, ps.len() as int),
                site_url@,
            ),
        decreases k,
    {
        k -= 1;
        let mut piece = names[k].clone();
        piece.append("\n");
        piece.append(site_url);
        piece.append(paths[k].as_str());
        piece.append("\n\n");
        let prev = acc;
        acc = piece.concat(prev.as_str());
        proof {
            let nt = ns.subrange(k as int, ns.len() as int);
            let pt = ps.subrange(k as int, ps.len() as int);
            assert(nt[0] == ns[k as int]);
            assert(pt[0] == ps[k as int]);
            assert(nt.drop_first() =~= ns.subrange(k + 1, ns.len() as int));
            assert(pt.drop_first() =~= ps.subrange(k + 1, ps.len() as int));
            assert(acc@ =~= shop_listing(nt, pt, site_url@));
        }
    }
    proof {
        assert(ns.subrange(0, ns.len() as int) =~= ns);
        assert(ps.subrange(0, ps.len() as int) =~= ps);
    }
    acc
}

/// The about blurb: the first two scraped paragraphs, separated by a blank
/// line.
pub fn about_message(paragraphs: &Vec<String>) -> (r: String)
    requires
        paragraphs@.len() >= 2,
    ensures
        r@ == paragraphs.deep_view()[0] + "\n\n"@ + paragraphs.deep_view()[1],
{
    let mut out = paragraphs[0].clone();
    out.append("\n\n");
    out.append(paragraphs[1].as_str());
    out
}

/// Pick a goal with a drawn number: the draw, reduced modulo the number of
/// goals, indexes the list. No goals, no pick.
pub fn pick_goal(goals: &Vec<String>, draw: usize) -> (r: Option<String>)
    ensures
        goals@.len() == 0 ==> r is None,
        goals@.len() > 0 ==> (r matches Some(g) && g@ == goals.deep_view()[(
        draw as int) % (goals@.len() as int)]),
{
    if goals.len() == 0 {
        None
    } else {
        Some(goals[draw % goals.len()].clone())
    }
}

/// The direct message sent to the owner when someone asks for an invite.
pub fn minecraft_request_message(author: &str) -> (r: String)
    ensures
        r@ == author@ + " has requested an invite to the minecraft server!"@,
{
    String::from_str(author).concat(" has requested an invite to the minecraft server!")
}

} // verus!
