//! Expansion of one frontier path: the pure decisions of the
//! fetch-and-expand task, and the construction of child paths from the links
//! found on a page.

use vstd::prelude::*;
use vstd::string::StringExecFns;
use crate::classifier::{is_excluded, is_hitler_url, spec_is_excluded, target_identifier};
use crate::extract::extract_wiki_links;
use crate::extract::wiki_links_of;

verus! {

/// The outcome of one expansion task: either the node was no match (its
/// children, if any, went back onto the frontier), or the path reaching the
/// target was found.
pub enum Expansion {
    Completed,
    Matched(Vec<String>),
}

/// What the expansion of a path must do before any network work: skip a
/// special page, report a match, or fetch one absolute URL.
pub enum FetchPlan {
    Skip,
    Found,
    Fetch(String),
}

/// The children of `parent` given the page's links: one path per link, the
/// parent with that link appended.
pub open spec fn spec_children(parent: Seq<Seq<char>>, links: Seq<Seq<char>>) -> Seq<
    Seq<Seq<char>>,
> {
    Seq::new(links.len(), |i: int| parent.push(links[i]))
}

/// A copy of a path, element for element.
pub fn clone_path(p: &Vec<String>) -> (r: Vec<String>)
    ensures
        r@ == p@,
{
    let mut r: Vec<String> = Vec::new();
    let mut i: usize = 0;
    while i < p.len()
        invariant
            i <= p@.len(),
            r@ =~= p@.subrange(0, i as int),
        decreases p@.len() - i,
    {
        r.push(p[i].clone());
        i += 1;
    }
    proof {
        assert(r@ =~= p@);
    }
    r
}

/// The parent path with one more identifier appended.
pub fn child_path(parent: &Vec<String>, link: &str) -> (r: Vec<String>)
    ensures
        r.deep_view() == parent.deep_view().push(link@),
{
    let mut r = clone_path(parent);
    r.push(String::from_str(link));
    proof {
        assert(r.deep_view() =~= parent.deep_view().push(link@));
    }
    r
}

/// Decides one frontier path before any network work. The path's last
/// identifier is the node under expansion: a special page is skipped, the
/// target is a match (no fetch needed for the terminal node), and anything
/// else is fetched at the site base followed by the identifier.
pub fn plan_expansion(base: &str, path: &Vec<String>) -> (r: FetchPlan)
    requires
        path@.len() > 0,
    ensures
        ({
            let node = path.deep_view().last();
            &&& (r is Skip) <==> spec_is_excluded(node)
            &&& (r is Found) <==> (!spec_is_excluded(node) && node == target_identifier())
            &&& (r is Fetch) <==> (!spec_is_excluded(node) && node != target_identifier())
            &&& (r matches FetchPlan::Fetch(u) ==> u@ == base@ + node)
        }),
{
    let node = &path[path.len() - 1];
    if is_excluded(node.as_str()) {
        return FetchPlan::Skip;
    }
    if is_hitler_url(node.as_str()) {
        return FetchPlan::Found;
    }
    let mut url = String::from_str(base);
    url.append(node.as_str());
    FetchPlan::Fetch(url)
}

/// One child path per extracted link, in the links' order.
pub fn make_children(parent: &Vec<String>, links: &Vec<String>) -> (r: Vec<Vec<String>>)
    ensures
        r.deep_view() == spec_children(parent.deep_view(), links.deep_view()),
{
    let mut r: Vec<Vec<String>> = Vec::new();
    let mut i: usize = 0;
    while i < links.len()
        invariant
            i <= links@.len(),
            r@.len() == i,
            forall|j: int|
                0 <= j < i ==> r.deep_view()[j] == parent.deep_view().push(links.deep_view()[j]),
        decreases links@.len() - i,
    {
        let c = child_path(parent, links[i].as_str());
        let ghost r0 = r@;
        let ghost dv0 = r.deep_view();
        r.push(c);
        proof {
            assert forall|j: int| 0 <= j < i + 1 implies r.deep_view()[j] == parent.deep_view().push(
                links.deep_view()[j],
            ) by {
                assert(r.deep_view()[j] == r@[j].deep_view());
                if j < i {
                    assert(r@[j] == r0[j]);
                    assert(dv0[j] == r0[j].deep_view());
                } else {
                    assert(r@[j] == c);
                    assert(links.deep_view()[j] == links@[j].deep_view());
                }
            }
        }
        i += 1;
    }
    proof {
        assert(r.deep_view() =~= spec_children(parent.deep_view(), links.deep_view()));
    }
    r
}

/// Turns a fetched page body into the children of `path`: one child per
/// internal article link of the body, each the path plus that link.
pub fn expand_fetched(path: &Vec<String>, body: &str) -> (r: Vec<Vec<String>>)
    ensures
        r.deep_view() == spec_children(path.deep_view(), wiki_links_of(body@)),
{
    let links = extract_wiki_links(body);
    make_children(path, &links)
}

} // verus!
