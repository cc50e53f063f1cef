//! The list of sites to probe, read from the text of the sites file.
use vstd::prelude::*;
use crate::text::{
    chars_of, lemma_lines_pieces, lines, split_on, split_range, string_of_range, strip_cr, trim,
    trim_bounds,
};

verus! {

/// A trimmed line names a site when it is not empty and is not a `#` comment.
pub open spec fn is_site_line(l: Seq<char>) -> bool {
    l.len() > 0 && l[0] != '#'
}

/// The trimmed lines of `ls` that name a site, in order.
pub open spec fn site_lines(ls: Seq<Seq<char>>) -> Seq<Seq<char>>
    decreases ls.len(),
{
    if ls.len() == 0 {
        Seq::empty()
    } else {
        let r = site_lines(ls.drop_last());
        let t = trim(ls.last());
        if is_site_line(t) {
            r.push(t)
        } else {
            r
        }
    }
}

/// The sites listed in the text of a sites file: each line trimmed, blank
/// lines and lines starting with `#` left out.
pub open spec fn sites_in(content: Seq<char>) -> Seq<Seq<char>> {
    site_lines(lines(content))
}

/// Reads the site URLs from the text of a sites file, stripping blank lines
/// and `#` comments. An unreadable file is read as empty text.
pub fn load_sites(content: &str) -> (sites: Vec<String>)
    ensures
        sites.deep_view() == sites_in(content@),
{
    let v = chars_of(content);
    let pieces = split_range(&v, 0, v.len(), '\n');
    assert(v@.subrange(0, v@.len() as int) == content@);
    proof {
        lemma_lines_pieces(content@);
    }
    let ghost all = split_on(content@, '\n');
    let ghost ended = all.drop_last().map_values(|p: Seq<char>| strip_cr(p));
    let mut sites: Vec<String> = Vec::new();
    let mut k: usize = 0;
    while k + 1 < pieces.len()
        invariant
            pieces.deep_view() == all,
            all.len() > 0,
            ended == all.drop_last().map_values(|p: Seq<char>| strip_cr(p)),
            k < pieces@.len(),
            sites.deep_view() == site_lines(ended.take(k as int)),
        decreases pieces.len() - k,
    {
        let w = chars_of(pieces[k].as_str());
        assert(w@ == all[k as int]);
        let end = if w.len() > 0 && w[w.len() - 1] == '\r' { w.len() - 1 } else { w.len() };
        assert(w@.subrange(0, end as int) == strip_cr(w@));
        let (a, b) = trim_bounds(&w, 0, end);
        assert(ended.take(k + 1).drop_last() == ended.take(k as int));
        assert(ended.take(k + 1).last() == strip_cr(w@));
        if a < b && w[a] != '#' {
            let site = string_of_range(&w, a, b);
            sites.push(site);
            proof {
                assert(sites.deep_view() == site_lines(ended.take(k as int)).push(site@));
            }
        }
        k = k + 1;
    }
    assert(ended.take(k as int) == ended);
    let w = chars_of(pieces[k].as_str());
    assert(w@ == all.last());
    if w.len() > 0 {
        let (a, b) = trim_bounds(&w, 0, w.len());
        assert(w@.subrange(0, w@.len() as int) == w@);
        assert(ended.push(w@).drop_last() == ended);
        if a < b && w[a] != '#' {
            let site = string_of_range(&w, a, b);
            sites.push(site);
            proof {
                assert(sites.deep_view() == site_lines(ended).push(site@));
            }
        }
    }
    sites
}

} // verus!
