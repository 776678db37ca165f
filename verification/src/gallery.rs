//! The gallery's lists and pages: CG pictures (the adult ones hidden in
//! safe mode) and music tracks (only titled ones once the game is clear).
use vstd::prelude::*;
use crate::strmap::StrMap;
use crate::pak::{lex_lt, lex_lt_exec, lemma_lex_total, lemma_lex_trans};
use crate::text::{chars_of, starts_with_spec, starts_with_str, string_of};

verus! {

/// CG pictures on a gallery page.
pub const CGS_PER_PAGE: usize = 9;
/// Music tracks on a gallery page.
pub const BGMS_PER_PAGE: usize = 12;

/// The names kept by `keep`, in order.
pub open spec fn filter_names(s: Seq<Seq<char>>, keep: spec_fn(Seq<char>) -> bool) -> Seq<Seq<char>>
    decreases s.len(),
{
    if s.len() == 0 {
        Seq::empty()
    } else {
        let rest = filter_names(s.drop_last(), keep);
        if keep(s.last()) { rest.push(s.last()) } else { rest }
    }
}

pub open spec fn names_view(v: Seq<String>) -> Seq<Seq<char>> {
    v.map_values(|s: String| s@)
}

/// Whether a CG picture is shown in the given mode: safe mode hides the
/// pictures whose names start with `hcg`.
pub open spec fn cg_shown(safe_mode: bool) -> spec_fn(Seq<char>) -> bool {
    |f: Seq<char>| !safe_mode || !starts_with_spec(f, "hcg"@)
}

/// The CG pictures the gallery shows, in order.
pub fn filtered_cg_files(cg_files: &[String], safe_mode: bool) -> (r: Vec<String>)
    ensures
        names_view(r@) == filter_names(names_view(cg_files@), cg_shown(safe_mode)),
{
    let mut r: Vec<String> = Vec::new();
    let mut i: usize = 0;
    assert(names_view(cg_files@).subrange(0, 0) =~= Seq::<Seq<char>>::empty());
    assert(names_view(r@) =~= Seq::<Seq<char>>::empty());
    while i < cg_files.len()
        invariant
            i <= cg_files@.len(),
            names_view(r@) == filter_names(names_view(cg_files@).subrange(0, i as int), cg_shown(safe_mode)),
        decreases cg_files@.len() - i,
    {
        let f = &cg_files[i];
        let v = chars_of(f.as_str());
        let ghost pre = names_view(cg_files@).subrange(0, i as int);
        let ghost next = names_view(cg_files@).subrange(0, i + 1);
        assert(next.drop_last() =~= pre);
        assert(next.last() == f@);
        if !safe_mode || !starts_with_str(&v, "hcg") {
            r.push(string_of(&v));
            assert(names_view(r@) =~= filter_names(pre, cg_shown(safe_mode)).push(f@));
        }
        i = i + 1;
    }
    assert(names_view(cg_files@).subrange(0, cg_files@.len() as int) =~= names_view(cg_files@));
    r
}

/// The pages needed for `count` items, `per_page` to a page.
pub open spec fn pages_for(count: int, per_page: int) -> int {
    (count + per_page - 1) / per_page
}

/// The pages of CG pictures.
pub fn cg_total_pages(filtered_count: usize) -> (r: usize)
    requires
        filtered_count + CGS_PER_PAGE <= usize::MAX,
    ensures
        r == pages_for(filtered_count as int, CGS_PER_PAGE as int),
{
    (filtered_count + CGS_PER_PAGE - 1) / CGS_PER_PAGE
}

/// Whether a track is listed: once the game is clear, only titled tracks
/// are.
pub open spec fn bgm_listed(titles: Set<Seq<char>>, clear_mode: bool) -> spec_fn(Seq<char>) -> bool {
    |id: Seq<char>| !clear_mode || titles.contains(id)
}

/// The music tracks the gallery lists, in order; `titles` maps a track to
/// its title.
pub fn filtered_bgm_ids(ids: &Vec<String>, titles: &StrMap<String>, clear_mode: bool) -> (r: Vec<String>)
    requires
        titles.wf(),
    ensures
        names_view(r@) == filter_names(names_view(ids@), bgm_listed(titles.view().dom(), clear_mode)),
{
    let mut r: Vec<String> = Vec::new();
    let mut i: usize = 0;
    let ghost keep = bgm_listed(titles.view().dom(), clear_mode);
    assert(names_view(r@) =~= Seq::<Seq<char>>::empty());
    while i < ids.len()
        invariant
            i <= ids@.len(),
            titles.wf(),
            keep == bgm_listed(titles.view().dom(), clear_mode),
            names_view(r@) == filter_names(names_view(ids@).subrange(0, i as int), keep),
        decreases ids@.len() - i,
    {
        let id = &ids[i];
        let v = chars_of(id.as_str());
        let ghost pre = names_view(ids@).subrange(0, i as int);
        let ghost next = names_view(ids@).subrange(0, i + 1);
        assert(next.drop_last() =~= pre);
        assert(next.last() == id@);
        if !clear_mode || titles.contains_key(&v) {
            r.push(string_of(&v));
            assert(names_view(r@) =~= filter_names(pre, keep).push(id@));
        }
        i = i + 1;
    }
    assert(names_view(ids@).subrange(0, ids@.len() as int) =~= names_view(ids@));
    r
}

proof fn lemma_filter_len(s: Seq<Seq<char>>, keep: spec_fn(Seq<char>) -> bool)
    ensures
        filter_names(s, keep).len() <= s.len(),
    decreases s.len(),
{
    if s.len() > 0 {
        lemma_filter_len(s.drop_last(), keep);
    }
}

/// The pages of music tracks.
pub fn bgm_total_pages(ids: &Vec<String>, titles: &StrMap<String>, clear_mode: bool) -> (r: usize)
    requires
        titles.wf(),
        ids@.len() + BGMS_PER_PAGE <= usize::MAX,
    ensures
        r == pages_for(filter_names(names_view(ids@), bgm_listed(titles.view().dom(), clear_mode)).len() as int, BGMS_PER_PAGE as int),
{
    let listed = filtered_bgm_ids(ids, titles, clear_mode);
    proof {
        lemma_filter_len(names_view(ids@), bgm_listed(titles.view().dom(), clear_mode));
    }
    (listed.len() + BGMS_PER_PAGE - 1) / BGMS_PER_PAGE
}

/// The pages are just enough for the items: every item has a page, and no
/// page is left empty.
pub proof fn law_pages_fit(count: int, per_page: int)
    requires
        count >= 0,
        per_page > 0,
    ensures
        pages_for(count, per_page) * per_page >= count,
        pages_for(count, per_page) == 0 || (pages_for(count, per_page) - 1) * per_page < count,
{
    let p = pages_for(count, per_page);
    assert(p * per_page >= count && (p == 0 || (p - 1) * per_page < count)) by (nonlinear_arith)
        requires
            count >= 0,
            per_page > 0,
            p == (count + per_page - 1) / per_page,
    ;
}

proof fn lemma_contains_push(a: Seq<Seq<char>>, y: Seq<char>, x: Seq<char>)
    ensures
        a.push(y).contains(x) <==> (a.contains(x) || y == x),
{
    if a.contains(x) {
        let i = choose|i: int| 0 <= i < a.len() && a[i] == x;
        assert(a.push(y)[i] == x);
    }
    if y == x {
        assert(a.push(y)[a.len() as int] == x);
    }
    if a.push(y).contains(x) {
        let i = choose|i: int| 0 <= i < a.push(y).len() && a.push(y)[i] == x;
        if i < a.len() {
            assert(a[i] == x);
        }
    }
}

proof fn lemma_filter_keeps(s: Seq<Seq<char>>, keep: spec_fn(Seq<char>) -> bool, x: Seq<char>)
    ensures
        filter_names(s, keep).contains(x) <==> (s.contains(x) && keep(x)),
    decreases s.len(),
{
    if s.len() > 0 {
        let t = s.drop_last();
        let l = s.last();
        lemma_filter_keeps(t, keep, x);
        assert(t.push(l) =~= s);
        lemma_contains_push(t, l, x);
        lemma_contains_push(filter_names(t, keep), l, x);
    }
}

/// Safe mode hides exactly the pictures whose names start with `hcg`: a
/// picture is shown if and only if it is in the list and is not one of
/// them.
pub proof fn law_safe_mode_hides_adult_pictures(files: Seq<Seq<char>>, f: Seq<char>)
    ensures
        filter_names(files, cg_shown(true)).contains(f) <==> (files.contains(f) && !starts_with_spec(f, "hcg"@)),
        filter_names(files, cg_shown(false)) == files,
{
    lemma_filter_keeps(files, cg_shown(true), f);
    lemma_filter_all(files);
}

proof fn lemma_filter_all(s: Seq<Seq<char>>)
    ensures
        filter_names(s, cg_shown(false)) == s,
    decreases s.len(),
{
    if s.len() > 0 {
        lemma_filter_all(s.drop_last());
        assert(s.drop_last().push(s.last()) =~= s);
    }
}

/// The gallery page after the arrow keys and page buttons of one frame,
/// all counted from the page shown: a later input overrides an earlier one
/// (left key, right key, left button, right button).  Going left from the
/// first page wraps to the last, going right from the last to the first.
pub open spec fn gallery_page_spec(page: int, total: int, left_key: bool, right_key: bool, left_button: bool, right_button: bool) -> int {
    let left = if page == 0 { if total > 0 { total - 1 } else { 0 } } else { page - 1 };
    let right = (page + 1) % (if total > 1 { total } else { 1 });
    if right_button {
        right
    } else if left_button {
        left
    } else if right_key {
        right
    } else if left_key {
        left
    } else {
        page
    }
}

/// Turns the gallery page.
pub fn gallery_page_nav(page: usize, total_pages: usize, left_key: bool, right_key: bool, left_button: bool, right_button: bool) -> (r: usize)
    requires
        page < usize::MAX,
    ensures
        r == gallery_page_spec(page as int, total_pages as int, left_key, right_key, left_button, right_button),
{
    let mut new_page = page;
    let left = if page == 0 { total_pages.saturating_sub(1) } else { page - 1 };
    let max = if total_pages > 1 { total_pages } else { 1 };
    let right = (page + 1) % max;
    if left_key {
        new_page = left;
    }
    if right_key {
        new_page = right;
    }
    if left_button {
        new_page = left;
    }
    if right_button {
        new_page = right;
    }
    new_page
}

/// A page shown stays a page of the gallery, whatever is pressed.
pub proof fn law_gallery_page_stays_in_range(page: int, total: int, left_key: bool, right_key: bool, left_button: bool, right_button: bool)
    requires
        0 <= page < total,
    ensures
        0 <= gallery_page_spec(page, total, left_key, right_key, left_button, right_button) < total,
{
    let m = if total > 1 { total } else { 1 };
    assert(0 <= (page + 1) % m < m) by (nonlinear_arith)
        requires m >= 1;
}

/// The page buttons turn pages as the arrow keys do: the right button alone
/// shows the next page, wrapping from the last to the first, and the left
/// button alone the previous one, wrapping from the first to the last; a
/// turn to the right then one to the left comes back to the same page.
pub proof fn law_gallery_buttons_turn_pages(page: int, total: int)
    ensures
        gallery_page_spec(page, total, false, false, false, true) == (page + 1) % (if total > 1 { total } else { 1 }),
        gallery_page_spec(page, total, false, false, false, true) == gallery_page_spec(page, total, false, true, false, false),
        gallery_page_spec(page, total, false, false, true, false) == gallery_page_spec(page, total, true, false, false, false),
        0 <= page && page + 1 < total ==> gallery_page_spec(page, total, false, false, false, true) == page + 1,
        0 < page < total ==> gallery_page_spec(page, total, false, false, true, false) == page - 1,
        0 < total ==> gallery_page_spec(0, total, false, false, true, false) == total - 1,
        0 < total ==> gallery_page_spec(total - 1, total, false, false, false, true) == 0,
        0 <= page < total ==> gallery_page_spec(
            gallery_page_spec(page, total, false, false, false, true), total, false, false, true, false) == page,
{
    if 0 <= page && page + 1 < total {
        assert((page + 1) % total == page + 1) by (nonlinear_arith)
            requires 0 <= page + 1 < total;
    }
    if 0 < total {
        let m = if total > 1 { total } else { 1 };
        assert(total % m == 0) by (nonlinear_arith)
            requires m >= 1, total == m || (total == 1 && m == 1);
    }
}

/// The label of a route's chapter, by its number.
pub fn chapter_label(index: u32) -> (r: &'static str)
    ensures
        r@ == (if index == 1 { "Chapter 1"@ } else if index == 2 { "Chapter 2"@ }
            else if index == 3 || index == 5 { "Chapter 3"@ } else if index == 4 { "Chapter 4"@ }
            else if index == 6 { "Chapter 5"@ } else { ""@ }),
{
    if index == 1 {
        "Chapter 1"
    } else if index == 2 {
        "Chapter 2"
    } else if index == 3 || index == 5 {
        "Chapter 3"
    } else if index == 4 {
        "Chapter 4"
    } else if index == 6 {
        "Chapter 5"
    } else {
        ""
    }
}

/// Names in lexicographic order.
pub open spec fn sorted_names(v: Seq<Seq<char>>) -> bool {
    forall|i: int, j: int| 0 <= i < j < v.len() ==> !lex_lt(#[trigger] v[j], #[trigger] v[i])
}

/// Every CG picture of the game, in order of name.
pub struct AllCgFiles(pub Vec<String>);

impl AllCgFiles {
    /// The pictures found, sorted by name.
    pub fn scan(files: Vec<String>) -> (r: AllCgFiles)
        ensures
            sorted_names(names_view(r.0@)),
            names_view(r.0@).to_multiset() == names_view(files@).to_multiset(),
    {
        broadcast use vstd::seq_lib::group_to_multiset_ensures;
        let mut r: Vec<String> = Vec::new();
        let mut i: usize = 0;
        assert(names_view(files@).subrange(0, 0) =~= Seq::<Seq<char>>::empty());
        assert(names_view(r@) =~= Seq::<Seq<char>>::empty());
        while i < files.len()
            invariant
                i <= files@.len(),
                sorted_names(names_view(r@)),
                names_view(r@).to_multiset() == names_view(files@).subrange(0, i as int).to_multiset(),
            decreases files@.len() - i,
        {
            let x = chars_of(files[i].as_str());
            let ghost rv = names_view(r@);
            let mut p: usize = 0;
            while p < r.len() && !lex_lt_exec(&x, &chars_of(r[p].as_str()))
                invariant
                    p <= r@.len(),
                    rv == names_view(r@),
                    forall|k: int| 0 <= k < p ==> !lex_lt(x@, #[trigger] rv[k]),
                decreases r@.len() - p,
            {
                p = p + 1;
            }
            r.insert(p, string_of(&x));
            proof {
                let nv = names_view(r@);
                assert(nv =~= rv.insert(p as int, x@));
                assert forall|a: int, b: int| 0 <= a < b < nv.len() implies !lex_lt(#[trigger] nv[b], #[trigger] nv[a]) by {
                    if b < p {
                        assert(nv[a] == rv[a] && nv[b] == rv[b]);
                    } else if b == p {
                        assert(nv[a] == rv[a] && nv[b] == x@);
                        lemma_lex_total(x@, rv[a]);
                    } else if a == p {
                        assert(nv[b] == rv[b - 1]);
                        assert(lex_lt(x@, rv[p as int]));
                        if b - 1 > p {
                            assert(!lex_lt(rv[b - 1], rv[p as int]));
                            lemma_lex_total(rv[p as int], rv[b - 1]);
                            if rv[p as int] != rv[b - 1] {
                                lemma_lex_trans(x@, rv[p as int], rv[b - 1]);
                            }
                        }
                        lemma_lex_total(x@, rv[b - 1]);
                    } else if a < p {
                        assert(nv[a] == rv[a] && nv[b] == rv[b - 1]);
                    } else {
                        assert(nv[a] == rv[a - 1] && nv[b] == rv[b - 1]);
                    }
                }
                let pre = names_view(files@).subrange(0, i as int);
                assert(names_view(files@).subrange(0, i + 1) =~= pre.push(x@));
                vstd::seq_lib::to_multiset_insert(rv, p as int, x@);
                vstd::seq_lib::to_multiset_build(pre, x@);
            }
            i = i + 1;
        }
        assert(names_view(files@).subrange(0, files@.len() as int) =~= names_view(files@));
        AllCgFiles(r)
    }
}

} // verus!
