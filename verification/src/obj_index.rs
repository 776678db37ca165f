//! The index of object pictures: each picture's name (its file stem) maps
//! to a path under the game's data, the first in order where several
//! pictures share a name.
use vstd::prelude::*;
use crate::pak::{lex_lt, lex_lt_exec, lemma_lex_total, lemma_lex_trans};
use crate::strmap::StrMap;
use crate::text::{chars_of, string_of};

verus! {

pub open spec fn pairs_view(v: Seq<(String, String)>) -> Seq<(Seq<char>, Seq<char>)> {
    v.map_values(|p: (String, String)| (p.0@, p.1@))
}

/// An index is right for the pairs `(stem, path)`: it holds every stem,
/// and for each the least of its paths in lexicographic order.
pub open spec fn obj_index_ok(es: Seq<(Seq<char>, Seq<char>)>, m: Map<Seq<char>, Seq<char>>) -> bool {
    &&& forall|s: Seq<char>| m.dom().contains(s) <==> exists|i: int| 0 <= i < es.len() && (#[trigger] es[i]).0 == s
    &&& forall|s: Seq<char>| #[trigger] m.dom().contains(s) ==> exists|i: int| 0 <= i < es.len() && #[trigger] es[i] == (s, m[s])
    &&& forall|i: int| 0 <= i < es.len() && m.dom().contains((#[trigger] es[i]).0) ==> !lex_lt(es[i].1, m[es[i].0])
}

pub open spec fn values_view(m: Map<Seq<char>, String>) -> Map<Seq<char>, Seq<char>> {
    m.map_values(|v: String| v@)
}

/// Builds the object index from the pictures found, as `(stem, path)`
/// pairs: each stem maps to the least of its paths.
pub fn build_obj_index(entries: &Vec<(String, String)>) -> (m: StrMap<String>)
    ensures
        m.wf(),
        obj_index_ok(pairs_view(entries@), values_view(m.view())),
{
    let ghost es = pairs_view(entries@);
    let mut m: StrMap<String> = StrMap::new();
    let mut i: usize = 0;
    assert(values_view(m.view()) =~= Map::<Seq<char>, Seq<char>>::empty());
    while i < entries.len()
        invariant
            i <= entries@.len(),
            es == pairs_view(entries@),
            m.wf(),
            obj_index_ok(es.subrange(0, i as int), values_view(m.view())),
        decreases entries@.len() - i,
    {
        let stem = chars_of(entries[i].0.as_str());
        let rel = chars_of(entries[i].1.as_str());
        let ghost pre = es.subrange(0, i as int);
        let ghost next = es.subrange(0, i + 1);
        let ghost mv = values_view(m.view());
        assert(next == pre.push((stem@, rel@)));
        let replace = match m.get(&stem) {
            None => true,
            Some(cur) => {
                let c = chars_of(cur.as_str());
                lex_lt_exec(&rel, &c)
            },
        };
        if replace {
            m.insert(&stem, string_of(&rel));
            assert(values_view(m.view()) =~= mv.insert(stem@, rel@));
        }
        proof {
            let nv = values_view(m.view());
            assert forall|s: Seq<char>| nv.dom().contains(s) <==> exists|j: int| 0 <= j < next.len() && (#[trigger] next[j]).0 == s by {
                if nv.dom().contains(s) && s != stem@ {
                    let j = choose|j: int| 0 <= j < pre.len() && (#[trigger] pre[j]).0 == s;
                    assert(next[j] == pre[j]);
                }
                if nv.dom().contains(s) && s == stem@ {
                    assert(next[i as int].0 == s);
                }
                if exists|j: int| 0 <= j < next.len() && (#[trigger] next[j]).0 == s {
                    let j = choose|j: int| 0 <= j < next.len() && (#[trigger] next[j]).0 == s;
                    if j < i {
                        assert(pre[j] == next[j]);
                    }
                }
            }
            assert forall|s: Seq<char>| #[trigger] nv.dom().contains(s) implies exists|j: int| 0 <= j < next.len() && #[trigger] next[j] == (s, nv[s]) by {
                if replace && s == stem@ {
                    assert(next[i as int] == (s, nv[s]));
                } else {
                    let j = choose|j: int| 0 <= j < pre.len() && #[trigger] pre[j] == (s, mv[s]);
                    assert(next[j] == pre[j]);
                }
            }
            assert forall|j: int| 0 <= j < next.len() && nv.dom().contains((#[trigger] next[j]).0) implies !lex_lt(next[j].1, nv[next[j].0]) by {
                let s = next[j].0;
                if j < i {
                    assert(next[j] == pre[j]);
                    if replace && s == stem@ {
                        // The earlier path was no less than the old least one,
                        // which is greater than the new one.
                        assert(mv.dom().contains(pre[j].0));
                        if lex_lt(pre[j].1, rel@) {
                            lemma_lex_trans(pre[j].1, rel@, mv[s]);
                        }
                    }
                } else {
                    assert(next[j] == (stem@, rel@));
                    if replace {
                        lemma_lex_total(rel@, rel@);
                    } else {
                        assert(mv.dom().contains(stem@));
                        lemma_lex_total(rel@, mv[stem@]);
                    }
                }
            }
        }
        i = i + 1;
    }
    assert(es.subrange(0, entries@.len() as int) =~= es);
    m
}

} // verus!
