use vstd::prelude::*;

use crate::text::views;

verus! {

/// Lexicographic order on character sequences, by code point.
pub open spec fn name_less(a: Seq<char>, b: Seq<char>) -> bool
    decreases a.len(),
{
    if a.len() == 0 {
        b.len() > 0
    } else if b.len() == 0 {
        false
    } else if a[0] != b[0] {
        (a[0] as int) < (b[0] as int)
    } else {
        name_less(a.drop_first(), b.drop_first())
    }
}

/// Relies on `<` for `str`: strings are ordered lexicographically by their
/// UTF-8 bytes, and that byte order is the order of their code points.
#[verifier::external_body]
pub(crate) fn precedes(a: &str, b: &str) -> (r: bool)
    ensures
        r == name_less(a@, b@),
{
    a < b
}

pub proof fn lemma_name_less_irreflexive(a: Seq<char>)
    ensures
        !name_less(a, a),
    decreases a.len(),
{
    if a.len() > 0 {
        lemma_name_less_irreflexive(a.drop_first());
    }
}

pub proof fn lemma_name_less_total(a: Seq<char>, b: Seq<char>)
    ensures
        a != b ==> name_less(a, b) || name_less(b, a),
        !(name_less(a, b) && name_less(b, a)),
    decreases a.len(),
{
    if a.len() > 0 && b.len() > 0 {
        lemma_name_less_total(a.drop_first(), b.drop_first());
        if a[0] == b[0] && a != b {
            assert(a =~= seq![a[0]] + a.drop_first());
            assert(b =~= seq![b[0]] + b.drop_first());
        }
        if a[0] != b[0] {
            assert((a[0] as int) != (b[0] as int));
        }
    } else if a.len() == 0 && b.len() == 0 {
        assert(a =~= b);
    }
}

pub proof fn lemma_name_less_trans(a: Seq<char>, b: Seq<char>, c: Seq<char>)
    requires
        name_less(a, b),
        name_less(b, c),
    ensures
        name_less(a, c),
    decreases a.len(),
{
    if a.len() > 0 && b.len() > 0 && c.len() > 0 && a[0] == b[0] && b[0] == c[0] {
        lemma_name_less_trans(a.drop_first(), b.drop_first(), c.drop_first());
    }
}

/// Names in strictly increasing order, hence each once.
pub open spec fn strictly_sorted(v: Seq<Seq<char>>) -> bool {
    forall|i: int, j: int| 0 <= i < j < v.len() ==> name_less(#[trigger] v[i], #[trigger] v[j])
}

/// Adds `name` to the sorted names in `sorted`, unless it is there already.
fn insert_name(sorted: &mut Vec<String>, name: &String)
    requires
        strictly_sorted(views(old(sorted)@)),
    ensures
        strictly_sorted(views(final(sorted)@)),
        views(final(sorted)@).to_set() == views(old(sorted)@).to_set().insert(name@),
{
    let ghost vs = views(sorted@);
    let n = sorted.len();
    let mut pos: usize = 0;
    while pos < n && precedes(sorted[pos].as_str(), name.as_str())
        invariant
            pos <= n,
            n == sorted@.len(),
            vs == views(sorted@),
            forall|j: int| 0 <= j < pos ==> name_less(#[trigger] vs[j], name@),
        decreases n - pos,
    {
        pos = pos + 1;
    }
    assert forall|j: int| pos <= j < n implies !name_less(#[trigger] vs[j], name@) by {
        if j > pos && name_less(vs[j], name@) {
            assert(name_less(vs[pos as int], vs[j]));
            lemma_name_less_trans(vs[pos as int], vs[j], name@);
        }
    }
    if pos < n && sorted[pos] == *name {
        assert(vs.to_set().insert(name@) =~= vs.to_set()) by {
            assert(vs[pos as int] == name@);
        }
        return;
    }
    assert forall|j: int| 0 <= j < n implies #[trigger] vs[j] != name@ by {
        if j < pos {
            lemma_name_less_irreflexive(name@);
        } else if j > pos {
            assert(name_less(vs[pos as int], vs[j]));
            lemma_name_less_total(vs[pos as int], name@);
        }
    }
    sorted.insert(pos, name.clone());
    proof {
        let nv = views(sorted@);
        assert(nv =~= vs.insert(pos as int, name@));
        assert forall|i: int, j: int| 0 <= i < j < nv.len() implies name_less(#[trigger] nv[i], #[trigger] nv[j]) by {
            if j < pos {
            } else if j == pos {
            } else if i < pos {
                if j - 1 > pos {
                    assert(name_less(vs[pos as int], vs[j - 1]));
                }
                lemma_name_less_total(vs[pos as int], name@);
                if j - 1 > pos {
                    lemma_name_less_trans(name@, vs[pos as int], vs[j - 1]);
                }
                lemma_name_less_trans(vs[i], name@, vs[j - 1]);
            } else if i == pos {
                if j - 1 > pos {
                    assert(name_less(vs[pos as int], vs[j - 1]));
                }
                lemma_name_less_total(vs[pos as int], name@);
                if j - 1 > pos {
                    lemma_name_less_trans(name@, vs[pos as int], vs[j - 1]);
                }
            } else {
            }
        }
        assert forall|x: Seq<char>| nv.to_set().contains(x) <==> vs.to_set().insert(name@).contains(x) by {
            if nv.to_set().contains(x) {
                let k = choose|k: int| 0 <= k < nv.len() && nv[k] == x;
                if k < pos {
                    assert(vs[k] == x);
                } else if k > pos {
                    assert(vs[k - 1] == x);
                }
            }
            if vs.to_set().contains(x) {
                let k = choose|k: int| 0 <= k < vs.len() && vs[k] == x;
                if k < pos {
                    assert(nv[k] == x);
                } else {
                    assert(nv[k + 1] == x);
                }
            }
            if x == name@ {
                assert(nv[pos as int] == x);
            }
        }
        assert(nv.to_set() =~= vs.to_set().insert(name@));
    }
}

/// The names in lexical order, each once.
pub fn sorted_names(names: &Vec<String>) -> (r: Vec<String>)
    ensures
        strictly_sorted(views(r@)),
        views(r@).to_set() == views(names@).to_set(),
{
    let mut r: Vec<String> = Vec::new();
    let mut i: usize = 0;
    assert(views(r@).to_set() =~= views(names@).take(0).to_set());
    while i < names.len()
        invariant
            i <= names@.len(),
            strictly_sorted(views(r@)),
            views(r@).to_set() == views(names@).take(i as int).to_set(),
        decreases names@.len() - i,
    {
        insert_name(&mut r, &names[i]);
        proof {
            let t = views(names@).take(i + 1);
            assert(t =~= views(names@).take(i as int).push(names@[i as int]@));
            assert(t.to_set() =~= views(names@).take(i as int).to_set().insert(names@[i as int]@)) by {
                let s0 = views(names@).take(i as int);
                assert forall|x: Seq<char>| t.to_set().contains(x) <==> s0.to_set().insert(names@[i as int]@).contains(x) by {
                    if t.to_set().contains(x) {
                        let k = choose|k: int| 0 <= k < t.len() && t[k] == x;
                        if k < i {
                            assert(s0[k] == x);
                        }
                    }
                    if s0.to_set().contains(x) {
                        let k = choose|k: int| 0 <= k < s0.len() && s0[k] == x;
                        assert(t[k] == x);
                    }
                    if x == names@[i as int]@ {
                        assert(t[i as int] == x);
                    }
                }
            }
        }
        i = i + 1;
    }
    assert(views(names@).take(i as int) =~= views(names@));
    r
}

} // verus!
