use vstd::prelude::*;

use indexmap::IndexSet;

use crate::value::DynamicValue;

verus! {

#[verifier::external_type_specification]
#[verifier::external_body]
#[verifier::reject_recursive_types(T)]
#[verifier::reject_recursive_types(S)]
pub struct ExIndexSet<T, S>(indexmap::IndexSet<T, S>);

/// The names held by an insertion-ordered set of names.
pub uninterp spec fn set_names(s: IndexSet<String>) -> Set<Seq<char>>;

/// Relies on `IndexSet::new`: a new set holds nothing.
#[verifier::external_body]
fn empty_name_set() -> (r: IndexSet<String>)
    ensures
        set_names(r) == Set::<Seq<char>>::empty(),
{
    IndexSet::new()
}

/// Relies on `IndexSet::contains`: membership, by the string's contents.
#[verifier::external_body]
fn name_set_contains(s: &IndexSet<String>, name: &String) -> (r: bool)
    ensures
        r == set_names(*s).contains(name@),
{
    s.contains(name)
}

/// Relies on `IndexSet::insert`: afterwards the set also holds `name`.
#[verifier::external_body]
fn name_set_insert(s: &mut IndexSet<String>, name: String)
    ensures
        set_names(*final(s)) == set_names(*old(s)).insert(name@),
{
    s.insert(name);
}

/// The views of a sequence of strings.
pub open spec fn views(v: Seq<String>) -> Seq<Seq<char>> {
    v.map_values(|s: String| s@)
}

/// The field names that one element contributes: those of a record, none otherwise.
pub open spec fn names_of(v: DynamicValue) -> Seq<Seq<char>> {
    match v {
        DynamicValue::Record { cols, .. } => views(cols@),
        _ => seq![],
    }
}

/// All field names of the elements, in order, repeats included.
pub open spec fn pooled(vs: Seq<DynamicValue>) -> Seq<Seq<char>>
    decreases vs.len(),
{
    if vs.len() == 0 {
        seq![]
    } else {
        pooled(vs.drop_last()) + names_of(vs.last())
    }
}

/// The non-empty names, each kept at its first occurrence only.
pub open spec fn first_seen(names: Seq<Seq<char>>) -> Seq<Seq<char>>
    decreases names.len(),
{
    if names.len() == 0 {
        seq![]
    } else {
        let prev = first_seen(names.drop_last());
        let n = names.last();
        if n.len() == 0 || prev.contains(n) {
            prev
        } else {
            prev.push(n)
        }
    }
}

/// The unified schema of a list of values.
pub open spec fn unified(vs: Seq<DynamicValue>) -> Seq<Seq<char>> {
    first_seen(pooled(vs))
}

proof fn lemma_push_contains(s: Seq<Seq<char>>, x: Seq<char>, n: Seq<char>)
    ensures
        s.push(x).contains(n) <==> (s.contains(n) || n == x),
{
    if s.contains(n) {
        let k = choose|k: int| 0 <= k < s.len() && s[k] == n;
        assert(s.push(x)[k] == n);
    }
    if n == x {
        assert(s.push(x)[s.len() as int] == x);
    }
    if s.push(x).contains(n) {
        let k = choose|k: int| 0 <= k < s.len() + 1 && s.push(x)[k] == n;
        if k < s.len() {
            assert(s[k] == n);
        }
    }
}

proof fn lemma_first_seen_set(names: Seq<Seq<char>>)
    ensures
        forall|n: Seq<char>|
            first_seen(names).contains(n) <==> (names.contains(n) && n.len() > 0),
    decreases names.len(),
{
    if names.len() > 0 {
        let p = names.drop_last();
        lemma_first_seen_set(p);
        assert(names =~= p.push(names.last()));
        assert forall|n: Seq<char>|
            first_seen(names).contains(n) <==> (names.contains(n) && n.len() > 0) by {
            lemma_push_contains(p, names.last(), n);
            lemma_push_contains(first_seen(p), names.last(), n);
        }
    }
}

/// The non-empty names among `names`, as a set.
pub open spec fn named(names: Seq<Seq<char>>) -> Set<Seq<char>> {
    names.to_set().filter(|n: Seq<char>| n.len() > 0)
}

/// Whether `n` occurs among the first `q` names.
pub open spec fn seen_before(names: Seq<Seq<char>>, n: Seq<char>, q: int) -> bool {
    exists|p: int| 0 <= p < q && #[trigger] names[p] == n
}

proof fn lemma_first_seen_order(names: Seq<Seq<char>>)
    ensures
        first_seen(names).no_duplicates(),
        forall|i: int, j: int, q: int|
            #![trigger first_seen(names)[i], first_seen(names)[j], names[q]]
            0 <= i < j < first_seen(names).len() && 0 <= q < names.len() && names[q]
                == first_seen(names)[j] ==> seen_before(names, first_seen(names)[i], q),
    decreases names.len(),
{
    if names.len() > 0 {
        let pre = names.drop_last();
        let x = names.last();
        lemma_first_seen_order(pre);
        lemma_first_seen_set(pre);
        let u = first_seen(names);
        let up = first_seen(pre);
        assert forall|i: int, j: int, q: int|
            #![trigger u[i], u[j], names[q]]
            0 <= i < j < u.len() && 0 <= q < names.len() && names[q] == u[j] implies seen_before(
                names,
                u[i],
                q,
            ) by {
            if i < up.len() {
                assert(u[i] == up[i]);
                assert(up.contains(up[i]));
                assert(pre.contains(up[i]));
                let p = choose|p: int| 0 <= p < pre.len() && pre[p] == up[i];
                if q == names.len() - 1 {
                    assert(names[p] == u[i]);
                } else {
                    assert(pre[q] == names[q]);
                    if j < up.len() {
                        assert(u[j] == up[j]);
                        assert(pre[q] == up[j]);
                        let p2 = choose|p2: int| 0 <= p2 < q && #[trigger] pre[p2] == up[i];
                        assert(names[p2] == u[i]);
                    } else {
                        assert(u[j] == x);
                        assert(pre.contains(x));
                    }
                }
            }
        }
        if !(x.len() == 0 || up.contains(x)) {
            assert forall|a: int, b: int| 0 <= a < b < u.len() implies u[a] != u[b] by {
                if b == up.len() {
                    assert(up.contains(up[a]));
                }
            }
        }
    }
}

/// The unified schema names each non-empty field name of the pooled records
/// exactly once, so it has as many entries as there are distinct non-empty
/// names, and lists them in the order in which they are first seen: a name
/// listed later never occurs before the first occurrence of one listed earlier.
pub proof fn lemma_unify_first_seen(vs: Seq<DynamicValue>)
    ensures
        unified(vs).no_duplicates(),
        unified(vs).to_set() == named(pooled(vs)),
        unified(vs).len() == named(pooled(vs)).len(),
        forall|i: int, j: int, q: int|
            #![trigger unified(vs)[i], unified(vs)[j], pooled(vs)[q]]
            0 <= i < j < unified(vs).len() && 0 <= q < pooled(vs).len() && pooled(vs)[q]
                == unified(vs)[j] ==> seen_before(pooled(vs), unified(vs)[i], q),
{
    let names = pooled(vs);
    lemma_first_seen_order(names);
    lemma_first_seen_set(names);
    assert(unified(vs).to_set() =~= named(names));
    unified(vs).unique_seq_to_set();
}

/// Merges the field names of the record elements into one ordered list: each
/// non-empty name once, where it first occurs.
pub fn merge_descriptors(values: &Vec<DynamicValue>) -> (r: Vec<String>)
    ensures
        views(r@) == unified(values@),
{
    let mut ret: Vec<String> = Vec::new();
    let mut seen = empty_name_set();
    let mut i: usize = 0;
    while i < values.len()
        invariant
            i <= values@.len(),
            views(ret@) == first_seen(pooled(values@.subrange(0, i as int))),
            forall|n: Seq<char>| set_names(seen).contains(n) <==> views(ret@).contains(n),
        decreases values@.len() - i,
    {
        let ghost before = pooled(values@.subrange(0, i as int));
        assert(values@.subrange(0, i + 1).drop_last() =~= values@.subrange(0, i as int));
        match &values[i] {
            DynamicValue::Record { cols, .. } => {
                let mut j: usize = 0;
                while j < cols.len()
                    invariant
                        j <= cols@.len(),
                        views(ret@) == first_seen(before + views(cols@.subrange(0, j as int))),
                        forall|n: Seq<char>| set_names(seen).contains(n) <==> views(ret@).contains(n),
                    decreases cols@.len() - j,
                {
                    let ghost part = before + views(cols@.subrange(0, j as int));
                    let ghost next = before + views(cols@.subrange(0, j + 1));
                    assert(next.drop_last() =~= part);
                    assert(next.last() == cols@[j as int]@);
                    let desc = &cols[j];
                    proof {
                        lemma_first_seen_set(part);
                    }
                    if !desc.as_str().is_empty() && !name_set_contains(&seen, desc) {
                        let ghost r0 = views(ret@);
                        name_set_insert(&mut seen, desc.clone());
                        ret.push(desc.clone());
                        assert(views(ret@) =~= r0.push(desc@));
                        assert forall|n: Seq<char>|
                            set_names(seen).contains(n) <==> views(ret@).contains(n) by {
                            lemma_push_contains(r0, desc@, n);
                        }
                    }
                    j = j + 1;
                }
                assert(cols@.subrange(0, cols@.len() as int) =~= cols@);
            },
            _ => {},
        }
        assert(pooled(values@.subrange(0, i + 1)) =~= before + names_of(values@[i as int]));
        i = i + 1;
    }
    assert(values@.subrange(0, values@.len() as int) =~= values@);
    ret
}

} // verus!
