//! In-memory model of a proxy-core configuration document: a YAML-like tree
//! of scalars, lists and string-keyed dictionaries, with insertion order kept.

use vstd::prelude::*;

verus! {

broadcast use vstd::std_specs::vec::axiom_vec_index_decreases, vstd::std_specs::vec::axiom_vec_decreases_to_view, vstd::seq::axiom_seq_index_decreases;

/// Mathematical value of a document node: scalars, sequences of nodes, and
/// association sequences of (key, node) pairs in document order.
pub enum NodeV {
    Null,
    Bool(bool),
    Int(int),
    Str(Seq<char>),
    List(Seq<NodeV>),
    Dict(Seq<(Seq<char>, NodeV)>),
}

/// The entries of a dictionary value: keys and values in document order.
pub type DictV = Seq<(Seq<char>, NodeV)>;

/// One entry of a dictionary node.
#[derive(Debug, PartialEq, Eq)]
pub struct Entry {
    pub key: String,
    pub val: Node,
}

/// A YAML-like document node. Dictionary entries keep their insertion order,
/// as the proxy core's configuration file format does.
#[derive(Debug, PartialEq, Eq)]
pub enum Node {
    Null,
    Bool(bool),
    Int(i64),
    Str(String),
    List(Vec<Node>),
    Dict(Vec<Entry>),
}

impl Node {
    /// The mathematical value of this node.
    pub open spec fn v(self) -> NodeV
        decreases self,
    {
        match self {
            Node::Null => NodeV::Null,
            Node::Bool(b) => NodeV::Bool(b),
            Node::Int(i) => NodeV::Int(i as int),
            Node::Str(s) => NodeV::Str(s@),
            Node::List(items) => NodeV::List(view_nodes(items@)),
            Node::Dict(es) => NodeV::Dict(view_entries(es@)),
        }
    }
}

/// Values of a sequence of nodes, in order.
pub open spec fn view_nodes(s: Seq<Node>) -> Seq<NodeV>
    decreases s,
{
    if s.len() == 0 {
        Seq::empty()
    } else {
        seq![s[0].v()] + view_nodes(s.drop_first())
    }
}

/// (key, value) pairs of a sequence of dictionary entries, in order.
pub open spec fn view_entries(s: Seq<Entry>) -> DictV
    decreases s,
{
    if s.len() == 0 {
        Seq::empty()
    } else {
        seq![(s[0].key@, s[0].val.v())] + view_entries(s.drop_first())
    }
}

/// `view_nodes` maps the sequence pointwise.
pub proof fn lemma_view_nodes(s: Seq<Node>)
    ensures
        view_nodes(s).len() == s.len(),
        forall|i: int| 0 <= i < s.len() ==> #[trigger] view_nodes(s)[i] == s[i].v(),
    decreases s,
{
    if s.len() > 0 {
        lemma_view_nodes(s.drop_first());
        assert forall|i: int| 0 <= i < s.len() implies #[trigger] view_nodes(s)[i] == s[i].v() by {
            if i > 0 {
                assert(s.drop_first()[i - 1] == s[i]);
            }
        }
    }
}

/// `view_entries` maps the sequence pointwise.
pub proof fn lemma_view_entries(s: Seq<Entry>)
    ensures
        view_entries(s).len() == s.len(),
        forall|i: int| 0 <= i < s.len() ==> #[trigger] view_entries(s)[i] == (s[i].key@, s[i].val.v()),
    decreases s,
{
    if s.len() > 0 {
        lemma_view_entries(s.drop_first());
        assert forall|i: int| 0 <= i < s.len() implies #[trigger] view_entries(s)[i] == (
        s[i].key@,
        s[i].val.v(),
        ) by {
            if i > 0 {
                assert(s.drop_first()[i - 1] == s[i]);
            }
        }
    }
}

/// Whether some entry carries the key.
pub open spec fn has_key(es: DictV, k: Seq<char>) -> bool {
    exists|i: int| 0 <= i < es.len() && (#[trigger] es[i]).0 == k
}

/// An index of an entry carrying the key, meaningful when `has_key`.
pub open spec fn idx_of(es: DictV, k: Seq<char>) -> int {
    choose|i: int| 0 <= i < es.len() && (#[trigger] es[i]).0 == k
}

/// The value under the key, meaningful when `has_key`.
pub open spec fn lookup(es: DictV, k: Seq<char>) -> NodeV {
    es[idx_of(es, k)].1
}

/// No two entries carry the same key.
pub open spec fn uniq_keys(es: DictV) -> bool {
    forall|i: int, j: int| 0 <= i < j < es.len() ==> (#[trigger] es[i]).0 != (#[trigger] es[j]).0
}

/// Overwrite the value under the key in place, or append the pair at the end
/// when the key is absent.
pub open spec fn set_key(es: DictV, k: Seq<char>, v: NodeV) -> DictV {
    if has_key(es, k) {
        es.update(idx_of(es, k), (k, v))
    } else {
        es.push((k, v))
    }
}

/// Drop the entry carrying the key, keeping the order of the others; the
/// sequence is unchanged when the key is absent.
pub open spec fn remove_key(es: DictV, k: Seq<char>) -> DictV {
    if has_key(es, k) {
        es.remove(idx_of(es, k))
    } else {
        es
    }
}

/// Drop any entry carrying the key, then append the pair at the end.
pub open spec fn replace_at_end(es: DictV, k: Seq<char>, v: NodeV) -> DictV {
    remove_key(es, k).push((k, v))
}

/// The chosen index is a real occurrence of the key; under unique keys it is
/// the only one.
pub proof fn lemma_idx_of(es: DictV, k: Seq<char>)
    requires
        has_key(es, k),
    ensures
        0 <= idx_of(es, k) < es.len(),
        es[idx_of(es, k)].0 == k,
        uniq_keys(es) ==> forall|i: int| 0 <= i < es.len() && (#[trigger] es[i]).0 == k ==> i
            == idx_of(es, k),
{
    let i = choose|i: int| 0 <= i < es.len() && (#[trigger] es[i]).0 == k;
    assert(es[i].0 == k);
}

/// What `set_key` does: the key now maps to the value, every other key is
/// untouched, and key uniqueness is preserved.
pub proof fn lemma_set_key(es: DictV, k: Seq<char>, v: NodeV)
    requires
        uniq_keys(es),
    ensures
        uniq_keys(set_key(es, k, v)),
        has_key(set_key(es, k, v), k),
        lookup(set_key(es, k, v), k) == v,
        forall|k2: Seq<char>| k2 != k ==> #[trigger] has_key(set_key(es, k, v), k2) == has_key(
            es,
            k2,
        ),
        forall|k2: Seq<char>| k2 != k && has_key(es, k2) ==> #[trigger] lookup(set_key(es, k, v), k2)
            == lookup(es, k2),
{
    let s2 = set_key(es, k, v);
    if has_key(es, k) {
        lemma_idx_of(es, k);
    }
    assert forall|k2: Seq<char>| k2 != k implies #[trigger] has_key(s2, k2) == has_key(es, k2) by {
        if has_key(es, k2) {
            let i = idx_of(es, k2);
            lemma_idx_of(es, k2);
            assert(s2[i].0 == k2);
        }
        if has_key(s2, k2) {
            let i = idx_of(s2, k2);
            lemma_idx_of(s2, k2);
            assert(es[i].0 == k2);
        }
    }
    assert(has_key(s2, k)) by {
        if has_key(es, k) {
            assert(s2[idx_of(es, k)].0 == k);
        } else {
            assert(s2[es.len() as int].0 == k);
        }
    }
    assert(uniq_keys(s2) && lookup(s2, k) == v) by {
        lemma_idx_of(s2, k);
        if has_key(es, k) {
            let i = idx_of(es, k);
            assert forall|a: int, b: int| 0 <= a < b < s2.len() implies (#[trigger] s2[a]).0 != (
            #[trigger] s2[b]).0 by {
                assert(es[a].0 == s2[a].0 || a == i);
                assert(es[b].0 == s2[b].0 || b == i);
            }
            assert(s2[i].0 == k && s2[i].1 == v);
        } else {
            let n = es.len() as int;
            assert forall|a: int, b: int| 0 <= a < b < s2.len() implies (#[trigger] s2[a]).0 != (
            #[trigger] s2[b]).0 by {
                if b < n {
                    assert(es[a].0 != es[b].0);
                } else {
                    assert(s2[b].0 == k && s2[a].0 == es[a].0);
                    assert(!has_key(es, k));
                    assert(es[a].0 != k);
                }
            }
            assert(s2[n].0 == k && s2[n].1 == v);
        }
    }
    assert forall|k2: Seq<char>| k2 != k && has_key(es, k2) implies #[trigger] lookup(s2, k2)
        == lookup(es, k2) by {
        lemma_idx_of(es, k2);
        let i = idx_of(es, k2);
        assert(s2[i].0 == k2 && s2[i].1 == es[i].1);
        lemma_idx_of(s2, k2);
    }
}

/// What `remove_key` does: the key is gone, every other key is untouched, and
/// key uniqueness is preserved.
pub proof fn lemma_remove_key(es: DictV, k: Seq<char>)
    requires
        uniq_keys(es),
    ensures
        uniq_keys(remove_key(es, k)),
        !has_key(remove_key(es, k), k),
        forall|k2: Seq<char>| k2 != k ==> #[trigger] has_key(remove_key(es, k), k2) == has_key(
            es,
            k2,
        ),
        forall|k2: Seq<char>| k2 != k && has_key(es, k2) ==> #[trigger] lookup(remove_key(es, k), k2)
            == lookup(es, k2),
{
    let s2 = remove_key(es, k);
    if !has_key(es, k) {
        assert(s2 == es);
        assert(!has_key(s2, k));
    } else {
        lemma_idx_of(es, k);
        let r = idx_of(es, k);
        assert forall|i: int| 0 <= i < s2.len() implies #[trigger] s2[i] == (if i < r {
            es[i]
        } else {
            es[i + 1]
        }) by {}
        assert forall|a: int, b: int| 0 <= a < b < s2.len() implies (#[trigger] s2[a]).0 != (
        #[trigger] s2[b]).0 by {}
        assert(!has_key(s2, k)) by {
            if has_key(s2, k) {
                let i = idx_of(s2, k);
                lemma_idx_of(s2, k);
                if i < r {
                    assert(es[i].0 == k);
                } else {
                    assert(es[i + 1].0 == k);
                }
            }
        }
        assert forall|k2: Seq<char>| k2 != k implies #[trigger] has_key(s2, k2) == has_key(
            es,
            k2,
        ) by {
            if has_key(es, k2) {
                let i = idx_of(es, k2);
                lemma_idx_of(es, k2);
                if i < r {
                    assert(s2[i].0 == k2);
                } else {
                    assert(i > r);
                    assert(s2[i - 1].0 == k2);
                }
            }
            if has_key(s2, k2) {
                let i = idx_of(s2, k2);
                lemma_idx_of(s2, k2);
                if i < r {
                    assert(es[i].0 == k2);
                } else {
                    assert(es[i + 1].0 == k2);
                }
            }
        }
        assert forall|k2: Seq<char>| k2 != k && has_key(es, k2) implies #[trigger] lookup(s2, k2)
            == lookup(es, k2) by {
            let i = idx_of(es, k2);
            lemma_idx_of(es, k2);
            let i2: int = if i < r {
                i
            } else {
                i - 1
            };
            assert(s2[i2].0 == k2 && s2[i2].1 == es[i].1);
            lemma_idx_of(s2, k2);
        }
    }
}

/// What `replace_at_end` does: the key now maps to the value, exactly once,
/// every other key is untouched, and key uniqueness is preserved.
pub proof fn lemma_replace_at_end(es: DictV, k: Seq<char>, v: NodeV)
    requires
        uniq_keys(es),
    ensures
        uniq_keys(replace_at_end(es, k, v)),
        has_key(replace_at_end(es, k, v), k),
        lookup(replace_at_end(es, k, v), k) == v,
        forall|k2: Seq<char>| k2 != k ==> #[trigger] has_key(replace_at_end(es, k, v), k2)
            == has_key(es, k2),
        forall|k2: Seq<char>| k2 != k && has_key(es, k2) ==> #[trigger] lookup(
            replace_at_end(es, k, v),
            k2,
        ) == lookup(es, k2),
{
    lemma_remove_key(es, k);
    let s1 = remove_key(es, k);
    let s2 = replace_at_end(es, k, v);
    let n = s1.len() as int;
    assert(s2[n] == (k, v));
    assert forall|a: int, b: int| 0 <= a < b < s2.len() implies (#[trigger] s2[a]).0 != (
    #[trigger] s2[b]).0 by {
        if b < n {
            assert(s1[a].0 != s1[b].0);
        } else {
            assert(s2[b].0 == k);
            assert(s2[a] == s1[a]);
            if s1[a].0 == k {
                assert(has_key(s1, k));
            }
        }
    }
    assert(has_key(s2, k) && lookup(s2, k) == v) by {
        assert(s2[n].0 == k);
        lemma_idx_of(s2, k);
    }
    assert forall|k2: Seq<char>| k2 != k implies #[trigger] has_key(s2, k2) == has_key(es, k2) by {
        if has_key(s1, k2) {
            let i = idx_of(s1, k2);
            lemma_idx_of(s1, k2);
            assert(s2[i].0 == k2);
        }
        if has_key(s2, k2) {
            let i = idx_of(s2, k2);
            lemma_idx_of(s2, k2);
            assert(i < n);
            assert(s1[i].0 == k2);
        }
    }
    assert forall|k2: Seq<char>| k2 != k && has_key(es, k2) implies #[trigger] lookup(s2, k2)
        == lookup(es, k2) by {
        let i = idx_of(s1, k2);
        lemma_idx_of(s1, k2);
        assert(s2[i].0 == k2 && s2[i].1 == s1[i].1);
        lemma_idx_of(s2, k2);
    }
}

/// Find the first entry carrying the key.
pub fn dict_find(es: &Vec<Entry>, key: &str) -> (r: Option<usize>)
    ensures
        match r {
            Some(i) => i < es@.len() && es@[i as int].key@ == key@ && (forall|j: int|
                0 <= j < i ==> (#[trigger] es@[j]).key@ != key@),
            None => forall|j: int| 0 <= j < es@.len() ==> (#[trigger] es@[j]).key@ != key@,
        },
{
    let k = String::from_str(key);
    let mut i: usize = 0;
    while i < es.len()
        invariant
            i <= es@.len(),
            k@ == key@,
            forall|j: int| 0 <= j < i ==> (#[trigger] es@[j]).key@ != key@,
        decreases es@.len() - i,
    {
        if es[i].key == k {
            return Some(i);
        }
        i = i + 1;
    }
    None
}

/// Whether the key occurs, as seen through the dictionary's value.
pub fn dict_has_key(es: &Vec<Entry>, key: &str) -> (r: bool)
    ensures
        r == has_key(view_entries(es@), key@),
{
    proof {
        lemma_view_entries(es@);
    }
    let r = dict_find(es, key);
    proof {
        if r is Some {
            let i = r->0;
            assert(view_entries(es@)[i as int].0 == key@);
        }
        if has_key(view_entries(es@), key@) {
            let i = idx_of(view_entries(es@), key@);
            lemma_idx_of(view_entries(es@), key@);
            assert(es@[i].key@ == key@);
        }
    }
    r.is_some()
}

/// Borrow the value under the key.
pub fn dict_get<'a>(es: &'a Vec<Entry>, key: &str) -> (r: Option<&'a Node>)
    requires
        uniq_keys(view_entries(es@)),
    ensures
        match r {
            Some(n) => has_key(view_entries(es@), key@) && n.v() == lookup(view_entries(es@), key@),
            None => !has_key(view_entries(es@), key@),
        },
{
    proof {
        lemma_view_entries(es@);
    }
    match dict_find(es, key) {
        Some(i) => {
            proof {
                let ev = view_entries(es@);
                assert(ev[i as int].0 == key@);
                lemma_idx_of(ev, key@);
            }
            Some(&es[i].val)
        },
        None => {
            proof {
                let ev = view_entries(es@);
                if has_key(ev, key@) {
                    let i = idx_of(ev, key@);
                    lemma_idx_of(ev, key@);
                    assert(es@[i].key@ == key@);
                }
            }
            None
        },
    }
}

/// Overwrite the value under the key in place, or append the entry when the
/// key is absent.
pub fn dict_set(es: &mut Vec<Entry>, key: &str, val: Node)
    requires
        uniq_keys(view_entries(old(es)@)),
    ensures
        view_entries(final(es)@) == set_key(view_entries(old(es)@), key@, val.v()),
{
    let ghost ev = view_entries(old(es)@);
    proof {
        lemma_view_entries(old(es)@);
    }
    match dict_find(es, key) {
        Some(i) => {
            proof {
                assert(ev[i as int].0 == key@);
                lemma_idx_of(ev, key@);
            }
            es.remove(i);
            es.insert(i, Entry { key: String::from_str(key), val });
            proof {
                lemma_view_entries(es@);
                assert(view_entries(es@) =~= ev.update(i as int, (key@, val.v())));
            }
        },
        None => {
            es.push(Entry { key: String::from_str(key), val });
            proof {
                if has_key(ev, key@) {
                    let i = idx_of(ev, key@);
                    lemma_idx_of(ev, key@);
                    assert(old(es)@[i].key@ == key@);
                }
                lemma_view_entries(es@);
                assert(view_entries(es@) =~= ev.push((key@, val.v())));
            }
        },
    }
}

/// Drop the entry carrying the key, if any, keeping the order of the others.
pub fn dict_remove(es: &mut Vec<Entry>, key: &str)
    requires
        uniq_keys(view_entries(old(es)@)),
    ensures
        view_entries(final(es)@) == remove_key(view_entries(old(es)@), key@),
{
    let ghost ev = view_entries(old(es)@);
    proof {
        lemma_view_entries(old(es)@);
    }
    match dict_find(es, key) {
        Some(i) => {
            proof {
                assert(ev[i as int].0 == key@);
                lemma_idx_of(ev, key@);
            }
            es.remove(i);
            proof {
                lemma_view_entries(es@);
                assert(view_entries(es@) =~= ev.remove(i as int));
            }
        },
        None => {
            proof {
                if has_key(ev, key@) {
                    let i = idx_of(ev, key@);
                    lemma_idx_of(ev, key@);
                    assert(es@[i].key@ == key@);
                }
            }
        },
    }
}

/// Drop any entry carrying the key, then append the new entry at the end.
pub fn dict_replace_at_end(es: &mut Vec<Entry>, key: &str, val: Node)
    requires
        uniq_keys(view_entries(old(es)@)),
    ensures
        view_entries(final(es)@) == replace_at_end(view_entries(old(es)@), key@, val.v()),
{
    let ghost ev = view_entries(old(es)@);
    dict_remove(es, key);
    let ghost mid = view_entries(es@);
    proof {
        lemma_view_entries(es@);
    }
    es.push(Entry { key: String::from_str(key), val });
    proof {
        lemma_view_entries(es@);
        assert(view_entries(es@) =~= mid.push((key@, val.v())));
    }
}

/// Whether every key in the dictionary is distinct.
pub fn dict_uniq_keys(es: &Vec<Entry>) -> (r: bool)
    ensures
        r == uniq_keys(view_entries(es@)),
{
    proof {
        lemma_view_entries(es@);
    }
    let ghost ev = view_entries(es@);
    let mut i: usize = 0;
    while i < es.len()
        invariant
            i <= es@.len(),
            view_entries(es@) == ev,
            forall|a: int, b: int| 0 <= a < b < es@.len() && a < i ==> (#[trigger] ev[a]).0 != (
            #[trigger] ev[b]).0,
        decreases es@.len() - i,
    {
        let mut j: usize = i + 1;
        while j < es.len()
            invariant
                i < j <= es@.len(),
                view_entries(es@) == ev,
                forall|b: int| i < b < j ==> ev[i as int].0 != (#[trigger] ev[b]).0,
            decreases es@.len() - j,
        {
            proof {
                lemma_view_entries(es@);
            }
            if es[i].key == es[j].key {
                proof {
                    assert(ev[i as int].0 == ev[j as int].0);
                }
                return false;
            }
            j = j + 1;
        }
        i = i + 1;
    }
    true
}

} // verus!
