use vstd::prelude::*;
use vstd::string::StringExecFns;

verus! {

// The original design keeps every per-device table (ARP cache, bridge table,
// routing table) as a small string-keyed mapping. Here each table is an
// association list: a vector of (key, value) pairs with at most one pair per
// key, looked up by first match. Keeping the pairs in insertion order makes
// the tie-breaking and first-match rules of the simulation deterministic.

/// First-match lookup in an association list.
pub open spec fn spec_assoc<V>(t: Seq<(Seq<char>, V)>, k: Seq<char>) -> Option<V>
    decreases t.len(),
{
    if t.len() == 0 {
        None
    } else if t[0].0 == k {
        Some(t[0].1)
    } else {
        spec_assoc(t.drop_first(), k)
    }
}

/// Insert only if the key is absent: first write wins. This is how a switch
/// learns MAC-to-port mappings.
pub open spec fn spec_learn<V>(t: Seq<(Seq<char>, V)>, k: Seq<char>, v: V) -> Seq<
    (Seq<char>, V),
> {
    if spec_assoc(t, k) is Some {
        t
    } else {
        t.push((k, v))
    }
}

/// Insert or replace: the first pair with the key is overwritten in place,
/// otherwise the pair is appended. This is how ARP caches and routing tables
/// are populated.
pub open spec fn spec_upsert<V>(t: Seq<(Seq<char>, V)>, k: Seq<char>, v: V) -> Seq<
    (Seq<char>, V),
>
    decreases t.len(),
{
    if t.len() == 0 {
        seq![(k, v)]
    } else if t[0].0 == k {
        t.update(0, (k, v))
    } else {
        seq![t[0]] + spec_upsert(t.drop_first(), k, v)
    }
}

pub proof fn lemma_assoc_found<V>(t: Seq<(Seq<char>, V)>, k: Seq<char>, j: int)
    requires
        0 <= j < t.len(),
        t[j].0 == k,
        forall|i: int| 0 <= i < j ==> t[i].0 != k,
    ensures
        spec_assoc(t, k) == Some(t[j].1),
    decreases j,
{
    if j > 0 {
        lemma_assoc_found(t.drop_first(), k, j - 1);
    }
}

pub proof fn lemma_assoc_absent<V>(t: Seq<(Seq<char>, V)>, k: Seq<char>)
    requires
        forall|i: int| 0 <= i < t.len() ==> t[i].0 != k,
    ensures
        spec_assoc(t, k) is None,
    decreases t.len(),
{
    if t.len() > 0 {
        lemma_assoc_absent(t.drop_first(), k);
    }
}

pub proof fn lemma_upsert_found<V>(t: Seq<(Seq<char>, V)>, k: Seq<char>, v: V, j: int)
    requires
        0 <= j < t.len(),
        t[j].0 == k,
        forall|i: int| 0 <= i < j ==> t[i].0 != k,
    ensures
        spec_upsert(t, k, v) == t.update(j, (k, v)),
    decreases j,
{
    if j == 0 {
    } else {
        lemma_upsert_found(t.drop_first(), k, v, j - 1);
        assert(seq![t[0]] + t.drop_first().update(j - 1, (k, v)) =~= t.update(j, (k, v)));
    }
}

pub proof fn lemma_upsert_absent<V>(t: Seq<(Seq<char>, V)>, k: Seq<char>, v: V)
    requires
        forall|i: int| 0 <= i < t.len() ==> t[i].0 != k,
    ensures
        spec_upsert(t, k, v) == t.push((k, v)),
    decreases t.len(),
{
    if t.len() == 0 {
        assert(seq![(k, v)] =~= t.push((k, v)));
    } else {
        lemma_upsert_absent(t.drop_first(), k, v);
        assert(seq![t[0]] + t.drop_first().push((k, v)) =~= t.push((k, v)));
    }
}

/// Looking a key up after a learn step: an existing mapping wins; a fresh key
/// maps to the new value; other keys are unaffected.
pub proof fn lemma_assoc_learn<V>(t: Seq<(Seq<char>, V)>, k: Seq<char>, v: V, k2: Seq<char>)
    ensures
        spec_assoc(spec_learn(t, k, v), k2) == if k2 == k {
            match spec_assoc(t, k) {
                Some(w) => Some(w),
                None => Some(v),
            }
        } else {
            spec_assoc(t, k2)
        },
    decreases t.len(),
{
    if spec_assoc(t, k) is None {
        lemma_assoc_push(t, (k, v), k2);
    }
}

pub proof fn lemma_assoc_push<V>(t: Seq<(Seq<char>, V)>, p: (Seq<char>, V), k2: Seq<char>)
    ensures
        spec_assoc(t.push(p), k2) == if spec_assoc(t, k2) is Some {
            spec_assoc(t, k2)
        } else if p.0 == k2 {
            Some(p.1)
        } else {
            None::<V>
        },
    decreases t.len(),
{
    let u = t.push(p);
    assert(u.len() == t.len() + 1);
    if t.len() == 0 {
        assert(u[0] == p);
        assert(u.drop_first() =~= Seq::<(Seq<char>, V)>::empty());
        assert(spec_assoc(u, k2) == if p.0 == k2 {
            Some(p.1)
        } else {
            spec_assoc(u.drop_first(), k2)
        });
    } else {
        lemma_assoc_push(t.drop_first(), p, k2);
        assert(u[0] == t[0]);
        assert(u.drop_first() =~= t.drop_first().push(p));
        assert(spec_assoc(u, k2) == if t[0].0 == k2 {
            Some(t[0].1)
        } else {
            spec_assoc(u.drop_first(), k2)
        });
    }
}

/// An element-by-element copy of a string-to-port table.
pub fn clone_port_pairs(t: &Vec<(String, usize)>) -> (res: Vec<(String, usize)>)
    ensures
        res.deep_view() == t.deep_view(),
{
    let mut res: Vec<(String, usize)> = Vec::new();
    let mut i: usize = 0;
    while i < t.len()
        invariant
            0 <= i <= t.len(),
            res@.len() == i,
            forall|j: int| 0 <= j < i ==> res.deep_view()[j] == t.deep_view()[j],
        decreases t.len() - i,
    {
        let pair = &t[i];
        let entry = (pair.0.clone(), pair.1);
        let ghost pre = res@;
        let ghost pre_dv = res.deep_view();
        res.push(entry);
        assert forall|j: int| 0 <= j < i + 1 implies res.deep_view()[j] == t.deep_view()[j] by {
            if j < i {
                assert(res@[j] == pre[j]);
                assert(res.deep_view()[j] == res@[j].deep_view());
                assert(pre_dv[j] == pre[j].deep_view());
            } else {
                assert(res@[j] == entry);
                assert(res.deep_view()[j] == entry.deep_view());
                assert(t.deep_view()[j] == t@[j].deep_view());
            }
        }
        i = i + 1;
    }
    assert(res.deep_view() =~= t.deep_view());
    res
}

/// An element-by-element copy of a string-to-string table.
pub fn clone_str_pairs(t: &Vec<(String, String)>) -> (res: Vec<(String, String)>)
    ensures
        res.deep_view() == t.deep_view(),
{
    let mut res: Vec<(String, String)> = Vec::new();
    let mut i: usize = 0;
    while i < t.len()
        invariant
            0 <= i <= t.len(),
            res@.len() == i,
            forall|j: int| 0 <= j < i ==> res.deep_view()[j] == t.deep_view()[j],
        decreases t.len() - i,
    {
        let pair = &t[i];
        let entry = (pair.0.clone(), pair.1.clone());
        let ghost pre = res@;
        let ghost pre_dv = res.deep_view();
        res.push(entry);
        assert forall|j: int| 0 <= j < i + 1 implies res.deep_view()[j] == t.deep_view()[j] by {
            if j < i {
                assert(res@[j] == pre[j]);
                assert(res.deep_view()[j] == res@[j].deep_view());
                assert(pre_dv[j] == pre[j].deep_view());
            } else {
                assert(res@[j] == entry);
                assert(res.deep_view()[j] == entry.deep_view());
                assert(t.deep_view()[j] == t@[j].deep_view());
            }
        }
        i = i + 1;
    }
    assert(res.deep_view() =~= t.deep_view());
    res
}

/// First-match lookup in a string-to-string table (an ARP cache).
pub fn lookup_str(t: &Vec<(String, String)>, k: &String) -> (r: Option<String>)
    ensures
        r.deep_view() == spec_assoc(t.deep_view(), k@),
{
    let n = t.len();
    let mut i: usize = 0;
    while i < n
        invariant
            n == t.len(),
            0 <= i <= n,
            forall|j: int| 0 <= j < i ==> t.deep_view()[j].0 != k@,
        decreases n - i,
    {
        let pair = &t[i];
        if pair.0 == *k {
            proof {
                lemma_assoc_found(t.deep_view(), k@, i as int);
            }
            return Some(pair.1.clone());
        }
        i = i + 1;
    }
    proof {
        lemma_assoc_absent(t.deep_view(), k@);
    }
    None
}

/// First-match lookup in a string-to-port table (a bridge table).
pub fn lookup_port(t: &Vec<(String, usize)>, k: &String) -> (r: Option<usize>)
    ensures
        r == spec_assoc(t.deep_view(), k@),
{
    let n = t.len();
    let mut i: usize = 0;
    while i < n
        invariant
            n == t.len(),
            0 <= i <= n,
            forall|j: int| 0 <= j < i ==> t.deep_view()[j].0 != k@,
        decreases n - i,
    {
        let pair = &t[i];
        if pair.0 == *k {
            proof {
                lemma_assoc_found(t.deep_view(), k@, i as int);
            }
            return Some(pair.1);
        }
        i = i + 1;
    }
    proof {
        lemma_assoc_absent(t.deep_view(), k@);
    }
    None
}

/// Record a MAC-to-port mapping, first write wins.
pub fn learn_port(t: &mut Vec<(String, usize)>, k: &String, v: usize)
    ensures
        final(t).deep_view() == spec_learn(old(t).deep_view(), k@, v),
{
    let existing = lookup_port(t, k);
    if existing.is_none() {
        t.push((k.clone(), v));
        assert(t.deep_view() =~= old(t).deep_view().push((k@, v)));
    }
}

/// Insert or replace a string-to-string mapping (an ARP cache entry).
pub fn upsert_str(t: &mut Vec<(String, String)>, k: &String, v: String)
    ensures
        final(t).deep_view() == spec_upsert(old(t).deep_view(), k@, v@),
{
    let n = t.len();
    let mut i: usize = 0;
    while i < n
        invariant
            n == t.len(),
            t@ == old(t)@,
            0 <= i <= n,
            forall|j: int| 0 <= j < i ==> t.deep_view()[j].0 != k@,
        decreases n - i,
    {
        if t[i].0 == *k {
            proof {
                lemma_upsert_found(t.deep_view(), k@, v@, i as int);
            }
            let ghost before = t.deep_view();
            t[i] = (k.clone(), v);
            assert(t.deep_view() =~= before.update(i as int, (k@, v@)));
            return ;
        }
        i = i + 1;
    }
    proof {
        lemma_upsert_absent(t.deep_view(), k@, v@);
    }
    t.push((k.clone(), v));
    assert(t.deep_view() =~= old(t).deep_view().push((k@, v@)));
}

/// The rendering of a string-to-string table, one `key -> value` line per
/// pair, in table order.
pub open spec fn spec_table_lines(t: Seq<(Seq<char>, Seq<char>)>) -> Seq<char>
    decreases t.len(),
{
    if t.len() == 0 {
        Seq::empty()
    } else {
        t[0].0 + " -> "@ + t[0].1 + "\n"@ + spec_table_lines(t.drop_first())
    }
}

/// Renders a string-to-string table, one `key -> value` line per pair.
pub fn table_lines(t: &Vec<(String, String)>) -> (r: String)
    ensures
        r@ == spec_table_lines(t.deep_view()),
{
    let ghost tv = t.deep_view();
    let mut out = String::new();
    let n = t.len();
    let mut i: usize = 0;
    assert(tv.skip(0) =~= tv);
    while i < n
        invariant
            n == t.len(),
            tv == t.deep_view(),
            0 <= i <= n,
            out@ + spec_table_lines(tv.skip(i as int)) == spec_table_lines(tv),
        decreases n - i,
    {
        proof {
            assert(tv.skip(i as int)[0] == tv[i as int]);
            assert(tv[i as int] == t@[i as int].deep_view());
            assert(tv.skip(i as int).drop_first() =~= tv.skip(i as int + 1));
        }
        let ghost line = tv[i as int].0 + " -> "@ + tv[i as int].1 + "\n"@;
        assert(spec_table_lines(tv.skip(i as int)) == line + spec_table_lines(
            tv.skip(i as int + 1),
        ));
        let ghost out0 = out@;
        let pair = &t[i];
        out.append(pair.0.as_str());
        out.append(" -> ");
        out.append(pair.1.as_str());
        out.append("\n");
        assert(out@ =~= out0 + line);
        assert(out@ + spec_table_lines(tv.skip(i as int + 1)) =~= (out0 + line)
            + spec_table_lines(tv.skip(i as int + 1)));
        assert((out0 + line) + spec_table_lines(tv.skip(i as int + 1)) =~= out0 + (line
            + spec_table_lines(tv.skip(i as int + 1))));
        i = i + 1;
    }
    assert(tv.skip(n as int) =~= Seq::<(Seq<char>, Seq<char>)>::empty());
    assert(out@ + Seq::<char>::empty() =~= out@);
    out
}

} // verus!
