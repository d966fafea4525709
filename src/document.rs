use vstd::prelude::*;

verus! {

/// A value of a configuration document.
#[derive(Debug)]
pub enum TomlValue {
    String(String),
    Integer(i64),
    Boolean(bool),
    Array(Vec<TomlValue>),
    Table(TomlTable),
    /// A float or a date, carried through unchanged.
    Other(toml::Value),
}

/// A table: its entries, of which a later one wins over an earlier one
/// with the same key.
#[derive(Debug)]
pub struct TomlTable {
    pub entries: Vec<(String, TomlValue)>,
}

/// `toml::Value`, carried unread for floats and dates.
#[verifier::external_type_specification]
#[verifier::external_body]
pub struct ExTomlValue(toml::Value);

/// The mathematical view of a document value.
pub enum TomlTree {
    Str(Seq<char>),
    Int(int),
    Bool(bool),
    Array(Seq<TomlTree>),
    Table(Map<Seq<char>, TomlTree>),
    Other(toml::Value),
}

pub open spec fn value_tree(v: TomlValue) -> TomlTree
    decreases v,
{
    match v {
        TomlValue::String(s) => TomlTree::Str(s@),
        TomlValue::Integer(i) => TomlTree::Int(i as int),
        TomlValue::Boolean(b) => TomlTree::Bool(b),
        TomlValue::Array(a) => TomlTree::Array(array_trees(a@)),
        TomlValue::Table(t) => TomlTree::Table(entries_map(t.entries@)),
        TomlValue::Other(o) => TomlTree::Other(o),
    }
}

pub open spec fn array_trees(s: Seq<TomlValue>) -> Seq<TomlTree>
    decreases s,
{
    if s.len() == 0 {
        Seq::empty()
    } else {
        array_trees(s.drop_last()).push(value_tree(s.last()))
    }
}

pub open spec fn entries_map(s: Seq<(String, TomlValue)>) -> Map<Seq<char>, TomlTree>
    decreases s,
{
    if s.len() == 0 {
        Map::empty()
    } else {
        entries_map(s.drop_last()).insert(s.last().0@, value_tree(s.last().1))
    }
}

/// The document `over` laid on top of `base`: tables merge key by key,
/// any other value of `over` replaces what `base` holds.
pub open spec fn merge_tree(base: TomlTree, over: TomlTree) -> TomlTree
    decreases over,
{
    match over {
        TomlTree::Table(om) => match base {
            TomlTree::Table(bm) => TomlTree::Table(
                Map::new(
                    |k: Seq<char>| bm.dom().contains(k) || om.dom().contains(k),
                    |k: Seq<char>|
                        if om.dom().contains(k) {
                            if bm.dom().contains(k) {
                                merge_tree(bm[k], om[k])
                            } else {
                                om[k]
                            }
                        } else {
                            bm[k]
                        },
                ),
            ),
            _ => over,
        },
        _ => over,
    }
}

/// Key-wise merge of two tables: the table that [`merge_tree`] gives.
pub open spec fn merge_maps(
    bm: Map<Seq<char>, TomlTree>,
    om: Map<Seq<char>, TomlTree>,
) -> Map<Seq<char>, TomlTree> {
    merge_tree(TomlTree::Table(bm), TomlTree::Table(om))->Table_0
}

/// On two tables, [`merge_tree`] gives a table: the keys of both, a key
/// of both merged, any other key as it is.
pub proof fn lemma_merge_tables(bm: Map<Seq<char>, TomlTree>, om: Map<Seq<char>, TomlTree>)
    ensures
        merge_tree(TomlTree::Table(bm), TomlTree::Table(om)) == TomlTree::Table(merge_maps(bm, om)),
        merge_maps(bm, om).dom() == bm.dom().union(om.dom()),
        forall|k: Seq<char>|
            #![trigger merge_maps(bm, om)[k]]
            om.dom().contains(k) && bm.dom().contains(k) ==> merge_maps(bm, om)[k] == merge_tree(
                bm[k],
                om[k],
            ),
        forall|k: Seq<char>|
            #![trigger merge_maps(bm, om)[k]]
            om.dom().contains(k) && !bm.dom().contains(k) ==> merge_maps(bm, om)[k] == om[k],
        forall|k: Seq<char>|
            #![trigger merge_maps(bm, om)[k]]
            !om.dom().contains(k) && bm.dom().contains(k) ==> merge_maps(bm, om)[k] == bm[k],
{
    assert(merge_maps(bm, om).dom() =~= bm.dom().union(om.dom()));
}

pub open spec fn keys_unique(s: Seq<(String, TomlValue)>) -> bool {
    forall|i: int, j: int| 0 <= i < j < s.len() ==> s[i].0@ != s[j].0@
}

/// Every table inside the value has distinct keys.
pub open spec fn value_wf(v: TomlValue) -> bool
    decreases v,
{
    match v {
        TomlValue::Table(t) => table_wf(t),
        _ => true,
    }
}

pub open spec fn table_wf(t: TomlTable) -> bool
    decreases t,
{
    &&& keys_unique(t.entries@)
    &&& forall|i: int| 0 <= i < t.entries@.len() ==> value_wf(#[trigger] t.entries@[i].1)
}

impl TomlTable {
    pub open spec fn tree(self) -> Map<Seq<char>, TomlTree> {
        entries_map(self.entries@)
    }
}

pub open spec fn last_with_key(s: Seq<(String, TomlValue)>, i: int, k: Seq<char>) -> bool {
    &&& 0 <= i < s.len()
    &&& s[i].0@ == k
    &&& forall|j: int| i < j < s.len() ==> s[j].0@ != k
}

proof fn lemma_absent(s: Seq<(String, TomlValue)>, k: Seq<char>)
    requires
        forall|j: int| 0 <= j < s.len() ==> s[j].0@ != k,
    ensures
        !entries_map(s).dom().contains(k),
    decreases s.len(),
{
    if s.len() > 0 {
        lemma_absent(s.drop_last(), k);
    }
}

proof fn lemma_lookup(s: Seq<(String, TomlValue)>, i: int, k: Seq<char>)
    requires
        last_with_key(s, i, k),
    ensures
        entries_map(s).dom().contains(k),
        entries_map(s)[k] == value_tree(s[i].1),
    decreases s.len(),
{
    if i < s.len() - 1 {
        lemma_lookup(s.drop_last(), i, k);
    }
}

proof fn lemma_update(s: Seq<(String, TomlValue)>, i: int, x: (String, TomlValue))
    requires
        last_with_key(s, i, x.0@),
    ensures
        entries_map(s.update(i, x)) == entries_map(s).insert(x.0@, value_tree(x.1)),
    decreases s.len(),
{
    let u = s.update(i, x);
    if i == s.len() - 1 {
        assert(u.drop_last() == s.drop_last());
    } else {
        assert(u.drop_last() == s.drop_last().update(i, x));
        lemma_update(s.drop_last(), i, x);
        assert(entries_map(u) =~= entries_map(s).insert(x.0@, value_tree(x.1)));
    }
}

fn find_last(entries: &Vec<(String, TomlValue)>, key: &String) -> (r: Option<usize>)
    ensures
        match r {
            Some(i) => last_with_key(entries@, i as int, key@),
            None => forall|j: int| 0 <= j < entries@.len() ==> entries@[j].0@ != key@,
        },
{
    let mut n: usize = entries.len();
    while n > 0
        invariant
            n <= entries@.len(),
            forall|j: int| n <= j < entries@.len() ==> entries@[j].0@ != key@,
        decreases n,
    {
        n = n - 1;
        if entries[n].0 == *key {
            return Some(n);
        }
    }
    None
}

impl TomlTable {
    /// An empty table.
    pub fn new() -> (r: Self)
        ensures
            r.tree() == Map::<Seq<char>, TomlTree>::empty(),
            table_wf(r),
    {
        TomlTable { entries: Vec::new() }
    }

    /// Sets `key` to `value`.
    pub fn insert(&mut self, key: String, value: TomlValue)
        requires
            table_wf(*old(self)),
            value_wf(value),
        ensures
            final(self).tree() == old(self).tree().insert(key@, value_tree(value)),
            table_wf(*final(self)),
    {
        let ghost s0 = self.entries@;
        match find_last(&self.entries, &key) {
            Some(i) => {
                let _ = self.entries.remove(i);
                self.entries.insert(i, (key, value));
                proof {
                    assert(self.entries@ =~= s0.update(i as int, (key, value)));
                    lemma_update(s0, i as int, (key, value));
                    assert forall|p: int, q: int|
                        0 <= p < q < self.entries@.len() implies self.entries@[p].0@
                        != self.entries@[q].0@ by {
                        assert(s0[p].0@ != s0[q].0@);
                    }
                    assert forall|p: int| 0 <= p < self.entries@.len() implies value_wf(
                        #[trigger] self.entries@[p].1,
                    ) by {
                        if p != i {
                            assert(value_wf(s0[p].1));
                        }
                    }
                }
            },
            None => {
                self.entries.push((key, value));
                proof {
                    assert(self.entries@.drop_last() =~= s0);
                    assert forall|p: int| 0 <= p < self.entries@.len() implies value_wf(
                        #[trigger] self.entries@[p].1,
                    ) by {
                        if p < s0.len() {
                            assert(value_wf(s0[p].1));
                        }
                    }
                }
            },
        }
    }
}

/// Lays `over` on top of `base` (see [`merge_tree`]).
pub fn merge_value(base: TomlValue, over: TomlValue) -> (r: TomlValue)
    requires
        value_wf(over),
    ensures
        value_tree(r) == merge_tree(value_tree(base), value_tree(over)),
    decreases over,
{
    match over {
        TomlValue::Table(ot) => match base {
            TomlValue::Table(bt) => TomlValue::Table(merge_table(bt, ot)),
            _ => TomlValue::Table(ot),
        },
        _ => over,
    }
}

/// Merges the table `over` into the table `base`, key by key.
pub fn merge_table(base: TomlTable, over: TomlTable) -> (r: TomlTable)
    requires
        table_wf(over),
    ensures
        r.tree() == merge_maps(base.tree(), over.tree()),
        TomlTree::Table(r.tree()) == merge_tree(
            TomlTree::Table(base.tree()),
            TomlTree::Table(over.tree()),
        ),
    decreases over,
{
    let ghost oe = over.entries@;
    let ghost bm = base.tree();
    let mut rest = over.entries;
    let mut acc = base.entries;
    let ghost mut j: int = 0;
    proof {
        assert(oe.subrange(0, 0) =~= Seq::<(String, TomlValue)>::empty());
        assert(entries_map(oe.subrange(0, 0)) == Map::<Seq<char>, TomlTree>::empty());
        assert(merge_maps(bm, Map::empty()) =~= bm);
        assert(oe.subrange(0, oe.len() as int) =~= oe);
    }
    while rest.len() > 0
        invariant
            0 <= j <= oe.len(),
            oe == over.entries@,
            table_wf(over),
            rest@ == oe.subrange(j, oe.len() as int),
            entries_map(acc@) == merge_maps(bm, entries_map(oe.subrange(0, j))),
        decreases rest.len(),
    {
        let (key, value) = rest.remove(0);
        let ghost om = entries_map(oe.subrange(0, j));
        proof {
            assert(oe[j] == (key, value));
            assert(oe.subrange(0, j + 1).drop_last() =~= oe.subrange(0, j));
            assert forall|q: int| 0 <= q < oe.subrange(0, j).len() implies oe.subrange(0, j)[q].0@ != key@ by {
                assert(oe.subrange(0, j)[q] == oe[q]);
            }
            lemma_absent(oe.subrange(0, j), key@);
            assert(value_wf(oe[j].1));
        }
        let ghost a0 = acc@;
        let ghost am = entries_map(a0);
        let ghost tv = value_tree(value);
        match find_last(&acc, &key) {
            Some(i) => {
                let (old_key, old_value) = acc.remove(i);
                proof {
                    assert(acc@.insert(i as int, (old_key, old_value)) =~= a0);
                    lemma_lookup(a0, i as int, key@);
                    assert(decreases_to!(over => value)) by {
                        broadcast use vstd::std_specs::vec::axiom_vec_decreases_to_view;
                        broadcast use vstd::seq::axiom_seq_index_decreases;
                        assert(over.entries@[j] == (key, value));
                    };
                }
                let merged = merge_value(old_value, value);
                acc.insert(i, (key, merged));
                proof {
                    assert(acc@ =~= a0.update(i as int, (key, merged)));
                    lemma_update(a0, i as int, (key, merged));
                    assert(bm.dom().contains(key@));
                    assert(merge_maps(bm, om.insert(key@, tv)) =~= am.insert(
                        key@,
                        merge_tree(bm[key@], tv),
                    ));
                }
            },
            None => {
                proof {
                    lemma_absent(a0, key@);
                }
                acc.push((key, value));
                proof {
                    assert(acc@.drop_last() =~= a0);
                    assert(merge_maps(bm, om.insert(key@, tv)) =~= am.insert(key@, tv));
                }
            },
        }
        proof {
            j = j + 1;
        }
    }
    proof {
        assert(oe.subrange(0, oe.len() as int) =~= oe);
        lemma_merge_tables(bm, over.tree());
    }
    TomlTable { entries: acc }
}

/// Lays the table `updates` on top of `content` (see [`merge_tree`]).
pub fn update_toml(content: TomlValue, updates: TomlTable) -> (r: TomlValue)
    requires
        table_wf(updates),
    ensures
        value_tree(r) == merge_tree(value_tree(content), TomlTree::Table(updates.tree())),
{
    let updates = TomlValue::Table(updates);
    proof {
        assert(value_wf(updates));
    }
    merge_value(content, updates)
}

/// Merging a document into itself gives it back.
pub proof fn lemma_merge_self(t: TomlTree)
    ensures
        merge_tree(t, t) == t,
    decreases t,
{
    if let TomlTree::Table(m) = t {
        lemma_merge_tables(m, m);
        assert forall|k: Seq<char>| m.dom().contains(k) implies merge_tree(m[k], m[k]) == m[k] by {
            lemma_merge_self(m[k]);
        }
        assert(merge_maps(m, m) =~= m);
    }
}

/// Merging an empty table into a table gives the table back.
pub proof fn law_merge_empty(base: Map<Seq<char>, TomlTree>)
    ensures
        merge_tree(TomlTree::Table(base), TomlTree::Table(Map::empty())) == TomlTree::Table(base),
{
    lemma_merge_tables(base, Map::empty());
    assert(merge_maps(base, Map::empty()) =~= base);
}

/// Merging the same overrides a second time changes nothing more.
pub proof fn law_merge_idempotent(base: TomlTree, overrides: TomlTree)
    ensures
        merge_tree(merge_tree(base, overrides), overrides) == merge_tree(base, overrides),
    decreases overrides,
{
    match overrides {
        TomlTree::Table(om) => match base {
            TomlTree::Table(bm) => {
                let r = merge_maps(bm, om);
                lemma_merge_tables(bm, om);
                lemma_merge_tables(r, om);
                assert forall|k: Seq<char>| om.dom().contains(k) implies merge_tree(r[k], om[k])
                    == r[k] by {
                    if bm.dom().contains(k) {
                        law_merge_idempotent(bm[k], om[k]);
                    } else {
                        lemma_merge_self(om[k]);
                    }
                }
                assert(merge_maps(r, om) =~= r);
            },
            _ => {
                lemma_merge_self(overrides);
            },
        },
        _ => {},
    }
}

} // verus!
