//! The runtime value model: the `Value` sum type, the per-agent keyed store
//! (`Environment`), and the `Individual` pairing a species tag with a store.
//! Object and list references of the language are arena indices into a
//! `Heap`.

use vstd::prelude::*;

verus! {

/// Mathematical model of a runtime value. Strings are modelled by their
/// character sequences; object and list references by arena indices.
#[verifier::ext_equal]
pub ghost enum ValModel {
    Int(int),
    Bool(bool),
    Str(Seq<char>),
    Object(nat),
    List(nat),
    Environment,
    GridRow(int),
}

/// A runtime value: a number, a truth value, a text, a reference to an
/// agent's store, a reference to a shared list, the sentinel denoting the
/// global agent grid, or a grid row awaiting its second index.
pub enum Value {
    Int(i32),
    Bool(bool),
    Str(String),
    Object(usize),
    List(usize),
    Environment,
    GridRow(i32),
}

impl View for Value {
    type V = ValModel;

    open spec fn view(&self) -> ValModel {
        match self {
            Value::Int(v) => ValModel::Int(*v as int),
            Value::Bool(b) => ValModel::Bool(*b),
            Value::Str(s) => ValModel::Str(s@),
            Value::Object(id) => ValModel::Object(*id as nat),
            Value::List(id) => ValModel::List(*id as nat),
            Value::Environment => ValModel::Environment,
            Value::GridRow(x) => ValModel::GridRow(*x as int),
        }
    }
}

impl Value {
    /// An explicit copy; unlike a derived `Clone`, its contract says the
    /// model is preserved.
    pub fn dup(&self) -> (r: Value)
        ensures
            r@ == self@,
    {
        match self {
            Value::Int(v) => Value::Int(*v),
            Value::Bool(b) => Value::Bool(*b),
            Value::Str(s) => Value::Str(s.clone()),
            Value::Object(id) => Value::Object(*id),
            Value::List(id) => Value::List(*id),
            Value::Environment => Value::Environment,
            Value::GridRow(x) => Value::GridRow(*x),
        }
    }
}

/// The model of a store: its entries in order. A lookup sees the first
/// entry with a matching key.
pub type StoreModel = Seq<(Seq<char>, ValModel)>;

/// The entry sequence of a store, as key/value models.
pub open spec fn entry_views(s: Seq<(String, Value)>) -> StoreModel {
    s.map_values(|p: (String, Value)| (p.0@, p.1@))
}

/// The first binding of `k`, if any.
pub open spec fn store_get(s: StoreModel, k: Seq<char>) -> Option<ValModel>
    decreases s.len(),
{
    if s.len() == 0 {
        None
    } else if s[0].0 == k {
        Some(s[0].1)
    } else {
        store_get(s.drop_first(), k)
    }
}

/// The store with `k` bound to `v`: the first binding of `k` is replaced in
/// place, or a new entry is appended.
pub open spec fn store_set(s: StoreModel, k: Seq<char>, v: ValModel) -> StoreModel
    decreases s.len(),
{
    if s.len() == 0 {
        seq![(k, v)]
    } else if s[0].0 == k {
        seq![(k, v)] + s.drop_first()
    } else {
        seq![s[0]] + store_set(s.drop_first(), k, v)
    }
}

/// A per-agent keyed store: names mapped to values.
pub struct Environment {
    pub entries: Vec<(String, Value)>,
}

impl View for Environment {
    type V = StoreModel;

    open spec fn view(&self) -> StoreModel {
        entry_views(self.entries@)
    }
}

proof fn lemma_store_get_skip(s: StoreModel, k: Seq<char>, i: int)
    requires
        0 <= i <= s.len(),
        forall|j: int| 0 <= j < i ==> (#[trigger] s[j]).0 != k,
    ensures
        store_get(s, k) == store_get(s.skip(i), k),
    decreases i,
{
    if i > 0 {
        assert(s.drop_first().skip(i - 1) =~= s.skip(i));
        lemma_store_get_skip(s.drop_first(), k, i - 1);
    } else {
        assert(s.skip(0) =~= s);
    }
}

proof fn lemma_store_set_update(s: StoreModel, k: Seq<char>, v: ValModel, i: int)
    requires
        0 <= i < s.len(),
        s[i].0 == k,
        forall|j: int| 0 <= j < i ==> (#[trigger] s[j]).0 != k,
    ensures
        store_set(s, k, v) =~= s.update(i, (k, v)),
    decreases i,
{
    if i == 0 {
        assert(store_set(s, k, v) =~= s.update(0, (k, v)));
    } else {
        lemma_store_set_update(s.drop_first(), k, v, i - 1);
        assert(seq![s[0]] + s.drop_first().update(i - 1, (k, v)) =~= s.update(i, (k, v)));
    }
}

proof fn lemma_store_set_push(s: StoreModel, k: Seq<char>, v: ValModel)
    requires
        forall|j: int| 0 <= j < s.len() ==> (#[trigger] s[j]).0 != k,
    ensures
        store_set(s, k, v) =~= s.push((k, v)),
    decreases s.len(),
{
    if s.len() > 0 {
        lemma_store_set_push(s.drop_first(), k, v);
        assert(seq![s[0]] + s.drop_first().push((k, v)) =~= s.push((k, v)));
    }
}

impl Environment {
    /// A fresh, empty store.
    pub fn new() -> (r: Environment)
        ensures
            r@ == Seq::<(Seq<char>, ValModel)>::empty(),
    {
        let r = Environment { entries: Vec::new() };
        proof {
            assert(r@ =~= Seq::<(Seq<char>, ValModel)>::empty());
        }
        r
    }

    /// Looks a name up, returning a reference to the bound value.
    pub fn get(&self, k: &String) -> (r: Option<&Value>)
        ensures
            match r {
                Some(v) => store_get(self@, k@) == Some(v@),
                None => store_get(self@, k@) is None,
            },
    {
        let n = self.entries.len();
        let mut i: usize = 0;
        while i < n
            invariant
                n == self.entries.len(),
                i <= n,
                forall|j: int| 0 <= j < i ==> (#[trigger] self@[j]).0 != k@,
            decreases n - i,
        {
            if self.entries[i].0.eq(k) {
                proof {
                    lemma_store_get_skip(self@, k@, i as int);
                    assert(self@.skip(i as int)[0] == self@[i as int]);
                }
                return Some(&self.entries[i].1);
            }
            i += 1;
        }
        proof {
            lemma_store_get_skip(self@, k@, n as int);
            assert(self@.skip(n as int).len() == 0);
        }
        None
    }

    /// Binds a name to a value, replacing the first earlier binding.
    pub fn insert(&mut self, k: String, v: Value)
        ensures
            final(self)@ == store_set(old(self)@, k@, v@),
    {
        let n = self.entries.len();
        let mut i: usize = 0;
        while i < n
            invariant
                n == self.entries.len(),
                self.entries == old(self).entries,
                i <= n,
                forall|j: int| 0 <= j < i ==> (#[trigger] self@[j]).0 != k@,
            decreases n - i,
        {
            if self.entries[i].0.eq(&k) {
                proof {
                    lemma_store_set_update(self@, k@, v@, i as int);
                }
                let ghost before = self@;
                self.entries[i] = (k, v);
                assert(self@ =~= before.update(i as int, (k@, v@)));
                return;
            }
            i += 1;
        }
        proof {
            lemma_store_set_push(self@, k@, v@);
        }
        let ghost before = self@;
        self.entries.push((k, v));
        assert(self@ =~= before.push((k@, v@)));
    }

    /// Empties the store; used to tear down reference graphs between
    /// generations.
    pub fn clear(&mut self)
        ensures
            final(self)@ == Seq::<(Seq<char>, ValModel)>::empty(),
    {
        self.entries.clear();
        assert(self@ =~= Seq::<(Seq<char>, ValModel)>::empty());
    }

    /// Duplicates the entry vector as it stands: values are copied
    /// shallowly, so a `List` value keeps its arena index.
    pub fn dup_entries(&self) -> (r: Environment)
        ensures
            r@ == self@,
    {
        let n = self.entries.len();
        let mut out: Vec<(String, Value)> = Vec::new();
        let mut i: usize = 0;
        while i < n
            invariant
                n == self.entries.len(),
                i <= n,
                entry_views(out@) =~= self@.take(i as int),
            decreases n - i,
        {
            let k = self.entries[i].0.clone();
            let v = self.entries[i].1.dup();
            out.push((k, v));
            proof {
                assert(self@.take(i as int + 1) =~= self@.take(i as int).push(self@[i as int]));
                assert(entry_views(out@) =~= entry_views(out@.drop_last()).push(
                    (out@.last().0@, out@.last().1@),
                ));
            }
            i += 1;
        }
        let r = Environment { entries: out };
        proof {
            assert(self@.take(n as int) =~= self@);
            assert(r@ =~= self@);
        }
        r
    }
}

/// Mathematical model of an agent: its species tag and its store index.
#[verifier::ext_equal]
pub ghost struct IndModel {
    pub species: Seq<char>,
    pub env: nat,
}

/// One simulated agent: a species tag and the index of its store.
pub struct Individual {
    pub species: String,
    pub env: usize,
}

impl View for Individual {
    type V = IndModel;

    open spec fn view(&self) -> IndModel {
        IndModel { species: self.species@, env: self.env as nat }
    }
}

/// The agent models of an agent list.
pub open spec fn inds_view(s: Seq<Individual>) -> Seq<IndModel> {
    s.map_values(|i: Individual| i@)
}

impl Individual {
    /// An explicit copy whose contract says the model is preserved.
    pub fn dup(&self) -> (r: Individual)
        ensures
            r@ == self@,
    {
        Individual { species: self.species.clone(), env: self.env }
    }
}

/// Duplicates an agent list, preserving its model.
pub fn dup_individuals(v: &Vec<Individual>) -> (r: Vec<Individual>)
    ensures
        inds_view(r@) == inds_view(v@),
{
    let n = v.len();
    let mut out: Vec<Individual> = Vec::new();
    let mut i: usize = 0;
    while i < n
        invariant
            n == v.len(),
            i <= n,
            inds_view(out@) =~= inds_view(v@).take(i as int),
        decreases n - i,
    {
        out.push(v[i].dup());
        proof {
            assert(inds_view(out@) =~= inds_view(out@.drop_last()).push(out@.last()@));
            assert(inds_view(v@).take(i as int + 1) =~= inds_view(v@).take(i as int).push(
                v@[i as int]@,
            ));
        }
        i += 1;
    }
    proof {
        assert(inds_view(v@).take(n as int) =~= inds_view(v@));
    }
    out
}

} // verus!
