//! Functions that could be merged: those that return, take and affect the
//! same things. Each thing is known by an id, issued in the order things are
//! first met.
use vstd::prelude::*;
use vstd::relations::{sorted_by, total_ordering};
use crate::lang::types::{TypeKind, KindV, Type, TypeV};
use crate::lang::name::Name;
use crate::lang::structure::{NT, views_of, SysDCSystem, SysDCFunction, SysDCAnnotation};
use crate::lang::structure::unchecked::{FunctionV, AnnotationV, ModuleV, UnitV, SystemV};
use crate::tool::eval::{Advice, AdviceV, AdviceLevel, advice_option_view};
use crate::text::string_views;

verus! {

/// A value that can be told apart from another by its model.
pub trait Same: View + Sized {
    fn same(&self, other: &Self) -> (r: bool)
        ensures
            r == (self@ == other@),
    ;
}

impl Same for String {
    fn same(&self, other: &String) -> (r: bool) {
        *self == *other
    }
}

/// The index of `x` among `items`.
pub open spec fn id_in<V>(items: Seq<V>, x: V) -> int {
    choose|k: int| 0 <= k < items.len() && items[k] == x
}

/// Issuing an id for `x`: the index where it already stands, or the next
/// index, where it is added.
pub open spec fn issue<V>(items: Seq<V>, x: V) -> (Seq<V>, int) {
    if items.contains(x) {
        (items, id_in(items, x))
    } else {
        (items.push(x), items.len() as int)
    }
}

/// Issues ids: the items met so far, each with the id that is its index.
pub struct IdIssuer<T: View> {
    items: Vec<T>,
}

impl<T: View> View for IdIssuer<T> {
    type V = Seq<T::V>;

    /// The items met so far, in the order they were met.
    closed spec fn view(&self) -> Seq<T::V> {
        self.items@.map_values(|x: T| x@)
    }
}

impl<T: View> IdIssuer<T> {
    /// No item was met twice.
    #[verifier::type_invariant]
    closed spec fn distinct(self) -> bool {
        self@.no_duplicates()
    }
}

impl<T: Same> IdIssuer<T> {
    /// An issuer that has met nothing.
    pub fn new() -> (r: IdIssuer<T>)
        ensures
            r@ == Seq::<T::V>::empty(),
    {
        let r = IdIssuer { items: Vec::new() };
        assert(r@ =~= Seq::<T::V>::empty());
        r
    }

    /// The id of `item`, as an index.
    pub fn issue_index(&mut self, item: T) -> (r: usize)
        ensures
            final(self)@.no_duplicates(),
            (final(self)@, r as int) == issue(old(self)@, item@),
    {
        proof {
            use_type_invariant(&*self);
        }
        let mut i: usize = 0;
        while i < self.items.len()
            invariant
                i <= self@.len(),
                self@ == old(self)@,
                self@.no_duplicates(),
                forall|k: int| 0 <= k < i ==> self@[k] != item@,
            decreases self.items.len() - i,
        {
            if self.items[i].same(&item) {
                proof {
                    assert(self@[i as int] == item@);
                    assert(self@.contains(item@));
                    let k = id_in(self@, item@);
                    assert(0 <= k < self@.len() && self@[k] == item@);
                }
                return i;
            }
            i = i + 1;
        }
        proof {
            assert(!self@.contains(item@));
        }
        let n = self.items.len();
        let ghost before = self@;
        let mut items: Vec<T> = Vec::new();
        std::mem::swap(&mut items, &mut self.items);
        items.push(item);
        assert(items@.map_values(|x: T| x@) =~= before.push(item@));
        self.items = items;
        n
    }

    /// The id of `item`: the same id for the same item, a new one for an
    /// item not met before.
    pub fn get_id(&mut self, item: T) -> (r: i32)
        requires
            old(self)@.len() <= i32::MAX,
        ensures
            final(self)@.no_duplicates(),
            (final(self)@, r as int) == issue(old(self)@, item@),
    {
        let r = self.issue_index(item);
        r as i32
    }
}

/// Issuing an id keeps the items distinct, keeps the items met before in
/// place, and the id is the index of the item.
pub proof fn lemma_issue_wf<V>(items: Seq<V>, x: V)
    requires
        items.no_duplicates(),
    ensures
        issue(items, x).0.no_duplicates(),
        0 <= issue(items, x).1 < issue(items, x).0.len(),
        issue(items, x).0[issue(items, x).1] == x,
        items.is_prefix_of(issue(items, x).0),
{
    if items.contains(x) {
        let k = id_in(items, x);
        assert(0 <= k < items.len() && items[k] == x);
        assert(items =~= items.subrange(0, items.len() as int));
    } else {
        assert(items =~= items.push(x).subrange(0, items.len() as int));
    }
}

/// Asking again for the id of an item gives the id it was given.
pub proof fn lemma_id_stable<V>(items: Seq<V>, x: V)
    requires
        items.no_duplicates(),
    ensures
        issue(issue(items, x).0, x) == issue(items, x),
{
    lemma_issue_wf(items, x);
    let (s1, a) = issue(items, x);
    assert(s1.contains(x));
    let b = id_in(s1, x);
    assert(0 <= b < s1.len() && s1[b] == x);
}

/// Two different items get two different ids.
pub proof fn lemma_ids_distinct<V>(items: Seq<V>, x: V, y: V)
    requires
        items.no_duplicates(),
        x != y,
    ensures
        issue(items, x).1 != issue(issue(items, x).0, y).1,
{
    lemma_issue_wf(items, x);
    let (s1, a) = issue(items, x);
    lemma_issue_wf(s1, y);
    let (s2, b) = issue(s1, y);
    assert(s2[a] == s1[a]);
}

/// The name of a kind, as advice shows it: the name it is written with, the
/// name written for an unresolved type, or `UnsolvedNoHint`.
pub open spec fn kind_name(k: KindV) -> Seq<char> {
    match k {
        KindV::Int32 => "i32"@,
        KindV::UInt32 => "u32"@,
        KindV::Float32 => "f32"@,
        KindV::Boolean => "bool"@,
        KindV::Char => "char"@,
        KindV::Data => "Data"@,
        KindV::Void => "Void"@,
        KindV::Unsolved(s) => s,
        KindV::UnsolvedNoHint => "UnsolvedNoHint"@,
    }
}

/// The name of a kind.
pub fn kind_name_of(kind: &TypeKind) -> (r: String)
    ensures
        r@ == kind_name(kind@),
{
    match kind {
        TypeKind::Int32 => String::from_str("i32"),
        TypeKind::UInt32 => String::from_str("u32"),
        TypeKind::Float32 => String::from_str("f32"),
        TypeKind::Boolean => String::from_str("bool"),
        TypeKind::Char => String::from_str("char"),
        TypeKind::Data => String::from_str("Data"),
        TypeKind::Void => String::from_str("Void"),
        TypeKind::Unsolved(s) => s.clone(),
        TypeKind::UnsolvedNoHint => String::from_str("UnsolvedNoHint"),
    }
}

/// What a type is known by: the full name of its data, or else the name of
/// `kind`.
pub open spec fn type_key(t: TypeV, kind: KindV) -> Seq<char> {
    match t.refs {
        Some(n) => n.full(),
        None => kind_name(kind),
    }
}

fn type_key_of(t: &Type, kind: &TypeKind) -> (r: String)
    ensures
        r@ == type_key(t@, kind@),
{
    match &t.refs {
        Some(n) => n.get_full_name(),
        None => kind_name_of(kind),
    }
}

/// Ids issued for the keys, one after the other.
pub open spec fn issue_all(state: Seq<Seq<char>>, keys: Seq<Seq<char>>) -> (Seq<Seq<char>>, Seq<int>)
    decreases keys.len(),
{
    if keys.len() == 0 {
        (state, Seq::empty())
    } else {
        let (s1, ids) = issue_all(state, keys.drop_last());
        let (s2, id) = issue(s1, keys.last());
        (s2, ids.push(id))
    }
}

/// The models of a list of ids.
pub open spec fn ints(v: Seq<usize>) -> Seq<int> {
    v.map_values(|x: usize| x as int)
}

fn issue_keys(issuer: &mut IdIssuer<String>, keys: Vec<String>) -> (r: Vec<usize>)
    ensures
        final(issuer)@.no_duplicates(),
        (final(issuer)@, ints(r@)) == issue_all(old(issuer)@, string_views(keys@)),
{
    let ghost ks = string_views(keys@);
    let mut ids: Vec<usize> = Vec::new();
    let mut keys = keys;
    let mut i: usize = 0;
    let n = keys.len();
    proof {
        use_type_invariant(&*issuer);
        assert(ks.take(0) =~= Seq::<Seq<char>>::empty());
        assert(ints(ids@) =~= Seq::<int>::empty());
    }
    while keys.len() > 0
        invariant
            i + keys@.len() == n,
            n == ks.len(),
            string_views(keys@) == ks.subrange(i as int, n as int),
            issuer@.no_duplicates(),
            (issuer@, ints(ids@)) == issue_all(old(issuer)@, ks.take(i as int)),
        decreases keys.len(),
    {
        let ghost kb = keys@;
        let key = keys.remove(0);
        assert(string_views(kb)[0] == ks.subrange(i as int, n as int)[0]);
        assert(key@ == ks[i as int]);
        assert(string_views(keys@) =~= string_views(kb).subrange(1, kb.len() as int));
        let id = issuer.issue_index(key);
        let ghost before = ids@;
        ids.push(id);
        assert(ks.take(i + 1).drop_last() =~= ks.take(i as int));
        assert(ints(ids@) =~= ints(before).push(id as int));
        i = i + 1;
        assert(string_views(keys@) =~= ks.subrange(i as int, n as int));
    }
    assert(ks.take(i as int) =~= ks);
    ids
}

/// `x <= y` on integers.
pub open spec fn int_le() -> spec_fn(int, int) -> bool {
    |x: int, y: int| x <= y
}

proof fn lemma_int_le_total()
    ensures
        total_ordering(int_le()),
{
    assert(vstd::relations::reflexive(int_le()));
    assert(vstd::relations::antisymmetric(int_le()));
    assert(vstd::relations::transitive(int_le()));
    assert(vstd::relations::strongly_connected(int_le()));
}

/// The ids sorted from the smallest.
fn sorted_ids(v: &Vec<usize>) -> (r: Vec<usize>)
    ensures
        ints(r@) == ints(v@).sort(),
{
    let mut r: Vec<usize> = Vec::new();
    let mut i: usize = 0;
    proof {
        assert(ints(v@).take(0) =~= Seq::<int>::empty());
        assert(ints(r@) =~= Seq::<int>::empty());
    }
    while i < v.len()
        invariant
            i <= v@.len(),
            sorted_by(ints(r@), int_le()),
            ints(r@).to_multiset() == ints(v@).take(i as int).to_multiset(),
        decreases v.len() - i,
    {
        let x = v[i];
        let mut j: usize = 0;
        while j < r.len() && r[j] <= x
            invariant
                j <= r@.len(),
                forall|k: int| 0 <= k < j ==> r@[k] <= x,
            decreases r.len() - j,
        {
            j = j + 1;
        }
        let ghost before = r@;
        r.insert(j, x);
        proof {
            assert(ints(r@) =~= ints(before).insert(j as int, x as int));
            vstd::seq_lib::to_multiset_insert(ints(before), j as int, x as int);
            assert(ints(v@).take(i + 1) =~= ints(v@).take(i as int).push(x as int));
            vstd::seq_lib::to_multiset_build(ints(v@).take(i as int), x as int);
            assert forall|a: int, b: int| 0 <= a < b < ints(r@).len() implies #[trigger] int_le()(ints(r@)[a], ints(r@)[b]) by {
                assert(sorted_by(ints(before), int_le()));
                if b < j {
                    assert(int_le()(ints(before)[a], ints(before)[b]));
                } else if b == j {
                    assert(r@[a] == before[a]);
                } else if a < j {
                    assert(r@[a] == before[a] && r@[b] == before[b - 1]);
                    if j < before.len() {
                        assert(int_le()(ints(before)[a], ints(before)[j as int]));
                        assert(int_le()(ints(before)[j as int], ints(before)[b - 1]));
                    } else {
                        assert(int_le()(ints(before)[a], ints(before)[b - 1]));
                    }
                } else if a == j {
                    assert(r@[b] == before[b - 1]);
                    assert(int_le()(ints(before)[j as int], ints(before)[b - 1]));
                } else {
                    assert(int_le()(ints(before)[a - 1], ints(before)[b - 1]));
                }
            }
        }
        i = i + 1;
    }
    proof {
        assert(ints(v@).take(i as int) =~= ints(v@));
        ints(v@).lemma_sort_ensures();
        lemma_int_le_total();
        assert(int_le() =~= |x: int, y: int| x <= y);
        vstd::seq_lib::lemma_sorted_unique(ints(r@), ints(v@).sort(), int_le());
    }
    r
}

/// The model of what a function is reduced to.
pub type AbstV = (int, Seq<int>, Seq<int>);

/// What a function is reduced to: the id of what it returns, the ids of what
/// it takes (smallest first) and the ids of the functions it affects.
pub struct FuncAbst {
    pub ret: usize,
    pub args: Vec<usize>,
    pub affects: Vec<usize>,
}

impl View for FuncAbst {
    type V = AbstV;

    open spec fn view(&self) -> AbstV {
        (self.ret as int, ints(self.args@), ints(self.affects@))
    }
}

fn ids_eq(a: &Vec<usize>, b: &Vec<usize>) -> (r: bool)
    ensures
        r == (ints(a@) == ints(b@)),
{
    if a.len() != b.len() {
        return false;
    }
    let mut i: usize = 0;
    while i < a.len()
        invariant
            a@.len() == b@.len(),
            i <= a@.len(),
            forall|k: int| 0 <= k < i ==> a@[k] == b@[k],
        decreases a.len() - i,
    {
        if a[i] != b[i] {
            assert(ints(a@)[i as int] != ints(b@)[i as int]);
            return false;
        }
        i = i + 1;
    }
    assert(ints(a@) =~= ints(b@));
    true
}

impl Same for FuncAbst {
    fn same(&self, other: &FuncAbst) -> (r: bool) {
        self.ret == other.ret && ids_eq(&self.args, &other.args) && ids_eq(&self.affects, &other.affects)
    }
}

/// What the arguments of a function are known by. An argument that is not
/// data is known by the kind the function returns.
pub open spec fn arg_keys(f: FunctionV) -> Seq<Seq<char>> {
    f.args.map_values(|a: NT| type_key(a.1, f.returns.1.kind))
}

/// The full names of the functions that the annotations affect, in order.
pub open spec fn affect_keys(annos: Seq<AnnotationV>) -> Seq<Seq<char>>
    decreases annos.len(),
{
    if annos.len() == 0 {
        Seq::empty()
    } else {
        affect_keys(annos.drop_last()) + match annos.last() {
            AnnotationV::Affect { func, .. } => seq![func.0.full()],
            _ => Seq::empty(),
        }
    }
}

/// What a function is reduced to, and the ids issued on the way: first
/// what it returns, then what it takes, then what it affects.
pub open spec fn func_abst(state: Seq<Seq<char>>, f: FunctionV) -> (Seq<Seq<char>>, AbstV) {
    let (s1, r) = issue(state, type_key(f.returns.1, f.returns.1.kind));
    let (s2, a) = issue_all(s1, arg_keys(f));
    let (s3, e) = issue_all(s2, affect_keys(f.annotations));
    (s3, (r, a.sort(), e))
}

/// Sequences with the same items, each as often, still have them after the
/// same function is applied to every item.
proof fn lemma_map_same_items<A, B>(x: Seq<A>, y: Seq<A>, h: spec_fn(A) -> B)
    requires
        x.to_multiset() == y.to_multiset(),
    ensures
        x.map_values(h).to_multiset() == y.map_values(h).to_multiset(),
    decreases x.len(),
{
    broadcast use vstd::seq_lib::group_to_multiset_ensures;
    broadcast use vstd::multiset::group_multiset_axioms;

    if x.len() == 0 {
        assert(x.to_multiset().len() == 0);
        assert(y.to_multiset().len() == y.len());
        assert(y.len() == 0);
        assert(x.map_values(h) =~= Seq::<B>::empty());
        assert(y.map_values(h) =~= Seq::<B>::empty());
    } else {
        let a = x.last();
        let x1 = x.drop_last();
        assert(x == x1.push(a));
        assert(x.to_multiset() =~= x1.to_multiset().insert(a));
        assert(y.to_multiset().count(a) > 0);
        assert(y.contains(a));
        let i = choose|i: int| 0 <= i < y.len() && y[i] == a;
        let y1 = y.remove(i);
        assert(y1.to_multiset() =~= y.to_multiset().remove(a));
        assert(y1.to_multiset() =~= x1.to_multiset());
        lemma_map_same_items(x1, y1, h);
        let ym = y.map_values(h);
        assert(x.map_values(h) =~= x1.map_values(h).push(h(a)));
        assert(ym.remove(i) =~= y1.map_values(h));
        assert(ym[i] == h(a));
        assert(ym.remove(i).to_multiset() =~= ym.to_multiset().remove(h(a)));
        assert(ym.to_multiset().count(h(a)) > 0) by {
            assert(ym.contains(h(a)));
        }
        assert(ym.to_multiset() =~= ym.to_multiset().remove(h(a)).insert(h(a)));
    }
}

/// Issuing ids keeps the items distinct and those met before in place; each
/// key gets the index where it stands among the items after.
proof fn lemma_issue_all_indices(state: Seq<Seq<char>>, keys: Seq<Seq<char>>)
    requires
        state.no_duplicates(),
    ensures
        ({
            let (s2, ids) = issue_all(state, keys);
            &&& s2.no_duplicates()
            &&& state.is_prefix_of(s2)
            &&& ids.len() == keys.len()
            &&& forall|k: int| 0 <= k < keys.len() ==> 0 <= #[trigger] ids[k] < s2.len() && s2[ids[k]] == keys[k]
        }),
    decreases keys.len(),
{
    if keys.len() > 0 {
        lemma_issue_all_indices(state, keys.drop_last());
        let (s1, ids1) = issue_all(state, keys.drop_last());
        lemma_issue_wf(s1, keys.last());
        let (s2, ids) = issue_all(state, keys);
        assert forall|k: int| 0 <= k < keys.len() implies 0 <= #[trigger] ids[k] < s2.len() && s2[ids[k]] == keys[k] by {
            if k < keys.len() - 1 {
                assert(ids[k] == ids1[k]);
                assert(s2[ids1[k]] == s1[ids1[k]]);
            }
        }
    }
}

/// Issuing ids for keys that have all been met changes nothing.
proof fn lemma_issue_all_met(state: Seq<Seq<char>>, keys: Seq<Seq<char>>)
    requires
        forall|k: int| 0 <= k < keys.len() ==> state.contains(#[trigger] keys[k]),
    ensures
        issue_all(state, keys).0 == state,
    decreases keys.len(),
{
    if keys.len() > 0 {
        lemma_issue_all_met(state, keys.drop_last());
        assert(state.contains(keys[keys.len() - 1]));
    }
}

/// In items without duplicates, an item stands at one index only.
proof fn lemma_one_index(items: Seq<Seq<char>>, i: int, j: int)
    requires
        items.no_duplicates(),
        0 <= i < items.len(),
        0 <= j < items.len(),
        items[i] == items[j],
    ensures
        i == j,
{
}

/// What a function is reduced to, in terms of the items met once it has been
/// reduced: the index of the key of what it returns, the indices of the keys
/// of its arguments (one per argument) from the smallest up, and the indices
/// of the functions it affects, in order.
pub proof fn lemma_abst_is_indices(state: Seq<Seq<char>>, f: FunctionV)
    requires
        state.no_duplicates(),
    ensures
        ({
            let (s3, (r, a, e)) = func_abst(state, f);
            let ek = affect_keys(f.annotations);
            &&& s3.no_duplicates()
            &&& 0 <= r < s3.len() && s3[r] == type_key(f.returns.1, f.returns.1.kind)
            &&& sorted_by(a, int_le())
            &&& a.to_multiset() == arg_keys(f).map_values(|x: Seq<char>| id_in(s3, x)).to_multiset()
            &&& e.len() == ek.len()
            &&& forall|k: int| 0 <= k < ek.len() ==> 0 <= #[trigger] e[k] < s3.len() && s3[e[k]] == ek[k]
        }),
{
    let rk = type_key(f.returns.1, f.returns.1.kind);
    let fk = arg_keys(f);
    let ek = affect_keys(f.annotations);
    lemma_issue_wf(state, rk);
    let (s1, rf) = issue(state, rk);
    lemma_issue_all_indices(s1, fk);
    let (s2, af) = issue_all(s1, fk);
    lemma_issue_all_indices(s2, ek);
    let (s3, ef) = issue_all(s2, ek);
    assert(s3[rf] == rk) by {
        assert(s2[rf] == s1[rf]);
    }
    let idx = |x: Seq<char>| id_in(s3, x);
    assert(af =~= fk.map_values(idx)) by {
        assert forall|k: int| 0 <= k < fk.len() implies af[k] == #[trigger] fk.map_values(idx)[k] by {
            assert(s3[af[k]] == s2[af[k]]);
            let c = id_in(s3, fk[k]);
            assert(s3.contains(fk[k]));
            assert(0 <= c < s3.len() && s3[c] == fk[k]);
            lemma_one_index(s3, c, af[k]);
        }
    }
    af.lemma_sort_ensures();
    assert(int_le() =~= |x: int, y: int| x <= y);
}

/// What a function is reduced to does not depend on the order of its
/// arguments: a function whose argument types are those of another, in any
/// order, and which returns and affects the same, is reduced to the same
/// thing, whichever of the two is met first.
pub proof fn lemma_abst_ignores_arg_order(state: Seq<Seq<char>>, f: FunctionV, g: FunctionV)
    requires
        state.no_duplicates(),
        f.returns.1 == g.returns.1,
        affect_keys(f.annotations) == affect_keys(g.annotations),
        f.args.map_values(|a: NT| a.1).to_multiset() == g.args.map_values(|a: NT| a.1).to_multiset(),
    ensures
        func_abst(func_abst(state, f).0, g).1 == func_abst(state, f).1,
{
    let kind = f.returns.1.kind;
    let rk = type_key(f.returns.1, kind);
    let fk = arg_keys(f);
    let gk = arg_keys(g);
    let ek = affect_keys(f.annotations);
    let key = |t: TypeV| type_key(t, kind);
    assert(fk =~= f.args.map_values(|a: NT| a.1).map_values(key));
    assert(gk =~= g.args.map_values(|a: NT| a.1).map_values(key));
    lemma_map_same_items(f.args.map_values(|a: NT| a.1), g.args.map_values(|a: NT| a.1), key);

    lemma_issue_wf(state, rk);
    let (s1, rf) = issue(state, rk);
    lemma_issue_all_indices(s1, fk);
    let (s2, af) = issue_all(s1, fk);
    lemma_issue_all_indices(s2, ek);
    let (s3, ef) = issue_all(s2, ek);
    // everything met for `f` stands where it stood in the items after it
    assert(s3[rf] == rk) by {
        assert(s2[rf] == s1[rf]);
    }
    assert forall|k: int| 0 <= k < fk.len() implies s3[#[trigger] af[k]] == fk[k] by {
        assert(s3[af[k]] == s2[af[k]]);
    }
    // `g` meets only what `f` met
    assert forall|k: int| 0 <= k < gk.len() implies s3.contains(#[trigger] gk[k]) by {
        broadcast use vstd::seq_lib::group_to_multiset_ensures;
        assert(gk.contains(gk[k]));
        assert(gk.to_multiset().count(gk[k]) > 0);
        assert(fk.contains(gk[k]));
        let j = choose|j: int| 0 <= j < fk.len() && fk[j] == gk[k];
        assert(s3[af[j]] == fk[j]);
    }
    assert forall|k: int| 0 <= k < ek.len() implies s3.contains(#[trigger] ek[k]) by {
        assert(s3[ef[k]] == ek[k]);
    }
    assert(s3.contains(rk)) by {
        assert(s3[rf] == rk);
    }
    let (t1, rg) = issue(s3, rk);
    let rg2 = id_in(s3, rk);
    assert(0 <= rg2 < s3.len() && s3[rg2] == rk);
    lemma_one_index(s3, rg, rf);
    assert(t1 == s3);
    lemma_issue_all_met(s3, gk);
    lemma_issue_all_indices(s3, gk);
    let (t2, ag) = issue_all(s3, gk);
    lemma_issue_all_met(s3, ek);
    lemma_issue_all_indices(s3, ek);
    let (t3, eg) = issue_all(s3, ek);
    assert(eg =~= ef) by {
        assert forall|k: int| 0 <= k < ek.len() implies eg[k] == ef[k] by {
            lemma_one_index(s3, eg[k], ef[k]);
        }
    }
    // the argument ids of both are the indices of their keys, so the same
    // ids, in another order
    let idx = |x: Seq<char>| id_in(s3, x);
    assert(af =~= fk.map_values(idx)) by {
        assert forall|k: int| 0 <= k < fk.len() implies af[k] == #[trigger] fk.map_values(idx)[k] by {
            let c = id_in(s3, fk[k]);
            assert(s3.contains(fk[k])) by {
                assert(s3[af[k]] == fk[k]);
            }
            assert(0 <= c < s3.len() && s3[c] == fk[k]);
            lemma_one_index(s3, c, af[k]);
        }
    }
    assert(ag =~= gk.map_values(idx)) by {
        assert forall|k: int| 0 <= k < gk.len() implies ag[k] == #[trigger] gk.map_values(idx)[k] by {
            let c = id_in(s3, gk[k]);
            assert(s3.contains(gk[k]));
            assert(0 <= c < s3.len() && s3[c] == gk[k]);
            lemma_one_index(s3, c, ag[k]);
        }
    }
    lemma_map_same_items(fk, gk, idx);
    af.lemma_sort_ensures();
    ag.lemma_sort_ensures();
    lemma_int_le_total();
    assert(int_le() =~= |x: int, y: int| x <= y);
    vstd::seq_lib::lemma_sorted_unique(af.sort(), ag.sort(), int_le());
}

fn gen_func_abst<'a>(id_issuer: &mut IdIssuer<String>, func: &'a SysDCFunction) -> (r: (&'a Name, FuncAbst))
    ensures
        r.0 == &func.name,
        final(id_issuer)@.no_duplicates(),
        (final(id_issuer)@, r.1@) == func_abst(old(id_issuer)@, func@),
{
    let ret_id = id_issuer.issue_index(type_key_of(&func.returns.1, &func.returns.1.kind));

    let mut arg_keys: Vec<String> = Vec::new();
    let mut i: usize = 0;
    while i < func.args.len()
        invariant
            i <= func.args@.len(),
            string_views(arg_keys@) == self::arg_keys(func@).take(i as int),
        decreases func.args.len() - i,
    {
        let ghost before = arg_keys@;
        arg_keys.push(type_key_of(&func.args[i].1, &func.returns.1.kind));
        assert(string_views(arg_keys@) =~= string_views(before).push(self::arg_keys(func@)[i as int]));
        i = i + 1;
        assert(self::arg_keys(func@).take(i as int) =~= self::arg_keys(func@).take(i - 1).push(self::arg_keys(func@)[i - 1]));
    }
    assert(self::arg_keys(func@).take(i as int) =~= self::arg_keys(func@));
    let arg_ids = issue_keys(id_issuer, arg_keys);
    let args_set = sorted_ids(&arg_ids);

    let ghost annos = views_of(func.annotations@);
    let mut affect_keys: Vec<String> = Vec::new();
    let mut j: usize = 0;
    assert(annos.take(0) =~= Seq::<AnnotationV>::empty());
    while j < func.annotations.len()
        invariant
            j <= func.annotations@.len(),
            annos == views_of(func.annotations@),
            string_views(affect_keys@) == self::affect_keys(annos.take(j as int)),
        decreases func.annotations.len() - j,
    {
        let ghost before = affect_keys@;
        assert(annos.take(j + 1).drop_last() =~= annos.take(j as int));
        match &func.annotations[j] {
            SysDCAnnotation::Affect { func: (fname, _), .. } => {
                affect_keys.push(fname.get_full_name());
                assert(string_views(affect_keys@) =~= string_views(before) + seq![fname@.full()]);
            },
            _ => {
                assert(string_views(affect_keys@) =~= string_views(before) + Seq::<Seq<char>>::empty());
            },
        }
        j = j + 1;
    }
    assert(annos.take(j as int) =~= annos);
    let affect_set = issue_keys(id_issuer, affect_keys);

    (&func.name, FuncAbst { ret: ret_id, args: args_set, affects: affect_set })
}

/// The functions of the modules, in order.
pub open spec fn modules_functions(ms: Seq<ModuleV>) -> Seq<FunctionV>
    decreases ms.len(),
{
    if ms.len() == 0 {
        Seq::empty()
    } else {
        modules_functions(ms.drop_last()) + ms.last().functions
    }
}

/// The functions of the units, unit by unit and module by module.
pub open spec fn units_functions(us: Seq<UnitV>) -> Seq<FunctionV>
    decreases us.len(),
{
    if us.len() == 0 {
        Seq::empty()
    } else {
        units_functions(us.drop_last()) + modules_functions(us.last().modules)
    }
}

/// The models of a list of functions.
pub open spec fn function_views(v: Seq<&SysDCFunction>) -> Seq<FunctionV> {
    v.map_values(|f: &SysDCFunction| f@)
}

fn functions_of(system: &SysDCSystem) -> (r: Vec<&SysDCFunction>)
    ensures
        function_views(r@) == units_functions(system@.units),
{
    let mut funcs: Vec<&SysDCFunction> = Vec::new();
    let mut i: usize = 0;
    while i < system.units.len()
        invariant
            i <= system.units@.len(),
            function_views(funcs@) == units_functions(system@.units.take(i as int)),
        decreases system.units.len() - i,
    {
        let unit = &system.units[i];
        let ghost before_unit = function_views(funcs@);
        let mut j: usize = 0;
        while j < unit.modules.len()
            invariant
                j <= unit.modules@.len(),
                function_views(funcs@) == before_unit + modules_functions(unit@.modules.take(j as int)),
            decreases unit.modules.len() - j,
        {
            let module = &unit.modules[j];
            let ghost before = function_views(funcs@);
            let mut k: usize = 0;
            while k < module.functions.len()
                invariant
                    k <= module.functions@.len(),
                    function_views(funcs@) == before + module@.functions.take(k as int),
                decreases module.functions.len() - k,
            {
                let ghost prev = funcs@;
                funcs.push(&module.functions[k]);
                assert(function_views(funcs@) =~= function_views(prev).push(module@.functions[k as int]));
                k = k + 1;
                assert(module@.functions.take(k as int) =~= module@.functions.take(k - 1).push(module@.functions[k - 1]));
            }
            assert(module@.functions.take(k as int) =~= module@.functions);
            assert(unit@.modules.take(j + 1).drop_last() =~= unit@.modules.take(j as int));
            j = j + 1;
        }
        assert(unit@.modules.take(j as int) =~= unit@.modules);
        assert(system@.units.take(i + 1).drop_last() =~= system@.units.take(i as int));
        i = i + 1;
    }
    assert(system@.units.take(i as int) =~= system@.units);
    funcs
}

/// Each function with what it is reduced to, in order, and the ids issued
/// on the way.
pub open spec fn abst_entries(state: Seq<Seq<char>>, fs: Seq<FunctionV>) -> (Seq<Seq<char>>, Seq<(Seq<char>, AbstV)>)
    decreases fs.len(),
{
    if fs.len() == 0 {
        (state, Seq::empty())
    } else {
        let (s1, es) = abst_entries(state, fs.drop_last());
        let (s2, a) = func_abst(s1, fs.last());
        (s2, es.push((fs.last().name.full(), a)))
    }
}

/// The first place from `i` on where the name `k` stands, or -1.
pub open spec fn key_pos<A>(m: Seq<(Seq<char>, A)>, k: Seq<char>, i: int) -> int
    decreases m.len() - i,
{
    if i < 0 || i >= m.len() {
        -1
    } else if m[i].0 == k {
        i
    } else {
        key_pos(m, k, i + 1)
    }
}

/// `m` where the name `k` is given `v`: in its place if it stands in `m`,
/// at the end otherwise.
pub open spec fn upsert<A>(m: Seq<(Seq<char>, A)>, k: Seq<char>, v: A) -> Seq<(Seq<char>, A)> {
    let p = key_pos(m, k, 0);
    if p < 0 {
        m.push((k, v))
    } else {
        m.update(p, (k, v))
    }
}

/// Each name once, where it first stands, with the value it was given last.
pub open spec fn latest<A>(es: Seq<(Seq<char>, A)>) -> Seq<(Seq<char>, A)>
    decreases es.len(),
{
    if es.len() == 0 {
        Seq::empty()
    } else {
        upsert(latest(es.drop_last()), es.last().0, es.last().1)
    }
}

/// The models of a list of named reductions.
pub open spec fn entry_views(v: Seq<(String, FuncAbst)>) -> Seq<(Seq<char>, AbstV)> {
    v.map_values(|e: (String, FuncAbst)| (e.0@, e.1@))
}

fn upsert_entry(entries: &mut Vec<(String, FuncAbst)>, name: String, abst: FuncAbst)
    ensures
        entry_views(final(entries)@) == upsert(entry_views(old(entries)@), name@, abst@),
{
    let ghost es = entry_views(entries@);
    let mut i: usize = 0;
    while i < entries.len()
        invariant
            i <= entries@.len(),
            es == entry_views(entries@),
            es == entry_views(old(entries)@),
            key_pos(es, name@, 0) == key_pos(es, name@, i as int),
        decreases entries.len() - i,
    {
        if entries[i].0 == name {
            assert(es[i as int].0 == name@);
            assert(key_pos(es, name@, i as int) == i);
            let ghost nv = name@;
            let ghost av = abst@;
            entries.set(i, (name, abst));
            assert(entry_views(entries@) =~= es.update(i as int, (nv, av)));
            return;
        }
        i = i + 1;
    }
    let ghost nv = name@;
    let ghost av = abst@;
    entries.push((name, abst));
    assert(entry_views(entries@) =~= es.push((nv, av)));
}

/// The names grouped by what they are reduced to, each group where its
/// first name stands, with the reductions met so far.
pub open spec fn grouped(es: Seq<(Seq<char>, AbstV)>) -> (Seq<AbstV>, Seq<Seq<Seq<char>>>)
    decreases es.len(),
{
    if es.len() == 0 {
        (Seq::empty(), Seq::empty())
    } else {
        let (h, gs) = grouped(es.drop_last());
        let (h2, hid) = issue(h, es.last().1);
        (h2, if hid < gs.len() {
            gs.update(hid, gs[hid].push(es.last().0))
        } else {
            gs.push(seq![es.last().0])
        })
    }
}

/// The parts with `sep` between each two.
pub open spec fn join_by(parts: Seq<Seq<char>>, sep: Seq<char>) -> Seq<char>
    decreases parts.len(),
{
    if parts.len() == 0 {
        Seq::empty()
    } else if parts.len() == 1 {
        parts[0]
    } else {
        join_by(parts.drop_last(), sep) + sep + parts.last()
    }
}

/// One line for each group of two names or more: the names, separated by
/// ` / `.
pub open spec fn dup_lines(gs: Seq<Seq<Seq<char>>>) -> Seq<Seq<char>>
    decreases gs.len(),
{
    if gs.len() == 0 {
        Seq::empty()
    } else {
        dup_lines(gs.drop_last()) + if gs.last().len() > 1 {
            seq![join_by(gs.last(), " / "@)]
        } else {
            Seq::empty()
        }
    }
}

/// The advice on what could be merged: a warning with one line for each
/// group of functions reduced to the same thing, or nothing when there is
/// no such group.
pub open spec fn duplication_stat(s: SystemV) -> Option<AdviceV> {
    let es = latest(abst_entries(Seq::empty(), units_functions(s.units)).1);
    let lines = dup_lines(grouped(es).1);
    if lines.len() == 0 {
        None
    } else {
        Some(AdviceV { level: AdviceLevel::Warning, title: "統合可能な処理"@, messages: lines })
    }
}

fn join_names(names: &Vec<String>, sep: &str) -> (r: String)
    ensures
        r@ == join_by(string_views(names@), sep@),
{
    let ghost ns = string_views(names@);
    let mut r = String::new();
    let mut i: usize = 0;
    while i < names.len()
        invariant
            i <= names@.len(),
            ns == string_views(names@),
            r@ == join_by(ns.take(i as int), sep@),
        decreases names.len() - i,
    {
        if i > 0 {
            r.append(sep);
        }
        r.append(names[i].as_str());
        assert(ns.take(i + 1).drop_last() =~= ns.take(i as int));
        if i == 0 {
            assert(r@ =~= ns.take(1)[0]);
        }
        i = i + 1;
    }
    assert(ns.take(i as int) =~= ns);
    r
}

/// The models of groups of names.
pub open spec fn group_views(gs: Seq<Vec<String>>) -> Seq<Seq<Seq<char>>> {
    gs.map_values(|g: Vec<String>| string_views(g@))
}

proof fn lemma_grouped_len(es: Seq<(Seq<char>, AbstV)>)
    ensures
        grouped(es).0.len() == grouped(es).1.len(),
        grouped(es).0.no_duplicates(),
    decreases es.len(),
{
    if es.len() > 0 {
        lemma_grouped_len(es.drop_last());
        lemma_issue_wf(grouped(es.drop_last()).0, es.last().1);
    }
}

/// The advice on what could be merged: the functions that return, take and
/// affect the same things, in groups.
pub fn eval_duplication_stat(system: &SysDCSystem) -> (r: Option<Advice>)
    ensures
        advice_option_view(r) == duplication_stat(system@),
{
    let funcs = functions_of(system);
    let ghost fs = units_functions(system@.units);
    let mut fid_issuer: IdIssuer<String> = IdIssuer::new();
    let mut entries: Vec<(String, FuncAbst)> = Vec::new();
    let mut i: usize = 0;
    assert(fs.take(0) =~= Seq::<FunctionV>::empty());
    assert(entry_views(entries@) =~= Seq::<(Seq<char>, AbstV)>::empty());
    while i < funcs.len()
        invariant
            i <= funcs@.len(),
            function_views(funcs@) == fs,
            fid_issuer@ == abst_entries(Seq::empty(), fs.take(i as int)).0,
            entry_views(entries@) == latest(abst_entries(Seq::empty(), fs.take(i as int)).1),
        decreases funcs.len() - i,
    {
        let ghost prev = abst_entries(Seq::empty(), fs.take(i as int));
        let (fname, fabst) = gen_func_abst(&mut fid_issuer, funcs[i]);
        assert(fs.take(i + 1).drop_last() =~= fs.take(i as int));
        assert(fs[i as int] == funcs@[i as int]@);
        let full = fname.get_full_name();
        let ghost cur = abst_entries(Seq::empty(), fs.take(i + 1));
        assert(cur.1 == prev.1.push((full@, fabst@)));
        assert(cur.1.drop_last() =~= prev.1);
        upsert_entry(&mut entries, full, fabst);
        i = i + 1;
    }
    assert(fs.take(i as int) =~= fs);
    let ghost es = entry_views(entries@);

    let mut hid_issuer: IdIssuer<FuncAbst> = IdIssuer::new();
    let mut groups: Vec<Vec<String>> = Vec::new();
    let mut k: usize = 0;
    let n = entries.len();
    assert(es.take(0) =~= Seq::<(Seq<char>, AbstV)>::empty());
    assert(group_views(groups@) =~= Seq::<Seq<Seq<char>>>::empty());
    while entries.len() > 0
        invariant
            k + entries@.len() == n,
            n == es.len(),
            entry_views(entries@) == es.subrange(k as int, n as int),
            hid_issuer@ == grouped(es.take(k as int)).0,
            group_views(groups@) == grouped(es.take(k as int)).1,
        decreases entries.len(),
    {
        let ghost eb = entries@;
        let (name, abst) = entries.remove(0);
        assert(entry_views(eb)[0] == es.subrange(k as int, n as int)[0]);
        assert(entry_views(entries@) =~= entry_views(eb).subrange(1, eb.len() as int));
        assert(es.take(k + 1).drop_last() =~= es.take(k as int));
        assert(es.take(k + 1).last() == (name@, abst@));
        proof {
            lemma_grouped_len(es.take(k as int));
        }
        let ghost gb = groups@;
        let hid = hid_issuer.issue_index(abst);
        if hid < groups.len() {
            let ghost nv = name@;
            let mut grp: Vec<String> = Vec::new();
            std::mem::swap(&mut grp, &mut groups[hid]);
            assert(grp@ == gb[hid as int]@);
            grp.push(name);
            assert(string_views(grp@) =~= string_views(gb[hid as int]@).push(nv));
            groups.set(hid, grp);
            assert(group_views(groups@) =~= group_views(gb).update(hid as int, group_views(gb)[hid as int].push(nv)));
        } else {
            let ghost nv = name@;
            groups.push(vec![name]);
            assert(string_views(groups@[groups@.len() - 1]@) =~= seq![nv]);
            assert(group_views(groups@) =~= group_views(gb).push(seq![nv]));
        }
        k = k + 1;
        assert(entry_views(entries@) =~= es.subrange(k as int, n as int));
    }
    assert(es.take(k as int) =~= es);
    let ghost gs = group_views(groups@);

    let mut messages: Vec<String> = Vec::new();
    let mut g: usize = 0;
    assert(gs.take(0) =~= Seq::<Seq<Seq<char>>>::empty());
    while g < groups.len()
        invariant
            g <= groups@.len(),
            gs == group_views(groups@),
            string_views(messages@) == dup_lines(gs.take(g as int)),
        decreases groups.len() - g,
    {
        let ghost before = string_views(messages@);
        assert(gs.take(g + 1).drop_last() =~= gs.take(g as int));
        if groups[g].len() > 1 {
            messages.push(join_names(&groups[g], " / "));
            assert(string_views(messages@) =~= before + seq![join_by(gs[g as int], " / "@)]);
        } else {
            assert(string_views(messages@) =~= before + Seq::<Seq<char>>::empty());
        }
        g = g + 1;
    }
    assert(gs.take(g as int) =~= gs);
    if messages.len() == 0 {
        None
    } else {
        Some(Advice::new(AdviceLevel::Warning, String::from_str("統合可能な処理"), messages))
    }
}

/// Whether a name stands in `es` with the reduction `a`.
pub open spec fn reduced_to(es: Seq<(Seq<char>, AbstV)>, x: Seq<char>, a: AbstV) -> bool {
    exists|p: int| 0 <= p < es.len() && #[trigger] es[p] == (x, a)
}

/// Functions are grouped by what they are reduced to: the group at index
/// `g` holds exactly the names reduced to the `g`-th reduction met, every
/// reduction met is that of some name, and no reduction is met twice.
pub proof fn lemma_groups_by_abst(es: Seq<(Seq<char>, AbstV)>)
    ensures
        grouped(es).0.len() == grouped(es).1.len(),
        grouped(es).0.no_duplicates(),
        forall|p: int| 0 <= p < es.len() ==> grouped(es).0.contains(#[trigger] es[p].1),
        forall|g: int, x: Seq<char>|
            0 <= g < grouped(es).1.len() ==> (#[trigger] grouped(es).1[g].contains(x) <==> reduced_to(
                es,
                x,
                grouped(es).0[g],
            )),
    decreases es.len(),
{
    lemma_grouped_len(es);
    if es.len() > 0 {
        let prev = es.drop_last();
        lemma_groups_by_abst(prev);
        let (h, gs) = grouped(prev);
        let (n, a) = es.last();
        lemma_issue_wf(h, a);
        let (h2, hid) = issue(h, a);
        let gs2 = grouped(es).1;
        assert forall|p: int| 0 <= p < es.len() implies h2.contains(#[trigger] es[p].1) by {
            if p < es.len() - 1 {
                assert(es[p] == prev[p]);
                assert(h.contains(prev[p].1));
                let k = choose|k: int| 0 <= k < h.len() && h[k] == prev[p].1;
                assert(h2[k] == h[k]);
            } else {
                assert(h2[hid] == a);
            }
        }
        assert forall|g: int, x: Seq<char>| 0 <= g < gs2.len() implies (#[trigger] gs2[g].contains(x) <==> reduced_to(es, x, h2[g])) by {
            if g < gs.len() {
                assert(h2[g] == h[g]);
            }
            if g == hid {
                if hid < gs.len() {
                    assert(gs2[g] == gs[g].push(n));
                    if gs2[g].contains(x) {
                        if x == n {
                            assert(es[es.len() - 1] == (x, h2[g]));
                        } else {
                            let j = choose|j: int| 0 <= j < gs2[g].len() && gs2[g][j] == x;
                            assert(gs[g][j] == x);
                            assert(gs[g].contains(x));
                            let p = choose|p: int| 0 <= p < prev.len() && #[trigger] prev[p] == (x, h[g]);
                            assert(es[p] == prev[p]);
                        }
                    }
                    if reduced_to(es, x, h2[g]) {
                        let p = choose|p: int| 0 <= p < es.len() && #[trigger] es[p] == (x, h2[g]);
                        if p == es.len() - 1 {
                            assert(gs2[g][gs2[g].len() - 1] == x);
                        } else {
                            assert(prev[p] == es[p]);
                            assert(reduced_to(prev, x, h[g]));
                            assert(gs[g].contains(x));
                            let j = choose|j: int| 0 <= j < gs[g].len() && gs[g][j] == x;
                            assert(gs2[g][j] == x);
                        }
                    }
                } else {
                    assert(gs2[g] == seq![n]);
                    assert(!h.contains(a));
                    if gs2[g].contains(x) {
                        assert(gs2[g][0] == x);
                        assert(es[es.len() - 1] == (x, h2[g]));
                    }
                    if reduced_to(es, x, h2[g]) {
                        let p = choose|p: int| 0 <= p < es.len() && #[trigger] es[p] == (x, h2[g]);
                        if p < es.len() - 1 {
                            assert(prev[p] == es[p]);
                            assert(h.contains(prev[p].1));
                        }
                        assert(gs2[g][0] == x);
                    }
                }
            } else {
                assert(g < gs.len());
                assert(gs2[g] == gs[g]);
                assert(h[g] != a) by {
                    if h[g] == a {
                        assert(h2[g] == a && h2[hid] == a);
                    }
                }
                if reduced_to(es, x, h2[g]) {
                    let p = choose|p: int| 0 <= p < es.len() && #[trigger] es[p] == (x, h2[g]);
                    assert(p < es.len() - 1);
                    assert(prev[p] == es[p]);
                    assert(reduced_to(prev, x, h[g]));
                }
                if gs2[g].contains(x) {
                    assert(reduced_to(prev, x, h[g]));
                    let p = choose|p: int| 0 <= p < prev.len() && #[trigger] prev[p] == (x, h[g]);
                    assert(es[p] == prev[p]);
                }
            }
        }
    }
}

} // verus!
