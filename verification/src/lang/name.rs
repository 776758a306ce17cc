//! Names: every definition lives in a dotted namespace below the root `.0`.
use vstd::prelude::*;
use crate::text::{
    split_by, join_with, drop_underscores, views, chars_of, string_of, split_chars, join_chars,
    filter_underscores, contains_char, lemma_split_two,
};

verus! {

/// A name and the full name of the namespace it is defined in.
#[derive(Debug, PartialEq, Eq)]
pub struct Name {
    pub name: String,
    pub namespace: String,
}

/// The mathematical model of a name.
pub struct NameV {
    pub name: Seq<char>,
    pub namespace: Seq<char>,
}

impl NameV {
    /// `namespace.name`
    pub open spec fn full(self) -> Seq<char> {
        self.namespace + seq!['.'] + self.name
    }

    /// The root of every namespace: `.0`.
    pub open spec fn root() -> NameV {
        NameV { name: seq!['0'], namespace: Seq::<char>::empty() }
    }

    /// The name `n` defined inside this name.
    pub open spec fn child(self, n: Seq<char>) -> NameV {
        NameV { name: n, namespace: self.full() }
    }

    /// The components of the full name, without lone underscores when asked.
    pub open spec fn full_parts(self, ignore_underscore: bool) -> Seq<Seq<char>> {
        let parts = split_by(self.full(), '.');
        if ignore_underscore {
            drop_underscores(parts)
        } else {
            parts
        }
    }

    /// The components of the namespace, without lone underscores when asked.
    pub open spec fn namespace_parts(self, ignore_underscore: bool) -> Seq<Seq<char>> {
        let parts = split_by(self.namespace, '.');
        if ignore_underscore {
            drop_underscores(parts)
        } else {
            parts
        }
    }

    /// The name made of the last but one component of `parts` and the
    /// components before it; empty when there are fewer than two.
    pub open spec fn from_parts(parts: Seq<Seq<char>>) -> NameV {
        if parts.len() >= 2 {
            NameV {
                name: parts[parts.len() - 2],
                namespace: join_with(parts.take(parts.len() - 2), '.'),
            }
        } else {
            NameV { name: Seq::<char>::empty(), namespace: Seq::<char>::empty() }
        }
    }

    /// The parent: the name whose full name is this one's namespace.
    pub open spec fn par(self, ignore_underscore: bool) -> NameV {
        NameV::from_parts(self.full_parts(ignore_underscore))
    }

    /// The parent of the namespace.
    pub open spec fn outer(self, ignore_underscore: bool) -> NameV {
        NameV::from_parts(self.namespace_parts(ignore_underscore))
    }

    pub open spec fn has_underscore(self) -> bool {
        self.namespace.contains('_') || self.name.contains('_')
    }
}

impl View for Name {
    type V = NameV;

    open spec fn view(&self) -> NameV {
        NameV { name: self.name@, namespace: self.namespace@ }
    }
}

impl Clone for Name {
    fn clone(&self) -> (r: Name)
        ensures
            r@ == self@,
    {
        Name { name: self.name.clone(), namespace: self.namespace.clone() }
    }
}

/// The name built from the last but one part and the parts before it.
fn name_from_parts(parts: &Vec<Vec<char>>) -> (r: Name)
    ensures
        r@ == NameV::from_parts(views(parts@)),
{
    if parts.len() >= 2 {
        let n = parts.len() - 2;
        let name = string_of(&parts[n]);
        let ns = join_chars(parts, n, '.');
        let namespace = string_of(&ns);
        Name { name, namespace }
    } else {
        Name { name: String::new(), namespace: String::new() }
    }
}

impl Name {
    /// The name `name` defined inside `base`.
    pub fn new(base: &Name, name: String) -> (r: Name)
        ensures
            r@ == base@.child(name@),
    {
        Name { name, namespace: base.get_full_name() }
    }

    /// The root name `.0`.
    pub fn new_root() -> (r: Name)
        ensures
            r@ == NameV::root(),
    {
        let mut name = String::new();
        crate::text::push_char(&mut name, '0');
        assert(name@ =~= seq!['0']);
        Name { name, namespace: String::new() }
    }

    /// The characters of the full name.
    pub fn full_chars(&self) -> (r: Vec<char>)
        ensures
            r@ == self@.full(),
    {
        let mut r = chars_of(self.namespace.as_str());
        r.push('.');
        let n = chars_of(self.name.as_str());
        let mut i: usize = 0;
        let ghost base = r@;
        while i < n.len()
            invariant
                i <= n@.len(),
                r@ == base + n@.take(i as int),
            decreases n.len() - i,
        {
            r.push(n[i]);
            i = i + 1;
            assert(r@ =~= base + n@.take(i as int));
        }
        assert(n@.take(n@.len() as int) =~= n@);
        assert(r@ =~= self@.full());
        r
    }

    /// `namespace.name`
    pub fn get_full_name(&self) -> (r: String)
        ensures
            r@ == self@.full(),
    {
        let v = self.full_chars();
        string_of(&v)
    }

    /// The parent, defined everywhere (empty where fewer than two
    /// components remain).
    pub(crate) fn parent(&self, ignore_underscore: bool) -> (r: Name)
        ensures
            r@ == self@.par(ignore_underscore),
    {
        let full = self.full_chars();
        let parts = split_chars(&full, '.');
        if ignore_underscore {
            let kept = filter_underscores(&parts);
            name_from_parts(&kept)
        } else {
            name_from_parts(&parts)
        }
    }

    /// The parent of the namespace, defined everywhere.
    pub(crate) fn outer(&self, ignore_underscore: bool) -> (r: Name)
        ensures
            r@ == self@.outer(ignore_underscore),
    {
        let ns = chars_of(self.namespace.as_str());
        let parts = split_chars(&ns, '.');
        if ignore_underscore {
            let kept = filter_underscores(&parts);
            name_from_parts(&kept)
        } else {
            name_from_parts(&parts)
        }
    }

    /// The namespace as a name: its last component and the components
    /// before it (lone underscores left out when asked).
    pub fn get_namespace(&self, ignore_underscore: bool) -> (r: Name)
        requires
            self@.namespace_parts(ignore_underscore).len() >= 2,
        ensures
            r@ == self@.outer(ignore_underscore),
            r@.name == self@.namespace_parts(ignore_underscore)[self@.namespace_parts(
                ignore_underscore,
            ).len() - 2],
    {
        self.outer(ignore_underscore)
    }

    /// The parent name: the last but one component of the full name and
    /// the components before it (lone underscores left out when asked).
    pub fn get_par_name(&self, ignore_underscore: bool) -> (r: Name)
        requires
            ignore_underscore ==> self@.full_parts(true).len() >= 2,
        ensures
            r@ == self@.par(ignore_underscore),
            self@.full_parts(ignore_underscore).len() >= 2,
    {
        proof {
            assert(self@.full().contains('.')) by {
                assert(self@.full()[self@.namespace.len() as int] == '.');
            }
            lemma_split_two(self@.full(), '.');
        }
        self.parent(ignore_underscore)
    }

    /// Whether the name or its namespace holds an underscore.
    pub fn has_underscore(&self) -> (r: bool)
        ensures
            r == self@.has_underscore(),
    {
        contains_char(self.namespace.as_str(), '_') || contains_char(self.name.as_str(), '_')
    }

    /// Whether the two names are the same.
    pub fn same(&self, other: &Name) -> (r: bool)
        ensures
            r == (self@ == other@),
    {
        self.name == other.name && self.namespace == other.namespace
    }
}

/// The parent of a name defined inside `base` is `base`, where neither the
/// new name nor the last component of `base` holds a dot.
pub proof fn lemma_child_par(base: NameV, n: Seq<char>)
    requires
        !n.contains('.'),
        !base.name.contains('.'),
    ensures
        base.child(n).par(false) == base,
{
    crate::text::lemma_split_append(base.full(), n, '.');
    crate::text::lemma_split_append(base.namespace, base.name, '.');
    crate::text::lemma_join_split(base.namespace, '.');
    let parts = split_by(base.full(), '.').push(n);
    assert(base.child(n).full() == base.full() + seq!['.'] + n);
    assert(parts.take(parts.len() - 2) =~= split_by(base.namespace, '.'));
}

/// The namespace of a name, taken as a name, is the parent of its parent,
/// where the name is one component (no dot, and no lone underscore when
/// underscores are left out) and its namespace has two components or more.
pub proof fn lemma_namespace_is_grandparent(n: NameV, u: bool)
    requires
        !n.name.contains('.'),
        u ==> n.name != seq!['_'],
        n.namespace_parts(u).len() >= 2,
    ensures
        n.outer(u) == n.par(u).par(u),
{
    let sp = split_by(n.namespace, '.');
    let p = n.namespace_parts(u);
    crate::text::lemma_split_append(n.namespace, n.name, '.');
    crate::text::lemma_split_parts_no_sep(n.namespace, '.');
    assert(n.full() == n.namespace + seq!['.'] + n.name);
    assert(sp.push(n.name).drop_last() =~= sp);
    assert(n.full_parts(u) =~= p.push(n.name));
    let q = n.par(u);
    let fp = p.push(n.name);
    assert(q.name == p.last());
    assert(fp.take(fp.len() - 2) =~= p.drop_last());
    assert(q.namespace == join_with(p.drop_last(), '.'));
    assert(q.full() == join_with(p, '.'));
    assert(forall|k: int| 0 <= k < p.len() ==> !(#[trigger] p[k]).contains('.')) by {
        if u {
            crate::text::lemma_drop_underscores_parts(sp);
            assert forall|k: int| 0 <= k < p.len() implies !(#[trigger] p[k]).contains('.') by {
                let j = choose|j: int| 0 <= j < sp.len() && sp[j] == p[k];
                assert(!sp[j].contains('.'));
            }
        }
    }
    crate::text::lemma_split_join(p, '.');
    if u {
        crate::text::lemma_drop_underscores_parts(sp);
        crate::text::lemma_drop_underscores_none(p);
    }
    assert(q.full_parts(u) == p);
}

} // verus!
