//! Names of the compiler: every definition lives in a dotted namespace
//! below the root `.0`.
use vstd::prelude::*;
use crate::lang::name::NameV;

verus! {

/// A name and the full name of the namespace it is defined in.
#[derive(Debug, PartialEq, Eq)]
pub struct Name {
    pub name: String,
    pub namespace: String,
}

impl View for Name {
    type V = NameV;

    open spec fn view(&self) -> NameV {
        NameV { name: self.name@, namespace: self.namespace@ }
    }
}

impl Clone for Name {
    fn clone(&self) -> (r: Name)
        ensures
            r@ == self@,
    {
        Name { name: self.name.clone(), namespace: self.namespace.clone() }
    }
}

impl Name {
    /// The root name `.0`.
    pub fn new_root() -> (r: Name)
        ensures
            r@ == NameV::root(),
    {
        let root = crate::lang::name::Name::new_root();
        Name { name: root.name, namespace: root.namespace }
    }

    /// The name `name` in the namespace `.0.global`.
    pub fn new_on_global_namespace(name: String) -> (r: Name)
        ensures
            r@ == NameV::root().child(seq!['g', 'l', 'o', 'b', 'a', 'l']).child(name@),
    {
        proof {
            reveal_strlit("global");
            assert("global"@ =~= seq!['g', 'l', 'o', 'b', 'a', 'l']);
        }
        Name::from(&Name::from(&Name::new_root(), "global".to_owned()), name)
    }

    /// The name `name` defined inside `base`.
    pub fn from(base: &Name, name: String) -> (r: Name)
        ensures
            r@ == base@.child(name@),
    {
        Name { name, namespace: base.get_global_name() }
    }

    /// `namespace.name`
    pub fn get_global_name(&self) -> (r: String)
        ensures
            r@ == self@.full(),
    {
        let n = crate::lang::name::Name { name: self.name.clone(), namespace: self.namespace.clone() };
        n.get_full_name()
    }

    /// The parent name: the last but one component of the full name and the
    /// components before it (lone underscores left out when asked).
    pub fn get_par_name(&self, ignore_underscore: bool) -> (r: Name)
        requires
            ignore_underscore ==> self@.full_parts(true).len() >= 2,
        ensures
            r@ == self@.par(ignore_underscore),
    {
        let n = crate::lang::name::Name { name: self.name.clone(), namespace: self.namespace.clone() };
        let p = n.get_par_name(ignore_underscore);
        Name { name: p.name, namespace: p.namespace }
    }

    /// The parent name, defined everywhere (empty where fewer than two
    /// components remain).
    pub(crate) fn parent(&self, ignore_underscore: bool) -> (r: Name)
        ensures
            r@ == self@.par(ignore_underscore),
    {
        let n = crate::lang::name::Name { name: self.name.clone(), namespace: self.namespace.clone() };
        let p = n.parent(ignore_underscore);
        Name { name: p.name, namespace: p.namespace }
    }

    /// Whether the two names are the same.
    pub fn same(&self, other: &Name) -> (r: bool)
        ensures
            r == (self@ == other@),
    {
        self.name == other.name && self.namespace == other.namespace
    }
}

} // verus!
