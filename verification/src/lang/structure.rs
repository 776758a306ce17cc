//! The checked system: every type resolved, every name bound to its
//! definition.
pub mod unchecked;

use vstd::prelude::*;
use crate::lang::name::{Name, NameV};
use crate::lang::types::{Type, TypeV};
use crate::lang::structure::unchecked::{UnitV, DataV, ModuleV, FunctionV, AnnotationV, DetailV, SystemV};

verus! {

/// A name with its type.
pub type NT = (NameV, TypeV);

/// The models of the items of a list.
pub open spec fn views_of<T: View>(v: Seq<T>) -> Seq<T::V> {
    v.map_values(|x: T| x@)
}

/// A checked system: its units.
#[derive(Debug, PartialEq, Eq)]
pub struct SysDCSystem {
    pub units: Vec<SysDCUnit>,
}

/// A checked unit.
#[derive(Debug, PartialEq, Eq)]
pub struct SysDCUnit {
    pub name: Name,
    pub data: Vec<SysDCData>,
    pub modules: Vec<SysDCModule>,
}

/// A checked data definition.
#[derive(Debug, PartialEq, Eq)]
pub struct SysDCData {
    pub name: Name,
    pub members: Vec<(Name, Type)>,
}

/// A checked module.
#[derive(Debug, PartialEq, Eq)]
pub struct SysDCModule {
    pub name: Name,
    pub functions: Vec<SysDCFunction>,
}

/// A checked function or procedure.
#[derive(Debug, PartialEq, Eq)]
pub struct SysDCFunction {
    pub name: Name,
    pub args: Vec<(Name, Type)>,
    pub returns: (Name, Type),
    pub annotations: Vec<SysDCAnnotation>,
}

/// A checked annotation.
#[derive(Debug, PartialEq, Eq)]
pub enum SysDCAnnotation {
    Affect { func: (Name, Type), args: Vec<(Name, Type)> },
    Modify { target: (Name, Type), uses: Vec<(Name, Type)> },
    Spawn { result: (Name, Type), details: Vec<SysDCSpawnDetail> },
}

/// A checked line of a spawn.
#[derive(Debug, PartialEq, Eq)]
pub enum SysDCSpawnDetail {
    Use(Name, Type),
    Return(Name, Type),
    LetTo { name: Name, func: (Name, Type), args: Vec<(Name, Type)> },
}

impl View for SysDCSpawnDetail {
    type V = DetailV;

    open spec fn view(&self) -> DetailV {
        match self {
            SysDCSpawnDetail::Use(n, t) => DetailV::Use(n@, t@),
            SysDCSpawnDetail::Return(n, t) => DetailV::Return(n@, t@),
            SysDCSpawnDetail::LetTo { name, func, args } => DetailV::LetTo {
                name: name@,
                func: func@,
                args: views_of(args@),
            },
        }
    }
}

impl View for SysDCAnnotation {
    type V = AnnotationV;

    open spec fn view(&self) -> AnnotationV {
        match self {
            SysDCAnnotation::Affect { func, args } => AnnotationV::Affect {
                func: func@,
                args: views_of(args@),
            },
            SysDCAnnotation::Modify { target, uses } => AnnotationV::Modify {
                target: target@,
                uses: views_of(uses@),
            },
            SysDCAnnotation::Spawn { result, details } => AnnotationV::Spawn {
                result: result@,
                details: views_of(details@),
            },
        }
    }
}

impl View for SysDCFunction {
    type V = FunctionV;

    open spec fn view(&self) -> FunctionV {
        FunctionV {
            name: self.name@,
            args: views_of(self.args@),
            returns: self.returns@,
            annotations: views_of(self.annotations@),
        }
    }
}

impl View for SysDCModule {
    type V = ModuleV;

    open spec fn view(&self) -> ModuleV {
        ModuleV {
            name: self.name@,
            functions: views_of(self.functions@),
        }
    }
}

impl View for SysDCData {
    type V = DataV;

    open spec fn view(&self) -> DataV {
        DataV { name: self.name@, members: views_of(self.members@) }
    }
}

impl View for SysDCUnit {
    type V = UnitV;

    /// A checked unit has no imports left.
    open spec fn view(&self) -> UnitV {
        UnitV {
            name: self.name@,
            data: views_of(self.data@),
            modules: views_of(self.modules@),
            imports: Seq::<NameV>::empty(),
        }
    }
}

impl View for SysDCSystem {
    type V = SystemV;

    open spec fn view(&self) -> SystemV {
        SystemV { units: views_of(self.units@) }
    }
}

/// `f` gave each item's counterpart in `out`, in order.
pub open spec fn converted_all<A, B, E, F: Fn(A) -> Result<B, E>>(f: F, items: Seq<A>, out: Seq<B>) -> bool {
    &&& out.len() == items.len()
    &&& forall|k: int| 0 <= k < items.len() ==> call_ensures(f, (items[k],), Ok::<B, E>(#[trigger] out[k]))
}

/// `f` can succeed on `x`.
pub open spec fn succeeds_on<A, B, E, F: Fn(A) -> Result<B, E>>(f: F, x: A) -> bool {
    exists|b: B| call_ensures(f, (x,), Ok::<B, E>(b))
}

/// `f` failed with `e` on an item, after succeeding on every item before it.
pub open spec fn failed_on<A, B, E, F: Fn(A) -> Result<B, E>>(f: F, items: Seq<A>, e: E) -> bool {
    exists|k: int|
        0 <= k < items.len() && call_ensures(f, (#[trigger] items[k],), Err::<B, E>(e)) && forall|j: int|
            0 <= j < k ==> #[trigger] succeeds_on::<A, B, E, F>(f, items[j])
}

/// Every item converted by `f`, in order, up to the first failure.
#[verifier::loop_isolation(false)]
pub fn convert_all<A, B, E, F: Fn(A) -> Result<B, E>>(items: Vec<A>, f: F) -> (r: Result<Vec<B>, E>)
    requires
        forall|k: int| 0 <= k < items@.len() ==> call_requires(f, (#[trigger] items@[k],)),
    ensures
        r matches Ok(out) ==> converted_all(f, items@, out@),
        r matches Err(e) ==> failed_on(f, items@, e),
{
    let ghost orig = items@;
    let n = items.len();
    let mut rest = items;
    let mut out: Vec<B> = Vec::new();
    let mut k: usize = 0;
    while rest.len() > 0
        invariant
            k + rest@.len() == n,
            n == orig.len(),
            rest@ == orig.subrange(k as int, n as int),
            out@.len() == k,
            forall|j: int| 0 <= j < k ==> call_ensures(f, (orig[j],), Ok::<B, E>(#[trigger] out@[j])),
            forall|j: int| 0 <= j < n ==> call_requires(f, (#[trigger] orig[j],)),
        decreases rest.len(),
    {
                let item = rest.remove(0);
        assert(item == orig[k as int]);
        assert(rest@ =~= orig.subrange(k + 1, n as int));
        match f(item) {
            Ok(b) => {
                out.push(b);
            },
            Err(e) => {
                assert(forall|j: int| 0 <= j < k ==> call_ensures(f, (orig[j],), Ok::<B, E>(out@[j])));
                assert forall|j: int| 0 <= j < k implies #[trigger] succeeds_on::<A, B, E, F>(f, orig[j]) by {
                    assert(call_ensures(f, (orig[j],), Ok::<B, E>(out@[j])));
                }
                assert(call_ensures(f, (orig[k as int],), Err::<B, E>(e)));
                assert(failed_on(f, orig, e));
                return Err(e);
            },
        }
        k = k + 1;
    }
    Ok(out)
}

impl SysDCFunction {
    /// The variable the function gives back, with its type.
    pub open spec fn result_of(&self) -> (Name, Type) {
        self.returns
    }
}

} // verus!
