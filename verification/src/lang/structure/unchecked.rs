//! The system as parsed: types are still names to be resolved.
use vstd::prelude::*;
use crate::lang::name::{Name, NameV};
use crate::lang::types::{Type, TypeV};
use crate::lang::structure::{NT, views_of, convert_all, converted_all, failed_on, succeeds_on};
use crate::lang::error::{PError, PErrorKind, PResult};

verus! {

/// The model of a unit (of a checked unit too, whose imports are empty).
pub struct UnitV {
    pub name: NameV,
    pub data: Seq<DataV>,
    pub modules: Seq<ModuleV>,
    pub imports: Seq<NameV>,
}

/// The model of a data definition.
pub struct DataV {
    pub name: NameV,
    pub members: Seq<NT>,
}

/// The model of a module.
pub struct ModuleV {
    pub name: NameV,
    pub functions: Seq<FunctionV>,
}

/// The model of a function; a procedure returns the type `Void`.
pub struct FunctionV {
    pub name: NameV,
    pub args: Seq<NT>,
    pub returns: NT,
    pub annotations: Seq<AnnotationV>,
}

/// The model of an annotation.
pub enum AnnotationV {
    Return(NameV),
    Spawn { result: NT, details: Seq<DetailV> },
    Modify { target: NT, uses: Seq<NT> },
    Affect { func: NT, args: Seq<NT> },
}

/// The model of a line of a spawn.
pub enum DetailV {
    Use(NameV, TypeV),
    Return(NameV, TypeV),
    LetTo { name: NameV, func: NT, args: Seq<NT> },
}

/// The model of a system.
pub struct SystemV {
    pub units: Seq<UnitV>,
}

/// A parsed system: its units.
#[derive(Debug, PartialEq, Eq)]
pub struct SysDCSystem {
    pub units: Vec<SysDCUnit>,
}

/// A parsed unit: its name, data, modules and the names it imports.
#[derive(Debug, PartialEq, Eq)]
pub struct SysDCUnit {
    pub name: Name,
    pub data: Vec<SysDCData>,
    pub modules: Vec<SysDCModule>,
    pub imports: Vec<Name>,
}

/// A parsed data definition.
#[derive(Debug, PartialEq, Eq)]
pub struct SysDCData {
    pub name: Name,
    pub members: Vec<(Name, Type)>,
}

/// A parsed module.
#[derive(Debug, PartialEq, Eq)]
pub struct SysDCModule {
    pub name: Name,
    pub functions: Vec<SysDCFunction>,
}

/// A parsed function or procedure.
#[derive(Debug, PartialEq, Eq)]
pub struct SysDCFunction {
    pub name: Name,
    pub args: Vec<(Name, Type)>,
    pub returns: (Name, Type),
    pub annotations: Vec<SysDCAnnotation>,
}

/// A parsed annotation.
#[derive(Debug, PartialEq, Eq)]
pub enum SysDCAnnotation {
    Return(Name),
    Spawn { result: (Name, Type), details: Vec<SysDCSpawnDetail> },
    Modify { target: (Name, Type), uses: Vec<(Name, Type)> },
    Affect { func: (Name, Type), args: Vec<(Name, Type)> },
}

/// A parsed line of a spawn.
#[derive(Debug, PartialEq, Eq)]
pub enum SysDCSpawnDetail {
    Use(Name, Type),
    Return(Name, Type),
    LetTo { name: Name, func: (Name, Type), args: Vec<(Name, Type)> },
}

impl View for SysDCSpawnDetail {
    type V = DetailV;

    open spec fn view(&self) -> DetailV {
        match self {
            SysDCSpawnDetail::Use(n, t) => DetailV::Use(n@, t@),
            SysDCSpawnDetail::Return(n, t) => DetailV::Return(n@, t@),
            SysDCSpawnDetail::LetTo { name, func, args } => DetailV::LetTo {
                name: name@,
                func: func@,
                args: views_of(args@),
            },
        }
    }
}

impl View for SysDCAnnotation {
    type V = AnnotationV;

    open spec fn view(&self) -> AnnotationV {
        match self {
            SysDCAnnotation::Return(n) => AnnotationV::Return(n@),
            SysDCAnnotation::Spawn { result, details } => AnnotationV::Spawn {
                result: result@,
                details: views_of(details@),
            },
            SysDCAnnotation::Modify { target, uses } => AnnotationV::Modify {
                target: target@,
                uses: views_of(uses@),
            },
            SysDCAnnotation::Affect { func, args } => AnnotationV::Affect {
                func: func@,
                args: views_of(args@),
            },
        }
    }
}

impl View for SysDCFunction {
    type V = FunctionV;

    open spec fn view(&self) -> FunctionV {
        FunctionV {
            name: self.name@,
            args: views_of(self.args@),
            returns: self.returns@,
            annotations: views_of(self.annotations@),
        }
    }
}

impl View for SysDCModule {
    type V = ModuleV;

    open spec fn view(&self) -> ModuleV {
        ModuleV {
            name: self.name@,
            functions: views_of(self.functions@),
        }
    }
}

impl View for SysDCData {
    type V = DataV;

    open spec fn view(&self) -> DataV {
        DataV { name: self.name@, members: views_of(self.members@) }
    }
}

impl View for SysDCUnit {
    type V = UnitV;

    open spec fn view(&self) -> UnitV {
        UnitV {
            name: self.name@,
            data: views_of(self.data@),
            modules: views_of(self.modules@),
            imports: views_of(self.imports@),
        }
    }
}

impl View for SysDCSystem {
    type V = SystemV;

    open spec fn view(&self) -> SystemV {
        SystemV { units: views_of(self.units@) }
    }
}

impl SysDCSystem {
    pub fn new(units: Vec<SysDCUnit>) -> (r: SysDCSystem)
        ensures
            r.units == units,
    {
        SysDCSystem { units }
    }
}

impl SysDCUnit {
    pub fn new(name: Name, data: Vec<SysDCData>, modules: Vec<SysDCModule>, imports: Vec<Name>) -> (r: SysDCUnit)
        ensures
            r.name == name,
            r.data == data,
            r.modules == modules,
            r.imports == imports,
    {
        SysDCUnit { name, data, modules, imports }
    }
}

impl SysDCData {
    pub fn new(name: Name, members: Vec<(Name, Type)>) -> (r: SysDCData)
        ensures
            r.name == name,
            r.members == members,
    {
        SysDCData { name, members }
    }
}

impl SysDCModule {
    pub fn new(name: Name, functions: Vec<SysDCFunction>) -> (r: SysDCModule)
        ensures
            r.name == name,
            r.functions == functions,
    {
        SysDCModule { name, functions }
    }
}

impl SysDCFunction {
    pub fn new(
        name: Name,
        args: Vec<(Name, Type)>,
        ret: (Name, Type),
        annotations: Vec<SysDCAnnotation>,
    ) -> (r: SysDCFunction)
        ensures
            r.name == name,
            r.args == args,
            r.returns == ret,
            r.annotations == annotations,
    {
        SysDCFunction { name, args, returns: ret, annotations }
    }
}

impl SysDCAnnotation {
    pub fn new_return(name: Name) -> (r: SysDCAnnotation)
        ensures
            r == SysDCAnnotation::Return(name),
    {
        SysDCAnnotation::Return(name)
    }

    pub fn new_spawn(result: (Name, Type), details: Vec<SysDCSpawnDetail>) -> (r: SysDCAnnotation)
        ensures
            r == (SysDCAnnotation::Spawn { result, details }),
    {
        SysDCAnnotation::Spawn { result, details }
    }

    pub fn new_modify(target: (Name, Type), uses: Vec<(Name, Type)>) -> (r: SysDCAnnotation)
        ensures
            r == (SysDCAnnotation::Modify { target, uses }),
    {
        SysDCAnnotation::Modify { target, uses }
    }

    pub fn new_affect(func: (Name, Type), args: Vec<(Name, Type)>) -> (r: SysDCAnnotation)
        ensures
            r == (SysDCAnnotation::Affect { func, args }),
    {
        SysDCAnnotation::Affect { func, args }
    }
}

impl SysDCSpawnDetail {
    pub fn new_use(name: Name, types: Type) -> (r: SysDCSpawnDetail)
        ensures
            r == SysDCSpawnDetail::Use(name, types),
    {
        SysDCSpawnDetail::Use(name, types)
    }

    pub fn new_return(name: Name, types: Type) -> (r: SysDCSpawnDetail)
        ensures
            r == SysDCSpawnDetail::Return(name, types),
    {
        SysDCSpawnDetail::Return(name, types)
    }

    pub fn new_let_to(name: Name, func: (Name, Type), args: Vec<(Name, Type)>) -> (r: SysDCSpawnDetail)
        ensures
            r == (SysDCSpawnDetail::LetTo { name, func, args }),
    {
        SysDCSpawnDetail::LetTo { name, func, args }
    }
}

impl SysDCSystem {
    /// The checked system made of each unit converted by `converter`, in
    /// order; the first failure stops.
    pub fn convert<F: Fn(SysDCUnit) -> PResult<crate::lang::structure::SysDCUnit>>(self, converter: F) -> (r: PResult<crate::lang::structure::SysDCSystem>)
        requires
            forall|k: int| 0 <= k < self.units@.len() ==> call_requires(converter, (#[trigger] self.units@[k],)),
        ensures
            r matches Ok(s) ==> converted_all(converter, self.units@, s.units@),
            r matches Err(e) ==> failed_on(converter, self.units@, e),
    {
        let units = convert_all(self.units, converter)?;
        Ok(crate::lang::structure::SysDCSystem { units })
    }
}

impl SysDCUnit {
    /// The checked unit of the same name, its data converted by
    /// `d_converter`, then its modules by `m_converter`; the first failure
    /// stops.
    pub fn convert<
        F: Fn(SysDCData) -> PResult<crate::lang::structure::SysDCData>,
        G: Fn(SysDCModule) -> PResult<crate::lang::structure::SysDCModule>,
    >(self, d_converter: F, m_converter: G) -> (r: PResult<crate::lang::structure::SysDCUnit>)
        requires
            forall|k: int| 0 <= k < self.data@.len() ==> call_requires(d_converter, (#[trigger] self.data@[k],)),
            forall|k: int| 0 <= k < self.modules@.len() ==> call_requires(m_converter, (#[trigger] self.modules@[k],)),
        ensures
            r matches Ok(u) ==> {
                &&& u.name == self.name
                &&& converted_all(d_converter, self.data@, u.data@)
                &&& converted_all(m_converter, self.modules@, u.modules@)
            },
            r matches Err(e) ==> {
                ||| failed_on(d_converter, self.data@, e)
                ||| (exists|ds: Seq<crate::lang::structure::SysDCData>| #[trigger] converted_all(d_converter, self.data@, ds))
                    && failed_on(m_converter, self.modules@, e)
            },
    {
        let data = convert_all(self.data, d_converter)?;
        let modules = convert_all(self.modules, m_converter)?;
        Ok(crate::lang::structure::SysDCUnit { name: self.name, data, modules })
    }
}

impl SysDCData {
    /// The checked data of the same name, each member converted by
    /// `converter`, in order; the first failure stops.
    pub fn convert<F: Fn((Name, Type)) -> PResult<(Name, Type)>>(self, converter: F) -> (r: PResult<crate::lang::structure::SysDCData>)
        requires
            forall|k: int| 0 <= k < self.members@.len() ==> call_requires(converter, (#[trigger] self.members@[k],)),
        ensures
            r matches Ok(d) ==> d.name == self.name && converted_all(converter, self.members@, d.members@),
            r matches Err(e) ==> failed_on(converter, self.members@, e),
    {
        let members = convert_all(self.members, converter)?;
        Ok(crate::lang::structure::SysDCData { name: self.name, members })
    }
}

impl SysDCModule {
    /// The checked module of the same name, each function converted by
    /// `converter`, in order; the first failure stops.
    pub fn convert<F: Fn(SysDCFunction) -> PResult<crate::lang::structure::SysDCFunction>>(self, converter: F) -> (r: PResult<crate::lang::structure::SysDCModule>)
        requires
            forall|k: int| 0 <= k < self.functions@.len() ==> call_requires(converter, (#[trigger] self.functions@[k],)),
        ensures
            r matches Ok(m) ==> m.name == self.name && converted_all(converter, self.functions@, m.functions@),
            r matches Err(e) ==> failed_on(converter, self.functions@, e),
    {
        let functions = convert_all(self.functions, converter)?;
        Ok(crate::lang::structure::SysDCModule { name: self.name, functions })
    }
}

impl SysDCFunction {
    /// The variable the function gives back, with its type.
    pub open spec fn result_of(&self) -> (Name, Type) {
        self.returns
    }

    /// The checked function of the same name: what it returns converted by
    /// `r_convert`, then its arguments by `a_convert`, then its annotations
    /// by `s_convert`; the first failure stops.
    pub fn convert<
        F: Fn((Name, Type)) -> PResult<(Name, Type)>,
        G: Fn((Name, Type)) -> PResult<(Name, Type)>,
        H: Fn(SysDCAnnotation) -> PResult<crate::lang::structure::SysDCAnnotation>,
    >(self, a_convert: F, r_convert: G, s_convert: H) -> (r: PResult<crate::lang::structure::SysDCFunction>)
        requires
            call_requires(r_convert, (self.result_of(),)),
            forall|k: int| 0 <= k < self.args@.len() ==> call_requires(a_convert, (#[trigger] self.args@[k],)),
            forall|k: int| 0 <= k < self.annotations@.len() ==> call_requires(s_convert, (#[trigger] self.annotations@[k],)),
        ensures
            r matches Ok(f) ==> {
                &&& f.name == self.name
                &&& call_ensures(r_convert, (self.result_of(),), Ok::<(Name, Type), PError>(f.result_of()))
                &&& converted_all(a_convert, self.args@, f.args@)
                &&& converted_all(s_convert, self.annotations@, f.annotations@)
            },
            r matches Err(e) ==> {
                ||| call_ensures(r_convert, (self.result_of(),), Err::<(Name, Type), PError>(e))
                ||| succeeds_on::<(Name, Type), (Name, Type), PError, G>(r_convert, self.result_of()) && {
                    ||| failed_on(a_convert, self.args@, e)
                    ||| (exists|args: Seq<(Name, Type)>| #[trigger] converted_all(a_convert, self.args@, args))
                        && failed_on(s_convert, self.annotations@, e)
                }
            },
    {
        let ret = r_convert(self.returns)?;
        let args = convert_all(self.args, a_convert)?;
        let annotations = convert_all(self.annotations, s_convert)?;
        Ok(crate::lang::structure::SysDCFunction { name: self.name, args, returns: ret, annotations })
    }
}

impl SysDCAnnotation {
    /// The checked spawn made of the result and lines that `s_converter`
    /// gives for this spawn's.
    pub fn convert<
        F: Fn((Name, Type), Vec<SysDCSpawnDetail>) -> PResult<((Name, Type), Vec<crate::lang::structure::SysDCSpawnDetail>)>,
    >(self, s_converter: F) -> (r: PResult<crate::lang::structure::SysDCAnnotation>)
        requires
            self is Spawn,
            self matches SysDCAnnotation::Spawn { result, details } ==> call_requires(s_converter, (result, details)),
        ensures
            self matches SysDCAnnotation::Spawn { result, details } ==> match r {
                Ok(a) => exists|o: ((Name, Type), Vec<crate::lang::structure::SysDCSpawnDetail>)| {
                    &&& #[trigger] call_ensures(s_converter, (result, details), Ok::<((Name, Type), Vec<crate::lang::structure::SysDCSpawnDetail>), PError>(o))
                    &&& a == (crate::lang::structure::SysDCAnnotation::Spawn { result: o.0, details: o.1 })
                },
                Err(e) => call_ensures(s_converter, (result, details), Err::<((Name, Type), Vec<crate::lang::structure::SysDCSpawnDetail>), PError>(e)),
            },
    {
        match self {
            SysDCAnnotation::Spawn { result, details } => {
                let (result, details) = s_converter(result, details)?;
                Ok(crate::lang::structure::SysDCAnnotation::Spawn { result, details })
            },
            _ => {
                proof {
                    assert(false);
                }
                PErrorKind::IllegalAccess.to_err()
            },
        }
    }
}

impl SysDCSpawnDetail {
    /// The checked line: a `use` converted by `u_converter`, a `return` by
    /// `r_converter`, a `let` by `l_converter`.
    pub fn convert<
        F: Fn((Name, Type)) -> PResult<(Name, Type)>,
        G: Fn(Name, (Name, Type), Vec<(Name, Type)>) -> PResult<(Name, (Name, Type), Vec<(Name, Type)>)>,
    >(self, u_converter: F, r_converter: F, l_converter: G) -> (r: PResult<crate::lang::structure::SysDCSpawnDetail>)
        requires
            self matches SysDCSpawnDetail::Use(n, t) ==> call_requires(u_converter, ((n, t),)),
            self matches SysDCSpawnDetail::Return(n, t) ==> call_requires(r_converter, ((n, t),)),
            self matches SysDCSpawnDetail::LetTo { name, func, args } ==> call_requires(l_converter, (name, func, args)),
        ensures
            self matches SysDCSpawnDetail::Use(n, t) ==> match r {
                Ok(d) => exists|o: (Name, Type)| #[trigger] call_ensures(u_converter, ((n, t),), Ok::<(Name, Type), PError>(o))
                    && d == crate::lang::structure::SysDCSpawnDetail::Use(o.0, o.1),
                Err(e) => call_ensures(u_converter, ((n, t),), Err::<(Name, Type), PError>(e)),
            },
            self matches SysDCSpawnDetail::Return(n, t) ==> match r {
                Ok(d) => exists|o: (Name, Type)| #[trigger] call_ensures(r_converter, ((n, t),), Ok::<(Name, Type), PError>(o))
                    && d == crate::lang::structure::SysDCSpawnDetail::Return(o.0, o.1),
                Err(e) => call_ensures(r_converter, ((n, t),), Err::<(Name, Type), PError>(e)),
            },
            self matches SysDCSpawnDetail::LetTo { name, func, args } ==> match r {
                Ok(d) => exists|o: (Name, (Name, Type), Vec<(Name, Type)>)| #[trigger] call_ensures(l_converter, (name, func, args), Ok::<(Name, (Name, Type), Vec<(Name, Type)>), PError>(o))
                    && d == (crate::lang::structure::SysDCSpawnDetail::LetTo { name: o.0, func: o.1, args: o.2 }),
                Err(e) => call_ensures(l_converter, (name, func, args), Err::<(Name, (Name, Type), Vec<(Name, Type)>), PError>(e)),
            },
    {
        match self {
            SysDCSpawnDetail::Use(name, types) => {
                let (name, types) = u_converter((name, types))?;
                Ok(crate::lang::structure::SysDCSpawnDetail::Use(name, types))
            },
            SysDCSpawnDetail::Return(name, types) => {
                let (name, types) = r_converter((name, types))?;
                Ok(crate::lang::structure::SysDCSpawnDetail::Return(name, types))
            },
            SysDCSpawnDetail::LetTo { name, func, args } => {
                let (name, func, args) = l_converter(name, func, args)?;
                Ok(crate::lang::structure::SysDCSpawnDetail::LetTo { name, func, args })
            },
        }
    }
}

} // verus!
