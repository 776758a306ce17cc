//! The compiler's system as parsed: types are still names to be resolved.
use vstd::prelude::*;
use crate::lang::structure::{views_of, convert_all, converted_all, failed_on, succeeds_on};
use crate::compiler::error::{CompileError, CResult};
use crate::lang::structure::unchecked::{DataV, DetailV};
use crate::compiler::name::Name;
use crate::compiler::types::Type;
use crate::compiler::structure::{SpawnV, FuncV, ModV, UnitV, SystemV};

verus! {

/// A parsed system: its units.
#[derive(Debug, PartialEq, Eq)]
pub struct SysDCSystem {
    pub units: Vec<SysDCUnit>,
}

/// A parsed unit.
#[derive(Debug, PartialEq, Eq)]
pub struct SysDCUnit {
    pub name: Name,
    pub data: Vec<SysDCData>,
    pub modules: Vec<SysDCModule>,
}

/// A parsed data definition.
#[derive(Debug, PartialEq, Eq)]
pub struct SysDCData {
    pub name: Name,
    pub members: Vec<(Name, Type)>,
}

/// A parsed module.
#[derive(Debug, PartialEq, Eq)]
pub struct SysDCModule {
    pub name: Name,
    pub functions: Vec<SysDCFunction>,
}

/// A parsed function; the parser always gives what it returns.
#[derive(Debug, PartialEq, Eq)]
pub struct SysDCFunction {
    pub name: Name,
    pub args: Vec<(Name, Type)>,
    pub returns: Option<(Name, Type)>,
    pub spawns: Vec<SysDCSpawn>,
}

/// A parsed spawn.
#[derive(Debug, PartialEq, Eq)]
pub struct SysDCSpawn {
    pub result: (Name, Type),
    pub details: Vec<SysDCSpawnChild>,
}

/// A parsed line of a spawn.
#[derive(Debug, PartialEq, Eq)]
pub enum SysDCSpawnChild {
    Use(Name, Type),
    Return(Name, Type),
    LetTo { name: Name, func: (Name, Type), args: Vec<(Name, Type)> },
}

impl View for SysDCSpawnChild {
    type V = DetailV;

    open spec fn view(&self) -> DetailV {
        match self {
            SysDCSpawnChild::Use(n, t) => DetailV::Use(n@, t@),
            SysDCSpawnChild::Return(n, t) => DetailV::Return(n@, t@),
            SysDCSpawnChild::LetTo { name, func, args } => DetailV::LetTo {
                name: name@,
                func: func@,
                args: views_of(args@),
            },
        }
    }
}

impl View for SysDCSpawn {
    type V = SpawnV;

    open spec fn view(&self) -> SpawnV {
        SpawnV { result: self.result@, details: views_of(self.details@) }
    }
}

impl View for SysDCFunction {
    type V = FuncV;

    open spec fn view(&self) -> FuncV {
        FuncV {
            name: self.name@,
            args: views_of(self.args@),
            returns: match self.returns {
                Some(r) => Some(r@),
                None => None,
            },
            spawns: views_of(self.spawns@),
        }
    }
}

impl View for SysDCModule {
    type V = ModV;

    open spec fn view(&self) -> ModV {
        ModV { name: self.name@, functions: views_of(self.functions@) }
    }
}

impl View for SysDCData {
    type V = DataV;

    open spec fn view(&self) -> DataV {
        DataV { name: self.name@, members: views_of(self.members@) }
    }
}

impl View for SysDCUnit {
    type V = UnitV;

    open spec fn view(&self) -> UnitV {
        UnitV { name: self.name@, data: views_of(self.data@), modules: views_of(self.modules@) }
    }
}

impl View for SysDCSystem {
    type V = SystemV;

    open spec fn view(&self) -> SystemV {
        SystemV { units: views_of(self.units@) }
    }
}


impl SysDCSystem {
    pub fn new(units: Vec<SysDCUnit>) -> (r: SysDCSystem)
        ensures
            r@ == (SystemV { units: views_of(units@) }),
    {
        SysDCSystem { units }
    }
}

impl SysDCUnit {
    pub fn new(name: Name, data: Vec<SysDCData>, modules: Vec<SysDCModule>) -> (r: SysDCUnit)
        ensures
            r@ == (UnitV { name: name@, data: views_of(data@), modules: views_of(modules@) }),
    {
        SysDCUnit { name, data, modules }
    }
}

impl SysDCData {
    pub fn new(name: Name, members: Vec<(Name, Type)>) -> (r: SysDCData)
        ensures
            r@ == (DataV { name: name@, members: views_of(members@) }),
    {
        SysDCData { name, members }
    }
}

impl SysDCModule {
    pub fn new(name: Name, functions: Vec<SysDCFunction>) -> (r: SysDCModule)
        ensures
            r@ == (ModV { name: name@, functions: views_of(functions@) }),
    {
        SysDCModule { name, functions }
    }
}

impl SysDCFunction {
    pub fn new(name: Name, args: Vec<(Name, Type)>, ret: (Name, Type), spawns: Vec<SysDCSpawn>) -> (r: SysDCFunction)
        ensures
            r@ == (FuncV { name: name@, args: views_of(args@), returns: Some(ret@), spawns: views_of(spawns@) }),
    {
        SysDCFunction { name, args, returns: Some(ret), spawns }
    }
}

impl SysDCSpawn {
    pub fn new(result: (Name, Type), details: Vec<SysDCSpawnChild>) -> (r: SysDCSpawn)
        ensures
            r@ == (SpawnV { result: result@, details: views_of(details@) }),
    {
        SysDCSpawn { result, details }
    }
}

impl SysDCSpawnChild {
    pub fn new_use(name: Name, types: Type) -> (r: SysDCSpawnChild)
        ensures
            r@ == DetailV::Use(name@, types@),
    {
        SysDCSpawnChild::Use(name, types)
    }

    pub fn new_return(name: Name, types: Type) -> (r: SysDCSpawnChild)
        ensures
            r@ == DetailV::Return(name@, types@),
    {
        SysDCSpawnChild::Return(name, types)
    }

    pub fn new_let_to(name: Name, func: (Name, Type), args: Vec<(Name, Type)>) -> (r: SysDCSpawnChild)
        ensures
            r@ == (DetailV::LetTo { name: name@, func: func@, args: views_of(args@) }),
    {
        SysDCSpawnChild::LetTo { name, func, args }
    }
}

impl SysDCSystem {
    /// The checked system made of each unit converted by `converter`, in
    /// order; the first failure stops.
    pub fn convert<F: Fn(SysDCUnit) -> CResult<crate::compiler::structure::SysDCUnit>>(self, converter: F) -> (r: CResult<crate::compiler::structure::SysDCSystem>)
        requires
            forall|k: int| 0 <= k < self.units@.len() ==> call_requires(converter, (#[trigger] self.units@[k],)),
        ensures
            r matches Ok(s) ==> converted_all(converter, self.units@, s.units@),
            r matches Err(e) ==> failed_on(converter, self.units@, e),
    {
        let units = convert_all(self.units, converter)?;
        Ok(crate::compiler::structure::SysDCSystem { units })
    }
}

impl SysDCUnit {
    /// The checked unit of the same name, its data converted by
    /// `d_converter`, then its modules by `m_converter`; the first failure
    /// stops.
    pub fn convert<
        F: Fn(SysDCData) -> CResult<crate::compiler::structure::SysDCData>,
        G: Fn(SysDCModule) -> CResult<crate::compiler::structure::SysDCModule>,
    >(self, d_converter: F, m_converter: G) -> (r: CResult<crate::compiler::structure::SysDCUnit>)
        requires
            forall|k: int| 0 <= k < self.data@.len() ==> call_requires(d_converter, (#[trigger] self.data@[k],)),
            forall|k: int| 0 <= k < self.modules@.len() ==> call_requires(m_converter, (#[trigger] self.modules@[k],)),
        ensures
            r matches Ok(u) ==> {
                &&& u.name == self.name
                &&& converted_all(d_converter, self.data@, u.data@)
                &&& converted_all(m_converter, self.modules@, u.modules@)
            },
            r matches Err(e) ==> {
                ||| failed_on(d_converter, self.data@, e)
                ||| (exists|ds: Seq<crate::compiler::structure::SysDCData>| #[trigger] converted_all(d_converter, self.data@, ds))
                    && failed_on(m_converter, self.modules@, e)
            },
    {
        let data = convert_all(self.data, d_converter)?;
        let modules = convert_all(self.modules, m_converter)?;
        Ok(crate::compiler::structure::SysDCUnit { name: self.name, data, modules })
    }
}

impl SysDCData {
    /// The checked data of the same name, each member converted by
    /// `converter`, in order; the first failure stops.
    pub fn convert<F: Fn((Name, Type)) -> CResult<(Name, Type)>>(self, converter: F) -> (r: CResult<crate::compiler::structure::SysDCData>)
        requires
            forall|k: int| 0 <= k < self.members@.len() ==> call_requires(converter, (#[trigger] self.members@[k],)),
        ensures
            r matches Ok(d) ==> d.name == self.name && converted_all(converter, self.members@, d.members@),
            r matches Err(e) ==> failed_on(converter, self.members@, e),
    {
        let members = convert_all(self.members, converter)?;
        Ok(crate::compiler::structure::SysDCData { name: self.name, members })
    }
}

impl SysDCModule {
    /// The checked module of the same name, each function converted by
    /// `converter`, in order; the first failure stops.
    pub fn convert<F: Fn(SysDCFunction) -> CResult<crate::compiler::structure::SysDCFunction>>(self, converter: F) -> (r: CResult<crate::compiler::structure::SysDCModule>)
        requires
            forall|k: int| 0 <= k < self.functions@.len() ==> call_requires(converter, (#[trigger] self.functions@[k],)),
        ensures
            r matches Ok(m) ==> m.name == self.name && converted_all(converter, self.functions@, m.functions@),
            r matches Err(e) ==> failed_on(converter, self.functions@, e),
    {
        let functions = convert_all(self.functions, converter)?;
        Ok(crate::compiler::structure::SysDCModule { name: self.name, functions })
    }
}

impl SysDCFunction {
    /// What the function gives back, with its type, if known.
    pub open spec fn result_of(&self) -> Option<(Name, Type)> {
        self.returns
    }

    /// The checked function of the same name: what it returns converted by
    /// `r_convert`, then its arguments by `a_convert`, then its spawns by
    /// `s_convert`; the first failure stops.
    pub fn convert<
        F: Fn((Name, Type)) -> CResult<(Name, Type)>,
        G: Fn(Option<(Name, Type)>) -> CResult<Option<(Name, Type)>>,
        H: Fn(SysDCSpawn) -> CResult<crate::compiler::structure::SysDCSpawn>,
    >(self, a_convert: F, r_convert: G, s_convert: H) -> (r: CResult<crate::compiler::structure::SysDCFunction>)
        requires
            call_requires(r_convert, (self.result_of(),)),
            forall|k: int| 0 <= k < self.args@.len() ==> call_requires(a_convert, (#[trigger] self.args@[k],)),
            forall|k: int| 0 <= k < self.spawns@.len() ==> call_requires(s_convert, (#[trigger] self.spawns@[k],)),
        ensures
            r matches Ok(f) ==> {
                &&& f.name == self.name
                &&& call_ensures(r_convert, (self.result_of(),), Ok::<Option<(Name, Type)>, CompileError>(f.result_of()))
                &&& converted_all(a_convert, self.args@, f.args@)
                &&& converted_all(s_convert, self.spawns@, f.spawns@)
            },
            r matches Err(e) ==> {
                ||| call_ensures(r_convert, (self.result_of(),), Err::<Option<(Name, Type)>, CompileError>(e))
                ||| succeeds_on::<Option<(Name, Type)>, Option<(Name, Type)>, CompileError, G>(r_convert, self.result_of()) && {
                    ||| failed_on(a_convert, self.args@, e)
                    ||| (exists|args: Seq<(Name, Type)>| #[trigger] converted_all(a_convert, self.args@, args))
                        && failed_on(s_convert, self.spawns@, e)
                }
            },
    {
        let ret = r_convert(self.returns)?;
        let args = convert_all(self.args, a_convert)?;
        let spawns = convert_all(self.spawns, s_convert)?;
        Ok(crate::compiler::structure::SysDCFunction { name: self.name, args, returns: ret, spawns })
    }
}

impl SysDCSpawn {
    /// The checked spawn: its result converted by `r_converter`, then each
    /// line by `d_converter`; the first failure stops.
    pub fn convert<
        F: Fn((Name, Type)) -> CResult<(Name, Type)>,
        G: Fn(SysDCSpawnChild) -> CResult<crate::compiler::structure::SysDCSpawnChild>,
    >(self, r_converter: F, d_converter: G) -> (r: CResult<crate::compiler::structure::SysDCSpawn>)
        requires
            call_requires(r_converter, (self.result,)),
            forall|k: int| 0 <= k < self.details@.len() ==> call_requires(d_converter, (#[trigger] self.details@[k],)),
        ensures
            r matches Ok(s) ==> {
                &&& call_ensures(r_converter, (self.result,), Ok::<(Name, Type), CompileError>(s.result))
                &&& converted_all(d_converter, self.details@, s.details@)
            },
            r matches Err(e) ==> {
                ||| call_ensures(r_converter, (self.result,), Err::<(Name, Type), CompileError>(e))
                ||| succeeds_on::<(Name, Type), (Name, Type), CompileError, F>(r_converter, self.result)
                    && failed_on(d_converter, self.details@, e)
            },
    {
        let result = r_converter(self.result)?;
        let details = convert_all(self.details, d_converter)?;
        Ok(crate::compiler::structure::SysDCSpawn { result, details })
    }
}

impl SysDCSpawnChild {
    /// The checked line: a `use` converted by `u_converter`, a `return` by
    /// `r_converter`, a `let` by `l_converter`.
    pub fn convert<
        F: Fn((Name, Type)) -> CResult<(Name, Type)>,
        G: Fn(Name, (Name, Type), Vec<(Name, Type)>) -> CResult<(Name, (Name, Type), Vec<(Name, Type)>)>,
    >(self, u_converter: F, r_converter: F, l_converter: G) -> (r: CResult<crate::compiler::structure::SysDCSpawnChild>)
        requires
            self matches SysDCSpawnChild::Use(n, t) ==> call_requires(u_converter, ((n, t),)),
            self matches SysDCSpawnChild::Return(n, t) ==> call_requires(r_converter, ((n, t),)),
            self matches SysDCSpawnChild::LetTo { name, func, args } ==> call_requires(l_converter, (name, func, args)),
        ensures
            self matches SysDCSpawnChild::Use(n, t) ==> match r {
                Ok(d) => exists|o: (Name, Type)| #[trigger] call_ensures(u_converter, ((n, t),), Ok::<(Name, Type), CompileError>(o))
                    && d == crate::compiler::structure::SysDCSpawnChild::Use(o.0, o.1),
                Err(e) => call_ensures(u_converter, ((n, t),), Err::<(Name, Type), CompileError>(e)),
            },
            self matches SysDCSpawnChild::Return(n, t) ==> match r {
                Ok(d) => exists|o: (Name, Type)| #[trigger] call_ensures(r_converter, ((n, t),), Ok::<(Name, Type), CompileError>(o))
                    && d == crate::compiler::structure::SysDCSpawnChild::Return(o.0, o.1),
                Err(e) => call_ensures(r_converter, ((n, t),), Err::<(Name, Type), CompileError>(e)),
            },
            self matches SysDCSpawnChild::LetTo { name, func, args } ==> match r {
                Ok(d) => exists|o: (Name, (Name, Type), Vec<(Name, Type)>)| #[trigger] call_ensures(l_converter, (name, func, args), Ok::<(Name, (Name, Type), Vec<(Name, Type)>), CompileError>(o))
                    && d == (crate::compiler::structure::SysDCSpawnChild::LetTo { name: o.0, func: o.1, args: o.2 }),
                Err(e) => call_ensures(l_converter, (name, func, args), Err::<(Name, (Name, Type), Vec<(Name, Type)>), CompileError>(e)),
            },
    {
        match self {
            SysDCSpawnChild::Use(name, types) => {
                let (name, types) = u_converter((name, types))?;
                Ok(crate::compiler::structure::SysDCSpawnChild::Use(name, types))
            },
            SysDCSpawnChild::Return(name, types) => {
                let (name, types) = r_converter((name, types))?;
                Ok(crate::compiler::structure::SysDCSpawnChild::Return(name, types))
            },
            SysDCSpawnChild::LetTo { name, func, args } => {
                let (name, func, args) = l_converter(name, func, args)?;
                Ok(crate::compiler::structure::SysDCSpawnChild::LetTo { name, func, args })
            },
        }
    }
}

} // verus!
