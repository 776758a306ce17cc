//! The compiler's checked system: every type resolved.
pub mod unchecked;

use vstd::prelude::*;
use crate::lang::name::NameV;
use crate::lang::structure::{NT, views_of};
use crate::lang::structure::unchecked::{DataV, DetailV};
use crate::compiler::name::Name;
use crate::compiler::types::Type;

verus! {

/// The model of a spawn: its result and its lines.
pub struct SpawnV {
    pub result: NT,
    pub details: Seq<DetailV>,
}

/// The model of a function: a parsed function always has what it returns.
pub struct FuncV {
    pub name: NameV,
    pub args: Seq<NT>,
    pub returns: Option<NT>,
    pub spawns: Seq<SpawnV>,
}

/// The model of a module.
pub struct ModV {
    pub name: NameV,
    pub functions: Seq<FuncV>,
}

/// The model of a unit.
pub struct UnitV {
    pub name: NameV,
    pub data: Seq<DataV>,
    pub modules: Seq<ModV>,
}

/// The model of a system.
pub struct SystemV {
    pub units: Seq<UnitV>,
}

/// A checked system: its units.
#[derive(Debug, PartialEq, Eq)]
pub struct SysDCSystem {
    pub units: Vec<SysDCUnit>,
}

/// A checked unit.
#[derive(Debug, PartialEq, Eq)]
pub struct SysDCUnit {
    pub name: Name,
    pub data: Vec<SysDCData>,
    pub modules: Vec<SysDCModule>,
}

/// A checked data definition.
#[derive(Debug, PartialEq, Eq)]
pub struct SysDCData {
    pub name: Name,
    pub members: Vec<(Name, Type)>,
}

/// A checked module.
#[derive(Debug, PartialEq, Eq)]
pub struct SysDCModule {
    pub name: Name,
    pub functions: Vec<SysDCFunction>,
}

/// A checked function.
#[derive(Debug, PartialEq, Eq)]
pub struct SysDCFunction {
    pub name: Name,
    pub args: Vec<(Name, Type)>,
    pub returns: Option<(Name, Type)>,
    pub spawns: Vec<SysDCSpawn>,
}

/// A checked spawn.
#[derive(Debug, PartialEq, Eq)]
pub struct SysDCSpawn {
    pub result: (Name, Type),
    pub details: Vec<SysDCSpawnChild>,
}

/// A checked line of a spawn.
#[derive(Debug, PartialEq, Eq)]
pub enum SysDCSpawnChild {
    Use(Name, Type),
    Return(Name, Type),
    LetTo { name: Name, func: (Name, Type), args: Vec<(Name, Type)> },
}

impl View for SysDCSpawnChild {
    type V = DetailV;

    open spec fn view(&self) -> DetailV {
        match self {
            SysDCSpawnChild::Use(n, t) => DetailV::Use(n@, t@),
            SysDCSpawnChild::Return(n, t) => DetailV::Return(n@, t@),
            SysDCSpawnChild::LetTo { name, func, args } => DetailV::LetTo {
                name: name@,
                func: func@,
                args: views_of(args@),
            },
        }
    }
}

impl View for SysDCSpawn {
    type V = SpawnV;

    open spec fn view(&self) -> SpawnV {
        SpawnV { result: self.result@, details: views_of(self.details@) }
    }
}

impl View for SysDCFunction {
    type V = FuncV;

    open spec fn view(&self) -> FuncV {
        FuncV {
            name: self.name@,
            args: views_of(self.args@),
            returns: match self.returns {
                Some(r) => Some(r@),
                None => None,
            },
            spawns: views_of(self.spawns@),
        }
    }
}

impl View for SysDCModule {
    type V = ModV;

    open spec fn view(&self) -> ModV {
        ModV { name: self.name@, functions: views_of(self.functions@) }
    }
}

impl View for SysDCData {
    type V = DataV;

    open spec fn view(&self) -> DataV {
        DataV { name: self.name@, members: views_of(self.members@) }
    }
}

impl View for SysDCUnit {
    type V = UnitV;

    open spec fn view(&self) -> UnitV {
        UnitV { name: self.name@, data: views_of(self.data@), modules: views_of(self.modules@) }
    }
}

impl View for SysDCSystem {
    type V = SystemV;

    open spec fn view(&self) -> SystemV {
        SystemV { units: views_of(self.units@) }
    }
}

impl SysDCFunction {
    /// What the function gives back, with its type, if known.
    pub open spec fn result_of(&self) -> Option<(Name, Type)> {
        self.returns
    }
}

} // verus!
