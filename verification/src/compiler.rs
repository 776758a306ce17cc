//! The compiler of a smaller form of the language: units of data and
//! modules whose functions return a variable that `@spawn` makes.
pub mod name;
pub mod types;
pub mod error;
pub mod token;
pub mod structure;
pub mod parse;
pub mod check;

use vstd::prelude::*;
use crate::lang::name::NameV;
use crate::lang::structure::views_of;
use crate::lang::token::max_text_len;
use crate::compiler::name::Name;
use crate::compiler::error::{CErrV, CResult};
use crate::compiler::token::{Tokenizer, TokState};
use crate::compiler::parse::{Parser, c_root, rv};
use crate::compiler::check::{Checker, checked};
use crate::compiler::structure::{SysDCSystem, UnitV, SystemV};
use crate::compiler::structure::unchecked;

verus! {

/// The unit that `program` holds, or why it holds none.
pub open spec fn parsed(program: Seq<char>) -> Result<UnitV, CErrV> {
    c_root(TokState::start(program), NameV::root()).0
}

/// Parses programs one by one, then checks them as one system.
pub struct Compiler {
    units: Vec<unchecked::SysDCUnit>,
}

impl View for Compiler {
    type V = Seq<UnitV>;

    /// The units parsed so far.
    closed spec fn view(&self) -> Seq<UnitV> {
        views_of(self.units@)
    }
}

impl Compiler {
    /// A compiler that holds no unit yet.
    pub fn new() -> (r: Compiler)
        ensures
            r@ == Seq::<UnitV>::empty(),
    {
        let r = Compiler { units: Vec::new() };
        assert(r@ =~= Seq::<UnitV>::empty());
        r
    }

    /// Parses `program` and keeps the unit it holds.
    pub fn add_unit(&mut self, program: String) -> (r: CResult<()>)
        requires
            program@.len() <= max_text_len(),
        ensures
            match parsed(program@) {
                Ok(u) => r is Ok && final(self)@ == old(self)@.push(u),
                Err(e) => r matches Err(re) && re@ == e && final(self)@ == old(self)@,
            },
    {
        let unit = Parser::parse(Tokenizer::new(&program), Name::new_root())?;
        let ghost uv = unit@;
        self.units.push(unit);
        assert(self@ =~= old(self)@.push(uv));
        Ok(())
    }

    /// Checks the units parsed so far as one system.
    pub fn generate_system(self) -> (r: CResult<SysDCSystem>)
        ensures
            rv(r) == checked(SystemV { units: self@ }),
    {
        Checker::check(unchecked::SysDCSystem::new(self.units))
    }
}

} // verus!
