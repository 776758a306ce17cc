//! The SysDC language: units made of data and modules, modules made of
//! functions and procedures whose bodies are annotations (`@return`,
//! `@spawn`, `@modify`, `@affect`). Text is split into tokens, parsed into
//! unchecked units, and checked into a system whose every type is resolved.
pub mod name;
pub mod location;
pub mod types;
pub mod token;
pub mod error;
pub mod structure;
pub mod parse;
pub mod check;

use vstd::prelude::*;
use crate::lang::name::NameV;
use crate::lang::error::{PErrorV, PResult};
use crate::lang::structure::{views_of, SysDCSystem};
use crate::lang::structure::unchecked;
use crate::lang::structure::unchecked::{SystemV, UnitV};
use crate::lang::token::{Tokenizer, TokState, max_text_len};
use crate::lang::parse::{UnitParser, p_root};
use crate::lang::check::checked;
use crate::lang::check::resolve::rv;

verus! {

/// The unit that `program`, read from `filename`, holds, or why it holds
/// none.
pub open spec fn parsed(filename: Seq<char>, program: Seq<char>) -> Result<UnitV, PErrorV> {
    p_root(TokState::start(filename, program), NameV::root()).0
}

/// Parses programs one by one, then checks them as one system.
pub struct Parser {
    units: Vec<unchecked::SysDCUnit>,
}

impl View for Parser {
    type V = Seq<UnitV>;

    /// The units parsed so far.
    closed spec fn view(&self) -> Seq<UnitV> {
        views_of(self.units@)
    }
}

impl Parser {
    /// A parser that holds no unit yet.
    pub fn new() -> (r: Parser)
        ensures
            r@ == Seq::<UnitV>::empty(),
    {
        let r = Parser { units: Vec::new() };
        assert(r@ =~= Seq::<UnitV>::empty());
        r
    }

    /// Parses `program`, read from `filename`, and keeps the unit it holds.
    pub fn parse(&mut self, filename: String, program: &str) -> (r: PResult<()>)
        requires
            program@.len() <= max_text_len(),
        ensures
            match parsed(filename@, program@) {
                Ok(u) => r is Ok && final(self)@ == old(self)@.push(u),
                Err(e) => r matches Err(re) && re@ == e && final(self)@ == old(self)@,
            },
    {
        let tokenizer = Tokenizer::new(filename, program);
        let unit = UnitParser::parse(tokenizer)?;
        let ghost uv = unit@;
        self.units.push(unit);
        assert(self@ =~= old(self)@.push(uv));
        Ok(())
    }

    /// Checks the units parsed so far as one system.
    pub fn check(self) -> (r: PResult<SysDCSystem>)
        ensures
            rv(r) == checked(SystemV { units: self@ }),
    {
        let system = unchecked::SysDCSystem::new(self.units);
        crate::lang::check::check(system)
    }
}

/// The models of programs, each with the name of the file it was read from.
pub open spec fn program_views(v: Seq<(String, String)>) -> Seq<(Seq<char>, Seq<char>)> {
    v.map_values(|p: (String, String)| (p.0@, p.1@))
}

/// The units of the programs, parsed in order, or the first failure.
pub open spec fn parsed_all(programs: Seq<(Seq<char>, Seq<char>)>) -> Result<Seq<UnitV>, PErrorV>
    decreases programs.len(),
{
    if programs.len() == 0 {
        Ok(Seq::<UnitV>::empty())
    } else {
        match parsed_all(programs.drop_last()) {
            Err(e) => Err(e),
            Ok(us) => match parsed(programs.last().0, programs.last().1) {
                Ok(u) => Ok(us.push(u)),
                Err(e) => Err(e),
            },
        }
    }
}

/// The system that the programs make together, or the first failure.
pub open spec fn checked_all(programs: Seq<(Seq<char>, Seq<char>)>) -> Result<SystemV, PErrorV> {
    match parsed_all(programs) {
        Err(e) => Err(e),
        Ok(us) => checked(SystemV { units: us }),
    }
}

/// Once a prefix of the programs fails, the longer ones fail the same way.
proof fn lemma_parsed_all_err(ps: Seq<(Seq<char>, Seq<char>)>, j: int, n: int)
    requires
        0 <= j <= n <= ps.len(),
        parsed_all(ps.take(j)) is Err,
    ensures
        parsed_all(ps.take(n)) == parsed_all(ps.take(j)),
    decreases n - j,
{
    if n > j {
        lemma_parsed_all_err(ps, j, n - 1);
        assert(ps.take(n).drop_last() =~= ps.take(n - 1));
    }
}

/// Parses the programs one by one, each under the name of its file, then
/// checks them as one system; stops at the first failure.
pub fn check_programs(programs: &Vec<(String, String)>) -> (r: PResult<SysDCSystem>)
    requires
        forall|k: int| 0 <= k < programs@.len() ==> (#[trigger] programs@[k]).1@.len() <= max_text_len(),
    ensures
        rv(r) == checked_all(program_views(programs@)),
{
    let ghost ps = program_views(programs@);
    let mut parser = Parser::new();
    let mut i: usize = 0;
    assert(ps.take(0) =~= Seq::<(Seq<char>, Seq<char>)>::empty());
    while i < programs.len()
        invariant
            i <= programs@.len(),
            ps == program_views(programs@),
            parsed_all(ps.take(i as int)) == Ok::<Seq<UnitV>, PErrorV>(parser@),
            forall|k: int| 0 <= k < programs@.len() ==> (#[trigger] programs@[k]).1@.len() <= max_text_len(),
        decreases programs.len() - i,
    {
        let filename = programs[i].0.clone();
        let program = programs[i].1.as_str();
        assert(ps.take(i + 1).drop_last() =~= ps.take(i as int));
        assert(ps.take(i + 1).last() == ps[i as int]);
        match parser.parse(filename, program) {
            Err(e) => {
                proof {
                    lemma_parsed_all_err(ps, i + 1, ps.len() as int);
                    assert(ps.take(ps.len() as int) =~= ps);
                }
                return Err(e);
            },
            Ok(()) => {},
        }
        i = i + 1;
    }
    assert(ps.take(ps.len() as int) =~= ps);
    parser.check()
}

impl Default for Parser {
    fn default() -> (r: Parser)
        ensures
            r@ == Seq::<UnitV>::empty(),
    {
        Parser::new()
    }
}

} // verus!
