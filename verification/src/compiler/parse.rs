//! Parsing a unit of the compiler's language.
//!
//! ```text
//! <root>        ::= [ unit <id_chain> ; ] { <data> | <module> }
//! <data>        ::= data <id> { <id_type_mapping_list, delimiter=,> }
//! <module>      ::= module <id> { <function_list> }
//! <function>    ::= <id> ( <id_type_mapping_list, delimiter=,> ) -> <id> { <annotation_list> }
//! <annotation>  ::= @ ( return <id> | <spawn> )
//! <spawn>       ::= spawn <id_type_mapping> [ { <spawn_detail_list> } ]
//! <spawn_detail>::= let <id> = <id_chain> ( <id_chain_list, delimiter=,> ) ;
//!                 | use <id_chain_list, delimiter=,> ;
//!                 | return <id_chain> ;
//! ```
//!
//! The lines of a spawn live in the function's namespace, each one `_`
//! deeper than the line before it; they stop after a `return`. Each
//! `spec fn c_*` states what the parser function of the same name returns,
//! and the tokenizer state after it.
use vstd::prelude::*;
use crate::lang::name::NameV;
use crate::lang::types::TypeV;
use crate::lang::structure::{NT, views_of};
use crate::lang::structure::unchecked::{DataV, DetailV};
use crate::compiler::name::Name;
use crate::compiler::types::{Type, type_named};
use crate::compiler::token::{TokenKind, Tokenizer, TokState, TokenV};
use crate::compiler::error::{CompileError, CompileErrorKind, CompileErrorKindV, CErrV, CResult};
use crate::compiler::structure::{SpawnV, FuncV, ModV, UnitV};
use crate::compiler::structure::unchecked::{
    SysDCUnit, SysDCData, SysDCModule, SysDCFunction, SysDCSpawn, SysDCSpawnChild,
};
use crate::text::{join_with, string_of, chars_of, views};

verus! {

/// The model of an outcome.
pub open spec fn rv<T: View>(r: CResult<T>) -> Result<T::V, CErrV> {
    match r {
        Ok(v) => Ok(v@),
        Err(e) => Err(e@),
    }
}

/// The model of an outcome that may be empty.
pub open spec fn rvo<T: View>(r: CResult<Option<T>>) -> Result<Option<T::V>, CErrV> {
    match r {
        Ok(Some(v)) => Ok(Some(v@)),
        Ok(None) => Ok(None),
        Err(e) => Err(e@),
    }
}

/// The model of an outcome that is a list.
pub open spec fn rvs<T: View>(r: CResult<Vec<T>>) -> Result<Seq<T::V>, CErrV> {
    match r {
        Ok(v) => Ok(views_of(v@)),
        Err(e) => Err(e@),
    }
}

/// The failure of kind `k`, at no position.
pub open spec fn fail(k: CompileErrorKindV) -> CErrV {
    CErrV { kind: k, pos: None }
}

/// The step from `a` to `b` parsed something.
pub open spec fn advanced(a: TokState, b: TokState) -> bool {
    a.cursor() < b.cursor() && b.text == a.text && b.cursor() <= a.text.len()
}

/// The text of an identifier token.
pub open spec fn id_of(t: TokenV) -> Seq<char> {
    match t.orig {
        Some(o) => o,
        None => Seq::empty(),
    }
}

/// `<id_list, delimiter=d>`
#[verifier::opaque]
pub open spec fn c_idents(st: TokState, d: TokenKind, acc: Seq<Seq<char>>) -> (Result<Seq<Seq<char>>, CErrV>, TokState)
    decreases st.text.len() - st.cursor(),
{
    let (r, s1) = st.expect(TokenKind::Identifier);
    match r {
        Err(e) => (Err(e), s1),
        Ok(None) => (Ok(acc), s1),
        Ok(Some(t)) => {
            let acc2 = acc.push(id_of(t));
            let (r2, s2) = s1.expect(d);
            match r2 {
                Err(e) => (Err(e), s2),
                Ok(None) => (Ok(acc2), s2),
                Ok(Some(_)) => if advanced(st, s2) {
                    c_idents(s2, d, acc2)
                } else {
                    (Ok(acc2), s2)
                },
            }
        },
    }
}

/// `<id_chain>`: the identifiers joined with `.`, as a name in `ns`.
#[verifier::opaque]
pub open spec fn c_id_chain(st: TokState, ns: NameV) -> (Result<Option<NT>, CErrV>, TokState) {
    let (r, s1) = c_idents(st, TokenKind::Accessor, Seq::empty());
    match r {
        Err(e) => (Err(e), s1),
        Ok(ids) => {
            let var = join_with(ids, '.');
            if var.len() == 0 {
                (Ok(None), s1)
            } else {
                (Ok(Some((ns.child(var), TypeV::nohint()))), s1)
            }
        },
    }
}

/// `<id_chain_list, delimiter=,>`
#[verifier::opaque]
pub open spec fn c_chains(st: TokState, ns: NameV, acc: Seq<NT>) -> (Result<Seq<NT>, CErrV>, TokState)
    decreases st.text.len() - st.cursor(),
{
    let (r, s1) = c_id_chain(st, ns);
    match r {
        Err(e) => (Err(e), s1),
        Ok(None) => (Ok(acc), s1),
        Ok(Some(x)) => {
            let acc2 = acc.push(x);
            let (r2, s2) = s1.expect(TokenKind::Separater);
            match r2 {
                Err(e) => (Err(e), s2),
                Ok(None) => (Ok(acc2), s2),
                Ok(Some(_)) => if advanced(st, s2) {
                    c_chains(s2, ns, acc2)
                } else {
                    (Ok(acc2), s2)
                },
            }
        },
    }
}

/// `<id_type_mapping>`
#[verifier::opaque]
pub open spec fn c_mapping(st: TokState, ns: NameV) -> (Result<Option<NT>, CErrV>, TokState) {
    let (r, s1) = st.expect(TokenKind::Identifier);
    match r {
        Err(e) => (Err(e), s1),
        Ok(None) => (Ok(None), s1),
        Ok(Some(t)) => {
            let (r2, s2) = s1.request(TokenKind::Mapping);
            match r2 {
                Err(e) => (Err(e), s2),
                Ok(_) => {
                    let (r3, s3) = s2.request(TokenKind::Identifier);
                    match r3 {
                        Err(e) => (Err(e), s3),
                        Ok(t2) => (Ok(Some((ns.child(id_of(t)), type_named(id_of(t2))))), s3),
                    }
                },
            }
        },
    }
}

/// `<id_type_mapping_list, delimiter=,>`
#[verifier::opaque]
pub open spec fn c_mappings(st: TokState, ns: NameV, acc: Seq<NT>) -> (Result<Seq<NT>, CErrV>, TokState)
    decreases st.text.len() - st.cursor(),
{
    let (r, s1) = c_mapping(st, ns);
    match r {
        Err(e) => (Err(e), s1),
        Ok(None) => (Ok(acc), s1),
        Ok(Some(x)) => {
            let acc2 = acc.push(x);
            let (r2, s2) = s1.expect(TokenKind::Separater);
            match r2 {
                Err(e) => (Err(e), s2),
                Ok(None) => (Ok(acc2), s2),
                Ok(Some(_)) => if advanced(st, s2) {
                    c_mappings(s2, ns, acc2)
                } else {
                    (Ok(acc2), s2)
                },
            }
        },
    }
}

/// `<data>`
#[verifier::opaque]
pub open spec fn c_data(st: TokState, ns: NameV) -> (Result<Option<DataV>, CErrV>, TokState) {
    let (r, s1) = st.expect(TokenKind::Data);
    match r {
        Err(e) => (Err(e), s1),
        Ok(None) => (Ok(None), s1),
        Ok(Some(_)) => {
            let (r2, s2) = s1.request(TokenKind::Identifier);
            match r2 {
                Err(e) => (Err(e), s2),
                Ok(t) => {
                    let name = ns.child(id_of(t));
                    let (r3, s3) = s2.request(TokenKind::BracketBegin);
                    match r3 {
                        Err(e) => (Err(e), s3),
                        Ok(_) => {
                            let (r4, s4) = c_mappings(s3, name, Seq::empty());
                            match r4 {
                                Err(e) => (Err(e), s4),
                                Ok(members) => {
                                    let (r5, s5) = s4.request(TokenKind::BracketEnd);
                                    match r5 {
                                        Err(e) => (Err(e), s5),
                                        Ok(_) => (Ok(Some(DataV { name, members })), s5),
                                    }
                                },
                            }
                        },
                    }
                },
            }
        },
    }
}

/// `<spawn_detail>`
#[verifier::opaque]
pub open spec fn c_detail(st: TokState, ns: NameV) -> (Result<Option<Seq<DetailV>>, CErrV>, TokState) {
    let (r, s1) = st.expect(TokenKind::Let);
    match r {
        Err(e) => (Err(e), s1),
        Ok(Some(_)) => {
            let (r2, s2) = s1.request(TokenKind::Identifier);
            match r2 {
                Err(e) => (Err(e), s2),
                Ok(t) => {
                    let name = ns.child(id_of(t));
                    let (r3, s3) = s2.request(TokenKind::Equal);
                    match r3 {
                        Err(e) => (Err(e), s3),
                        Ok(_) => {
                            let (r4, s4) = c_id_chain(s3, ns);
                            match r4 {
                                Err(e) => (Err(e), s4),
                                Ok(None) => (Err(fail(CompileErrorKindV::FunctionNameNotFound)), s4),
                                Ok(Some((f, _))) => {
                                    let (r5, s5) = s4.request(TokenKind::ParenthesisBegin);
                                    match r5 {
                                        Err(e) => (Err(e), s5),
                                        Ok(_) => {
                                            let (r6, s6) = c_chains(s5, ns, Seq::empty());
                                            match r6 {
                                                Err(e) => (Err(e), s6),
                                                Ok(args) => {
                                                    let (r7, s7) = s6.request(TokenKind::ParenthesisEnd);
                                                    match r7 {
                                                        Err(e) => (Err(e), s7),
                                                        Ok(_) => {
                                                            let (r8, s8) = s7.request(TokenKind::Semicolon);
                                                            match r8 {
                                                                Err(e) => (Err(e), s8),
                                                                Ok(_) => (
                                                                    Ok(Some(seq![DetailV::LetTo {
                                                                        name,
                                                                        func: (NameV::root(), type_named(f.name)),
                                                                        args,
                                                                    }])),
                                                                    s8,
                                                                ),
                                                            }
                                                        },
                                                    }
                                                },
                                            }
                                        },
                                    }
                                },
                            }
                        },
                    }
                },
            }
        },
        Ok(None) => {
            let (ru, t1) = s1.expect(TokenKind::Use);
            match ru {
                Err(e) => (Err(e), t1),
                Ok(Some(_)) => {
                    let (r2, t2) = c_chains(t1, ns, Seq::empty());
                    match r2 {
                        Err(e) => (Err(e), t2),
                        Ok(cs) => {
                            let (r3, t3) = t2.request(TokenKind::Semicolon);
                            match r3 {
                                Err(e) => (Err(e), t3),
                                Ok(_) => (
                                    Ok(Some(cs.map_values(|c: NT| DetailV::Use(c.0, TypeV::nohint())))),
                                    t3,
                                ),
                            }
                        },
                    }
                },
                Ok(None) => {
                    let (rr, u1) = t1.expect(TokenKind::Return);
                    match rr {
                        Err(e) => (Err(e), u1),
                        Ok(None) => (Ok(None), u1),
                        Ok(Some(_)) => {
                            let (r2, u2) = c_id_chain(u1, ns);
                            match r2 {
                                Err(e) => (Err(e), u2),
                                Ok(None) => (Err(fail(CompileErrorKindV::ResultOfSpawnNotSpecified)), u2),
                                Ok(Some((n, _))) => {
                                    let (r3, u3) = u2.request(TokenKind::Semicolon);
                                    match r3 {
                                        Err(e) => (Err(e), u3),
                                        Ok(_) => (Ok(Some(seq![DetailV::Return(n, TypeV::nohint())])), u3),
                                    }
                                },
                            }
                        },
                    }
                },
            }
        },
    }
}

/// Whether a group of lines starts with a `return`.
pub open spec fn starts_with_return(ds: Seq<DetailV>) -> bool {
    ds.len() > 0 && ds[0] is Return
}

/// `{ <spawn_detail> }`, each group one `_` deeper than the one before.
#[verifier::opaque]
pub open spec fn c_details(st: TokState, ns: NameV, acc: Seq<DetailV>) -> (Result<Seq<DetailV>, CErrV>, TokState)
    decreases st.text.len() - st.cursor(),
{
    let (r, s1) = c_detail(st, ns);
    match r {
        Err(e) => (Err(e), s1),
        Ok(None) => (Ok(acc), s1),
        Ok(Some(ds)) => {
            let acc2 = acc + ds;
            if starts_with_return(ds) {
                (Ok(acc2), s1)
            } else if advanced(st, s1) {
                c_details(s1, ns.child(seq!['_']), acc2)
            } else {
                (Ok(acc2), s1)
            }
        },
    }
}

/// An annotation: a return or a spawn.
pub enum AnnV {
    Return(NameV),
    Spawn(SpawnV),
}

/// `spawn <id_type_mapping> [ { <spawn_detail_list> } ]` after `@`
#[verifier::opaque]
pub open spec fn c_ann_spawn(st: TokState, ns: NameV) -> (Result<Option<AnnV>, CErrV>, TokState) {
    let (r, s1) = st.expect(TokenKind::Spawn);
    match r {
        Err(e) => (Err(e), s1),
        Ok(None) => (Ok(None), s1),
        Ok(Some(_)) => {
            let (r2, s2) = c_mapping(s1, ns);
            match r2 {
                Err(e) => (Err(e), s2),
                Ok(None) => (Err(fail(CompileErrorKindV::ResultOfSpawnNotSpecified)), s2),
                Ok(Some(result)) => {
                    let (r3, s3) = s2.expect(TokenKind::BracketBegin);
                    match r3 {
                        Err(e) => (Err(e), s3),
                        Ok(None) => (Ok(Some(AnnV::Spawn(SpawnV { result, details: Seq::empty() }))), s3),
                        Ok(Some(_)) => {
                            let (r4, s4) = c_details(s3, ns, Seq::empty());
                            match r4 {
                                Err(e) => (Err(e), s4),
                                Ok(details) => {
                                    let (r5, s5) = s4.request(TokenKind::BracketEnd);
                                    match r5 {
                                        Err(e) => (Err(e), s5),
                                        Ok(_) => (Ok(Some(AnnV::Spawn(SpawnV { result, details }))), s5),
                                    }
                                },
                            }
                        },
                    }
                },
            }
        },
    }
}

/// `<annotation>`
#[verifier::opaque]
pub open spec fn c_annotation(st: TokState, ns: NameV) -> (Result<Option<AnnV>, CErrV>, TokState) {
    let (r, s1) = st.expect(TokenKind::AtMark);
    match r {
        Err(e) => (Err(e), s1),
        Ok(None) => (Ok(None), s1),
        Ok(Some(_)) => {
            let (r2, s2) = s1.expect(TokenKind::Return);
            match r2 {
                Err(e) => (Err(e), s2),
                Ok(Some(_)) => {
                    let (r3, s3) = s2.request(TokenKind::Identifier);
                    match r3 {
                        Err(e) => (Err(e), s3),
                        Ok(t) => (Ok(Some(AnnV::Return(ns.child(id_of(t))))), s3),
                    }
                },
                Ok(None) => c_ann_spawn(s2, ns),
            }
        },
    }
}

/// `<annotation_list>`: the name that `@return` gives and the spawns.
#[verifier::opaque]
pub open spec fn c_body(st: TokState, ns: NameV, ret: Option<NameV>, acc: Seq<SpawnV>) -> (Result<(NameV, Seq<SpawnV>), CErrV>, TokState)
    decreases st.text.len() - st.cursor(),
{
    let (r, s1) = c_annotation(st, ns);
    match r {
        Err(e) => (Err(e), s1),
        Ok(None) => match ret {
            Some(n) => (Ok((n, acc)), s1),
            None => (Err(fail(CompileErrorKindV::ReturnNotExists)), s1),
        },
        Ok(Some(AnnV::Return(n))) => if ret is Some {
            (Err(fail(CompileErrorKindV::ReturnExistsMultiple)), s1)
        } else if advanced(st, s1) {
            c_body(s1, ns, Some(n), acc)
        } else {
            (Ok((n, acc)), s1)
        },
        Ok(Some(AnnV::Spawn(sp))) => if advanced(st, s1) {
            c_body(s1, ns, ret, acc.push(sp))
        } else {
            match ret {
                Some(n) => (Ok((n, acc.push(sp))), s1),
                None => (Err(fail(CompileErrorKindV::ReturnNotExists)), s1),
            }
        },
    }
}

/// `<function>`
#[verifier::opaque]
pub open spec fn c_function(st: TokState, ns: NameV) -> (Result<Option<FuncV>, CErrV>, TokState) {
    let (r0, s0) = st.expect(TokenKind::Identifier);
    match r0 {
        Err(e) => (Err(e), s0),
        Ok(None) => (Ok(None), s0),
        Ok(Some(tn)) => {
            let name = ns.child(id_of(tn));
            let (r1, s1) = s0.request(TokenKind::ParenthesisBegin);
            match r1 {
                Err(e) => (Err(e), s1),
                Ok(_) => {
                    let (r2, s2) = c_mappings(s1, name, Seq::empty());
                    match r2 {
                        Err(e) => (Err(e), s2),
                        Ok(args) => {
                            let (r3, s3) = s2.request(TokenKind::ParenthesisEnd);
                            match r3 {
                                Err(e) => (Err(e), s3),
                                Ok(_) => {
                                    let (r4, s4) = s3.request(TokenKind::Allow);
                                    match r4 {
                                        Err(e) => (Err(e), s4),
                                        Ok(_) => {
                                            let (r5, s5) = s4.request(TokenKind::Identifier);
                                            match r5 {
                                                Err(e) => (Err(e), s5),
                                                Ok(tt) => {
                                                    let (r6, s6) = s5.request(TokenKind::BracketBegin);
                                                    match r6 {
                                                        Err(e) => (Err(e), s6),
                                                        Ok(_) => {
                                                            let (r7, s7) = c_body(s6, name, None, Seq::empty());
                                                            match r7 {
                                                                Err(e) => (Err(e), s7),
                                                                Ok((ret_name, spawns)) => {
                                                                    let (r8, s8) = s7.request(TokenKind::BracketEnd);
                                                                    match r8 {
                                                                        Err(e) => (Err(e), s8),
                                                                        Ok(_) => (
                                                                            Ok(Some(FuncV {
                                                                                name,
                                                                                args,
                                                                                returns: Some((ret_name, type_named(id_of(tt)))),
                                                                                spawns,
                                                                            })),
                                                                            s8,
                                                                        ),
                                                                    }
                                                                },
                                                            }
                                                        },
                                                    }
                                                },
                                            }
                                        },
                                    }
                                },
                            }
                        },
                    }
                },
            }
        },
    }
}

/// `<function_list>`
#[verifier::opaque]
pub open spec fn c_functions(st: TokState, ns: NameV, acc: Seq<FuncV>) -> (Result<Seq<FuncV>, CErrV>, TokState)
    decreases st.text.len() - st.cursor(),
{
    let (r, s1) = c_function(st, ns);
    match r {
        Err(e) => (Err(e), s1),
        Ok(None) => (Ok(acc), s1),
        Ok(Some(f)) => if advanced(st, s1) {
            c_functions(s1, ns, acc.push(f))
        } else {
            (Ok(acc.push(f)), s1)
        },
    }
}

/// `<module>`
#[verifier::opaque]
pub open spec fn c_module(st: TokState, ns: NameV) -> (Result<Option<ModV>, CErrV>, TokState) {
    let (r, s1) = st.expect(TokenKind::Module);
    match r {
        Err(e) => (Err(e), s1),
        Ok(None) => (Ok(None), s1),
        Ok(Some(_)) => {
            let (r2, s2) = s1.request(TokenKind::Identifier);
            match r2 {
                Err(e) => (Err(e), s2),
                Ok(t) => {
                    let name = ns.child(id_of(t));
                    let (r3, s3) = s2.request(TokenKind::BracketBegin);
                    match r3 {
                        Err(e) => (Err(e), s3),
                        Ok(_) => {
                            let (r4, s4) = c_functions(s3, name, Seq::empty());
                            match r4 {
                                Err(e) => (Err(e), s4),
                                Ok(functions) => {
                                    let (r5, s5) = s4.request(TokenKind::BracketEnd);
                                    match r5 {
                                        Err(e) => (Err(e), s5),
                                        Ok(_) => (Ok(Some(ModV { name, functions })), s5),
                                    }
                                },
                            }
                        },
                    }
                },
            }
        },
    }
}

/// `{ <data> | <module> }` while text is left, the first round also when
/// `pending` (a token was scanned and kept before).
#[verifier::opaque]
pub open spec fn c_sentences(st: TokState, ns: NameV, pending: bool, data: Seq<DataV>, modules: Seq<ModV>) -> (Result<UnitV, CErrV>, TokState)
    decreases st.text.len() - st.cursor(),
{
    if !(st.has_token() || pending) {
        (Ok(UnitV { name: ns, data, modules }), st)
    } else {
        let (rd, s1) = c_data(st, ns);
        match rd {
            Err(e) => (Err(e), s1),
            Ok(d) => {
                let (rm, s2) = c_module(s1, ns);
                match rm {
                    Err(e) => (Err(e), s2),
                    Ok(m) => if d is None && m is None {
                        (Err(fail(CompileErrorKindV::UnexpectedEOF)), s2)
                    } else {
                        let data2 = match d {
                            Some(x) => data.push(x),
                            None => data,
                        };
                        let modules2 = match m {
                            Some(x) => modules.push(x),
                            None => modules,
                        };
                        if advanced(st, s2) {
                            c_sentences(s2, ns, false, data2, modules2)
                        } else {
                            (Ok(UnitV { name: ns, data: data2, modules: modules2 }), s2)
                        }
                    },
                }
            },
        }
    }
}

/// `<root>`: the unit, named by its `unit` line inside `ns`, or `ns` itself
/// when there is none.
#[verifier::opaque]
pub open spec fn c_root(st: TokState, ns: NameV) -> (Result<UnitV, CErrV>, TokState) {
    let (r, s1) = st.expect(TokenKind::Unit);
    match r {
        Err(e) => (Err(e), s1),
        Ok(None) => c_sentences(s1, ns, s1.hold is Some, Seq::empty(), Seq::empty()),
        Ok(Some(_)) => {
            let (r2, s2) = c_id_chain(s1, ns);
            match r2 {
                Err(e) => (Err(e), s2),
                Ok(None) => (Err(fail(CompileErrorKindV::UnitNameNotSpecified)), s2),
                Ok(Some((found, _))) => {
                    let (r3, s3) = s2.request(TokenKind::Semicolon);
                    match r3 {
                        Err(e) => (Err(e), s3),
                        Ok(_) => c_sentences(s3, ns.child(found.name), false, Seq::empty(), Seq::empty()),
                    }
                },
            }
        },
    }
}

fn underscore() -> (r: String)
    ensures
        r@ == seq!['_'],
{
    let mut s = String::new();
    crate::text::push_char(&mut s, '_');
    assert(s@ =~= seq!['_']);
    s
}

/// The parser of one unit.
pub struct Parser {
    tokenizer: Tokenizer,
}

/// An annotation as parsed: a return or a spawn.
enum Annotation {
    Return(Name),
    Spawn(SysDCSpawn),
}

impl View for Annotation {
    type V = AnnV;

    closed spec fn view(&self) -> AnnV {
        match self {
            Annotation::Return(n) => AnnV::Return(n@),
            Annotation::Spawn(s) => AnnV::Spawn(s@),
        }
    }
}

impl Parser {
    /// Parses the unit that the tokenizer's text holds, inside `namespace`.
    pub fn parse(tokenizer: Tokenizer, namespace: Name) -> (r: CResult<SysDCUnit>)
        requires
            tokenizer.wf(),
        ensures
            rv(r) == c_root(tokenizer@, namespace@).0,
    {
        let mut parser = Parser { tokenizer };
        parser.parse_root(namespace)
    }

    fn parse_root(&mut self, namespace: Name) -> (r: CResult<SysDCUnit>)
        requires
            old(self).tokenizer.wf(),
        ensures
            final(self).tokenizer.wf(),
            old(self).tokenizer@.steps(final(self).tokenizer@),
            (rv(r), final(self).tokenizer@) == c_root(old(self).tokenizer@, namespace@),
    {
        proof {
            self.tokenizer.lemma_wf();
            reveal(c_root);
        }
        if self.tokenizer.expect(TokenKind::Unit)?.is_none() {
            let pending = self.tokenizer.holds_token();
            return self.parse_sentences(namespace, pending);
        }
        let unit_namespace = match self.parse_id_chain(&namespace)? {
            Some((found, _)) => Name::from(&namespace, found.name),
            None => {
                return CompileError::new(CompileErrorKind::UnitNameNotSpecified);
            },
        };
        self.tokenizer.request(TokenKind::Semicolon)?;
        self.parse_sentences(unit_namespace, false)
    }

    fn parse_sentences(&mut self, namespace: Name, pending: bool) -> (r: CResult<SysDCUnit>)
        requires
            old(self).tokenizer.wf(),
        ensures
            final(self).tokenizer.wf(),
            old(self).tokenizer@.steps(final(self).tokenizer@),
            (rv(r), final(self).tokenizer@) == c_sentences(
                old(self).tokenizer@,
                namespace@,
                pending,
                Seq::empty(),
                Seq::empty(),
            ),
    {
        proof {
            self.tokenizer.lemma_wf();
        }
        let mut data: Vec<SysDCData> = Vec::new();
        let mut modules: Vec<SysDCModule> = Vec::new();
        let mut first = pending;
        assert(views_of(data@) =~= Seq::<DataV>::empty());
        assert(views_of(modules@) =~= Seq::<ModV>::empty());
        loop
            invariant
                self.tokenizer.wf(),
                old(self).tokenizer@.steps(self.tokenizer@),
                c_sentences(self.tokenizer@, namespace@, first, views_of(data@), views_of(modules@))
                    == c_sentences(old(self).tokenizer@, namespace@, pending, Seq::empty(), Seq::empty()),
            decreases self.tokenizer@.text.len() - self.tokenizer@.cursor(),
        {
            proof {
                reveal(c_sentences);
            }
            if !(self.tokenizer.has_token() || first) {
                let unit = SysDCUnit::new(namespace, data, modules);
                return Ok(unit);
            }
            first = false;
            let ghost (d0, m0) = (views_of(data@), views_of(modules@));
            let d = match self.parse_data(&namespace) {
                Err(e) => {
                    return Err(e);
                },
                Ok(d) => d,
            };
            let m = match self.parse_module(&namespace) {
                Err(e) => {
                    return Err(e);
                },
                Ok(m) => m,
            };
            if d.is_none() && m.is_none() {
                return CompileError::new(CompileErrorKind::UnexpectedEOF);
            }
            if let Some(x) = d {
                let ghost xv = x@;
                data.push(x);
                assert(views_of(data@) =~= d0.push(xv));
            }
            if let Some(x) = m {
                let ghost xv = x@;
                modules.push(x);
                assert(views_of(modules@) =~= m0.push(xv));
            }
        }
    }

    fn parse_data(&mut self, namespace: &Name) -> (r: CResult<Option<SysDCData>>)
        requires
            old(self).tokenizer.wf(),
        ensures
            final(self).tokenizer.wf(),
            old(self).tokenizer@.steps(final(self).tokenizer@),
            (rvo(r), final(self).tokenizer@) == c_data(old(self).tokenizer@, namespace@),
            r matches Ok(Some(_)) ==> old(self).tokenizer@.cursor() < final(self).tokenizer@.cursor(),
    {
        proof {
            self.tokenizer.lemma_wf();
            reveal(c_data);
        }
        if self.tokenizer.expect(TokenKind::Data)?.is_none() {
            return Ok(None);
        }
        let t = self.tokenizer.request(TokenKind::Identifier)?;
        let name = Name::from(namespace, t.get_id()?);
        self.tokenizer.request(TokenKind::BracketBegin)?;
        let members = self.parse_mappings(&name)?;
        self.tokenizer.request(TokenKind::BracketEnd)?;
        Ok(Some(SysDCData::new(name, members)))
    }

    fn parse_module(&mut self, namespace: &Name) -> (r: CResult<Option<SysDCModule>>)
        requires
            old(self).tokenizer.wf(),
        ensures
            final(self).tokenizer.wf(),
            old(self).tokenizer@.steps(final(self).tokenizer@),
            (rvo(r), final(self).tokenizer@) == c_module(old(self).tokenizer@, namespace@),
            r matches Ok(Some(_)) ==> old(self).tokenizer@.cursor() < final(self).tokenizer@.cursor(),
    {
        proof {
            self.tokenizer.lemma_wf();
            reveal(c_module);
        }
        if self.tokenizer.expect(TokenKind::Module)?.is_none() {
            return Ok(None);
        }
        let t = self.tokenizer.request(TokenKind::Identifier)?;
        let name = Name::from(namespace, t.get_id()?);
        self.tokenizer.request(TokenKind::BracketBegin)?;
        let functions = self.parse_functions(&name)?;
        self.tokenizer.request(TokenKind::BracketEnd)?;
        Ok(Some(SysDCModule::new(name, functions)))
    }

    fn parse_functions(&mut self, namespace: &Name) -> (r: CResult<Vec<SysDCFunction>>)
        requires
            old(self).tokenizer.wf(),
        ensures
            final(self).tokenizer.wf(),
            old(self).tokenizer@.steps(final(self).tokenizer@),
            (rvs(r), final(self).tokenizer@) == c_functions(old(self).tokenizer@, namespace@, Seq::empty()),
    {
        proof {
            self.tokenizer.lemma_wf();
        }
        let mut functions: Vec<SysDCFunction> = Vec::new();
        assert(views_of(functions@) =~= Seq::<FuncV>::empty());
        loop
            invariant
                self.tokenizer.wf(),
                old(self).tokenizer@.steps(self.tokenizer@),
                c_functions(self.tokenizer@, namespace@, views_of(functions@))
                    == c_functions(old(self).tokenizer@, namespace@, Seq::empty()),
            decreases self.tokenizer@.text.len() - self.tokenizer@.cursor(),
        {
            proof {
                reveal(c_functions);
            }
            let ghost acc0 = views_of(functions@);
            match self.parse_function(namespace) {
                Err(e) => {
                    return Err(e);
                },
                Ok(None) => {
                    return Ok(functions);
                },
                Ok(Some(f)) => {
                    let ghost fv = f@;
                    functions.push(f);
                    assert(views_of(functions@) =~= acc0.push(fv));
                },
            }
        }
    }

    fn parse_function(&mut self, namespace: &Name) -> (r: CResult<Option<SysDCFunction>>)
        requires
            old(self).tokenizer.wf(),
        ensures
            final(self).tokenizer.wf(),
            old(self).tokenizer@.steps(final(self).tokenizer@),
            (rvo(r), final(self).tokenizer@) == c_function(old(self).tokenizer@, namespace@),
            r matches Ok(Some(_)) ==> old(self).tokenizer@.cursor() < final(self).tokenizer@.cursor(),
    {
        proof {
            self.tokenizer.lemma_wf();
            reveal(c_function);
        }
        let name = match self.tokenizer.expect(TokenKind::Identifier)? {
            Some(t) => Name::from(namespace, t.get_id()?),
            None => {
                return Ok(None);
            },
        };
        self.tokenizer.request(TokenKind::ParenthesisBegin)?;
        let args = self.parse_mappings(&name)?;
        self.tokenizer.request(TokenKind::ParenthesisEnd)?;
        self.tokenizer.request(TokenKind::Allow)?;
        let tt = self.tokenizer.request(TokenKind::Identifier)?;
        let return_type = Type::from(tt.get_id()?);
        self.tokenizer.request(TokenKind::BracketBegin)?;
        let (return_name, spawns) = self.parse_function_body(&name)?;
        self.tokenizer.request(TokenKind::BracketEnd)?;
        Ok(Some(SysDCFunction::new(name, args, (return_name, return_type), spawns)))
    }

    fn parse_function_body(&mut self, namespace: &Name) -> (r: CResult<(Name, Vec<SysDCSpawn>)>)
        requires
            old(self).tokenizer.wf(),
        ensures
            final(self).tokenizer.wf(),
            old(self).tokenizer@.steps(final(self).tokenizer@),
            (match r {
                Ok((n, v)) => Ok((n@, views_of(v@))),
                Err(e) => Err(e@),
            }, final(self).tokenizer@) == c_body(old(self).tokenizer@, namespace@, None, Seq::empty()),
    {
        proof {
            self.tokenizer.lemma_wf();
        }
        let mut ret_name: Option<Name> = None;
        let mut spawns: Vec<SysDCSpawn> = Vec::new();
        assert(views_of(spawns@) =~= Seq::<SpawnV>::empty());
        loop
            invariant
                self.tokenizer.wf(),
                old(self).tokenizer@.steps(self.tokenizer@),
                c_body(self.tokenizer@, namespace@, match ret_name {
                    Some(n) => Some(n@),
                    None => None,
                }, views_of(spawns@)) == c_body(old(self).tokenizer@, namespace@, None, Seq::empty()),
            decreases self.tokenizer@.text.len() - self.tokenizer@.cursor(),
        {
            proof {
                reveal(c_body);
            }
            let ghost acc0 = views_of(spawns@);
            match self.parse_annotation(namespace)? {
                None => {
                    return match ret_name {
                        Some(n) => Ok((n, spawns)),
                        None => CompileError::new(CompileErrorKind::ReturnNotExists),
                    };
                },
                Some(Annotation::Return(n)) => {
                    if ret_name.is_some() {
                        return CompileError::new(CompileErrorKind::ReturnExistsMultiple);
                    }
                    ret_name = Some(n);
                },
                Some(Annotation::Spawn(sp)) => {
                    let ghost sv = sp@;
                    spawns.push(sp);
                    assert(views_of(spawns@) =~= acc0.push(sv));
                },
            }
        }
    }

    fn parse_annotation(&mut self, namespace: &Name) -> (r: CResult<Option<Annotation>>)
        requires
            old(self).tokenizer.wf(),
        ensures
            final(self).tokenizer.wf(),
            old(self).tokenizer@.steps(final(self).tokenizer@),
            (rvo(r), final(self).tokenizer@) == c_annotation(old(self).tokenizer@, namespace@),
            r matches Ok(Some(_)) ==> old(self).tokenizer@.cursor() < final(self).tokenizer@.cursor(),
    {
        proof {
            self.tokenizer.lemma_wf();
            reveal(c_annotation);
        }
        if self.tokenizer.expect(TokenKind::AtMark)?.is_none() {
            return Ok(None);
        }
        if self.tokenizer.expect(TokenKind::Return)?.is_some() {
            let t = self.tokenizer.request(TokenKind::Identifier)?;
            return Ok(Some(Annotation::Return(Name::from(namespace, t.get_id()?))));
        }
        self.parse_annotation_spawn(namespace)
    }

    fn parse_annotation_spawn(&mut self, namespace: &Name) -> (r: CResult<Option<Annotation>>)
        requires
            old(self).tokenizer.wf(),
        ensures
            final(self).tokenizer.wf(),
            old(self).tokenizer@.steps(final(self).tokenizer@),
            (rvo(r), final(self).tokenizer@) == c_ann_spawn(old(self).tokenizer@, namespace@),
            r matches Ok(Some(_)) ==> old(self).tokenizer@.cursor() < final(self).tokenizer@.cursor(),
    {
        proof {
            self.tokenizer.lemma_wf();
            reveal(c_ann_spawn);
        }
        if self.tokenizer.expect(TokenKind::Spawn)?.is_none() {
            return Ok(None);
        }
        let result = match self.parse_id_type_mapping(namespace)? {
            Some(result) => result,
            None => {
                return CompileError::new(CompileErrorKind::ResultOfSpawnNotSpecified);
            },
        };
        if self.tokenizer.expect(TokenKind::BracketBegin)?.is_none() {
            let details: Vec<SysDCSpawnChild> = Vec::new();
            assert(views_of(details@) =~= Seq::<DetailV>::empty());
            return Ok(Some(Annotation::Spawn(SysDCSpawn::new(result, details))));
        }
        let details = self.parse_spawn_details(namespace.clone())?;
        self.tokenizer.request(TokenKind::BracketEnd)?;
        Ok(Some(Annotation::Spawn(SysDCSpawn::new(result, details))))
    }

    fn parse_spawn_details(&mut self, namespace: Name) -> (r: CResult<Vec<SysDCSpawnChild>>)
        requires
            old(self).tokenizer.wf(),
        ensures
            final(self).tokenizer.wf(),
            old(self).tokenizer@.steps(final(self).tokenizer@),
            (rvs(r), final(self).tokenizer@) == c_details(old(self).tokenizer@, namespace@, Seq::empty()),
    {
        proof {
            self.tokenizer.lemma_wf();
        }
        let mut ns = namespace;
        let mut details: Vec<SysDCSpawnChild> = Vec::new();
        assert(views_of(details@) =~= Seq::<DetailV>::empty());
        loop
            invariant
                self.tokenizer.wf(),
                old(self).tokenizer@.steps(self.tokenizer@),
                c_details(self.tokenizer@, ns@, views_of(details@))
                    == c_details(old(self).tokenizer@, namespace@, Seq::empty()),
            decreases self.tokenizer@.text.len() - self.tokenizer@.cursor(),
        {
            proof {
                reveal(c_details);
            }
            let ghost acc0 = views_of(details@);
            match self.parse_annotation_spawn_detail(&ns) {
                Err(e) => {
                    return Err(e);
                },
                Ok(None) => {
                    return Ok(details);
                },
                Ok(Some(new_details)) => {
                    let is_ret = new_details.len() > 0 && match &new_details[0] {
                        SysDCSpawnChild::Return(_, _) => true,
                        _ => false,
                    };
                    let ghost nd = views_of(new_details@);
                    assert(is_ret == starts_with_return(nd));
                    let mut nd_exec = new_details;
                    details.append(&mut nd_exec);
                    assert(views_of(details@) =~= acc0 + nd);
                    if is_ret {
                        return Ok(details);
                    }
                    ns = Name::from(&ns, underscore());
                },
            }
        }
    }

    fn parse_annotation_spawn_detail(&mut self, namespace: &Name) -> (r: CResult<Option<Vec<SysDCSpawnChild>>>)
        requires
            old(self).tokenizer.wf(),
        ensures
            final(self).tokenizer.wf(),
            old(self).tokenizer@.steps(final(self).tokenizer@),
            (match r {
                Ok(Some(v)) => Ok(Some(views_of(v@))),
                Ok(None) => Ok(None),
                Err(e) => Err(e@),
            }, final(self).tokenizer@) == c_detail(old(self).tokenizer@, namespace@),
            r matches Ok(Some(_)) ==> old(self).tokenizer@.cursor() < final(self).tokenizer@.cursor(),
    {
        proof {
            self.tokenizer.lemma_wf();
            reveal(c_detail);
        }
        if self.tokenizer.expect(TokenKind::Let)?.is_some() {
            let t = self.tokenizer.request(TokenKind::Identifier)?;
            let let_to = Name::from(namespace, t.get_id()?);
            self.tokenizer.request(TokenKind::Equal)?;
            let func = match self.parse_id_chain(namespace)? {
                Some((func, _)) => func.name,
                None => {
                    return CompileError::new(CompileErrorKind::FunctionNameNotFound);
                },
            };
            self.tokenizer.request(TokenKind::ParenthesisBegin)?;
            let args = self.parse_chains(namespace)?;
            self.tokenizer.request(TokenKind::ParenthesisEnd)?;
            self.tokenizer.request(TokenKind::Semicolon)?;
            let detail = SysDCSpawnChild::new_let_to(let_to, (Name::new_root(), Type::from(func)), args);
            let mut v: Vec<SysDCSpawnChild> = Vec::new();
            v.push(detail);
            assert(views_of(v@) =~= seq![v@[0]@]);
            return Ok(Some(v));
        }
        if self.tokenizer.expect(TokenKind::Use)?.is_some() {
            let cs = self.parse_chains(namespace)?;
            let mut v: Vec<SysDCSpawnChild> = Vec::new();
            let mut i: usize = 0;
            while i < cs.len()
                invariant
                    i <= cs@.len(),
                    v@.len() == i,
                    forall|k: int| 0 <= k < i ==> #[trigger] v@[k]@ == DetailV::Use(cs@[k]@.0, TypeV::nohint()),
                decreases cs.len() - i,
            {
                v.push(SysDCSpawnChild::new_use(cs[i].0.clone(), Type::new_unsovled_nohint()));
                i = i + 1;
            }
            assert(views_of(v@) =~= views_of(cs@).map_values(|c: NT| DetailV::Use(c.0, TypeV::nohint())));
            self.tokenizer.request(TokenKind::Semicolon)?;
            return Ok(Some(v));
        }
        if self.tokenizer.expect(TokenKind::Return)?.is_some() {
            match self.parse_id_chain(namespace)? {
                Some((name, _)) => {
                    self.tokenizer.request(TokenKind::Semicolon)?;
                    let mut v: Vec<SysDCSpawnChild> = Vec::new();
                    v.push(SysDCSpawnChild::new_return(name, Type::new_unsovled_nohint()));
                    assert(views_of(v@) =~= seq![v@[0]@]);
                    return Ok(Some(v));
                },
                None => {
                    return CompileError::new(CompileErrorKind::ResultOfSpawnNotSpecified);
                },
            }
        }
        Ok(None)
    }

    fn parse_idents(&mut self, d: TokenKind) -> (r: CResult<Vec<Vec<char>>>)
        requires
            old(self).tokenizer.wf(),
        ensures
            final(self).tokenizer.wf(),
            old(self).tokenizer@.steps(final(self).tokenizer@),
            (match r {
                Ok(v) => Ok(views(v@)),
                Err(e) => Err(e@),
            }, final(self).tokenizer@) == c_idents(old(self).tokenizer@, d, Seq::empty()),
            r matches Ok(v) && v@.len() > 0 ==> old(self).tokenizer@.cursor() < final(self).tokenizer@.cursor(),
    {
        proof {
            self.tokenizer.lemma_wf();
        }
        let mut acc: Vec<Vec<char>> = Vec::new();
        assert(views(acc@) =~= Seq::<Seq<char>>::empty());
        loop
            invariant
                self.tokenizer.wf(),
                old(self).tokenizer@.steps(self.tokenizer@),
                c_idents(self.tokenizer@, d, views(acc@)) == c_idents(old(self).tokenizer@, d, Seq::empty()),
                acc@.len() > 0 ==> old(self).tokenizer@.cursor() < self.tokenizer@.cursor(),
            decreases self.tokenizer@.text.len() - self.tokenizer@.cursor(),
        {
            proof {
                reveal(c_idents);
            }
            let ghost acc0 = views(acc@);
            match self.tokenizer.expect(TokenKind::Identifier) {
                Err(e) => {
                    return Err(e);
                },
                Ok(None) => {
                    return Ok(acc);
                },
                Ok(Some(t)) => {
                    let id = t.get_id()?;
                    let cs = chars_of(id.as_str());
                    acc.push(cs);
                    assert(views(acc@) =~= acc0.push(id_of(t@)));
                    match self.tokenizer.expect(d) {
                        Err(e) => {
                            return Err(e);
                        },
                        Ok(None) => {
                            return Ok(acc);
                        },
                        Ok(Some(_)) => {},
                    }
                },
            }
        }
    }

    fn parse_id_chain(&mut self, namespace: &Name) -> (r: CResult<Option<(Name, Type)>>)
        requires
            old(self).tokenizer.wf(),
        ensures
            final(self).tokenizer.wf(),
            old(self).tokenizer@.steps(final(self).tokenizer@),
            (rvo(r), final(self).tokenizer@) == c_id_chain(old(self).tokenizer@, namespace@),
            r matches Ok(Some(_)) ==> old(self).tokenizer@.cursor() < final(self).tokenizer@.cursor(),
    {
        proof {
            self.tokenizer.lemma_wf();
            reveal(c_id_chain);
        }
        let ids = self.parse_idents(TokenKind::Accessor)?;
        let var = crate::text::join_chars(&ids, ids.len(), '.');
        assert(views(ids@).take(ids@.len() as int) =~= views(ids@));
        if var.len() == 0 {
            Ok(None)
        } else {
            assert(ids@.len() > 0);
            Ok(Some((Name::from(namespace, string_of(&var)), Type::new_unsovled_nohint())))
        }
    }

    fn parse_chains(&mut self, namespace: &Name) -> (r: CResult<Vec<(Name, Type)>>)
        requires
            old(self).tokenizer.wf(),
        ensures
            final(self).tokenizer.wf(),
            old(self).tokenizer@.steps(final(self).tokenizer@),
            (rvs(r), final(self).tokenizer@) == c_chains(old(self).tokenizer@, namespace@, Seq::empty()),
    {
        proof {
            self.tokenizer.lemma_wf();
        }
        let mut acc: Vec<(Name, Type)> = Vec::new();
        assert(views_of(acc@) =~= Seq::<NT>::empty());
        loop
            invariant
                self.tokenizer.wf(),
                old(self).tokenizer@.steps(self.tokenizer@),
                c_chains(self.tokenizer@, namespace@, views_of(acc@)) == c_chains(old(self).tokenizer@, namespace@, Seq::empty()),
            decreases self.tokenizer@.text.len() - self.tokenizer@.cursor(),
        {
            proof {
                reveal(c_chains);
            }
            let ghost acc0 = views_of(acc@);
            match self.parse_id_chain(namespace) {
                Err(e) => {
                    return Err(e);
                },
                Ok(None) => {
                    return Ok(acc);
                },
                Ok(Some(x)) => {
                    let ghost xv = x@;
                    acc.push(x);
                    assert(views_of(acc@) =~= acc0.push(xv));
                    match self.tokenizer.expect(TokenKind::Separater) {
                        Err(e) => {
                            return Err(e);
                        },
                        Ok(None) => {
                            return Ok(acc);
                        },
                        Ok(Some(_)) => {},
                    }
                },
            }
        }
    }

    fn parse_id_type_mapping(&mut self, namespace: &Name) -> (r: CResult<Option<(Name, Type)>>)
        requires
            old(self).tokenizer.wf(),
        ensures
            final(self).tokenizer.wf(),
            old(self).tokenizer@.steps(final(self).tokenizer@),
            (rvo(r), final(self).tokenizer@) == c_mapping(old(self).tokenizer@, namespace@),
            r matches Ok(Some(_)) ==> old(self).tokenizer@.cursor() < final(self).tokenizer@.cursor(),
    {
        proof {
            self.tokenizer.lemma_wf();
            reveal(c_mapping);
        }
        let id1 = match self.tokenizer.expect(TokenKind::Identifier)? {
            Some(t) => t.get_id()?,
            None => {
                return Ok(None);
            },
        };
        self.tokenizer.request(TokenKind::Mapping)?;
        let t2 = self.tokenizer.request(TokenKind::Identifier)?;
        let id2 = t2.get_id()?;
        Ok(Some((Name::from(namespace, id1), Type::from(id2))))
    }

    fn parse_mappings(&mut self, namespace: &Name) -> (r: CResult<Vec<(Name, Type)>>)
        requires
            old(self).tokenizer.wf(),
        ensures
            final(self).tokenizer.wf(),
            old(self).tokenizer@.steps(final(self).tokenizer@),
            (rvs(r), final(self).tokenizer@) == c_mappings(old(self).tokenizer@, namespace@, Seq::empty()),
    {
        proof {
            self.tokenizer.lemma_wf();
        }
        let mut acc: Vec<(Name, Type)> = Vec::new();
        assert(views_of(acc@) =~= Seq::<NT>::empty());
        loop
            invariant
                self.tokenizer.wf(),
                old(self).tokenizer@.steps(self.tokenizer@),
                c_mappings(self.tokenizer@, namespace@, views_of(acc@)) == c_mappings(old(self).tokenizer@, namespace@, Seq::empty()),
            decreases self.tokenizer@.text.len() - self.tokenizer@.cursor(),
        {
            proof {
                reveal(c_mappings);
            }
            let ghost acc0 = views_of(acc@);
            match self.parse_id_type_mapping(namespace) {
                Err(e) => {
                    return Err(e);
                },
                Ok(None) => {
                    return Ok(acc);
                },
                Ok(Some(x)) => {
                    let ghost xv = x@;
                    acc.push(x);
                    assert(views_of(acc@) =~= acc0.push(xv));
                    match self.tokenizer.expect(TokenKind::Separater) {
                        Err(e) => {
                            return Err(e);
                        },
                        Ok(None) => {
                            return Ok(acc);
                        },
                        Ok(Some(_)) => {},
                    }
                },
            }
        }
    }
}

} // verus!
