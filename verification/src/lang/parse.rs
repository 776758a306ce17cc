//! Parsing a unit.
//!
//! ```text
//! <root>        ::= unit <id_chain> ; { <import> | <data> | <module> }
//! <import>      ::= from <id_chain> import <id_list, delimiter=,> ;
//! <data>        ::= data <id> { <id_type_mapping_list, delimiter=,> }
//! <module>      ::= module <id> { <function_list> }
//! <function>    ::= [func] <id> ( <id_type_mapping_list, delimiter=,> ) -> <id> { <annotation_list> }
//!                 | proc <id> ( <id_type_mapping_list, delimiter=,> ) { <annotation_list> }
//! <annotation>  ::= @ ( return <id> | <spawn> | <modify> | <affect> )
//! <spawn>       ::= spawn <id_type_mapping> [ { <spawn_detail_list> } ]
//! <spawn_detail>::= let <id> = <id_chain> ( <id_chain_list, delimiter=,> ) ;
//!                 | use <id_list, delimiter=,> ;
//!                 | return <id_chain> ;
//! <modify>      ::= modify <id_chain> [ { { use <id_chain_list, delimiter=,> ; } } ]
//! <affect>      ::= affect <id_chain> ( <id_chain_list, delimiter=,> )
//! <id_chain>    ::= <id_list, delimiter=.>
//! <id_type_mapping> ::= <id> : <id>
//! ```
//!
//! Each spawn detail lives in its own namespace below the function, one
//! `_` deeper than the detail before it; the details stop after a `return`.
//! Each `spec fn p_*` states what the parser function of the same name
//! returns, and the tokenizer state after it.
use vstd::prelude::*;
use crate::lang::name::{Name, NameV};
use crate::lang::types::{Type, TypeKind, TypeV, KindV};
use crate::lang::token::{TokenKind, Tokenizer, TokState, TokenV};
use crate::lang::error::{PError, PErrorKind, PErrorKindV, PErrorV, PResult};
use crate::lang::structure::{NT, views_of};
use crate::lang::structure::unchecked::{
    SysDCUnit, SysDCData, SysDCModule, SysDCFunction, SysDCAnnotation, SysDCSpawnDetail, UnitV,
    DataV, ModuleV, FunctionV, AnnotationV, DetailV,
};
use crate::text::{join_with, string_of, chars_of};

verus! {

/// The model of an outcome.
pub open spec fn rv<T: View>(r: PResult<T>) -> Result<T::V, PErrorV> {
    match r {
        Ok(v) => Ok(v@),
        Err(e) => Err(e@),
    }
}

/// The model of an outcome that may be empty.
pub open spec fn rvo<T: View>(r: PResult<Option<T>>) -> Result<Option<T::V>, PErrorV> {
    match r {
        Ok(Some(v)) => Ok(Some(v@)),
        Ok(None) => Ok(None),
        Err(e) => Err(e@),
    }
}


/// The failure of kind `k`, reported at no location.
pub open spec fn fail(k: PErrorKindV) -> PErrorV {
    PErrorV::nowhere(k)
}

/// The step from `a` to `b` parsed something.
pub open spec fn advanced(a: TokState, b: TokState) -> bool {
    a.cursor() < b.cursor() && b.text == a.text && b.cursor() <= a.text.len()
}

/// `<id_list, delimiter=d>`: the texts of the identifiers. After the
/// first `.` of a dotted path a reserved word is a name too.
#[verifier::opaque]
pub open spec fn p_idents(st: TokState, d: TokenKind, acc: Seq<Seq<char>>) -> (
    Result<Seq<Seq<char>>, PErrorV>,
    TokState,
)
    decreases st.text.len() - st.cursor(),
{
    let (r, s1) = if d == TokenKind::Accessor && acc.len() > 0 {
        st.expect_word()
    } else {
        st.expect(TokenKind::Identifier)
    };
    match r {
        Err(e) => (Err(e), s1),
        Ok(None) => (Ok(acc), s1),
        Ok(Some(t)) => {
            let acc2 = acc.push(t.orig);
            let (r2, s2) = s1.expect(d);
            match r2 {
                Err(e) => (Err(e), s2),
                Ok(None) => (Ok(acc2), s2),
                Ok(Some(_)) => if advanced(st, s2) {
                    p_idents(s2, d, acc2)
                } else {
                    (Ok(acc2), s2)
                },
            }
        },
    }
}

/// `<id_chain>`: the identifiers joined with `.`, as a name in `ns`.
#[verifier::opaque]
pub open spec fn p_id_chain(st: TokState, ns: NameV) -> (Result<Option<NT>, PErrorV>, TokState) {
    let (r, s1) = p_idents(st, TokenKind::Accessor, Seq::empty());
    match r {
        Err(e) => (Err(e), s1),
        Ok(ids) => {
            let var = join_with(ids, '.');
            if var.len() == 0 {
                (Ok(None), s1)
            } else {
                (Ok(Some((ns.child(var), TypeV::nohint()))), s1)
            }
        },
    }
}

/// `<id_chain_list, delimiter=,>`
#[verifier::opaque]
pub open spec fn p_chains(st: TokState, ns: NameV, acc: Seq<NT>) -> (Result<Seq<NT>, PErrorV>, TokState)
    decreases st.text.len() - st.cursor(),
{
    let (r, s1) = p_id_chain(st, ns);
    match r {
        Err(e) => (Err(e), s1),
        Ok(None) => (Ok(acc), s1),
        Ok(Some(x)) => {
            let acc2 = acc.push(x);
            let (r2, s2) = s1.expect(TokenKind::Separater);
            match r2 {
                Err(e) => (Err(e), s2),
                Ok(None) => (Ok(acc2), s2),
                Ok(Some(_)) => if advanced(st, s2) {
                    p_chains(s2, ns, acc2)
                } else {
                    (Ok(acc2), s2)
                },
            }
        },
    }
}

/// `<type>`
#[verifier::opaque]
pub open spec fn p_type(st: TokState) -> (Result<TypeV, PErrorV>, TokState) {
    let (r, s1) = st.request(TokenKind::Identifier);
    match r {
        Err(e) => (Err(e), s1),
        Ok(t) => (Ok(TypeV::from_name(t.orig)), s1),
    }
}

/// `<id_type_mapping>`
#[verifier::opaque]
pub open spec fn p_id_type_mapping(st: TokState, ns: NameV) -> (
    Result<Option<NT>, PErrorV>,
    TokState,
) {
    let (r, s1) = st.expect(TokenKind::Identifier);
    match r {
        Err(e) => (Err(e), s1),
        Ok(None) => (Ok(None), s1),
        Ok(Some(t)) => {
            let (r2, s2) = s1.request(TokenKind::Mapping);
            match r2 {
                Err(e) => (Err(e), s2),
                Ok(_) => {
                    let (r3, s3) = p_type(s2);
                    match r3 {
                        Err(e) => (Err(e), s3),
                        Ok(ty) => (Ok(Some((ns.child(t.orig), ty))), s3),
                    }
                },
            }
        },
    }
}

/// `<id_type_mapping_list, delimiter=,>`
#[verifier::opaque]
pub open spec fn p_mappings(st: TokState, ns: NameV, acc: Seq<NT>) -> (
    Result<Seq<NT>, PErrorV>,
    TokState,
)
    decreases st.text.len() - st.cursor(),
{
    let (r, s1) = p_id_type_mapping(st, ns);
    match r {
        Err(e) => (Err(e), s1),
        Ok(None) => (Ok(acc), s1),
        Ok(Some(x)) => {
            let acc2 = acc.push(x);
            let (r2, s2) = s1.expect(TokenKind::Separater);
            match r2 {
                Err(e) => (Err(e), s2),
                Ok(None) => (Ok(acc2), s2),
                Ok(Some(_)) => if advanced(st, s2) {
                    p_mappings(s2, ns, acc2)
                } else {
                    (Ok(acc2), s2)
                },
            }
        },
    }
}

/// `<import>`: the names imported.
#[verifier::opaque]
pub open spec fn p_import(st: TokState) -> (Result<Option<Seq<NameV>>, PErrorV>, TokState) {
    let (r, s1) = st.expect(TokenKind::From);
    match r {
        Err(e) => (Err(e), s1),
        Ok(None) => (Ok(None), s1),
        Ok(Some(_)) => {
            let (r2, s2) = p_id_chain(s1, NameV::root());
            match r2 {
                Err(e) => (Err(e), s2),
                Ok(None) => (Err(fail(PErrorKindV::FromNamespaceNotSpecified)), s2),
                Ok(Some((found, _))) => {
                    let from_ns = NameV::root().child(found.name);
                    let (r3, s3) = s2.request(TokenKind::Import);
                    match r3 {
                        Err(e) => (Err(e), s3),
                        Ok(_) => {
                            let (r4, s4) = p_idents(s3, TokenKind::Separater, Seq::empty());
                            match r4 {
                                Err(e) => (Err(e), s4),
                                Ok(ids) => {
                                    let (r5, s5) = s4.request(TokenKind::Semicolon);
                                    match r5 {
                                        Err(e) => (Err(e), s5),
                                        Ok(_) => (
                                            Ok(Some(ids.map_values(|id: Seq<char>| from_ns.child(id)))),
                                            s5,
                                        ),
                                    }
                                },
                            }
                        },
                    }
                },
            }
        },
    }
}

/// `<data>`
#[verifier::opaque]
pub open spec fn p_data(st: TokState, ns: NameV) -> (Result<Option<DataV>, PErrorV>, TokState) {
    let (r, s1) = st.expect(TokenKind::Data);
    match r {
        Err(e) => (Err(e), s1),
        Ok(None) => (Ok(None), s1),
        Ok(Some(_)) => {
            let (r2, s2) = s1.request(TokenKind::Identifier);
            match r2 {
                Err(e) => (Err(e), s2),
                Ok(t) => {
                    let name = ns.child(t.orig);
                    let (r3, s3) = s2.request(TokenKind::BracketBegin);
                    match r3 {
                        Err(e) => (Err(e), s3),
                        Ok(_) => {
                            let (r4, s4) = p_mappings(s3, name, Seq::empty());
                            match r4 {
                                Err(e) => (Err(e), s4),
                                Ok(members) => {
                                    let (r5, s5) = s4.request(TokenKind::BracketEnd);
                                    match r5 {
                                        Err(e) => (Err(e), s5),
                                        Ok(_) => (Ok(Some(DataV { name, members })), s5),
                                    }
                                },
                            }
                        },
                    }
                },
            }
        },
    }
}

/// `return <id>` after `@`
#[verifier::opaque]
pub open spec fn p_ann_return(st: TokState, ns: NameV) -> (
    Result<Option<AnnotationV>, PErrorV>,
    TokState,
) {
    let (r, s1) = st.expect(TokenKind::Return);
    match r {
        Err(e) => (Err(e), s1),
        Ok(None) => (Ok(None), s1),
        Ok(Some(_)) => {
            let (r2, s2) = s1.request(TokenKind::Identifier);
            match r2 {
                Err(e) => (Err(e), s2),
                Ok(t) => (Ok(Some(AnnotationV::Return(ns.child(t.orig)))), s2),
            }
        },
    }
}

/// The root name as the place holder of a function that a `let` calls.
pub open spec fn let_to(name: NameV, func: Seq<char>, args: Seq<NT>) -> DetailV {
    DetailV::LetTo { name, func: (NameV::root(), TypeV::from_name(func)), args }
}

/// `<spawn_detail>`
#[verifier::opaque]
pub open spec fn p_detail(st: TokState, ns: NameV) -> (Result<Option<Seq<DetailV>>, PErrorV>, TokState) {
    let (r, s1) = st.expect(TokenKind::Let);
    match r {
        Err(e) => (Err(e), s1),
        Ok(Some(_)) => {
            let (r2, s2) = s1.request(TokenKind::Identifier);
            match r2 {
                Err(e) => (Err(e), s2),
                Ok(t) => {
                    let name = ns.child(t.orig);
                    let (r3, s3) = s2.request(TokenKind::Equal);
                    match r3 {
                        Err(e) => (Err(e), s3),
                        Ok(_) => {
                            let (r4, s4) = p_id_chain(s3, ns);
                            match r4 {
                                Err(e) => (Err(e), s4),
                                Ok(None) => (Err(fail(PErrorKindV::FunctionNameNotFound)), s4),
                                Ok(Some((f, _))) => {
                                    let (r5, s5) = s4.request(TokenKind::ParenthesisBegin);
                                    match r5 {
                                        Err(e) => (Err(e), s5),
                                        Ok(_) => {
                                            let (r6, s6) = p_chains(s5, ns, Seq::empty());
                                            match r6 {
                                                Err(e) => (Err(e), s6),
                                                Ok(args) => {
                                                    let (r7, s7) = s6.request(
                                                        TokenKind::ParenthesisEnd,
                                                    );
                                                    match r7 {
                                                        Err(e) => (Err(e), s7),
                                                        Ok(_) => {
                                                            let (r8, s8) = s7.request(
                                                                TokenKind::Semicolon,
                                                            );
                                                            match r8 {
                                                                Err(e) => (Err(e), s8),
                                                                Ok(_) => (
                                                                    Ok(
                                                                        Some(
                                                                            seq![let_to(name, f.name, args)],
                                                                        ),
                                                                    ),
                                                                    s8,
                                                                ),
                                                            }
                                                        },
                                                    }
                                                },
                                            }
                                        },
                                    }
                                },
                            }
                        },
                    }
                },
            }
        },
        Ok(None) => {
            let (ru, t1) = s1.expect(TokenKind::Use);
            match ru {
                Err(e) => (Err(e), t1),
                Ok(Some(_)) => {
                    let (r2, t2) = p_idents(t1, TokenKind::Separater, Seq::empty());
                    match r2 {
                        Err(e) => (Err(e), t2),
                        Ok(ids) => {
                            let (r3, t3) = t2.request(TokenKind::Semicolon);
                            match r3 {
                                Err(e) => (Err(e), t3),
                                Ok(_) => (
                                    Ok(
                                        Some(
                                            ids.map_values(
                                                |id: Seq<char>| DetailV::Use(ns.child(id), TypeV::nohint()),
                                            ),
                                        ),
                                    ),
                                    t3,
                                ),
                            }
                        },
                    }
                },
                Ok(None) => {
                    let (rr, u1) = t1.expect(TokenKind::Return);
                    match rr {
                        Err(e) => (Err(e), u1),
                        Ok(None) => (Ok(None), u1),
                        Ok(Some(_)) => {
                            let (r2, u2) = p_id_chain(u1, ns);
                            match r2 {
                                Err(e) => (Err(e), u2),
                                Ok(None) => (Err(fail(PErrorKindV::ResultOfSpawnNotSpecified)), u2),
                                Ok(Some((n, _))) => {
                                    let (r3, u3) = u2.request(TokenKind::Semicolon);
                                    match r3 {
                                        Err(e) => (Err(e), u3),
                                        Ok(_) => (
                                            Ok(Some(seq![DetailV::Return(n, TypeV::nohint())])),
                                            u3,
                                        ),
                                    }
                                },
                            }
                        },
                    }
                },
            }
        },
    }
}

/// Whether a group of details starts with a `return`.
pub open spec fn starts_with_return(ds: Seq<DetailV>) -> bool {
    ds.len() > 0 && ds[0] is Return
}

/// `{ <spawn_detail> }`, each group one `_` deeper than the one before.
#[verifier::opaque]
pub open spec fn p_details(st: TokState, ns: NameV, acc: Seq<DetailV>) -> (
    Result<Seq<DetailV>, PErrorV>,
    TokState,
)
    decreases st.text.len() - st.cursor(),
{
    let (r, s1) = p_detail(st, ns);
    match r {
        Err(e) => (Err(e), s1),
        Ok(None) => (Ok(acc), s1),
        Ok(Some(ds)) => {
            let acc2 = acc + ds;
            if starts_with_return(ds) {
                (Ok(acc2), s1)
            } else if advanced(st, s1) {
                p_details(s1, ns.child(seq!['_']), acc2)
            } else {
                (Ok(acc2), s1)
            }
        },
    }
}

/// `spawn <id_type_mapping> [ { <spawn_detail_list> } ]` after `@`
#[verifier::opaque]
pub open spec fn p_ann_spawn(st: TokState, ns: NameV) -> (
    Result<Option<AnnotationV>, PErrorV>,
    TokState,
) {
    let (r, s1) = st.expect(TokenKind::Spawn);
    match r {
        Err(e) => (Err(e), s1),
        Ok(None) => (Ok(None), s1),
        Ok(Some(_)) => {
            let (r2, s2) = p_id_type_mapping(s1, ns);
            match r2 {
                Err(e) => (Err(e), s2),
                Ok(None) => (Err(fail(PErrorKindV::ResultOfSpawnNotSpecified)), s2),
                Ok(Some(result)) => {
                    let (r3, s3) = s2.expect(TokenKind::BracketBegin);
                    match r3 {
                        Err(e) => (Err(e), s3),
                        Ok(None) => (
                            Ok(Some(AnnotationV::Spawn { result, details: Seq::empty() })),
                            s3,
                        ),
                        Ok(Some(_)) => {
                            let (r4, s4) = p_details(s3, ns.child(seq!['_']), Seq::empty());
                            match r4 {
                                Err(e) => (Err(e), s4),
                                Ok(details) => {
                                    let (r5, s5) = s4.request(TokenKind::BracketEnd);
                                    match r5 {
                                        Err(e) => (Err(e), s5),
                                        Ok(_) => (Ok(Some(AnnotationV::Spawn { result, details })), s5),
                                    }
                                },
                            }
                        },
                    }
                },
            }
        },
    }
}

/// `{ use <id_chain_list, delimiter=,> ; }` in a modify
#[verifier::opaque]
pub open spec fn p_uses(st: TokState, ns: NameV, acc: Seq<NT>) -> (Result<Seq<NT>, PErrorV>, TokState)
    decreases st.text.len() - st.cursor(),
{
    let (r, s1) = st.expect(TokenKind::Use);
    match r {
        Err(e) => (Err(e), s1),
        Ok(None) => (Ok(acc), s1),
        Ok(Some(_)) => {
            let (r2, s2) = p_chains(s1, ns, Seq::empty());
            match r2 {
                Err(e) => (Err(e), s2),
                Ok(cs) => {
                    let (r3, s3) = s2.request(TokenKind::Semicolon);
                    match r3 {
                        Err(e) => (Err(e), s3),
                        Ok(_) => if advanced(st, s3) {
                            p_uses(s3, ns, acc + cs)
                        } else {
                            (Ok(acc + cs), s3)
                        },
                    }
                },
            }
        },
    }
}

/// `modify <id_chain> [ { ... } ]` after `@`
#[verifier::opaque]
pub open spec fn p_ann_modify(st: TokState, ns: NameV) -> (
    Result<Option<AnnotationV>, PErrorV>,
    TokState,
) {
    let (r, s1) = st.expect(TokenKind::Modify);
    match r {
        Err(e) => (Err(e), s1),
        Ok(None) => (Ok(None), s1),
        Ok(Some(_)) => {
            let (r2, s2) = p_id_chain(s1, ns);
            match r2 {
                Err(e) => (Err(e), s2),
                Ok(None) => (Err(fail(PErrorKindV::ResultOfSpawnNotSpecified)), s2),
                Ok(Some(target)) => {
                    let (r3, s3) = s2.expect(TokenKind::BracketBegin);
                    match r3 {
                        Err(e) => (Err(e), s3),
                        Ok(None) => (Ok(Some(AnnotationV::Modify { target, uses: Seq::empty() })), s3),
                        Ok(Some(_)) => {
                            let (r4, s4) = p_uses(s3, ns, Seq::empty());
                            match r4 {
                                Err(e) => (Err(e), s4),
                                Ok(uses) => {
                                    let (r5, s5) = s4.request(TokenKind::BracketEnd);
                                    match r5 {
                                        Err(e) => (Err(e), s5),
                                        Ok(_) => (Ok(Some(AnnotationV::Modify { target, uses })), s5),
                                    }
                                },
                            }
                        },
                    }
                },
            }
        },
    }
}

/// `affect <id_chain> ( <id_chain_list, delimiter=,> )` after `@`
#[verifier::opaque]
pub open spec fn p_ann_affect(st: TokState, ns: NameV) -> (
    Result<Option<AnnotationV>, PErrorV>,
    TokState,
) {
    let (r, s1) = st.expect(TokenKind::Affect);
    match r {
        Err(e) => (Err(e), s1),
        Ok(None) => (Ok(None), s1),
        Ok(Some(_)) => {
            let (r2, s2) = p_id_chain(s1, ns);
            match r2 {
                Err(e) => (Err(e), s2),
                Ok(None) => (Err(fail(PErrorKindV::FunctionNameNotFound)), s2),
                Ok(Some((f, _))) => {
                    let (r3, s3) = s2.request(TokenKind::ParenthesisBegin);
                    match r3 {
                        Err(e) => (Err(e), s3),
                        Ok(_) => {
                            let (r4, s4) = p_chains(s3, ns, Seq::empty());
                            match r4 {
                                Err(e) => (Err(e), s4),
                                Ok(args) => {
                                    let (r5, s5) = s4.request(TokenKind::ParenthesisEnd);
                                    match r5 {
                                        Err(e) => (Err(e), s5),
                                        Ok(_) => (
                                            Ok(
                                                Some(
                                                    AnnotationV::Affect {
                                                        func: (f, TypeV::from_name(f.name)),
                                                        args,
                                                    },
                                                ),
                                            ),
                                            s5,
                                        ),
                                    }
                                },
                            }
                        },
                    }
                },
            }
        },
    }
}

/// `<annotation>`
#[verifier::opaque]
pub open spec fn p_annotation(st: TokState, ns: NameV) -> (
    Result<Option<AnnotationV>, PErrorV>,
    TokState,
) {
    let (r, s1) = st.expect(TokenKind::AtMark);
    match r {
        Err(e) => (Err(e), s1),
        Ok(None) => (Ok(None), s1),
        Ok(Some(_)) => {
            let (r2, s2) = p_ann_return(s1, ns);
            if !(r2 matches Ok(None)) {
                (r2, s2)
            } else {
                let (r3, s3) = p_ann_spawn(s2, ns);
                if !(r3 matches Ok(None)) {
                    (r3, s3)
                } else {
                    let (r4, s4) = p_ann_modify(s3, ns);
                    if !(r4 matches Ok(None)) {
                        (r4, s4)
                    } else {
                        let (r5, s5) = p_ann_affect(s4, ns);
                        if !(r5 matches Ok(None)) {
                            (r5, s5)
                        } else {
                            let (r6, s6) = s5.expect(TokenKind::Identifier);
                            match r6 {
                                Err(e) => (Err(e), s6),
                                Ok(Some(t)) => (
                                    Err(fail(PErrorKindV::UnknownAnnotationFound(t.orig))),
                                    s6,
                                ),
                                Ok(None) => (Ok(None), s6),
                            }
                        }
                    }
                }
            }
        },
    }
}

/// `<annotation_list>` of a function (`is_proc` false) or a procedure:
/// the name that `@return` gives (the root for a procedure) and the other
/// annotations in order.
#[verifier::opaque]
pub open spec fn p_body(
    st: TokState,
    ns: NameV,
    is_proc: bool,
    ret: Option<NameV>,
    acc: Seq<AnnotationV>,
) -> (Result<(NameV, Seq<AnnotationV>), PErrorV>, TokState)
    decreases st.text.len() - st.cursor(),
{
    let (r, s1) = p_annotation(st, ns);
    match r {
        Err(e) => (Err(e), s1),
        Ok(None) => if is_proc {
            (Ok((NameV::root(), acc)), s1)
        } else {
            match ret {
                Some(n) => (Ok((n, acc)), s1),
                None => (Err(fail(PErrorKindV::ReturnNotExists)), s1),
            }
        },
        Ok(Some(a)) => match a {
            AnnotationV::Return(n) => if is_proc {
                (Err(fail(PErrorKindV::ReturnExistsOnProcedure)), s1)
            } else if ret is Some {
                (Err(fail(PErrorKindV::ReturnExistsMultiple)), s1)
            } else if advanced(st, s1) {
                p_body(s1, ns, is_proc, Some(n), acc)
            } else {
                (Ok((n, acc)), s1)
            },
            _ => if advanced(st, s1) {
                p_body(s1, ns, is_proc, ret, acc.push(a))
            } else {
                (Ok((NameV::root(), acc.push(a))), s1)
            },
        },
    }
}

/// The type returned by a procedure.
pub open spec fn void_type() -> TypeV {
    TypeV { kind: KindV::Void, refs: None }
}

/// Parsing a function from its `(` on, once its name is known.
#[verifier::opaque]
pub open spec fn p_function_rest(st: TokState, name: NameV, is_proc: bool) -> (
    Result<Option<FunctionV>, PErrorV>,
    TokState,
) {
    let (r1, s1) = st.request(TokenKind::ParenthesisBegin);
    match r1 {
        Err(e) => (Err(e), s1),
        Ok(_) => {
            let (r2, s2) = p_mappings(s1, name, Seq::empty());
            match r2 {
                Err(e) => (Err(e), s2),
                Ok(args) => {
                    let (r3, s3) = s2.request(TokenKind::ParenthesisEnd);
                    match r3 {
                        Err(e) => (Err(e), s3),
                        Ok(_) => {
                            let (rt, s4) = if is_proc {
                                (Ok(void_type()), s3)
                            } else {
                                let (r4, s4a) = s3.request(TokenKind::Allow);
                                match r4 {
                                    Err(e) => (Err(e), s4a),
                                    Ok(_) => {
                                        let (r5, s5) = s4a.request(TokenKind::Identifier);
                                        match r5 {
                                            Err(e) => (Err(e), s5),
                                            Ok(t) => (Ok(TypeV::from_name(t.orig)), s5),
                                        }
                                    },
                                }
                            };
                            match rt {
                                Err(e) => (Err(e), s4),
                                Ok(ret_type) => {
                                    let (r6, s6) = s4.request(TokenKind::BracketBegin);
                                    match r6 {
                                        Err(e) => (Err(e), s6),
                                        Ok(_) => {
                                            let (r7, s7) = p_body(s6, name, is_proc, None, Seq::empty());
                                            match r7 {
                                                Err(e) => (Err(e), s7),
                                                Ok((ret_name, annotations)) => {
                                                    let (r8, s8) = s7.request(TokenKind::BracketEnd);
                                                    match r8 {
                                                        Err(e) => (Err(e), s8),
                                                        Ok(_) => (
                                                            Ok(
                                                                Some(
                                                                    FunctionV {
                                                                        name,
                                                                        args,
                                                                        returns: (ret_name, ret_type),
                                                                        annotations,
                                                                    },
                                                                ),
                                                            ),
                                                            s8,
                                                        ),
                                                    }
                                                },
                                            }
                                        },
                                    }
                                },
                            }
                        },
                    }
                },
            }
        },
    }
}

/// `<function>`
#[verifier::opaque]
pub open spec fn p_function(st: TokState, ns: NameV) -> (Result<Option<FunctionV>, PErrorV>, TokState) {
    let (rp, s1) = st.expect(TokenKind::Proc);
    match rp {
        Err(e) => (Err(e), s1),
        Ok(Some(_)) => {
            let (rn, s2) = s1.request(TokenKind::Identifier);
            match rn {
                Err(e) => (Err(e), s2),
                Ok(t) => p_function_rest(s2, ns.child(t.orig), true),
            }
        },
        Ok(None) => {
            let (rf, s2) = s1.expect(TokenKind::Func);
            match rf {
                Err(e) => (Err(e), s2),
                Ok(Some(_)) => {
                    let (rn, s3) = s2.request(TokenKind::Identifier);
                    match rn {
                        Err(e) => (Err(e), s3),
                        Ok(t) => p_function_rest(s3, ns.child(t.orig), false),
                    }
                },
                Ok(None) => {
                    let (rn, s3) = s2.expect(TokenKind::Identifier);
                    match rn {
                        Err(e) => (Err(e), s3),
                        Ok(None) => (Ok(None), s3),
                        Ok(Some(t)) => p_function_rest(s3, ns.child(t.orig), false),
                    }
                },
            }
        },
    }
}

/// `<function_list>`
#[verifier::opaque]
pub open spec fn p_functions(st: TokState, ns: NameV, acc: Seq<FunctionV>) -> (
    Result<Seq<FunctionV>, PErrorV>,
    TokState,
)
    decreases st.text.len() - st.cursor(),
{
    let (r, s1) = p_function(st, ns);
    match r {
        Err(e) => (Err(e), s1),
        Ok(None) => (Ok(acc), s1),
        Ok(Some(f)) => if advanced(st, s1) {
            p_functions(s1, ns, acc.push(f))
        } else {
            (Ok(acc.push(f)), s1)
        },
    }
}

/// `<module>`
#[verifier::opaque]
pub open spec fn p_module(st: TokState, ns: NameV) -> (Result<Option<ModuleV>, PErrorV>, TokState) {
    let (r, s1) = st.expect(TokenKind::Module);
    match r {
        Err(e) => (Err(e), s1),
        Ok(None) => (Ok(None), s1),
        Ok(Some(_)) => {
            let (r2, s2) = s1.request(TokenKind::Identifier);
            match r2 {
                Err(e) => (Err(e), s2),
                Ok(t) => {
                    let name = ns.child(t.orig);
                    let (r3, s3) = s2.request(TokenKind::BracketBegin);
                    match r3 {
                        Err(e) => (Err(e), s3),
                        Ok(_) => {
                            let (r4, s4) = p_functions(s3, name, Seq::empty());
                            match r4 {
                                Err(e) => (Err(e), s4),
                                Ok(functions) => {
                                    let (r5, s5) = s4.request(TokenKind::BracketEnd);
                                    match r5 {
                                        Err(e) => (Err(e), s5),
                                        Ok(_) => (Ok(Some(ModuleV { name, functions })), s5),
                                    }
                                },
                            }
                        },
                    }
                },
            }
        },
    }
}

/// `{ <import> | <data> | <module> }` up to the end of the text.
#[verifier::opaque]
pub open spec fn p_sentences(
    st: TokState,
    ns: NameV,
    imports: Seq<NameV>,
    data: Seq<DataV>,
    modules: Seq<ModuleV>,
) -> (Result<UnitV, PErrorV>, TokState)
    decreases st.text.len() - st.cursor(),
{
    let (more, st0) = st.exists_next();
    if !more {
        (Ok(UnitV { name: ns, data, modules, imports }), st0)
    } else {
        let (ri, s1) = p_import(st);
        match ri {
            Err(e) => (Err(e), s1),
            Ok(i) => {
                let (rd, s2) = p_data(s1, ns);
                match rd {
                    Err(e) => (Err(e), s2),
                    Ok(d) => {
                        let (rm, s3) = p_module(s2, ns);
                        match rm {
                            Err(e) => (Err(e), s3),
                            Ok(m) => if i is None && d is None && m is None {
                                (Err(fail(PErrorKindV::DataOrModuleNotFound)), s3)
                            } else {
                                let imports2 = match i {
                                    Some(is) => imports + is,
                                    None => imports,
                                };
                                let data2 = match d {
                                    Some(x) => data.push(x),
                                    None => data,
                                };
                                let modules2 = match m {
                                    Some(x) => modules.push(x),
                                    None => modules,
                                };
                                if advanced(st, s3) {
                                    p_sentences(s3, ns, imports2, data2, modules2)
                                } else {
                                    (Ok(UnitV { name: ns, data: data2, modules: modules2, imports: imports2 }), s3)
                                }
                            },
                        }
                    },
                }
            },
        }
    }
}

/// `<root>`: the unit.
#[verifier::opaque]
pub open spec fn p_root(st: TokState, ns: NameV) -> (Result<UnitV, PErrorV>, TokState) {
    let (r, s1) = st.request(TokenKind::Unit);
    match r {
        Err(e) => (Err(e), s1),
        Ok(_) => {
            let (r2, s2) = p_id_chain(s1, ns);
            match r2 {
                Err(e) => (Err(e), s2),
                Ok(None) => (Err(fail(PErrorKindV::UnitNameNotSpecified)), s2),
                Ok(Some((found, _))) => {
                    let uns = ns.child(found.name);
                    let (r3, s3) = s2.request(TokenKind::Semicolon);
                    match r3 {
                        Err(e) => (Err(e), s3),
                        Ok(_) => p_sentences(s3, uns, Seq::empty(), Seq::empty(), Seq::empty()),
                    }
                },
            }
        },
    }
}


/// The models of a list of strings.
pub open spec fn strs(v: Seq<String>) -> Seq<Seq<char>> {
    v.map_values(|x: String| x@)
}

fn underscore() -> (r: String)
    ensures
        r@ == seq!['_'],
{
    let mut s = String::new();
    crate::text::push_char(&mut s, '_');
    assert(s@ =~= seq!['_']);
    s
}

/// The parser of one unit.
pub struct UnitParser {
    tokenizer: Tokenizer,
}

impl UnitParser {
    /// Parses the unit that the tokenizer's text holds.
    pub fn parse(tokenizer: Tokenizer) -> (r: PResult<SysDCUnit>)
        requires
            tokenizer.wf(),
        ensures
            rv(r) == p_root(tokenizer@, NameV::root()).0,
    {
        let mut parser = UnitParser { tokenizer };
        let root = Name::new_root();
        parser.parse_root(root)
    }

    fn parse_idents(&mut self, d: TokenKind) -> (r: PResult<Vec<Vec<char>>>)
        requires
            old(self).tokenizer.wf(),
        ensures
            final(self).tokenizer.wf(),
            old(self).tokenizer@.steps(final(self).tokenizer@),
            (match r {
                Ok(v) => Ok(crate::text::views(v@)),
                Err(e) => Err(e@),
            }, final(self).tokenizer@) == p_idents(old(self).tokenizer@, d, Seq::empty()),
            r matches Ok(v) && v@.len() > 0 ==> old(self).tokenizer@.cursor()
                < final(self).tokenizer@.cursor(),
    {
        proof {
            self.tokenizer.lemma_wf();
            reveal(p_idents);
        }
        let mut acc: Vec<Vec<char>> = Vec::new();
        assert(crate::text::views(acc@) =~= Seq::<Seq<char>>::empty());
        loop
            invariant
                self.tokenizer.wf(),
                old(self).tokenizer@.steps(self.tokenizer@),
                p_idents(self.tokenizer@, d, crate::text::views(acc@)) == p_idents(old(self).tokenizer@, d, Seq::empty()),
                acc@.len() > 0 ==> old(self).tokenizer@.cursor() < self.tokenizer@.cursor(),
            decreases self.tokenizer@.text.len() - self.tokenizer@.cursor(),
        {
            proof {
                reveal(p_idents);
            }
            let ghost before = self.tokenizer@;
            let ghost acc0 = crate::text::views(acc@);
            let next = if d == TokenKind::Accessor && acc.len() > 0 {
                self.tokenizer.expect_word()
            } else {
                self.tokenizer.expect(TokenKind::Identifier)
            };
            match next {
                Err(e) => {
                    return Err(e);
                },
                Ok(None) => {
                    return Ok(acc);
                },
                Ok(Some(t)) => {
                    let cs = chars_of(t.orig.as_str());
                    acc.push(cs);
                    assert(crate::text::views(acc@) =~= acc0.push(t.orig@));
                    match self.tokenizer.expect(d) {
                        Err(e) => {
                            return Err(e);
                        },
                        Ok(None) => {
                            return Ok(acc);
                        },
                        Ok(Some(_)) => {},
                    }
                },
            }
        }
    }

    fn parse_id_chain(&mut self, namespace: &Name) -> (r: PResult<Option<(Name, Type)>>)
        requires
            old(self).tokenizer.wf(),
        ensures
            final(self).tokenizer.wf(),
            old(self).tokenizer@.steps(final(self).tokenizer@),
            (rvo(r), final(self).tokenizer@) == p_id_chain(old(self).tokenizer@, namespace@),
            r matches Ok(Some(_)) ==> old(self).tokenizer@.cursor() < final(self).tokenizer@.cursor(),
    {
        proof {
            self.tokenizer.lemma_wf();
            reveal(p_id_chain);
        }
        let ids = self.parse_idents(TokenKind::Accessor)?;
        let var = crate::text::join_chars(&ids, ids.len(), '.');
        assert(crate::text::views(ids@).take(ids@.len() as int) =~= crate::text::views(ids@));
        if var.len() == 0 {
            Ok(None)
        } else {
            assert(ids@.len() > 0);
            let name = Name::new(namespace, string_of(&var));
            Ok(Some((name, Type::new_unsovled_nohint())))
        }
    }

    fn parse_chains(&mut self, namespace: &Name) -> (r: PResult<Vec<(Name, Type)>>)
        requires
            old(self).tokenizer.wf(),
        ensures
            final(self).tokenizer.wf(),
            old(self).tokenizer@.steps(final(self).tokenizer@),
            (match r {
                Ok(v) => Ok(views_of(v@)),
                Err(e) => Err(e@),
            }, final(self).tokenizer@) == p_chains(old(self).tokenizer@, namespace@, Seq::empty()),
    {
        proof {
            self.tokenizer.lemma_wf();
            reveal(p_chains);
        }
        let mut acc: Vec<(Name, Type)> = Vec::new();
        assert(views_of(acc@) =~= Seq::<NT>::empty());
        loop
            invariant
                self.tokenizer.wf(),
                old(self).tokenizer@.steps(self.tokenizer@),
                p_chains(self.tokenizer@, namespace@, views_of(acc@)) == p_chains(old(self).tokenizer@, namespace@, Seq::empty()),
            decreases self.tokenizer@.text.len() - self.tokenizer@.cursor(),
        {
            proof {
                reveal(p_chains);
            }
            let ghost acc0 = views_of(acc@);
            match self.parse_id_chain(namespace) {
                Err(e) => {
                    return Err(e);
                },
                Ok(None) => {
                    return Ok(acc);
                },
                Ok(Some(x)) => {
                    let ghost xv = x@;
                    acc.push(x);
                    assert(views_of(acc@) =~= acc0.push(xv));
                    match self.tokenizer.expect(TokenKind::Separater) {
                        Err(e) => {
                            return Err(e);
                        },
                        Ok(None) => {
                            return Ok(acc);
                        },
                        Ok(Some(_)) => {},
                    }
                },
            }
        }
    }

    fn parse_type(&mut self) -> (r: PResult<Type>)
        requires
            old(self).tokenizer.wf(),
        ensures
            final(self).tokenizer.wf(),
            old(self).tokenizer@.steps(final(self).tokenizer@),
            (rv(r), final(self).tokenizer@) == p_type(old(self).tokenizer@),
    {
        proof {
            self.tokenizer.lemma_wf();
            reveal(p_type);
        }
        let t = self.tokenizer.request(TokenKind::Identifier)?;
        Ok(Type::from(t.orig))
    }

    fn parse_id_type_mapping(&mut self, namespace: &Name) -> (r: PResult<Option<(Name, Type)>>)
        requires
            old(self).tokenizer.wf(),
        ensures
            final(self).tokenizer.wf(),
            old(self).tokenizer@.steps(final(self).tokenizer@),
            (rvo(r), final(self).tokenizer@) == p_id_type_mapping(old(self).tokenizer@, namespace@),
            r matches Ok(Some(_)) ==> old(self).tokenizer@.cursor() < final(self).tokenizer@.cursor(),
    {
        proof {
            self.tokenizer.lemma_wf();
            reveal(p_id_type_mapping);
        }
        let id1 = match self.tokenizer.expect(TokenKind::Identifier)? {
            Some(t) => t.orig,
            None => {
                return Ok(None);
            },
        };
        self.tokenizer.request(TokenKind::Mapping)?;
        let ty = self.parse_type()?;
        Ok(Some((Name::new(namespace, id1), ty)))
    }

    fn parse_mappings(&mut self, namespace: &Name) -> (r: PResult<Vec<(Name, Type)>>)
        requires
            old(self).tokenizer.wf(),
        ensures
            final(self).tokenizer.wf(),
            old(self).tokenizer@.steps(final(self).tokenizer@),
            (match r {
                Ok(v) => Ok(views_of(v@)),
                Err(e) => Err(e@),
            }, final(self).tokenizer@) == p_mappings(old(self).tokenizer@, namespace@, Seq::empty()),
    {
        proof {
            self.tokenizer.lemma_wf();
            reveal(p_mappings);
        }
        let mut acc: Vec<(Name, Type)> = Vec::new();
        assert(views_of(acc@) =~= Seq::<NT>::empty());
        loop
            invariant
                self.tokenizer.wf(),
                old(self).tokenizer@.steps(self.tokenizer@),
                p_mappings(self.tokenizer@, namespace@, views_of(acc@)) == p_mappings(old(self).tokenizer@, namespace@, Seq::empty()),
            decreases self.tokenizer@.text.len() - self.tokenizer@.cursor(),
        {
            proof {
                reveal(p_mappings);
            }
            let ghost acc0 = views_of(acc@);
            match self.parse_id_type_mapping(namespace) {
                Err(e) => {
                    return Err(e);
                },
                Ok(None) => {
                    return Ok(acc);
                },
                Ok(Some(x)) => {
                    let ghost xv = x@;
                    acc.push(x);
                    assert(views_of(acc@) =~= acc0.push(xv));
                    match self.tokenizer.expect(TokenKind::Separater) {
                        Err(e) => {
                            return Err(e);
                        },
                        Ok(None) => {
                            return Ok(acc);
                        },
                        Ok(Some(_)) => {},
                    }
                },
            }
        }
    }

    fn parse_import(&mut self) -> (r: PResult<Option<Vec<Name>>>)
        requires
            old(self).tokenizer.wf(),
        ensures
            final(self).tokenizer.wf(),
            old(self).tokenizer@.steps(final(self).tokenizer@),
            (match r {
                Ok(Some(v)) => Ok(Some(views_of(v@))),
                Ok(None) => Ok(None),
                Err(e) => Err(e@),
            }, final(self).tokenizer@) == p_import(old(self).tokenizer@),
            r matches Ok(Some(_)) ==> old(self).tokenizer@.cursor() < final(self).tokenizer@.cursor(),
    {
        proof {
            self.tokenizer.lemma_wf();
            reveal(p_import);
        }
        if self.tokenizer.expect(TokenKind::From)?.is_none() {
            return Ok(None);
        }
        let root = Name::new_root();
        let from_namespace = match self.parse_id_chain(&root)? {
            Some((found, _)) => Name::new(&root, found.name),
            None => {
                return PErrorKind::FromNamespaceNotSpecified.to_err();
            },
        };
        self.tokenizer.request(TokenKind::Import)?;
        let ids = self.parse_idents(TokenKind::Separater)?;
        let mut imports: Vec<Name> = Vec::new();
        let mut i: usize = 0;
        while i < ids.len()
            invariant
                i <= ids@.len(),
                imports@.len() == i,
                forall|k: int| 0 <= k < i ==> #[trigger] imports@[k]@ == from_namespace@.child(ids@[k]@),
            decreases ids.len() - i,
        {
            let n = Name::new(&from_namespace, string_of(&ids[i]));
            imports.push(n);
            i = i + 1;
        }
        assert(views_of(imports@) =~= crate::text::views(ids@).map_values(
            |id: Seq<char>| from_namespace@.child(id),
        ));
        self.tokenizer.request(TokenKind::Semicolon)?;
        Ok(Some(imports))
    }

    fn parse_data(&mut self, namespace: &Name) -> (r: PResult<Option<SysDCData>>)
        requires
            old(self).tokenizer.wf(),
        ensures
            final(self).tokenizer.wf(),
            old(self).tokenizer@.steps(final(self).tokenizer@),
            (rvo(r), final(self).tokenizer@) == p_data(old(self).tokenizer@, namespace@),
            r matches Ok(Some(_)) ==> old(self).tokenizer@.cursor() < final(self).tokenizer@.cursor(),
    {
        proof {
            self.tokenizer.lemma_wf();
            reveal(p_data);
        }
        if self.tokenizer.expect(TokenKind::Data)?.is_none() {
            return Ok(None);
        }
        let t = self.tokenizer.request(TokenKind::Identifier)?;
        let name = Name::new(namespace, t.orig);
        self.tokenizer.request(TokenKind::BracketBegin)?;
        let members = self.parse_mappings(&name)?;
        self.tokenizer.request(TokenKind::BracketEnd)?;
        Ok(Some(SysDCData::new(name, members)))
    }

    fn parse_annotation_return(&mut self, namespace: &Name) -> (r: PResult<Option<SysDCAnnotation>>)
        requires
            old(self).tokenizer.wf(),
        ensures
            final(self).tokenizer.wf(),
            old(self).tokenizer@.steps(final(self).tokenizer@),
            (rvo(r), final(self).tokenizer@) == p_ann_return(old(self).tokenizer@, namespace@),
            r matches Ok(Some(_)) ==> old(self).tokenizer@.cursor() < final(self).tokenizer@.cursor(),
    {
        proof {
            self.tokenizer.lemma_wf();
            reveal(p_ann_return);
        }
        if self.tokenizer.expect(TokenKind::Return)?.is_none() {
            return Ok(None);
        }
        let t = self.tokenizer.request(TokenKind::Identifier)?;
        Ok(Some(SysDCAnnotation::new_return(Name::new(namespace, t.orig))))
    }

    #[verifier::spinoff_prover]
    #[verifier::rlimit(30)]
    fn parse_annotation_spawn_detail(&mut self, namespace: &Name) -> (r: PResult<Option<Vec<SysDCSpawnDetail>>>)
        requires
            old(self).tokenizer.wf(),
        ensures
            final(self).tokenizer.wf(),
            old(self).tokenizer@.steps(final(self).tokenizer@),
            (match r {
                Ok(Some(v)) => Ok(Some(views_of(v@))),
                Ok(None) => Ok(None),
                Err(e) => Err(e@),
            }, final(self).tokenizer@) == p_detail(old(self).tokenizer@, namespace@),
            r matches Ok(Some(_)) ==> old(self).tokenizer@.cursor() < final(self).tokenizer@.cursor(),
    {
        proof {
            self.tokenizer.lemma_wf();
            reveal(p_detail);
        }
        // let
        if self.tokenizer.expect(TokenKind::Let)?.is_some() {
            let t = self.tokenizer.request(TokenKind::Identifier)?;
            let let_to_name = Name::new(namespace, t.orig);
            self.tokenizer.request(TokenKind::Equal)?;
            let func = match self.parse_id_chain(namespace)? {
                Some((func, _)) => func.name,
                None => {
                    return PErrorKind::FunctionNameNotFound.to_err();
                },
            };
            self.tokenizer.request(TokenKind::ParenthesisBegin)?;
            let args = self.parse_chains(namespace)?;
            self.tokenizer.request(TokenKind::ParenthesisEnd)?;
            self.tokenizer.request(TokenKind::Semicolon)?;
            let detail = SysDCSpawnDetail::new_let_to(let_to_name, (Name::new_root(), Type::from(func)), args);
            let mut v: Vec<SysDCSpawnDetail> = Vec::new();
            v.push(detail);
            assert(views_of(v@) =~= seq![v@[0]@]);
            return Ok(Some(v));
        }
        // use
        if self.tokenizer.expect(TokenKind::Use)?.is_some() {
            let ids = self.parse_idents(TokenKind::Separater)?;
            let mut v: Vec<SysDCSpawnDetail> = Vec::new();
            let mut i: usize = 0;
            while i < ids.len()
                invariant
                    i <= ids@.len(),
                    v@.len() == i,
                    forall|k: int| 0 <= k < i ==> #[trigger] v@[k]@ == DetailV::Use(namespace@.child(ids@[k]@), TypeV::nohint()),
                decreases ids.len() - i,
            {
                let n = Name::new(namespace, string_of(&ids[i]));
                v.push(SysDCSpawnDetail::new_use(n, Type::new_unsovled_nohint()));
                i = i + 1;
            }
            assert(views_of(v@) =~= crate::text::views(ids@).map_values(
                |id: Seq<char>| DetailV::Use(namespace@.child(id), TypeV::nohint()),
            ));
            self.tokenizer.request(TokenKind::Semicolon)?;
            return Ok(Some(v));
        }
        // return
        if self.tokenizer.expect(TokenKind::Return)?.is_some() {
            match self.parse_id_chain(namespace)? {
                Some((name, _)) => {
                    self.tokenizer.request(TokenKind::Semicolon)?;
                    let mut v: Vec<SysDCSpawnDetail> = Vec::new();
                    v.push(SysDCSpawnDetail::new_return(name, Type::new_unsovled_nohint()));
                    assert(views_of(v@) =~= seq![v@[0]@]);
                    return Ok(Some(v));
                },
                None => {
                    return PErrorKind::ResultOfSpawnNotSpecified.to_err();
                },
            }
        }
        Ok(None)
    }

    fn parse_spawn_details(&mut self, namespace: Name) -> (r: PResult<Vec<SysDCSpawnDetail>>)
        requires
            old(self).tokenizer.wf(),
        ensures
            final(self).tokenizer.wf(),
            old(self).tokenizer@.steps(final(self).tokenizer@),
            (match r {
                Ok(v) => Ok(views_of(v@)),
                Err(e) => Err(e@),
            }, final(self).tokenizer@) == p_details(old(self).tokenizer@, namespace@, Seq::empty()),
    {
        proof {
            self.tokenizer.lemma_wf();
        }
        let mut ns = namespace;
        let mut details: Vec<SysDCSpawnDetail> = Vec::new();
        assert(views_of(details@) =~= Seq::<DetailV>::empty());
        loop
            invariant
                self.tokenizer.wf(),
                old(self).tokenizer@.steps(self.tokenizer@),
                p_details(self.tokenizer@, ns@, views_of(details@))
                    == p_details(old(self).tokenizer@, namespace@, Seq::empty()),
            decreases self.tokenizer@.text.len() - self.tokenizer@.cursor(),
        {
            proof {
                reveal(p_details);
            }
            let ghost acc0 = views_of(details@);
            match self.parse_annotation_spawn_detail(&ns) {
                Err(e) => {
                    return Err(e);
                },
                Ok(None) => {
                    return Ok(details);
                },
                Ok(Some(new_details)) => {
                    let is_ret = new_details.len() > 0 && match &new_details[0] {
                        SysDCSpawnDetail::Return(_, _) => true,
                        _ => false,
                    };
                    let ghost nd = views_of(new_details@);
                    assert(is_ret == starts_with_return(nd));
                    let mut nd_exec = new_details;
                    details.append(&mut nd_exec);
                    assert(views_of(details@) =~= acc0 + nd);
                    if is_ret {
                        return Ok(details);
                    }
                    ns = Name::new(&ns, underscore());
                },
            }
        }
    }

    fn parse_annotation_spawn(&mut self, namespace: &Name) -> (r: PResult<Option<SysDCAnnotation>>)
        requires
            old(self).tokenizer.wf(),
        ensures
            final(self).tokenizer.wf(),
            old(self).tokenizer@.steps(final(self).tokenizer@),
            (rvo(r), final(self).tokenizer@) == p_ann_spawn(old(self).tokenizer@, namespace@),
            r matches Ok(Some(_)) ==> old(self).tokenizer@.cursor() < final(self).tokenizer@.cursor(),
    {
        proof {
            self.tokenizer.lemma_wf();
            reveal(p_ann_spawn);
        }
        if self.tokenizer.expect(TokenKind::Spawn)?.is_none() {
            return Ok(None);
        }
        let result = match self.parse_id_type_mapping(namespace)? {
            Some(result) => result,
            None => {
                return PErrorKind::ResultOfSpawnNotSpecified.to_err();
            },
        };
        if self.tokenizer.expect(TokenKind::BracketBegin)?.is_none() {
            let details: Vec<SysDCSpawnDetail> = Vec::new();
            assert(views_of(details@) =~= Seq::<DetailV>::empty());
            return Ok(Some(SysDCAnnotation::new_spawn(result, details)));
        }
        let details = self.parse_spawn_details(Name::new(namespace, underscore()))?;
        self.tokenizer.request(TokenKind::BracketEnd)?;
        Ok(Some(SysDCAnnotation::new_spawn(result, details)))
    }

    fn parse_modify_uses(&mut self, namespace: &Name) -> (r: PResult<Vec<(Name, Type)>>)
        requires
            old(self).tokenizer.wf(),
        ensures
            final(self).tokenizer.wf(),
            old(self).tokenizer@.steps(final(self).tokenizer@),
            (match r {
                Ok(v) => Ok(views_of(v@)),
                Err(e) => Err(e@),
            }, final(self).tokenizer@) == p_uses(old(self).tokenizer@, namespace@, Seq::empty()),
    {
        proof {
            self.tokenizer.lemma_wf();
        }
        let mut uses: Vec<(Name, Type)> = Vec::new();
        assert(views_of(uses@) =~= Seq::<NT>::empty());
        loop
            invariant
                self.tokenizer.wf(),
                old(self).tokenizer@.steps(self.tokenizer@),
                p_uses(self.tokenizer@, namespace@, views_of(uses@))
                    == p_uses(old(self).tokenizer@, namespace@, Seq::empty()),
            decreases self.tokenizer@.text.len() - self.tokenizer@.cursor(),
        {
            proof {
                reveal(p_uses);
            }
            let ghost acc0 = views_of(uses@);
            match self.tokenizer.expect(TokenKind::Use) {
                Err(e) => {
                    return Err(e);
                },
                Ok(None) => {
                    return Ok(uses);
                },
                Ok(Some(_)) => {},
            }
            let mut cs = match self.parse_chains(namespace) {
                Err(e) => {
                    return Err(e);
                },
                Ok(cs) => cs,
            };
            match self.tokenizer.request(TokenKind::Semicolon) {
                Err(e) => {
                    return Err(e);
                },
                Ok(_) => {},
            }
            let ghost csv = views_of(cs@);
            uses.append(&mut cs);
            assert(views_of(uses@) =~= acc0 + csv);
        }
    }

    fn parse_annotation_modify(&mut self, namespace: &Name) -> (r: PResult<Option<SysDCAnnotation>>)
        requires
            old(self).tokenizer.wf(),
        ensures
            final(self).tokenizer.wf(),
            old(self).tokenizer@.steps(final(self).tokenizer@),
            (rvo(r), final(self).tokenizer@) == p_ann_modify(old(self).tokenizer@, namespace@),
            r matches Ok(Some(_)) ==> old(self).tokenizer@.cursor() < final(self).tokenizer@.cursor(),
    {
        proof {
            self.tokenizer.lemma_wf();
            reveal(p_ann_modify);
        }
        if self.tokenizer.expect(TokenKind::Modify)?.is_none() {
            return Ok(None);
        }
        let target = match self.parse_id_chain(namespace)? {
            Some(target) => target,
            None => {
                return PErrorKind::ResultOfSpawnNotSpecified.to_err();
            },
        };
        if self.tokenizer.expect(TokenKind::BracketBegin)?.is_none() {
            let uses: Vec<(Name, Type)> = Vec::new();
            assert(views_of(uses@) =~= Seq::<NT>::empty());
            return Ok(Some(SysDCAnnotation::new_modify(target, uses)));
        }
        let uses = self.parse_modify_uses(namespace)?;
        self.tokenizer.request(TokenKind::BracketEnd)?;
        Ok(Some(SysDCAnnotation::new_modify(target, uses)))
    }

    fn parse_annotation_affect(&mut self, namespace: &Name) -> (r: PResult<Option<SysDCAnnotation>>)
        requires
            old(self).tokenizer.wf(),
        ensures
            final(self).tokenizer.wf(),
            old(self).tokenizer@.steps(final(self).tokenizer@),
            (rvo(r), final(self).tokenizer@) == p_ann_affect(old(self).tokenizer@, namespace@),
            r matches Ok(Some(_)) ==> old(self).tokenizer@.cursor() < final(self).tokenizer@.cursor(),
    {
        proof {
            self.tokenizer.lemma_wf();
            reveal(p_ann_affect);
        }
        if self.tokenizer.expect(TokenKind::Affect)?.is_none() {
            return Ok(None);
        }
        let func = match self.parse_id_chain(namespace)? {
            Some((func, _)) => func,
            None => {
                return PErrorKind::FunctionNameNotFound.to_err();
            },
        };
        self.tokenizer.request(TokenKind::ParenthesisBegin)?;
        let args = self.parse_chains(namespace)?;
        self.tokenizer.request(TokenKind::ParenthesisEnd)?;
        let func_type = Type::from(func.name.clone());
        Ok(Some(SysDCAnnotation::new_affect((func, func_type), args)))
    }

    fn parse_annotation(&mut self, namespace: &Name) -> (r: PResult<Option<SysDCAnnotation>>)
        requires
            old(self).tokenizer.wf(),
        ensures
            final(self).tokenizer.wf(),
            old(self).tokenizer@.steps(final(self).tokenizer@),
            (rvo(r), final(self).tokenizer@) == p_annotation(old(self).tokenizer@, namespace@),
            r matches Ok(Some(_)) ==> old(self).tokenizer@.cursor() < final(self).tokenizer@.cursor(),
    {
        proof {
            self.tokenizer.lemma_wf();
            reveal(p_annotation);
        }
        if self.tokenizer.expect(TokenKind::AtMark)?.is_none() {
            return Ok(None);
        }
        if let Some(a) = self.parse_annotation_return(namespace)? {
            return Ok(Some(a));
        }
        if let Some(a) = self.parse_annotation_spawn(namespace)? {
            return Ok(Some(a));
        }
        if let Some(a) = self.parse_annotation_modify(namespace)? {
            return Ok(Some(a));
        }
        if let Some(a) = self.parse_annotation_affect(namespace)? {
            return Ok(Some(a));
        }
        if let Some(t) = self.tokenizer.expect(TokenKind::Identifier)? {
            return PErrorKind::UnknownAnnotationFound(t.orig).to_err();
        }
        Ok(None)
    }

    fn parse_function_body(&mut self, namespace: &Name, is_proc: bool) -> (r: PResult<(Name, Vec<SysDCAnnotation>)>)
        requires
            old(self).tokenizer.wf(),
        ensures
            final(self).tokenizer.wf(),
            old(self).tokenizer@.steps(final(self).tokenizer@),
            (match r {
                Ok((n, v)) => Ok((n@, views_of(v@))),
                Err(e) => Err(e@),
            }, final(self).tokenizer@) == p_body(old(self).tokenizer@, namespace@, is_proc, None, Seq::empty()),
    {
        proof {
            self.tokenizer.lemma_wf();
            reveal(p_body);
        }
        let mut ret_name: Option<Name> = None;
        let mut annotations: Vec<SysDCAnnotation> = Vec::new();
        assert(views_of(annotations@) =~= Seq::<AnnotationV>::empty());
        loop
            invariant
                self.tokenizer.wf(),
                old(self).tokenizer@.steps(self.tokenizer@),
                p_body(self.tokenizer@, namespace@, is_proc, match ret_name {
                    Some(n) => Some(n@),
                    None => None,
                }, views_of(annotations@)) == p_body(old(self).tokenizer@, namespace@, is_proc, None, Seq::empty()),
            decreases self.tokenizer@.text.len() - self.tokenizer@.cursor(),
        {
            proof {
                reveal(p_body);
            }
            let ghost acc0 = views_of(annotations@);
            match self.parse_annotation(namespace)? {
                None => {
                    if is_proc {
                        return Ok((Name::new_root(), annotations));
                    }
                    match ret_name {
                        Some(n) => {
                            return Ok((n, annotations));
                        },
                        None => {
                            return PErrorKind::ReturnNotExists.to_err();
                        },
                    }
                },
                Some(SysDCAnnotation::Return(n)) => {
                    if is_proc {
                        return PErrorKind::ReturnExistsOnProcedure.to_err();
                    }
                    if ret_name.is_some() {
                        return PErrorKind::ReturnExistsMultiple.to_err();
                    }
                    ret_name = Some(n);
                },
                Some(a) => {
                    let ghost av = a@;
                    annotations.push(a);
                    assert(views_of(annotations@) =~= acc0.push(av));
                },
            }
        }
    }

    fn parse_function_rest(&mut self, name: Name, is_proc: bool) -> (r: PResult<Option<SysDCFunction>>)
        requires
            old(self).tokenizer.wf(),
        ensures
            final(self).tokenizer.wf(),
            old(self).tokenizer@.steps(final(self).tokenizer@),
            (rvo(r), final(self).tokenizer@) == p_function_rest(old(self).tokenizer@, name@, is_proc),
    {
        proof {
            self.tokenizer.lemma_wf();
            reveal(p_function_rest);
        }
        self.tokenizer.request(TokenKind::ParenthesisBegin)?;
        let args = self.parse_mappings(&name)?;
        self.tokenizer.request(TokenKind::ParenthesisEnd)?;
        let return_type = if is_proc {
            Type::new(TypeKind::Void, None)
        } else {
            self.tokenizer.request(TokenKind::Allow)?;
            let t = self.tokenizer.request(TokenKind::Identifier)?;
            Type::from(t.orig)
        };
        self.tokenizer.request(TokenKind::BracketBegin)?;
        let (return_name, annotations) = self.parse_function_body(&name, is_proc)?;
        self.tokenizer.request(TokenKind::BracketEnd)?;
        Ok(Some(SysDCFunction::new(name, args, (return_name, return_type), annotations)))
    }

    fn parse_function(&mut self, namespace: &Name) -> (r: PResult<Option<SysDCFunction>>)
        requires
            old(self).tokenizer.wf(),
        ensures
            final(self).tokenizer.wf(),
            old(self).tokenizer@.steps(final(self).tokenizer@),
            (rvo(r), final(self).tokenizer@) == p_function(old(self).tokenizer@, namespace@),
            r matches Ok(Some(_)) ==> old(self).tokenizer@.cursor() < final(self).tokenizer@.cursor(),
    {
        proof {
            self.tokenizer.lemma_wf();
            reveal(p_function);
        }
        if self.tokenizer.expect(TokenKind::Proc)?.is_some() {
            let t = self.tokenizer.request(TokenKind::Identifier)?;
            return self.parse_function_rest(Name::new(namespace, t.orig), true);
        }
        if self.tokenizer.expect(TokenKind::Func)?.is_some() {
            let t = self.tokenizer.request(TokenKind::Identifier)?;
            return self.parse_function_rest(Name::new(namespace, t.orig), false);
        }
        match self.tokenizer.expect(TokenKind::Identifier)? {
            Some(t) => self.parse_function_rest(Name::new(namespace, t.orig), false),
            None => Ok(None),
        }
    }

    fn parse_functions(&mut self, namespace: &Name) -> (r: PResult<Vec<SysDCFunction>>)
        requires
            old(self).tokenizer.wf(),
        ensures
            final(self).tokenizer.wf(),
            old(self).tokenizer@.steps(final(self).tokenizer@),
            (match r {
                Ok(v) => Ok(views_of(v@)),
                Err(e) => Err(e@),
            }, final(self).tokenizer@) == p_functions(old(self).tokenizer@, namespace@, Seq::empty()),
    {
        proof {
            self.tokenizer.lemma_wf();
        }
        let mut functions: Vec<SysDCFunction> = Vec::new();
        assert(views_of(functions@) =~= Seq::<FunctionV>::empty());
        loop
            invariant
                self.tokenizer.wf(),
                old(self).tokenizer@.steps(self.tokenizer@),
                p_functions(self.tokenizer@, namespace@, views_of(functions@))
                    == p_functions(old(self).tokenizer@, namespace@, Seq::empty()),
            decreases self.tokenizer@.text.len() - self.tokenizer@.cursor(),
        {
            proof {
                reveal(p_functions);
            }
            let ghost acc0 = views_of(functions@);
            match self.parse_function(namespace) {
                Err(e) => {
                    return Err(e);
                },
                Ok(None) => {
                    return Ok(functions);
                },
                Ok(Some(f)) => {
                    let ghost fv = f@;
                    functions.push(f);
                    assert(views_of(functions@) =~= acc0.push(fv));
                },
            }
        }
    }

    fn parse_module(&mut self, namespace: &Name) -> (r: PResult<Option<SysDCModule>>)
        requires
            old(self).tokenizer.wf(),
        ensures
            final(self).tokenizer.wf(),
            old(self).tokenizer@.steps(final(self).tokenizer@),
            (rvo(r), final(self).tokenizer@) == p_module(old(self).tokenizer@, namespace@),
            r matches Ok(Some(_)) ==> old(self).tokenizer@.cursor() < final(self).tokenizer@.cursor(),
    {
        proof {
            self.tokenizer.lemma_wf();
            reveal(p_module);
        }
        if self.tokenizer.expect(TokenKind::Module)?.is_none() {
            return Ok(None);
        }
        let t = self.tokenizer.request(TokenKind::Identifier)?;
        let name = Name::new(namespace, t.orig);
        self.tokenizer.request(TokenKind::BracketBegin)?;
        let functions = self.parse_functions(&name)?;
        self.tokenizer.request(TokenKind::BracketEnd)?;
        Ok(Some(SysDCModule::new(name, functions)))
    }

    fn parse_sentences(&mut self, unit_namespace: Name) -> (r: PResult<SysDCUnit>)
        requires
            old(self).tokenizer.wf(),
        ensures
            final(self).tokenizer.wf(),
            old(self).tokenizer@.steps(final(self).tokenizer@),
            (rv(r), final(self).tokenizer@) == p_sentences(
                old(self).tokenizer@,
                unit_namespace@,
                Seq::empty(),
                Seq::empty(),
                Seq::empty(),
            ),
    {
        proof {
            self.tokenizer.lemma_wf();
        }
        let mut imports: Vec<Name> = Vec::new();
        let mut data: Vec<SysDCData> = Vec::new();
        let mut modules: Vec<SysDCModule> = Vec::new();
        assert(views_of(imports@) =~= Seq::<NameV>::empty());
        assert(views_of(data@) =~= Seq::<DataV>::empty());
        assert(views_of(modules@) =~= Seq::<ModuleV>::empty());
        loop
            invariant
                self.tokenizer.wf(),
                old(self).tokenizer@.steps(self.tokenizer@),
                p_sentences(self.tokenizer@, unit_namespace@, views_of(imports@), views_of(data@), views_of(modules@))
                    == p_sentences(old(self).tokenizer@, unit_namespace@, Seq::empty(), Seq::empty(), Seq::empty()),
            decreases self.tokenizer@.text.len() - self.tokenizer@.cursor(),
        {
            proof {
                reveal(p_sentences);
            }
            if !self.tokenizer.exists_next() {
                let unit = SysDCUnit::new(unit_namespace, data, modules, imports);
                assert(unit@.data =~= views_of(unit.data@));
                assert(unit@.modules =~= views_of(unit.modules@));
                assert(unit@.imports =~= views_of(unit.imports@));
                return Ok(unit);
            }
            let ghost (i0, d0, m0) = (views_of(imports@), views_of(data@), views_of(modules@));
            let i = match self.parse_import() {
                Err(e) => {
                    return Err(e);
                },
                Ok(i) => i,
            };
            let d = match self.parse_data(&unit_namespace) {
                Err(e) => {
                    return Err(e);
                },
                Ok(d) => d,
            };
            let m = match self.parse_module(&unit_namespace) {
                Err(e) => {
                    return Err(e);
                },
                Ok(m) => m,
            };
            if i.is_none() && d.is_none() && m.is_none() {
                return PErrorKind::DataOrModuleNotFound.to_err();
            }
            if let Some(mut is) = i {
                let ghost isv = views_of(is@);
                imports.append(&mut is);
                assert(views_of(imports@) =~= i0 + isv);
            }
            if let Some(x) = d {
                let ghost xv = x@;
                data.push(x);
                assert(views_of(data@) =~= d0.push(xv));
            }
            if let Some(x) = m {
                let ghost xv = x@;
                modules.push(x);
                assert(views_of(modules@) =~= m0.push(xv));
            }
        }
    }

    fn parse_root(&mut self, namespace: Name) -> (r: PResult<SysDCUnit>)
        requires
            old(self).tokenizer.wf(),
        ensures
            final(self).tokenizer.wf(),
            old(self).tokenizer@.steps(final(self).tokenizer@),
            (rv(r), final(self).tokenizer@) == p_root(old(self).tokenizer@, namespace@),
    {
        proof {
            self.tokenizer.lemma_wf();
            reveal(p_root);
        }
        self.tokenizer.request(TokenKind::Unit)?;
        let unit_namespace = match self.parse_id_chain(&namespace)? {
            Some((found, _)) => Name::new(&namespace, found.name),
            None => {
                return PErrorKind::UnitNameNotSpecified.to_err();
            },
        };
        self.tokenizer.request(TokenKind::Semicolon)?;
        self.parse_sentences(unit_namespace)
    }

}

} // verus!
