//! Checking that the types meet: what a function returns against the type
//! it declares, what a spawn returns against its result, and the arguments
//! of a call against the function's parameters.
use vstd::prelude::*;
use crate::lang::name::{Name, NameV};
use crate::lang::types::{Type, TypeKind, TypeV, KindV};
use crate::lang::error::{PError, PErrorKind, PErrorKindV, PErrorV, PResult};
use crate::lang::structure::{
    NT, views_of, SysDCSystem, SysDCUnit, SysDCModule, SysDCFunction, SysDCAnnotation,
    SysDCSpawnDetail,
};
use crate::lang::structure::unchecked::{SystemV, UnitV, ModuleV, FunctionV, AnnotationV, DetailV};
use crate::lang::check::lists::{all_ok, lemma_all_ok_step, lemma_all_ok_start, lemma_take_all};
use crate::lang::check::define::{DefinesManager, DefineV, resolve_name, args_from, fail, RESOLVE_DEPTH};
use crate::lang::check::resolve::depth;

verus! {

/// The first argument, from index `i` on, whose type is not the one the
/// function asks for.
pub open spec fn first_mismatch(req: Seq<TypeV>, act: Seq<NT>, i: int) -> Result<(), PErrorV>
    decreases act.len() - i,
{
    if i < 0 || i >= act.len() || i >= req.len() {
        Ok(())
    } else if act[i].1 != req[i] {
        Err(fail(PErrorKindV::TypeUnmatch2(req[i], act[i].1)))
    } else {
        first_mismatch(req, act, i + 1)
    }
}

/// The arguments `act` given where the types `req` are asked for.
pub open spec fn check_args(req: Seq<TypeV>, act: Seq<NT>) -> Result<(), PErrorV> {
    if act.len() != req.len() {
        Err(fail(PErrorKindV::ArgumentsLengthNotMatch))
    } else {
        first_mismatch(req, act, 0)
    }
}

/// A call of the function `func` with the arguments `act`.
pub open spec fn check_call(defs: Seq<DefineV>, imports: Seq<NameV>, func: NameV, act: Seq<NT>) -> Result<(), PErrorV> {
    match args_from(defs, 0, func.full(), imports, depth()) {
        Err(e) => Err(e),
        Ok(req) => check_args(req, act),
    }
}

/// A line of a spawn whose result is `result`.
pub open spec fn check_detail(defs: Seq<DefineV>, imports: Seq<NameV>, result: NT, d: DetailV) -> Result<(), PErrorV> {
    match d {
        DetailV::Return(_, t) => if result.1 != t {
            Err(fail(PErrorKindV::TypeUnmatch2(result.1, t)))
        } else {
            Ok(())
        },
        DetailV::LetTo { func, args, .. } => check_call(defs, imports, func.0, args),
        DetailV::Use(_, _) => Ok(()),
    }
}

pub open spec fn detail_chk(defs: Seq<DefineV>, imports: Seq<NameV>, result: NT) -> spec_fn(DetailV) -> Result<(), PErrorV> {
    |d: DetailV| check_detail(defs, imports, result, d)
}

#[verifier::opaque]
pub open spec fn check_annotation(defs: Seq<DefineV>, imports: Seq<NameV>, a: AnnotationV) -> Result<(), PErrorV> {
    match a {
        AnnotationV::Affect { func, args } => check_call(defs, imports, func.0, args),
        AnnotationV::Spawn { result, details } => all_ok(details, detail_chk(defs, imports, result)),
        _ => Ok(()),
    }
}

pub open spec fn annotation_chk(defs: Seq<DefineV>, imports: Seq<NameV>) -> spec_fn(AnnotationV) -> Result<(), PErrorV> {
    |a: AnnotationV| check_annotation(defs, imports, a)
}

/// A function: the variable it returns has the type it declares (a
/// procedure returns nothing), then its annotations.
#[verifier::opaque]
pub open spec fn check_function(defs: Seq<DefineV>, imports: Seq<NameV>, f: FunctionV) -> Result<(), PErrorV> {
    let head = if !(f.returns.1.kind is Void) {
        match resolve_name(defs, f.returns.0, imports, depth()) {
            Err(e) => Err(e),
            Ok((_, act)) => if f.returns.1 != act {
                Err(fail(PErrorKindV::TypeUnmatch2(f.returns.1, act)))
            } else {
                Ok(())
            },
        }
    } else {
        Ok(())
    };
    match head {
        Err(e) => Err(e),
        Ok(()) => all_ok(f.annotations, annotation_chk(defs, imports)),
    }
}

pub open spec fn function_chk(defs: Seq<DefineV>, imports: Seq<NameV>) -> spec_fn(FunctionV) -> Result<(), PErrorV> {
    |f: FunctionV| check_function(defs, imports, f)
}

pub open spec fn module_chk(defs: Seq<DefineV>, imports: Seq<NameV>) -> spec_fn(ModuleV) -> Result<(), PErrorV> {
    |m: ModuleV| all_ok(m.functions, function_chk(defs, imports))
}

pub open spec fn unit_chk(defs: Seq<DefineV>, imports: Seq<NameV>) -> spec_fn(UnitV) -> Result<(), PErrorV> {
    |u: UnitV| all_ok(u.modules, module_chk(defs, imports))
}

/// Every function of every module of every unit, in order.
pub open spec fn check_system(defs: Seq<DefineV>, imports: Seq<NameV>, s: SystemV) -> Result<(), PErrorV> {
    all_ok(s.units, unit_chk(defs, imports))
}

/// The model of a check's outcome.
pub open spec fn rchk(r: PResult<()>) -> Result<(), PErrorV> {
    match r {
        Ok(()) => Ok(()),
        Err(e) => Err(e@),
    }
}

/// Checks that the types of a resolved system meet.
pub struct TypeMatchChecker<'a> {
    def_manager: &'a DefinesManager,
    imports: &'a Vec<Name>,
}

impl<'a> TypeMatchChecker<'a> {
    pub closed spec fn defs(&self) -> Seq<DefineV> {
        self.def_manager@
    }

    pub closed spec fn imps(&self) -> Seq<NameV> {
        views_of(self.imports@)
    }

    /// Checks every function of `system`.
    pub fn check(system: &SysDCSystem, def_manager: &'a DefinesManager, imports: &'a Vec<Name>) -> (r: PResult<()>)
        ensures
            rchk(r) == check_system(def_manager@, views_of(imports@), system@),
    {
        let checker = TypeMatchChecker { def_manager, imports };
        let ghost f = unit_chk(def_manager@, views_of(imports@));
        let ghost s = views_of(system.units@);
        proof {
            lemma_all_ok_start(s, f);
        }
        let mut i: usize = 0;
        while i < system.units.len()
            invariant
                i <= s.len(),
                s == views_of(system.units@),
                f == unit_chk(checker.defs(), checker.imps()),
                checker.defs() == def_manager@,
                checker.imps() == views_of(imports@),
                all_ok(s.take(i as int), f) == Ok::<(), PErrorV>(()),
            decreases system.units.len() - i,
        {
            let r = checker.check_unit(&system.units[i]);
            proof {
                assert(s[i as int] == system.units@[i as int]@);
                lemma_all_ok_step(s, f, i as int);
            }
            if let Err(e) = r {
                return Err(e);
            }
            i = i + 1;
        }
        proof {
            lemma_take_all(s);
        }
        Ok(())
    }

    fn check_unit(&self, unit: &SysDCUnit) -> (r: PResult<()>)
        ensures
            rchk(r) == unit_chk(self.defs(), self.imps())(unit@),
    {
        let ghost f = module_chk(self.defs(), self.imps());
        let ghost s = views_of(unit.modules@);
        proof {
            lemma_all_ok_start(s, f);
        }
        let mut i: usize = 0;
        while i < unit.modules.len()
            invariant
                i <= s.len(),
                s == views_of(unit.modules@),
                f == module_chk(self.defs(), self.imps()),
                all_ok(s.take(i as int), f) == Ok::<(), PErrorV>(()),
            decreases unit.modules.len() - i,
        {
            let r = self.check_module(&unit.modules[i]);
            proof {
                assert(s[i as int] == unit.modules@[i as int]@);
                lemma_all_ok_step(s, f, i as int);
            }
            if let Err(e) = r {
                return Err(e);
            }
            i = i + 1;
        }
        proof {
            lemma_take_all(s);
        }
        Ok(())
    }

    fn check_module(&self, module: &SysDCModule) -> (r: PResult<()>)
        ensures
            rchk(r) == module_chk(self.defs(), self.imps())(module@),
    {
        let ghost f = function_chk(self.defs(), self.imps());
        let ghost s = views_of(module.functions@);
        proof {
            lemma_all_ok_start(s, f);
        }
        let mut i: usize = 0;
        while i < module.functions.len()
            invariant
                i <= s.len(),
                s == views_of(module.functions@),
                f == function_chk(self.defs(), self.imps()),
                all_ok(s.take(i as int), f) == Ok::<(), PErrorV>(()),
            decreases module.functions.len() - i,
        {
            let r = self.check_function(&module.functions[i]);
            proof {
                assert(s[i as int] == module.functions@[i as int]@);
                lemma_all_ok_step(s, f, i as int);
            }
            if let Err(e) = r {
                return Err(e);
            }
            i = i + 1;
        }
        proof {
            lemma_take_all(s);
        }
        Ok(())
    }

    fn check_function(&self, func: &SysDCFunction) -> (r: PResult<()>)
        ensures
            rchk(r) == check_function(self.defs(), self.imps(), func@),
    {
        proof {
            reveal(check_function);
        }
        let (ret_name, req_ret_type) = &func.returns;
        let is_void = match req_ret_type.kind {
            TypeKind::Void => true,
            _ => false,
        };
        if !is_void {
            let (_, act_ret_type) = self.def_manager.resolve_from_name(ret_name.clone(), self.imports)?;
            if !req_ret_type.same(&act_ret_type) {
                return PErrorKind::TypeUnmatch2(req_ret_type.clone(), act_ret_type).to_err();
            }
        }
        self.check_annotations(&func.annotations)
    }

    fn check_annotations(&self, anns: &Vec<SysDCAnnotation>) -> (r: PResult<()>)
        ensures
            rchk(r) == all_ok(views_of(anns@), annotation_chk(self.defs(), self.imps())),
    {
        let ghost f = annotation_chk(self.defs(), self.imps());
        let ghost s = views_of(anns@);
        proof {
            lemma_all_ok_start(s, f);
        }
        let mut i: usize = 0;
        while i < anns.len()
            invariant
                i <= s.len(),
                s == views_of(anns@),
                f == annotation_chk(self.defs(), self.imps()),
                all_ok(s.take(i as int), f) == Ok::<(), PErrorV>(()),
            decreases anns.len() - i,
        {
            let r = self.check_annotation(&anns[i]);
            proof {
                assert(s[i as int] == anns@[i as int]@);
                lemma_all_ok_step(s, f, i as int);
            }
            if let Err(e) = r {
                return Err(e);
            }
            i = i + 1;
        }
        proof {
            lemma_take_all(s);
        }
        Ok(())
    }

    fn check_annotation(&self, annotation: &SysDCAnnotation) -> (r: PResult<()>)
        ensures
            rchk(r) == check_annotation(self.defs(), self.imps(), annotation@),
    {
        proof {
            reveal(check_annotation);
        }
        match annotation {
            SysDCAnnotation::Affect { func: (fname, _), args } => self.check_call(fname, args),
            SysDCAnnotation::Spawn { result, details } => self.check_annotation_spawn(result, details),
            _ => Ok(()),
        }
    }

    /// A call of `func` with the arguments `args`.
    fn check_call(&self, func: &Name, args: &Vec<(Name, Type)>) -> (r: PResult<()>)
        ensures
            rchk(r) == check_call(self.defs(), self.imps(), func@, views_of(args@)),
    {
        let req = self.def_manager.get_args_type(func, self.imports)?;
        if args.len() != req.len() {
            return PErrorKind::ArgumentsLengthNotMatch.to_err();
        }
        let ghost reqv = views_of(req@);
        let ghost actv = views_of(args@);
        let mut i: usize = 0;
        while i < args.len()
            invariant
                i <= args@.len(),
                args@.len() == req@.len(),
                reqv == views_of(req@),
                actv == views_of(args@),
                args_from(self.defs(), 0, func@.full(), self.imps(), depth()) == Ok::<Seq<TypeV>, PErrorV>(reqv),
                first_mismatch(reqv, actv, 0) == first_mismatch(reqv, actv, i as int),
            decreases args.len() - i,
        {
            let (_, act) = &args[i];
            assert(actv[i as int] == args@[i as int]@);
            assert(reqv[i as int] == req@[i as int]@);
            if !act.same(&req[i]) {
                return PErrorKind::TypeUnmatch2(req[i].clone(), act.clone()).to_err();
            }
            i = i + 1;
        }
        Ok(())
    }

    fn check_annotation_spawn(&self, result: &(Name, Type), details: &Vec<SysDCSpawnDetail>) -> (r: PResult<()>)
        ensures
            rchk(r) == all_ok(views_of(details@), detail_chk(self.defs(), self.imps(), result@)),
    {
        let ghost f = detail_chk(self.defs(), self.imps(), result@);
        let ghost s = views_of(details@);
        proof {
            lemma_all_ok_start(s, f);
        }
        let mut i: usize = 0;
        while i < details.len()
            invariant
                i <= s.len(),
                s == views_of(details@),
                f == detail_chk(self.defs(), self.imps(), result@),
                all_ok(s.take(i as int), f) == Ok::<(), PErrorV>(()),
            decreases details.len() - i,
        {
            let r = match &details[i] {
                SysDCSpawnDetail::Return(_, act_ret_type) => {
                    if !result.1.same(act_ret_type) {
                        PErrorKind::TypeUnmatch2(result.1.clone(), act_ret_type.clone()).to_err()
                    } else {
                        Ok(())
                    }
                },
                SysDCSpawnDetail::LetTo { func: (fname, _), args, .. } => self.check_call(fname, args),
                SysDCSpawnDetail::Use(_, _) => Ok(()),
            };
            proof {
                assert(s[i as int] == details@[i as int]@);
                lemma_all_ok_step(s, f, i as int);
            }
            if let Err(e) = r {
                return Err(e);
            }
            i = i + 1;
        }
        proof {
            lemma_take_all(s);
        }
        Ok(())
    }
}

} // verus!
