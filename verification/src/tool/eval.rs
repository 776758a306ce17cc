//! Advice on the design of a system: what could be split, what could be
//! merged, and the basic facts.
pub mod duplication;

use vstd::prelude::*;
use crate::lang::name::{Name, NameV};
use crate::lang::structure::{SysDCSystem, SysDCModule, SysDCFunction, SysDCAnnotation};
use crate::lang::structure::unchecked::{UnitV, ModuleV, FunctionV, AnnotationV, SystemV};
use crate::text::string_views;

verus! {

/// How much a piece of advice matters.
#[derive(Debug, Clone, Copy, PartialEq, Eq, Structural)]
pub enum AdviceLevel {
    Info,
    Warning,
}

/// A piece of advice: its level, its title and what it says.
#[derive(Debug, PartialEq, Eq)]
pub struct Advice {
    pub level: AdviceLevel,
    pub title: String,
    pub messages: Vec<String>,
}

/// The model of a piece of advice.
pub struct AdviceV {
    pub level: AdviceLevel,
    pub title: Seq<char>,
    pub messages: Seq<Seq<char>>,
}

impl View for Advice {
    type V = AdviceV;

    open spec fn view(&self) -> AdviceV {
        AdviceV { level: self.level, title: self.title@, messages: string_views(self.messages@) }
    }
}

/// The models of a list of advice.
pub open spec fn advice_views(v: Seq<Advice>) -> Seq<AdviceV> {
    v.map_values(|a: Advice| a@)
}

impl Advice {
    pub fn new(level: AdviceLevel, title: String, messages: Vec<String>) -> (r: Advice)
        ensures
            r@ == (AdviceV { level, title: title@, messages: string_views(messages@) }),
    {
        Advice { level, title, messages }
    }
}

/// The ten letters of the sample messages.
pub open spec fn sample_message() -> Seq<char> {
    "AAAAAAAAAA"@
}

/// The sample advice: two warnings and one piece of information.
pub open spec fn sample_advice() -> Seq<AdviceV> {
    let m = seq![sample_message(), sample_message(), sample_message(), sample_message()];
    seq![
        AdviceV { level: AdviceLevel::Warning, title: "Warning 1"@, messages: m },
        AdviceV { level: AdviceLevel::Warning, title: "Warning 2"@, messages: m },
        AdviceV { level: AdviceLevel::Info, title: "Info 1"@, messages: m },
    ]
}

fn sample_messages() -> (r: Vec<String>)
    ensures
        string_views(r@) == seq![sample_message(), sample_message(), sample_message(), sample_message()],
{
    let r = vec![
        String::from_str("AAAAAAAAAA"),
        String::from_str("AAAAAAAAAA"),
        String::from_str("AAAAAAAAAA"),
        String::from_str("AAAAAAAAAA"),
    ];
    assert(string_views(r@) =~= seq![sample_message(), sample_message(), sample_message(), sample_message()]);
    r
}

/// Sample advice, to try out what shows advice.
pub fn test() -> (r: Vec<Advice>)
    ensures
        advice_views(r@) == sample_advice(),
{
    let r = vec![
        Advice::new(AdviceLevel::Warning, String::from_str("Warning 1"), sample_messages()),
        Advice::new(AdviceLevel::Warning, String::from_str("Warning 2"), sample_messages()),
        Advice::new(AdviceLevel::Info, String::from_str("Info 1"), sample_messages()),
    ];
    assert(advice_views(r@) =~= sample_advice());
    r
}

/// The basic facts about a system; for now one fixed line.
pub open spec fn basic_advice() -> Seq<AdviceV> {
    seq![AdviceV { level: AdviceLevel::Info, title: "基本情報"@, messages: seq!["aaa"@] }]
}

/// The basic facts about the system.
pub fn eval_basic_stat(system: &SysDCSystem) -> (r: Vec<Advice>)
    ensures
        advice_views(r@) == basic_advice(),
{
    let messages = vec![String::from_str("aaa")];
    assert(string_views(messages@) =~= seq!["aaa"@]);
    let r = vec![Advice::new(AdviceLevel::Info, String::from_str("基本情報"), messages)];
    assert(advice_views(r@) =~= basic_advice());
    r
}

/// What makes a module or a function worth splitting.
#[derive(Debug, Clone, Copy, PartialEq, Eq, Structural)]
pub enum ComplexAdviceKind {
    TooManySpawning,
    TooManyModifying,
    TooManyArguments,
    TooManyFunctions,
}

/// A module or a function worth splitting, and why.
pub struct ComplexAdvice<'a> {
    pub kind: ComplexAdviceKind,
    pub name: &'a Name,
}

impl ComplexAdviceKind {
    /// The advice of this kind on the item named `name`.
    pub fn new<'a>(self, name: &'a Name) -> (r: ComplexAdvice<'a>)
        ensures
            r.kind == self,
            r.name == name,
    {
        ComplexAdvice { kind: self, name }
    }
}

/// What each kind of advice says.
pub open spec fn complex_text(kind: ComplexAdviceKind) -> Seq<char> {
    match kind {
        ComplexAdviceKind::TooManySpawning => "1つの関数内で作成する変数が多すぎる可能性があります"@,
        ComplexAdviceKind::TooManyModifying => "1つの関数が更新対象としている変数が多すぎる可能性があります"@,
        ComplexAdviceKind::TooManyArguments => "引数が多すぎる可能性があります"@,
        ComplexAdviceKind::TooManyFunctions => "1つのモジュールに属する関数が多すぎる可能性があります"@,
    }
}

/// The line of advice of kind `kind` on the item named `name`.
pub open spec fn complex_message(name: NameV, kind: ComplexAdviceKind) -> Seq<char> {
    name.full() + " : "@ + complex_text(kind)
}

/// The lines of a list of advice.
pub open spec fn complex_messages(v: Seq<ComplexAdvice>) -> Seq<Seq<char>> {
    v.map_values(|a: ComplexAdvice| complex_message(a.name@, a.kind))
}

impl<'a> ComplexAdvice<'a> {
    /// The line this advice shows.
    pub fn message(&self) -> (r: String)
        ensures
            r@ == complex_message(self.name@, self.kind),
    {
        let mut s = self.name.get_full_name();
        s.append(" : ");
        let text = match self.kind {
            ComplexAdviceKind::TooManySpawning => "1つの関数内で作成する変数が多すぎる可能性があります",
            ComplexAdviceKind::TooManyModifying => "1つの関数が更新対象としている変数が多すぎる可能性があります",
            ComplexAdviceKind::TooManyArguments => "引数が多すぎる可能性があります",
            ComplexAdviceKind::TooManyFunctions => "1つのモジュールに属する関数が多すぎる可能性があります",
        };
        s.append(text);
        s
    }
}

/// How many of the annotations spawn a value.
pub open spec fn count_spawns(annos: Seq<AnnotationV>) -> nat
    decreases annos.len(),
{
    if annos.len() == 0 {
        0
    } else {
        count_spawns(annos.drop_last()) + if annos.last() is Spawn { 1nat } else { 0nat }
    }
}

/// How many of the annotations modify a value.
pub open spec fn count_modifies(annos: Seq<AnnotationV>) -> nat
    decreases annos.len(),
{
    if annos.len() == 0 {
        0
    } else {
        count_modifies(annos.drop_last()) + if annos.last() is Modify { 1nat } else { 0nat }
    }
}

/// Counting the annotations that spawn, or that modify, is counting the
/// annotations of that kind and no other.
pub proof fn lemma_counts_are_kind_counts(annos: Seq<AnnotationV>)
    ensures
        count_spawns(annos) == annos.filter(|a: AnnotationV| a is Spawn).len(),
        count_modifies(annos) == annos.filter(|a: AnnotationV| a is Modify).len(),
    decreases annos.len(),
{
    reveal(Seq::filter);
    if annos.len() > 0 {
        lemma_counts_are_kind_counts(annos.drop_last());
    }
}

/// A function is advised to be split for modifying too many values exactly
/// when more than six of its annotations are `@modify`, and for spawning
/// too many exactly when more than six are `@spawn`.
pub proof fn lemma_modify_and_spawn_advice(f: FunctionV)
    ensures
        func_advice(f).contains(ComplexAdviceKind::TooManyModifying) <==> f.annotations.filter(
            |a: AnnotationV| a is Modify,
        ).len() > 6,
        func_advice(f).contains(ComplexAdviceKind::TooManySpawning) <==> f.annotations.filter(
            |a: AnnotationV| a is Spawn,
        ).len() > 6,
{
    lemma_counts_are_kind_counts(f.annotations);
    let a = if count_spawns(f.annotations) > max_per_function() {
        seq![ComplexAdviceKind::TooManySpawning]
    } else {
        Seq::empty()
    };
    let b = if count_modifies(f.annotations) > max_per_function() {
        seq![ComplexAdviceKind::TooManyModifying]
    } else {
        Seq::empty()
    };
    let c = if f.args.len() > max_per_function() {
        seq![ComplexAdviceKind::TooManyArguments]
    } else {
        Seq::empty()
    };
    let all = func_advice(f);
    assert(all == a + b + c);
    if count_modifies(f.annotations) > max_per_function() {
        assert(all[a.len() as int] == ComplexAdviceKind::TooManyModifying);
    } else {
        assert forall|k: int| 0 <= k < all.len() implies all[k] != ComplexAdviceKind::TooManyModifying by {
            if k < a.len() {
                assert(all[k] == a[k]);
            } else {
                assert(all[k] == c[k - a.len()]);
            }
        }
    }
    if count_spawns(f.annotations) > max_per_function() {
        assert(all[0] == ComplexAdviceKind::TooManySpawning);
    } else {
        assert forall|k: int| 0 <= k < all.len() implies all[k] != ComplexAdviceKind::TooManySpawning by {
            if k < b.len() {
                assert(all[k] == b[k]);
            } else {
                assert(all[k] == c[k - b.len()]);
            }
        }
    }
}

/// The most functions a module should have.
pub open spec fn max_functions() -> nat {
    12
}

/// The most values a function should spawn, modify or take.
pub open spec fn max_per_function() -> nat {
    6
}

/// The advice on a function: too many spawned values, too many modified
/// values, too many arguments, in this order.
pub open spec fn func_advice(f: FunctionV) -> Seq<ComplexAdviceKind> {
    (if count_spawns(f.annotations) > max_per_function() {
        seq![ComplexAdviceKind::TooManySpawning]
    } else {
        Seq::empty()
    }) + (if count_modifies(f.annotations) > max_per_function() {
        seq![ComplexAdviceKind::TooManyModifying]
    } else {
        Seq::empty()
    }) + (if f.args.len() > max_per_function() {
        seq![ComplexAdviceKind::TooManyArguments]
    } else {
        Seq::empty()
    })
}

/// The lines of advice on the functions, in order.
pub open spec fn funcs_lines(fs: Seq<FunctionV>) -> Seq<Seq<char>>
    decreases fs.len(),
{
    if fs.len() == 0 {
        Seq::empty()
    } else {
        funcs_lines(fs.drop_last()) + func_advice(fs.last()).map_values(
            |k: ComplexAdviceKind| complex_message(fs.last().name, k),
        )
    }
}

/// The lines of advice on a module: too many functions, then the advice on
/// each of its functions.
pub open spec fn module_lines(m: ModuleV) -> Seq<Seq<char>> {
    (if m.functions.len() > max_functions() {
        seq![complex_message(m.name, ComplexAdviceKind::TooManyFunctions)]
    } else {
        Seq::empty()
    }) + funcs_lines(m.functions)
}

/// The lines of advice on the modules, in order.
pub open spec fn modules_lines(ms: Seq<ModuleV>) -> Seq<Seq<char>>
    decreases ms.len(),
{
    if ms.len() == 0 {
        Seq::empty()
    } else {
        modules_lines(ms.drop_last()) + module_lines(ms.last())
    }
}

/// The lines of advice on the modules of the units, in order.
pub open spec fn units_lines(us: Seq<UnitV>) -> Seq<Seq<char>>
    decreases us.len(),
{
    if us.len() == 0 {
        Seq::empty()
    } else {
        units_lines(us.drop_last()) + modules_lines(us.last().modules)
    }
}

/// The advice on what could be split: a warning made of every line, or
/// nothing when there is no line.
pub open spec fn complex_stat(s: SystemV) -> Option<AdviceV> {
    let lines = units_lines(s.units);
    if lines.len() == 0 {
        None
    } else {
        Some(AdviceV { level: AdviceLevel::Warning, title: "分割可能な処理"@, messages: lines })
    }
}

/// The model of an outcome.
pub open spec fn advice_option_view(r: Option<Advice>) -> Option<AdviceV> {
    match r {
        Some(a) => Some(a@),
        None => None,
    }
}

fn count_annotations(annotations: &Vec<SysDCAnnotation>) -> (r: (usize, usize))
    ensures
        r.0 == count_spawns(crate::lang::structure::views_of(annotations@)),
        r.1 == count_modifies(crate::lang::structure::views_of(annotations@)),
{
    let ghost annos = crate::lang::structure::views_of(annotations@);
    let mut spawns: usize = 0;
    let mut modifies: usize = 0;
    let mut i: usize = 0;
    while i < annotations.len()
        invariant
            i <= annotations@.len(),
            annos == crate::lang::structure::views_of(annotations@),
            spawns == count_spawns(annos.take(i as int)),
            modifies == count_modifies(annos.take(i as int)),
            spawns <= i,
            modifies <= i,
        decreases annotations.len() - i,
    {
        assert(annos.take(i + 1).drop_last() =~= annos.take(i as int));
        match &annotations[i] {
            SysDCAnnotation::Spawn { .. } => {
                spawns = spawns + 1;
            },
            SysDCAnnotation::Modify { .. } => {
                modifies = modifies + 1;
            },
            _ => {},
        }
        i = i + 1;
    }
    assert(annos.take(i as int) =~= annos);
    (spawns, modifies)
}

fn eval_complex_stat_func(func: &SysDCFunction) -> (r: Vec<ComplexAdvice<'_>>)
    ensures
        complex_messages(r@) == func_advice(func@).map_values(|k: ComplexAdviceKind| complex_message(func@.name, k)),
{
    let mut advice: Vec<ComplexAdvice> = Vec::new();
    let (spawning_cnt, modifying_cnt) = count_annotations(&func.annotations);
    if spawning_cnt > 6 {
        advice.push(ComplexAdviceKind::TooManySpawning.new(&func.name));
    }
    if modifying_cnt > 6 {
        advice.push(ComplexAdviceKind::TooManyModifying.new(&func.name));
    }
    if func.args.len() > 6 {
        advice.push(ComplexAdviceKind::TooManyArguments.new(&func.name));
    }
    assert(complex_messages(advice@) =~= func_advice(func@).map_values(
        |k: ComplexAdviceKind| complex_message(func@.name, k),
    ));
    advice
}

fn eval_complex_stat_module(module: &SysDCModule) -> (r: Vec<ComplexAdvice<'_>>)
    ensures
        complex_messages(r@) == module_lines(module@),
{
    let mut advice: Vec<ComplexAdvice> = Vec::new();
    if module.functions.len() > 12 {
        advice.push(ComplexAdviceKind::TooManyFunctions.new(&module.name));
    }
    let ghost head = complex_messages(advice@);
    assert(head =~= (if module@.functions.len() > max_functions() {
        seq![complex_message(module@.name, ComplexAdviceKind::TooManyFunctions)]
    } else {
        Seq::<Seq<char>>::empty()
    }));
    let mut i: usize = 0;
    while i < module.functions.len()
        invariant
            i <= module.functions@.len(),
            complex_messages(advice@) == head + funcs_lines(module@.functions.take(i as int)),
        decreases module.functions.len() - i,
    {
        let mut fadvice = eval_complex_stat_func(&module.functions[i]);
        let ghost before = advice@;
        let ghost added = fadvice@;
        advice.append(&mut fadvice);
        assert(module@.functions.take(i + 1).drop_last() =~= module@.functions.take(i as int));
        assert(complex_messages(advice@) =~= complex_messages(before) + complex_messages(added));
        i = i + 1;
    }
    assert(module@.functions.take(i as int) =~= module@.functions);
    advice
}

/// The advice on what could be split: the modules with too many functions,
/// the functions that spawn or modify too many values or take too many
/// arguments.
pub fn eval_complex_stat(system: &SysDCSystem) -> (r: Option<Advice>)
    ensures
        advice_option_view(r) == complex_stat(system@),
{
    let mut messages: Vec<String> = Vec::new();
    let mut i: usize = 0;
    while i < system.units.len()
        invariant
            i <= system.units@.len(),
            string_views(messages@) == units_lines(system@.units.take(i as int)),
        decreases system.units.len() - i,
    {
        let unit = &system.units[i];
        let ghost before_unit = string_views(messages@);
        let mut j: usize = 0;
        while j < unit.modules.len()
            invariant
                j <= unit.modules@.len(),
                string_views(messages@) == before_unit + modules_lines(unit@.modules.take(j as int)),
            decreases unit.modules.len() - j,
        {
            let advice = eval_complex_stat_module(&unit.modules[j]);
            let ghost before = string_views(messages@);
            let mut k: usize = 0;
            while k < advice.len()
                invariant
                    k <= advice@.len(),
                    string_views(messages@) == before + complex_messages(advice@).take(k as int),
                decreases advice.len() - k,
            {
                let ghost prev = messages@;
                messages.push(advice[k].message());
                assert(string_views(messages@) =~= string_views(prev).push(complex_messages(advice@)[k as int]));
                k = k + 1;
                assert(complex_messages(advice@).take(k as int) =~= complex_messages(advice@).take(k - 1).push(complex_messages(advice@)[k - 1]));
            }
            assert(complex_messages(advice@).take(k as int) =~= complex_messages(advice@));
            assert(unit@.modules.take(j + 1).drop_last() =~= unit@.modules.take(j as int));
            j = j + 1;
        }
        assert(unit@.modules.take(j as int) =~= unit@.modules);
        assert(system@.units.take(i + 1).drop_last() =~= system@.units.take(i as int));
        i = i + 1;
    }
    assert(system@.units.take(i as int) =~= system@.units);
    if messages.len() == 0 {
        None
    } else {
        Some(Advice::new(AdviceLevel::Warning, String::from_str("分割可能な処理"), messages))
    }
}

/// The advice held by an optional piece of advice.
pub open spec fn opt_seq(a: Option<AdviceV>) -> Seq<AdviceV> {
    match a {
        Some(x) => seq![x],
        None => Seq::empty(),
    }
}

/// All the advice on a system: what could be split, what could be merged,
/// and the basic facts, in this order.
pub open spec fn all_advice(s: SystemV) -> Seq<AdviceV> {
    opt_seq(complex_stat(s)) + opt_seq(crate::tool::eval::duplication::duplication_stat(s)) + basic_advice()
}

/// All the advice on the system.
pub fn gen_advice(system: &SysDCSystem) -> (r: Vec<Advice>)
    ensures
        advice_views(r@) == all_advice(system@),
{
    let mut advice: Vec<Advice> = Vec::new();
    if let Some(a) = eval_complex_stat(system) {
        advice.push(a);
    }
    if let Some(a) = crate::tool::eval::duplication::eval_duplication_stat(system) {
        advice.push(a);
    }
    let ghost before = advice@;
    let mut basic = eval_basic_stat(system);
    let ghost added = basic@;
    advice.append(&mut basic);
    assert(advice_views(advice@) =~= advice_views(before) + advice_views(added));
    assert(advice_views(advice@) =~= all_advice(system@));
    advice
}

} // verus!
