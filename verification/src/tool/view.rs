//! The flow of a system, drawn as a graph: one node for each unit, module,
//! function, argument and value, and edges from what is used to what is
//! made of it.
use vstd::prelude::*;
use crate::lang::name::{Name, NameV};
use crate::lang::types::{Type, TypeV, TypeKind, KindV};
use crate::lang::structure::{NT, views_of, SysDCSystem, SysDCUnit, SysDCModule, SysDCFunction, SysDCAnnotation, SysDCSpawnDetail};
use crate::lang::structure::unchecked::{SystemV, UnitV, ModuleV, FunctionV, AnnotationV, DetailV};
use crate::text::{split_chars, filter_underscores, views, split_by, drop_underscores};

verus! {

/// What a node stands for.
#[derive(Debug, Clone, Copy, PartialEq, Eq, Structural)]
pub enum ReactFlowNodeKind {
    Unit,
    Module,
    Function,
    Procedure,
    Argument,
    Var,
    DeadVar,
    ReturnVar,
    SpawnOuter,
    SpawnInner,
    AffectOuter,
    AffectInner,
}

/// What a node shows: the value it stands for, with its type.
pub struct ReactFlowNodeData {
    pub types: Option<(Name, Type)>,
}

/// A node: its id, what it stands for, the node it is drawn inside, and
/// what it shows.
pub struct ReactFlowNode {
    pub id: String,
    pub kind: ReactFlowNodeKind,
    pub parent: Option<String>,
    pub data: ReactFlowNodeData,
}

/// An edge from the node `source` to the node `target`.
pub struct ReactFlowEdge {
    pub source: String,
    pub target: String,
}

/// The model of a node.
pub struct NodeV {
    pub id: Seq<char>,
    pub kind: ReactFlowNodeKind,
    pub parent: Option<Seq<char>>,
    pub data: Option<NT>,
}

/// The model of an edge.
pub struct EdgeV {
    pub source: Seq<char>,
    pub target: Seq<char>,
}

/// The model of a design: its nodes and its edges.
pub type DesignV = (Seq<NodeV>, Seq<EdgeV>);

impl View for ReactFlowNode {
    type V = NodeV;

    open spec fn view(&self) -> NodeV {
        NodeV {
            id: self.id@,
            kind: self.kind,
            parent: match self.parent {
                Some(p) => Some(p@),
                None => None,
            },
            data: match self.data.types {
                Some(t) => Some((t.0@, t.1@)),
                None => None,
            },
        }
    }
}

impl View for ReactFlowEdge {
    type V = EdgeV;

    open spec fn view(&self) -> EdgeV {
        EdgeV { source: self.source@, target: self.target@ }
    }
}

/// The model of a design.
pub open spec fn design_view(d: (Vec<ReactFlowNode>, Vec<ReactFlowEdge>)) -> DesignV {
    (views_of(d.0@), views_of(d.1@))
}

/// Two designs one after the other.
pub open spec fn cat(a: DesignV, b: DesignV) -> DesignV {
    (a.0 + b.0, a.1 + b.1)
}

/// The design with nothing in it.
pub open spec fn empty_design() -> DesignV {
    (Seq::empty(), Seq::empty())
}

/// A name that has a parent: two components or more once lone underscores
/// are left out.
pub open spec fn rooted(n: NameV) -> bool {
    n.full_parts(true).len() >= 2
}

/// The node of kind `kind` for the item named `name`: drawn inside the
/// item's parent, except for a unit, and showing the type when one is
/// given.
pub open spec fn named_node(kind: ReactFlowNodeKind, name: NameV, types: Option<TypeV>) -> NodeV {
    NodeV {
        id: name.full(),
        kind,
        parent: if kind == ReactFlowNodeKind::Unit { None } else { Some(name.par(true).full()) },
        data: match types {
            Some(t) => Some((name, t)),
            None => None,
        },
    }
}

impl ReactFlowNodeData {
    pub fn new(types: Option<(Name, Type)>) -> (r: ReactFlowNodeData)
        ensures
            r.types == types,
    {
        ReactFlowNodeData { types }
    }
}

fn str_plus(s: &String, suffix: &str) -> (r: String)
    ensures
        r@ == s@ + suffix@,
{
    let mut r = s.clone();
    r.append(suffix);
    r
}

impl ReactFlowNode {
    /// The node of kind `kind` for the item named `name`, showing `types`
    /// when given.
    pub fn new(kind: ReactFlowNodeKind, name: &Name, types: Option<&Type>) -> (r: ReactFlowNode)
        requires
            kind != ReactFlowNodeKind::Unit ==> rooted(name@),
        ensures
            r@ == named_node(kind, name@, match types { Some(t) => Some(t@), None => None }),
    {
        let parent = match kind {
            ReactFlowNodeKind::Unit => None,
            _ => Some(name.get_par_name(true).get_full_name()),
        };
        let data = match types {
            Some(t) => ReactFlowNodeData::new(Some((name.clone(), t.clone()))),
            None => ReactFlowNodeData::new(None),
        };
        ReactFlowNode { id: name.get_full_name(), kind, parent, data }
    }

    /// The node with every part given.
    pub fn new_with_full(id: String, kind: ReactFlowNodeKind, parent: Option<String>, data: ReactFlowNodeData) -> (r: ReactFlowNode)
        ensures
            r.id == id,
            r.kind == kind,
            r.parent == parent,
            r.data == data,
    {
        ReactFlowNode { id, kind, parent, data }
    }
}

impl ReactFlowEdge {
    pub fn new(source: String, target: String) -> (r: ReactFlowEdge)
        ensures
            r.source == source,
            r.target == target,
    {
        ReactFlowEdge { source, target }
    }
}

/// The edges from each argument to the node `target`.
pub open spec fn arg_edges(args: Seq<NT>, target: Seq<char>) -> Seq<EdgeV> {
    args.map_values(|a: NT| EdgeV { source: a.0.full(), target })
}

/// A value `result` made by `func` from `args`: an outer node inside the
/// value's parent holding an inner node, the value itself, edges from the
/// arguments to the outer node, both ways between the inner node and the
/// function, and from the outer node to the value.
pub open spec fn spawn_flow(result: NT, func: NameV, args: Seq<NT>) -> DesignV {
    let r = result.0.full();
    let p = result.0.par(true).full();
    let f = func.full();
    (
        seq![
            NodeV { id: r + ":inner"@, kind: ReactFlowNodeKind::SpawnInner, parent: Some(r + ":outer"@), data: None },
            NodeV { id: r + ":outer"@, kind: ReactFlowNodeKind::SpawnOuter, parent: Some(p), data: None },
            NodeV { id: r, kind: ReactFlowNodeKind::Var, parent: Some(p), data: Some(result) },
        ],
        arg_edges(args, r + ":outer"@) + seq![
            EdgeV { source: r + ":inner"@, target: f },
            EdgeV { source: f, target: r + ":inner"@ },
            EdgeV { source: r + ":outer"@, target: r },
        ],
    )
}

/// `func` affecting `afunc` with `args`: an outer node inside `func`
/// holding an inner node, edges from the arguments to the outer node and
/// from the inner node to `afunc`.
pub open spec fn affect_flow(func: NameV, afunc: NameV, args: Seq<NT>) -> DesignV {
    let name = func.full() + ":"@ + afunc.full() + ":affect"@;
    (
        seq![
            NodeV { id: name + ":inner"@, kind: ReactFlowNodeKind::AffectInner, parent: Some(name + ":outer"@), data: None },
            NodeV { id: name + ":outer"@, kind: ReactFlowNodeKind::AffectOuter, parent: Some(func.full()), data: None },
        ],
        arg_edges(args, name + ":outer"@) + seq![EdgeV { source: name + ":inner"@, target: afunc.full() }],
    )
}

fn arg_edges_to(args: &Vec<(Name, Type)>, target: &String) -> (r: Vec<ReactFlowEdge>)
    ensures
        views_of(r@) == arg_edges(views_of(args@), target@),
{
    let mut edges: Vec<ReactFlowEdge> = Vec::new();
    let mut i: usize = 0;
    while i < args.len()
        invariant
            i <= args@.len(),
            views_of(edges@) == arg_edges(views_of(args@), target@).take(i as int),
        decreases args.len() - i,
    {
        let ghost before = edges@;
        edges.push(ReactFlowEdge::new(args[i].0.get_full_name(), target.clone()));
        assert(views_of(edges@) =~= views_of(before).push(arg_edges(views_of(args@), target@)[i as int]));
        i = i + 1;
        assert(arg_edges(views_of(args@), target@).take(i as int) =~= arg_edges(views_of(args@), target@).take(
            i - 1,
        ).push(arg_edges(views_of(args@), target@)[i - 1]));
    }
    assert(arg_edges(views_of(args@), target@).take(i as int) =~= arg_edges(views_of(args@), target@));
    edges
}

/// The flow of a value `result` made by `func` from `args`.
pub fn gen_annotation_spawn_flow(result: &(Name, Type), func: &Name, args: &Vec<(Name, Type)>) -> (r: (Vec<ReactFlowNode>, Vec<ReactFlowEdge>))
    requires
        rooted(result.0@),
    ensures
        design_view(r) == spawn_flow((result.0@, result.1@), func@, views_of(args@)),
{
    let result_par_fn = result.0.get_par_name(true).get_full_name();
    let result_fn = result.0.get_full_name();
    let inner = str_plus(&result_fn, ":inner");
    let outer = str_plus(&result_fn, ":outer");

    let mut nodes: Vec<ReactFlowNode> = Vec::new();
    nodes.push(ReactFlowNode::new_with_full(
        inner.clone(),
        ReactFlowNodeKind::SpawnInner,
        Some(outer.clone()),
        ReactFlowNodeData::new(None),
    ));
    nodes.push(ReactFlowNode::new_with_full(
        outer.clone(),
        ReactFlowNodeKind::SpawnOuter,
        Some(result_par_fn.clone()),
        ReactFlowNodeData::new(None),
    ));
    nodes.push(ReactFlowNode::new_with_full(
        result_fn.clone(),
        ReactFlowNodeKind::Var,
        Some(result_par_fn),
        ReactFlowNodeData::new(Some((result.0.clone(), result.1.clone()))),
    ));

    let func_fn = func.get_full_name();
    let mut edges = arg_edges_to(args, &outer);
    let ghost before = edges@;
    edges.push(ReactFlowEdge::new(inner.clone(), func_fn.clone()));
    edges.push(ReactFlowEdge::new(func_fn, inner));
    edges.push(ReactFlowEdge::new(outer, result_fn));
    let ghost rv = (result.0@, result.1@);
    assert(views_of(nodes@) =~= spawn_flow(rv, func@, views_of(args@)).0);
    assert(views_of(edges@) =~= spawn_flow(rv, func@, views_of(args@)).1);
    (nodes, edges)
}

/// The flow of `func` affecting `afunc` with `args`.
pub fn gen_annotation_affect_flow(func: &Name, afunc: &Name, args: &Vec<(Name, Type)>) -> (r: (Vec<ReactFlowNode>, Vec<ReactFlowEdge>))
    ensures
        design_view(r) == affect_flow(func@, afunc@, views_of(args@)),
{
    let name_par = func.get_full_name();
    let mut name = str_plus(&name_par, ":");
    let afunc_fn = afunc.get_full_name();
    name.append(afunc_fn.as_str());
    name.append(":affect");
    let inner = str_plus(&name, ":inner");
    let outer = str_plus(&name, ":outer");

    let mut nodes: Vec<ReactFlowNode> = Vec::new();
    nodes.push(ReactFlowNode::new_with_full(
        inner.clone(),
        ReactFlowNodeKind::AffectInner,
        Some(outer.clone()),
        ReactFlowNodeData::new(None),
    ));
    nodes.push(ReactFlowNode::new_with_full(
        outer.clone(),
        ReactFlowNodeKind::AffectOuter,
        Some(name_par),
        ReactFlowNodeData::new(None),
    ));

    let mut edges = arg_edges_to(args, &outer);
    edges.push(ReactFlowEdge::new(inner, afunc_fn));
    assert(views_of(nodes@) =~= affect_flow(func@, afunc@, views_of(args@)).0);
    assert(views_of(edges@) =~= affect_flow(func@, afunc@, views_of(args@)).1);
    (nodes, edges)
}

/// The values of the spawn's `use` lines, in order.
pub open spec fn use_details(ds: Seq<DetailV>) -> Seq<NT>
    decreases ds.len(),
{
    if ds.len() == 0 {
        Seq::empty()
    } else {
        use_details(ds.drop_last()) + match ds.last() {
            DetailV::Use(n, t) => seq![(n, t)],
            _ => Seq::empty(),
        }
    }
}

/// The flows of the spawn's `let` lines, one after the other.
pub open spec fn letto_flows(ds: Seq<DetailV>) -> DesignV
    decreases ds.len(),
{
    if ds.len() == 0 {
        empty_design()
    } else {
        cat(letto_flows(ds.drop_last()), match ds.last() {
            DetailV::LetTo { name, func, args } => spawn_flow((name, func.1), func.0, args),
            _ => empty_design(),
        })
    }
}

/// The name the dead value of a modified target goes by.
pub open spec fn dead_name(target: NameV) -> NameV {
    NameV { name: target.name + ":dead"@, namespace: target.par(true).full() }
}

/// The flow of an annotation of the function `f`.
pub open spec fn annotation_flow(f: FunctionV, a: AnnotationV) -> DesignV {
    match a {
        AnnotationV::Affect { func, args } => affect_flow(f.name, func.0, args),
        AnnotationV::Spawn { result, details } => if use_details(details).len() == details.len() {
            spawn_flow(result, NameV::root(), use_details(details))
        } else {
            let d = letto_flows(details);
            match details.last() {
                DetailV::Return(name, _) => (
                    d.0.push(named_node(ReactFlowNodeKind::Var, result.0, Some(result.1))),
                    d.1.push(EdgeV { source: name.full(), target: result.0.full() }),
                ),
                _ => d,
            }
        },
        AnnotationV::Modify { target, uses } => {
            let d = spawn_flow(target, NameV::root(), uses.push((dead_name(target.0), target.1)));
            (
                d.0.push(
                    NodeV {
                        id: target.0.full() + ":dead"@,
                        kind: ReactFlowNodeKind::DeadVar,
                        parent: Some(f.name.full()),
                        data: Some(target),
                    },
                ),
                d.1,
            )
        },
        AnnotationV::Return(_) => empty_design(),
    }
}

/// In the flow of a spawn whose last line is `return x`, the value `x`
/// flows into the spawned result: there is an edge from `x`'s full name to
/// the result's full name, and a node for the result.
pub proof fn lemma_spawn_return_flows_to_result(f: FunctionV, result: NT, details: Seq<DetailV>)
    requires
        details.len() > 0,
        details.last() is Return,
    ensures
        ({
            let flow = annotation_flow(f, AnnotationV::Spawn { result, details });
            &&& flow.1.contains(EdgeV { source: details.last()->Return_0.full(), target: result.0.full() })
            &&& exists|k: int| 0 <= k < flow.0.len() && (#[trigger] flow.0[k]).id == result.0.full()
        }),
{
    lemma_use_details_len(details);
    let flow = annotation_flow(f, AnnotationV::Spawn { result, details });
    let d = letto_flows(details);
    assert(flow.1[d.1.len() as int] == EdgeV { source: details.last()->Return_0.full(), target: result.0.full() });
    assert(flow.0[d.0.len() as int].id == result.0.full());
}

/// The names an annotation's flow draws inside their parents have parents.
pub open spec fn annotation_ready(a: AnnotationV) -> bool {
    match a {
        AnnotationV::Spawn { result, details } => rooted(result.0) && forall|k: int|
            0 <= k < details.len() ==> match #[trigger] details[k] {
                DetailV::LetTo { name, .. } => rooted(name),
                _ => true,
            },
        AnnotationV::Modify { target, .. } => rooted(target.0),
        _ => true,
    }
}

fn design_append(d: &mut (Vec<ReactFlowNode>, Vec<ReactFlowEdge>), more: (Vec<ReactFlowNode>, Vec<ReactFlowEdge>))
    ensures
        design_view(*final(d)) == cat(design_view(*old(d)), design_view(more)),
{
    let (mut nodes, mut edges) = more;
    let ghost n0 = d.0@;
    let ghost e0 = d.1@;
    let ghost na = nodes@;
    let ghost ea = edges@;
    d.0.append(&mut nodes);
    d.1.append(&mut edges);
    assert(views_of(d.0@) =~= views_of(n0) + views_of(na));
    assert(views_of(d.1@) =~= views_of(e0) + views_of(ea));
}

/// The flow of an annotation of `func`.
pub fn gen_annotation_flow(func: &SysDCFunction, annotation: &SysDCAnnotation) -> (r: (Vec<ReactFlowNode>, Vec<ReactFlowEdge>))
    requires
        annotation_ready(annotation@),
    ensures
        design_view(r) == annotation_flow(func@, annotation@),
{
    match annotation {
        SysDCAnnotation::Affect { func: afunc, args } => gen_annotation_affect_flow(&func.name, &afunc.0, args),
        SysDCAnnotation::Spawn { result, details } => {
            let ghost ds = views_of(details@);
            let mut uses: Vec<(Name, Type)> = Vec::new();
            let mut i: usize = 0;
            assert(ds.take(0) =~= Seq::<DetailV>::empty());
            while i < details.len()
                invariant
                    i <= details@.len(),
                    ds == views_of(details@),
                    views_of(uses@) == use_details(ds.take(i as int)),
                decreases details.len() - i,
            {
                let ghost before = views_of(uses@);
                assert(ds.take(i + 1).drop_last() =~= ds.take(i as int));
                match &details[i] {
                    SysDCSpawnDetail::Use(name, types) => {
                        uses.push((name.clone(), types.clone()));
                        assert(views_of(uses@) =~= before + seq![(name@, types@)]);
                    },
                    _ => {
                        assert(views_of(uses@) =~= before + Seq::<NT>::empty());
                    },
                }
                i = i + 1;
            }
            assert(ds.take(i as int) =~= ds);
            proof {
                lemma_use_details_len(ds);
            }
            if uses.len() == details.len() {
                return gen_annotation_spawn_flow(result, &Name::new_root(), &uses);
            }
            let mut design: (Vec<ReactFlowNode>, Vec<ReactFlowEdge>) = (Vec::new(), Vec::new());
            let mut j: usize = 0;
            assert(design_view(design) =~= letto_flows(ds.take(0)));
            while j < details.len()
                invariant
                    j <= details@.len(),
                    ds == views_of(details@),
                    design_view(design) == letto_flows(ds.take(j as int)),
                    forall|k: int| 0 <= k < ds.len() ==> match #[trigger] ds[k] {
                        DetailV::LetTo { name, .. } => rooted(name),
                        _ => true,
                    },
                decreases details.len() - j,
            {
                assert(ds.take(j + 1).drop_last() =~= ds.take(j as int));
                let ghost before = design_view(design);
                match &details[j] {
                    SysDCSpawnDetail::LetTo { name, func: lfunc, args } => {
                        assert(ds[j as int] matches DetailV::LetTo { .. });
                        let flow = gen_annotation_spawn_flow(&(name.clone(), lfunc.1.clone()), &lfunc.0, args);
                        design_append(&mut design, flow);
                    },
                    _ => {
                        assert(cat(before, empty_design()) =~= before);
                    },
                }
                j = j + 1;
            }
            assert(ds.take(j as int) =~= ds);
            let (mut nodes, mut edges) = design;
            let ghost n0 = views_of(nodes@);
            let ghost e0 = views_of(edges@);
            if let SysDCSpawnDetail::Return(name, _) = &details[details.len() - 1] {
                nodes.push(ReactFlowNode::new(ReactFlowNodeKind::Var, &result.0, Some(&result.1)));
                edges.push(ReactFlowEdge::new(name.get_full_name(), result.0.get_full_name()));
                assert(views_of(nodes@) =~= n0.push(named_node(ReactFlowNodeKind::Var, result.0@, Some(result.1@))));
                assert(views_of(edges@) =~= e0.push(EdgeV { source: name@.full(), target: result.0@.full() }));
            }
            (nodes, edges)
        },
        SysDCAnnotation::Modify { target, uses } => {
            let dead_id = str_plus(&target.0.get_full_name(), ":dead");
            let dead_var_node = ReactFlowNode::new_with_full(
                dead_id,
                ReactFlowNodeKind::DeadVar,
                Some(func.name.get_full_name()),
                ReactFlowNodeData::new(Some((target.0.clone(), target.1.clone()))),
            );
            let mut uses2: Vec<(Name, Type)> = Vec::new();
            let mut i: usize = 0;
            while i < uses.len()
                invariant
                    i <= uses@.len(),
                    views_of(uses2@) == views_of(uses@).take(i as int),
                decreases uses.len() - i,
            {
                let ghost before = views_of(uses2@);
                uses2.push((uses[i].0.clone(), uses[i].1.clone()));
                assert(views_of(uses2@) =~= before.push(views_of(uses@)[i as int]));
                i = i + 1;
                assert(views_of(uses@).take(i as int) =~= views_of(uses@).take(i - 1).push(views_of(uses@)[i - 1]));
            }
            assert(views_of(uses@).take(i as int) =~= views_of(uses@));
            let dead = str_plus(&target.0.name, ":dead");
            let ghost before = views_of(uses2@);
            uses2.push((Name::new(&target.0.get_par_name(true), dead), target.1.clone()));
            assert(views_of(uses2@) =~= before.push((dead_name(target.0@), target.1@)));
            let (mut nodes, edges) = gen_annotation_spawn_flow(target, &Name::new_root(), &uses2);
            let ghost n0 = views_of(nodes@);
            nodes.push(dead_var_node);
            assert(views_of(nodes@) =~= n0.push(NodeV {
                id: target.0@.full() + ":dead"@,
                kind: ReactFlowNodeKind::DeadVar,
                parent: Some(func@.name.full()),
                data: Some((target.0@, target.1@)),
            }));
            (nodes, edges)
        },
    }
}

proof fn lemma_use_details_len(ds: Seq<DetailV>)
    ensures
        use_details(ds).len() <= ds.len(),
        use_details(ds).len() == ds.len() ==> forall|k: int| 0 <= k < ds.len() ==> (#[trigger] ds[k]) is Use,
    decreases ds.len(),
{
    if ds.len() > 0 {
        lemma_use_details_len(ds.drop_last());
        if use_details(ds).len() == ds.len() {
            assert forall|k: int| 0 <= k < ds.len() implies (#[trigger] ds[k]) is Use by {
                if k < ds.len() - 1 {
                    assert(ds.drop_last()[k] == ds[k]);
                }
            }
        }
    }
}

/// The flows of the annotations of `f`, one after the other.
pub open spec fn annotations_flow(f: FunctionV, annos: Seq<AnnotationV>) -> DesignV
    decreases annos.len(),
{
    if annos.len() == 0 {
        empty_design()
    } else {
        cat(annotations_flow(f, annos.drop_last()), annotation_flow(f, annos.last()))
    }
}

/// The flow of a function: its node (a procedure when it returns nothing),
/// a node for each argument, the flows of its annotations, and for a
/// function the node of the value it returns.
pub open spec fn func_flow(f: FunctionV) -> DesignV {
    let is_procedure = f.returns.1.kind == KindV::Void;
    let head = seq![
        named_node(
            if is_procedure { ReactFlowNodeKind::Procedure } else { ReactFlowNodeKind::Function },
            f.name,
            None,
        ),
    ] + f.args.map_values(|a: NT| named_node(ReactFlowNodeKind::Argument, a.0, Some(a.1)));
    let body = annotations_flow(f, f.annotations);
    let nodes = head + body.0;
    (
        if is_procedure {
            nodes
        } else {
            nodes.push(named_node(ReactFlowNodeKind::ReturnVar, f.returns.0, Some(f.returns.1)))
        },
        body.1,
    )
}

/// The names a function's flow draws inside their parents have parents.
pub open spec fn function_ready(f: FunctionV) -> bool {
    &&& rooted(f.name)
    &&& forall|k: int| 0 <= k < f.args.len() ==> rooted((#[trigger] f.args[k]).0)
    &&& f.returns.1.kind != KindV::Void ==> rooted(f.returns.0)
    &&& forall|k: int| 0 <= k < f.annotations.len() ==> annotation_ready(#[trigger] f.annotations[k])
}

/// The flow of a function.
pub fn gen_func_flow(func: &SysDCFunction) -> (r: (Vec<ReactFlowNode>, Vec<ReactFlowEdge>))
    requires
        function_ready(func@),
    ensures
        design_view(r) == func_flow(func@),
{
    let is_procedure = match func.returns.1.kind {
        TypeKind::Void => true,
        _ => false,
    };
    let mut nodes: Vec<ReactFlowNode> = Vec::new();
    if is_procedure {
        nodes.push(ReactFlowNode::new(ReactFlowNodeKind::Procedure, &func.name, None));
    } else {
        nodes.push(ReactFlowNode::new(ReactFlowNodeKind::Function, &func.name, None));
    }
    let ghost fv = func@;
    let ghost args_nodes = fv.args.map_values(|a: NT| named_node(ReactFlowNodeKind::Argument, a.0, Some(a.1)));
    let ghost first = views_of(nodes@);
    let mut i: usize = 0;
    while i < func.args.len()
        invariant
            i <= func.args@.len(),
            fv == func@,
            function_ready(fv),
            args_nodes == fv.args.map_values(|a: NT| named_node(ReactFlowNodeKind::Argument, a.0, Some(a.1))),
            views_of(nodes@) == first + args_nodes.take(i as int),
        decreases func.args.len() - i,
    {
        assert(rooted(fv.args[i as int].0));
        let ghost before = views_of(nodes@);
        nodes.push(ReactFlowNode::new(ReactFlowNodeKind::Argument, &func.args[i].0, Some(&func.args[i].1)));
        assert(views_of(nodes@) =~= before.push(args_nodes[i as int]));
        i = i + 1;
        assert(args_nodes.take(i as int) =~= args_nodes.take(i - 1).push(args_nodes[i - 1]));
    }
    assert(args_nodes.take(i as int) =~= args_nodes);
    let ghost head = views_of(nodes@);

    let ghost annos = fv.annotations;
    let mut body: (Vec<ReactFlowNode>, Vec<ReactFlowEdge>) = (Vec::new(), Vec::new());
    let mut j: usize = 0;
    assert(design_view(body) =~= annotations_flow(fv, annos.take(0)));
    while j < func.annotations.len()
        invariant
            j <= func.annotations@.len(),
            fv == func@,
            function_ready(fv),
            annos == fv.annotations,
            design_view(body) == annotations_flow(fv, annos.take(j as int)),
        decreases func.annotations.len() - j,
    {
        assert(annos.take(j + 1).drop_last() =~= annos.take(j as int));
        assert(annos[j as int] == func.annotations@[j as int]@);
        assert(annotation_ready(annos[j as int]));
        let flow = gen_annotation_flow(func, &func.annotations[j]);
        design_append(&mut body, flow);
        j = j + 1;
    }
    assert(annos.take(j as int) =~= annos);
    let (mut bnodes, edges) = body;
    let ghost bn = views_of(bnodes@);
    nodes.append(&mut bnodes);
    assert(views_of(nodes@) =~= head + bn);
    if !is_procedure {
        let ghost before = views_of(nodes@);
        nodes.push(ReactFlowNode::new(ReactFlowNodeKind::ReturnVar, &func.returns.0, Some(&func.returns.1)));
        assert(views_of(nodes@) =~= before.push(named_node(ReactFlowNodeKind::ReturnVar, fv.returns.0, Some(fv.returns.1))));
    }
    assert(design_view((nodes, edges)).0 =~= func_flow(fv).0);
    (nodes, edges)
}

/// The flows of the functions, one after the other.
pub open spec fn functions_flow(fs: Seq<FunctionV>) -> DesignV
    decreases fs.len(),
{
    if fs.len() == 0 {
        empty_design()
    } else {
        cat(functions_flow(fs.drop_last()), func_flow(fs.last()))
    }
}

/// The flow of a module: its node, then the flows of its functions.
pub open spec fn module_flow(m: ModuleV) -> DesignV {
    cat((seq![named_node(ReactFlowNodeKind::Module, m.name, None)], Seq::empty()), functions_flow(m.functions))
}

/// The names a module's flow draws inside their parents have parents.
pub open spec fn module_ready(m: ModuleV) -> bool {
    rooted(m.name) && forall|k: int| 0 <= k < m.functions.len() ==> function_ready(#[trigger] m.functions[k])
}

/// The flow of a module.
pub fn gen_module_flow(module: &SysDCModule) -> (r: (Vec<ReactFlowNode>, Vec<ReactFlowEdge>))
    requires
        module_ready(module@),
    ensures
        design_view(r) == module_flow(module@),
{
    let mut design: (Vec<ReactFlowNode>, Vec<ReactFlowEdge>) = (Vec::new(), Vec::new());
    design.0.push(ReactFlowNode::new(ReactFlowNodeKind::Module, &module.name, None));
    let ghost start = design_view(design);
    let ghost mv = module@;
    let mut i: usize = 0;
    assert(cat(start, functions_flow(mv.functions.take(0))) =~= start);
    while i < module.functions.len()
        invariant
            i <= module.functions@.len(),
            mv == module@,
            module_ready(mv),
            design_view(design) == cat(start, functions_flow(mv.functions.take(i as int))),
        decreases module.functions.len() - i,
    {
        assert(mv.functions.take(i + 1).drop_last() =~= mv.functions.take(i as int));
        assert(function_ready(mv.functions[i as int]));
        let ghost before = design_view(design);
        let flow = gen_func_flow(&module.functions[i]);
        design_append(&mut design, flow);
        assert(design_view(design) =~= cat(start, functions_flow(mv.functions.take(i + 1))));
        i = i + 1;
    }
    assert(mv.functions.take(i as int) =~= mv.functions);
    design
}

/// The flows of the modules, one after the other.
pub open spec fn modules_flow(ms: Seq<ModuleV>) -> DesignV
    decreases ms.len(),
{
    if ms.len() == 0 {
        empty_design()
    } else {
        cat(modules_flow(ms.drop_last()), module_flow(ms.last()))
    }
}

/// The flow of a unit: its node, then the flows of its modules.
pub open spec fn unit_flow(u: UnitV) -> DesignV {
    cat((seq![named_node(ReactFlowNodeKind::Unit, u.name, None)], Seq::empty()), modules_flow(u.modules))
}

/// The names a unit's flow draws inside their parents have parents.
pub open spec fn unit_ready(u: UnitV) -> bool {
    forall|k: int| 0 <= k < u.modules.len() ==> module_ready(#[trigger] u.modules[k])
}

/// The flow of a unit.
pub fn gen_unit_flow(unit: &SysDCUnit) -> (r: (Vec<ReactFlowNode>, Vec<ReactFlowEdge>))
    requires
        unit_ready(unit@),
    ensures
        design_view(r) == unit_flow(unit@),
{
    let mut design: (Vec<ReactFlowNode>, Vec<ReactFlowEdge>) = (Vec::new(), Vec::new());
    design.0.push(ReactFlowNode::new(ReactFlowNodeKind::Unit, &unit.name, None));
    let ghost start = design_view(design);
    let ghost uv = unit@;
    let mut i: usize = 0;
    assert(cat(start, modules_flow(uv.modules.take(0))) =~= start);
    while i < unit.modules.len()
        invariant
            i <= unit.modules@.len(),
            uv == unit@,
            unit_ready(uv),
            design_view(design) == cat(start, modules_flow(uv.modules.take(i as int))),
        decreases unit.modules.len() - i,
    {
        assert(uv.modules.take(i + 1).drop_last() =~= uv.modules.take(i as int));
        assert(module_ready(uv.modules[i as int]));
        let flow = gen_module_flow(&unit.modules[i]);
        design_append(&mut design, flow);
        assert(design_view(design) =~= cat(start, modules_flow(uv.modules.take(i + 1))));
        i = i + 1;
    }
    assert(uv.modules.take(i as int) =~= uv.modules);
    design
}

/// The flows of the units, one after the other.
pub open spec fn units_flow(us: Seq<UnitV>) -> DesignV
    decreases us.len(),
{
    if us.len() == 0 {
        empty_design()
    } else {
        cat(units_flow(us.drop_last()), unit_flow(us.last()))
    }
}

/// The names a system's flow draws inside their parents have parents.
pub open spec fn system_ready(s: SystemV) -> bool {
    forall|k: int| 0 <= k < s.units.len() ==> unit_ready(#[trigger] s.units[k])
}

/// The flow of a system: the flows of its units, one after the other.
pub fn gen_flow(system: &SysDCSystem) -> (r: (Vec<ReactFlowNode>, Vec<ReactFlowEdge>))
    requires
        system_ready(system@),
    ensures
        design_view(r) == units_flow(system@.units),
{
    let mut design: (Vec<ReactFlowNode>, Vec<ReactFlowEdge>) = (Vec::new(), Vec::new());
    let ghost sv = system@;
    let mut i: usize = 0;
    assert(design_view(design) =~= units_flow(sv.units.take(0)));
    while i < system.units.len()
        invariant
            i <= system.units@.len(),
            sv == system@,
            system_ready(sv),
            design_view(design) == units_flow(sv.units.take(i as int)),
        decreases system.units.len() - i,
    {
        assert(sv.units.take(i + 1).drop_last() =~= sv.units.take(i as int));
        assert(unit_ready(sv.units[i as int]));
        let flow = gen_unit_flow(&system.units[i]);
        design_append(&mut design, flow);
        i = i + 1;
    }
    assert(sv.units.take(i as int) =~= sv.units);
    design
}

/// Whether the name has a parent.
pub fn has_parent(name: &Name) -> (r: bool)
    ensures
        r == rooted(name@),
{
    let full = name.full_chars();
    let parts = split_chars(&full, '.');
    let kept = filter_underscores(&parts);
    assert(views(kept@).len() == kept@.len());
    kept.len() >= 2
}

fn annotation_is_ready(a: &SysDCAnnotation) -> (r: bool)
    ensures
        r == annotation_ready(a@),
{
    match a {
        SysDCAnnotation::Spawn { result, details } => {
            if !has_parent(&result.0) {
                return false;
            }
            let ghost ds = views_of(details@);
            let mut i: usize = 0;
            while i < details.len()
                invariant
                    i <= details@.len(),
                    ds == views_of(details@),
                    forall|k: int| 0 <= k < i ==> match #[trigger] ds[k] {
                        DetailV::LetTo { name, .. } => rooted(name),
                        _ => true,
                    },
                    annotation_ready(a@) == (forall|k: int| 0 <= k < ds.len() ==> match #[trigger] ds[k] {
                        DetailV::LetTo { name, .. } => rooted(name),
                        _ => true,
                    }),
                decreases details.len() - i,
            {
                if let SysDCSpawnDetail::LetTo { name, .. } = &details[i] {
                    if !has_parent(name) {
                        assert(!(match ds[i as int] {
                            DetailV::LetTo { name, .. } => rooted(name),
                            _ => true,
                        }));
                        return false;
                    }
                }
                i = i + 1;
            }
            true
        },
        SysDCAnnotation::Modify { target, .. } => has_parent(&target.0),
        _ => true,
    }
}

fn function_is_ready(f: &SysDCFunction) -> (r: bool)
    ensures
        r == function_ready(f@),
{
    if !has_parent(&f.name) {
        return false;
    }
    let ghost fv = f@;
    let mut i: usize = 0;
    while i < f.args.len()
        invariant
            i <= f.args@.len(),
            fv == f@,
            forall|k: int| 0 <= k < i ==> rooted((#[trigger] fv.args[k]).0),
        decreases f.args.len() - i,
    {
        if !has_parent(&f.args[i].0) {
            assert(!rooted(fv.args[i as int].0));
            return false;
        }
        i = i + 1;
    }
    let is_procedure = match f.returns.1.kind {
        TypeKind::Void => true,
        _ => false,
    };
    if !is_procedure && !has_parent(&f.returns.0) {
        return false;
    }
    let mut j: usize = 0;
    while j < f.annotations.len()
        invariant
            j <= f.annotations@.len(),
            fv == f@,
            forall|k: int| 0 <= k < j ==> annotation_ready(#[trigger] fv.annotations[k]),
        decreases f.annotations.len() - j,
    {
        if !annotation_is_ready(&f.annotations[j]) {
            assert(!annotation_ready(fv.annotations[j as int]));
            return false;
        }
        j = j + 1;
    }
    true
}

fn module_is_ready(m: &SysDCModule) -> (r: bool)
    ensures
        r == module_ready(m@),
{
    if !has_parent(&m.name) {
        return false;
    }
    let ghost mv = m@;
    let mut i: usize = 0;
    while i < m.functions.len()
        invariant
            i <= m.functions@.len(),
            mv == m@,
            forall|k: int| 0 <= k < i ==> function_ready(#[trigger] mv.functions[k]),
        decreases m.functions.len() - i,
    {
        if !function_is_ready(&m.functions[i]) {
            assert(!function_ready(mv.functions[i as int]));
            return false;
        }
        i = i + 1;
    }
    true
}

/// Whether every name that the flow of the system draws inside its parent
/// has a parent.
pub fn flow_ready(system: &SysDCSystem) -> (r: bool)
    ensures
        r == system_ready(system@),
{
    let ghost sv = system@;
    let mut i: usize = 0;
    while i < system.units.len()
        invariant
            i <= system.units@.len(),
            sv == system@,
            forall|k: int| 0 <= k < i ==> unit_ready(#[trigger] sv.units[k]),
        decreases system.units.len() - i,
    {
        let unit = &system.units[i];
        let ghost uv = unit@;
        let mut j: usize = 0;
        while j < unit.modules.len()
            invariant
                j <= unit.modules@.len(),
                i < sv.units.len(),
                sv == system@,
                uv == sv.units[i as int],
                uv == unit@,
                forall|k: int| 0 <= k < j ==> module_ready(#[trigger] uv.modules[k]),
            decreases unit.modules.len() - j,
        {
            if !module_is_ready(&unit.modules[j]) {
                assert(!module_ready(uv.modules[j as int]));
                assert(!unit_ready(sv.units[i as int]));
                return false;
            }
            j = j + 1;
        }
        assert(unit_ready(sv.units[i as int]));
        i = i + 1;
    }
    true
}

/// The root has a parent in this sense: its full name `.0` has two
/// components.
pub proof fn lemma_root_rooted()
    ensures
        rooted(NameV::root()),
{
    let f = NameV::root().full();
    assert(f =~= Seq::<char>::empty() + seq!['.'] + seq!['0']);
    crate::text::lemma_split_append(Seq::<char>::empty(), seq!['0'], '.');
    assert(split_by(Seq::<char>::empty(), '.') == seq![Seq::<char>::empty()]);
    let parts = seq![Seq::<char>::empty(), seq!['0']];
    assert(split_by(f, '.') =~= parts);
    assert(parts.drop_last() =~= seq![Seq::<char>::empty()]);
    assert(parts.drop_last().drop_last() =~= Seq::<Seq<char>>::empty());
    assert(seq!['0'] != seq!['_']) by {
        assert(seq!['0'][0] != seq!['_'][0]);
    }
    assert(Seq::<char>::empty() != seq!['_']) by {
        assert(Seq::<char>::empty().len() != seq!['_'].len());
    }
    let p1 = parts.drop_last();
    assert(p1.len() == 1);
    assert(p1.last() == Seq::<char>::empty());
    assert(drop_underscores(p1.drop_last()) == Seq::<Seq<char>>::empty());
    assert(drop_underscores(p1).len() == 1);
    assert(parts.last() == seq!['0']);
    assert(drop_underscores(parts).len() == 2);
}

/// A name defined inside a name that has a parent has one too, when the
/// new name holds no dot; so every name made from the root by defining
/// names inside names has a parent.
pub proof fn lemma_child_rooted(base: NameV, n: Seq<char>)
    requires
        rooted(base),
        !n.contains('.'),
    ensures
        rooted(base.child(n)),
{
    crate::text::lemma_split_append(base.full(), n, '.');
    let parts = split_by(base.full(), '.');
    assert(base.child(n).full() == base.full() + seq!['.'] + n);
    assert(parts.push(n).drop_last() =~= parts);
}

} // verus!
