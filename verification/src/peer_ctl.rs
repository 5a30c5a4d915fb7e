//! The re-specification node, which derives the spec string of the right-hand
//! peer from what the left-hand peer's handshake carried, and the construction
//! of peer constructors from specifier trees.

use crate::environment::{
    override_of, text_result, ConfigurationError, ConstructError, ConstructParams, ParamsView,
};
use crate::merge::{lemma_merged_fields, merge, merged};
use crate::registry::{
    class_of, lemma_class_of, registered, ClassView, ConnectMode, Registry,
};
use crate::resolver::{
    fits, head_of, lemma_resolved_fits, resolved, ParseError, SpecifierTree, TreeView,
};
use crate::text::{fields_of, first_colon, lemma_fields_shape, lemma_first_colon, split_fields, texts};
use vstd::prelude::*;

verus! {

/// The re-specification node. It holds its template: a spec string, possibly
/// empty or partial, fixed when the tree is built.
#[derive(Debug, Clone, PartialEq, Eq)]
pub struct PeerCtl(pub String);

impl View for PeerCtl {
    type V = Seq<char>;

    open spec fn view(&self) -> Seq<char> {
        self.0@
    }
}

/// What construction yields: a plan for one connection, a plan for a
/// sequence of connections, or the failure of this connection attempt. The
/// plan is a tree without re-specification nodes, for the connection loop to
/// carry out.
#[derive(Debug, PartialEq, Eq)]
pub enum PeerConstructor {
    Single(SpecifierTree),
    Multi(SpecifierTree),
    Error(ConstructError),
}

/// The mathematical content of a peer constructor.
pub enum ConstructorView {
    Single(TreeView),
    Multi(TreeView),
    Error(ConstructError),
}

impl View for PeerConstructor {
    type V = ConstructorView;

    open spec fn view(&self) -> ConstructorView {
        match self {
            PeerConstructor::Single(tree) => ConstructorView::Single(tree@),
            PeerConstructor::Multi(tree) => ConstructorView::Multi(tree@),
            PeerConstructor::Error(e) => ConstructorView::Error(*e),
        }
    }
}

/// The number of nodes on the chain from the root to the leaf.
pub open spec fn height(tree: TreeView) -> nat
    decreases tree,
{
    match tree {
        TreeView::Overlay { class, inner } => 1 + height(*inner),
        _ => 1,
    }
}

/// The tree holds no re-specification node.
pub open spec fn concrete(tree: TreeView) -> bool
    decreases tree,
{
    match tree {
        TreeView::Transport { .. } => true,
        TreeView::Overlay { class, inner } => concrete(*inner),
        TreeView::PeerCtl { .. } => false,
    }
}

/// Whether the tree yields a sequence of peers: its leaf decides, overlays
/// pass the answer on.
pub open spec fn multi_connect(reg: Seq<ClassView>, tree: TreeView) -> bool
    recommends
        fits(reg, tree),
    decreases tree,
{
    match tree {
        TreeView::Transport { class, .. } => reg[class].connect == ConnectMode::MultiConnect,
        TreeView::Overlay { class, inner } => multi_connect(reg, *inner),
        TreeView::PeerCtl { class, .. } => reg[class].connect == ConnectMode::MultiConnect,
    }
}

/// Whether some node of the tree is of a class that holds process-wide state.
pub open spec fn global_state(reg: Seq<ClassView>, tree: TreeView) -> bool
    recommends
        fits(reg, tree),
    decreases tree,
{
    match tree {
        TreeView::Transport { class, .. } => reg[class].global_state,
        TreeView::Overlay { class, inner } => reg[class].global_state || global_state(reg, *inner),
        TreeView::PeerCtl { class, .. } => reg[class].global_state,
    }
}

/// No overlay for single connections wraps a multi-connect specifier.
pub open spec fn composable(reg: Seq<ClassView>, tree: TreeView) -> bool
    recommends
        fits(reg, tree),
    decreases tree,
{
    match tree {
        TreeView::Overlay { class, inner } => {
            &&& composable(reg, *inner)
            &&& reg[class].connect == ConnectMode::SingleConnect ==> !multi_connect(reg, *inner)
        },
        _ => true,
    }
}

/// The prefix that a template pins: its type and a colon.
pub open spec fn pinned_prefix(template: Seq<char>) -> Seq<char> {
    fields_of(template)[0] + seq![':']
}

/// A template is usable when it is empty or its type is a registered prefix.
pub open spec fn template_usable(reg: Seq<ClassView>, template: Seq<char>) -> bool {
    template.len() == 0 || registered(reg, pinned_prefix(template))
}

/// Every template in the tree is usable.
pub open spec fn templates_usable(reg: Seq<ClassView>, tree: TreeView) -> bool
    decreases tree,
{
    match tree {
        TreeView::Transport { .. } => true,
        TreeView::Overlay { class, inner } => templates_usable(reg, *inner),
        TreeView::PeerCtl { class, template } => template_usable(reg, template),
    }
}

/// The verdict of start-up validation on a tree.
pub open spec fn validated(reg: Seq<ClassView>, tree: TreeView) -> Result<(), ConfigurationError> {
    if !composable(reg, tree) {
        Err(ConfigurationError::NotComposable)
    } else if !templates_usable(reg, tree) {
        Err(ConfigurationError::MalformedTemplate)
    } else {
        Ok(())
    }
}

/// The spec string that a template and a context yield for one connection.
pub open spec fn merged_spec_of(cp: ParamsView, template: Seq<char>) -> Result<
    Seq<char>,
    ConstructError,
> {
    match cp.environment {
        None => Err(ConstructError::MissingEnvironment),
        Some(env) => match override_of(cp.override_source, env) {
            Err(e) => Err(e),
            Ok(value) => Ok(merged(template, value)),
        },
    }
}

/// The tree that a template and a context yield for one connection: the
/// merged spec string, resolved afresh.
pub open spec fn fresh_tree(reg: Seq<ClassView>, cp: ParamsView, template: Seq<char>) -> Result<
    TreeView,
    ConstructError,
> {
    match merged_spec_of(cp, template) {
        Err(e) => Err(e),
        Ok(spec) => match resolved(reg, spec) {
            Ok(tree) => Ok(tree),
            Err(e) => Err(ConstructError::Parse(e)),
        },
    }
}

/// What a re-specification node constructs when `depth` nested
/// re-specifications are still allowed.
pub open spec fn respecified(
    reg: Seq<ClassView>,
    cp: ParamsView,
    template: Seq<char>,
    depth: nat,
) -> ConstructorView
    decreases depth, 0nat,
{
    if depth == 0 {
        ConstructorView::Error(ConstructError::DepthExceeded)
    } else {
        match fresh_tree(reg, cp, template) {
            Err(e) => ConstructorView::Error(e),
            Ok(tree) => constructed(reg, cp, tree, (depth - 1) as nat),
        }
    }
}

/// What a tree constructs. A transport yields itself as the plan, for one
/// connection or for many as its class says. An overlay wraps what its inner
/// specifier yields. A re-specification node yields what its fresh tree
/// constructs in the same context.
pub open spec fn constructed(
    reg: Seq<ClassView>,
    cp: ParamsView,
    tree: TreeView,
    depth: nat,
) -> ConstructorView
    recommends
        fits(reg, tree),
    decreases depth, height(tree),
{
    match tree {
        TreeView::Transport { class, argument } => if reg[class].connect
            == ConnectMode::MultiConnect {
            ConstructorView::Multi(tree)
        } else {
            ConstructorView::Single(tree)
        },
        TreeView::Overlay { class, inner } => match constructed(reg, cp, *inner, depth) {
            ConstructorView::Single(plan) => ConstructorView::Single(
                TreeView::Overlay { class, inner: Box::new(plan) },
            ),
            ConstructorView::Multi(plan) => ConstructorView::Multi(
                TreeView::Overlay { class, inner: Box::new(plan) },
            ),
            ConstructorView::Error(e) => ConstructorView::Error(e),
        },
        TreeView::PeerCtl { class, template } => respecified(reg, cp, template, depth),
    }
}

/// The plan that a constructor carries, if it carries one.
pub open spec fn plan_of(constructor: ConstructorView) -> Option<TreeView> {
    match constructor {
        ConstructorView::Single(plan) => Some(plan),
        ConstructorView::Multi(plan) => Some(plan),
        ConstructorView::Error(_) => None,
    }
}

/// The view of a tree or the error in its place.
pub open spec fn tree_result(r: Result<SpecifierTree, ConstructError>) -> Result<
    TreeView,
    ConstructError,
> {
    match r {
        Ok(tree) => Ok(tree@),
        Err(e) => Err(e),
    }
}

/// A plan is a tree without re-specification nodes that fits the registry,
/// and it is handed out as `Multi` exactly when it is multi-connect.
pub proof fn lemma_constructed_plan(
    reg: Seq<ClassView>,
    cp: ParamsView,
    tree: TreeView,
    depth: nat,
)
    requires
        fits(reg, tree),
    ensures
        plan_of(constructed(reg, cp, tree, depth)) matches Some(plan) ==> {
            &&& concrete(plan)
            &&& fits(reg, plan)
            &&& multi_connect(reg, plan) == (constructed(reg, cp, tree, depth) is Multi)
        },
    decreases depth, height(tree),
{
    match tree {
        TreeView::Transport { class, argument } => {},
        TreeView::Overlay { class, inner } => {
            lemma_constructed_plan(reg, cp, *inner, depth);
            if let Some(plan) = plan_of(constructed(reg, cp, *inner, depth)) {
                let wrapped = TreeView::Overlay { class, inner: Box::new(plan) };
                assert(concrete(wrapped));
                assert(fits(reg, wrapped));
                assert(multi_connect(reg, wrapped) == multi_connect(reg, plan));
            }
        },
        TreeView::PeerCtl { class, template } => {
            assert(constructed(reg, cp, tree, depth) == respecified(reg, cp, template, depth));
            if depth > 0 {
                match fresh_tree(reg, cp, template) {
                    Err(e) => {},
                    Ok(fresh) => {
                        lemma_resolved_fits(reg, merged_spec_of(cp, template)->Ok_0);
                        lemma_constructed_plan(reg, cp, fresh, (depth - 1) as nat);
                    },
                }
            }
        },
    }
}

/// A tree without re-specification nodes constructs itself, whatever the
/// context and the depth.
pub proof fn lemma_concrete_constructs_itself(
    reg: Seq<ClassView>,
    cp: ParamsView,
    tree: TreeView,
    depth: nat,
)
    requires
        concrete(tree),
    ensures
        constructed(reg, cp, tree, depth) == if multi_connect(reg, tree) {
            ConstructorView::Multi(tree)
        } else {
            ConstructorView::Single(tree)
        },
    decreases tree,
{
    match tree {
        TreeView::Overlay { class, inner } => {
            lemma_concrete_constructs_itself(reg, cp, *inner, depth);
        },
        _ => {},
    }
}

/// The left peer cannot choose the protocol: with a template that is not
/// empty, the merged spec string begins with the template's type whatever
/// the override value is. So a fresh tree, if there is one, has at its root
/// the class that the template pins, and where the template's type is not
/// registered every connection fails with `UnknownPrefix`.
pub proof fn lemma_protocol_pinned(
    reg: Seq<ClassView>,
    template: Seq<char>,
    override_value: Seq<char>,
)
    requires
        template.len() > 0,
    ensures
        head_of(merged(template, override_value)) == pinned_prefix(template),
        resolved(reg, merged(template, override_value)) matches Ok(tree) ==> tree.root_class()
            == class_of(reg, pinned_prefix(template)),
        !registered(reg, pinned_prefix(template)) ==> resolved(
            reg,
            merged(template, override_value),
        ) == Err::<TreeView, ParseError>(ParseError::UnknownPrefix),
{
    let spec = merged(template, override_value);
    lemma_merged_fields(template, override_value);
    lemma_fields_shape(template);
    lemma_first_colon(template);
    let k = first_colon(template);
    assert(head_of(spec) =~= pinned_prefix(template));
    lemma_class_of(reg, pinned_prefix(template));
}

/// With an empty template the left peer chooses the whole spec string: the
/// merged spec string is the override value itself.
pub proof fn lemma_empty_template_passes_override(cp: ParamsView)
    ensures
        merged_spec_of(cp, Seq::<char>::empty()) == match cp.environment {
            None => Err::<Seq<char>, ConstructError>(ConstructError::MissingEnvironment),
            Some(env) => override_of(cp.override_source, env),
        },
{
}

impl PeerCtl {
    /// The spec string for one connection: the template merged with the
    /// override value that the context yields.
    pub fn merged_spec(&self, cp: &ConstructParams) -> (spec: Result<String, ConstructError>)
        ensures
            text_result(spec) == merged_spec_of(cp@, self@),
    {
        match &cp.environment {
            None => Err(ConstructError::MissingEnvironment),
            Some(env) => match env.override_value(&cp.override_source) {
                Err(e) => Err(e),
                Ok(value) => Ok(merge(self.0.as_str(), value.as_str())),
            },
        }
    }

    /// The fresh tree for one connection: the merged spec string, resolved.
    pub fn respecify(&self, registry: &Registry, cp: &ConstructParams) -> (fresh: Result<
        SpecifierTree,
        ConstructError,
    >)
        ensures
            tree_result(fresh) == fresh_tree(registry@, cp@, self@),
            fresh matches Ok(tree) ==> fits(registry@, tree@),
    {
        match self.merged_spec(cp) {
            Err(e) => Err(e),
            Ok(spec) => match registry.resolve(spec.as_str()) {
                Ok(tree) => Ok(tree),
                Err(e) => Err(ConstructError::Parse(e)),
            },
        }
    }

    /// Constructs the right-hand peer for one connection: reads the override
    /// value from the context, merges it with the template, resolves the
    /// merged spec string and constructs what it resolves to, in the same
    /// context. Every failure comes back as `Error`.
    pub fn construct(&self, registry: &Registry, cp: &ConstructParams) -> (constructor:
        PeerConstructor)
        ensures
            constructor@ == respecified(registry@, cp@, self@, cp@.depth),
    {
        self.construct_within(registry, cp, cp.depth)
    }

    fn construct_within(&self, registry: &Registry, cp: &ConstructParams, depth: usize) -> (constructor:
        PeerConstructor)
        ensures
            constructor@ == respecified(registry@, cp@, self@, depth as nat),
        decreases depth, 0nat,
    {
        if depth == 0 {
            return PeerConstructor::Error(ConstructError::DepthExceeded);
        }
        match self.respecify(registry, cp) {
            Err(e) => PeerConstructor::Error(e),
            Ok(fresh) => fresh.construct_within(registry, cp, depth - 1),
        }
    }

    /// Whether the template is empty or pins a registered prefix.
    pub fn template_usable(&self, registry: &Registry) -> (ok: bool)
        ensures
            ok == template_usable(registry@, self@),
    {
        if self.0.as_str().is_empty() {
            return true;
        }
        let fields = split_fields(self.0.as_str());
        proof {
            lemma_fields_shape(self@);
            assert(texts(fields@)[0] == fields@[0]@);
        }
        let mut token = fields[0].clone();
        token.push(':');
        assert(token@ =~= pinned_prefix(self@));
        registry.find_class(&token).is_some()
    }
}

impl SpecifierTree {
    /// Constructs the peer that this tree designates, for one connection.
    pub fn construct(&self, registry: &Registry, cp: &ConstructParams) -> (constructor:
        PeerConstructor)
        requires
            fits(registry@, self@),
        ensures
            constructor@ == constructed(registry@, cp@, self@, cp@.depth),
    {
        self.construct_within(registry, cp, cp.depth)
    }

    fn construct_within(&self, registry: &Registry, cp: &ConstructParams, depth: usize) -> (constructor:
        PeerConstructor)
        requires
            fits(registry@, self@),
        ensures
            constructor@ == constructed(registry@, cp@, self@, depth as nat),
        decreases depth, height(self@),
    {
        match self {
            SpecifierTree::Transport { class, argument } => {
                let plan = SpecifierTree::Transport { class: *class, argument: argument.clone() };
                match registry.class(*class).connect {
                    ConnectMode::MultiConnect => PeerConstructor::Multi(plan),
                    ConnectMode::SingleConnect => PeerConstructor::Single(plan),
                }
            },
            SpecifierTree::Overlay { class, inner } => {
                match inner.construct_within(registry, cp, depth) {
                    PeerConstructor::Single(plan) => PeerConstructor::Single(
                        SpecifierTree::Overlay { class: *class, inner: Box::new(plan) },
                    ),
                    PeerConstructor::Multi(plan) => PeerConstructor::Multi(
                        SpecifierTree::Overlay { class: *class, inner: Box::new(plan) },
                    ),
                    PeerConstructor::Error(e) => PeerConstructor::Error(e),
                }
            },
            SpecifierTree::PeerCtl { class, node } => node.construct_within(registry, cp, depth),
        }
    }

    /// Whether the tree yields a sequence of peers.
    pub fn is_multi_connect(&self, registry: &Registry) -> (multi: bool)
        requires
            fits(registry@, self@),
        ensures
            multi == multi_connect(registry@, self@),
        decreases self,
    {
        match self {
            SpecifierTree::Transport { class, .. } => match registry.class(*class).connect {
                ConnectMode::MultiConnect => true,
                ConnectMode::SingleConnect => false,
            },
            SpecifierTree::Overlay { class, inner } => inner.is_multi_connect(registry),
            SpecifierTree::PeerCtl { class, .. } => match registry.class(*class).connect {
                ConnectMode::MultiConnect => true,
                ConnectMode::SingleConnect => false,
            },
        }
    }

    /// Whether some node of the tree holds process-wide state.
    pub fn has_global_state(&self, registry: &Registry) -> (shared: bool)
        requires
            fits(registry@, self@),
        ensures
            shared == global_state(registry@, self@),
        decreases self,
    {
        match self {
            SpecifierTree::Transport { class, .. } => registry.class(*class).global_state,
            SpecifierTree::Overlay { class, inner } => registry.class(*class).global_state
                || inner.has_global_state(registry),
            SpecifierTree::PeerCtl { class, .. } => registry.class(*class).global_state,
        }
    }

    /// Start-up validation of a tree: no overlay for single connections may
    /// wrap a multi-connect specifier, and every template must be usable.
    pub fn validate(&self, registry: &Registry) -> (verdict: Result<(), ConfigurationError>)
        requires
            fits(registry@, self@),
        ensures
            verdict == validated(registry@, self@),
    {
        if !self.is_composable(registry) {
            Err(ConfigurationError::NotComposable)
        } else if !self.has_usable_templates(registry) {
            Err(ConfigurationError::MalformedTemplate)
        } else {
            Ok(())
        }
    }

    fn is_composable(&self, registry: &Registry) -> (ok: bool)
        requires
            fits(registry@, self@),
        ensures
            ok == composable(registry@, self@),
        decreases self,
    {
        match self {
            SpecifierTree::Overlay { class, inner } => {
                if !inner.is_composable(registry) {
                    return false;
                }
                match registry.class(*class).connect {
                    ConnectMode::SingleConnect => !inner.is_multi_connect(registry),
                    ConnectMode::MultiConnect => true,
                }
            },
            _ => true,
        }
    }

    fn has_usable_templates(&self, registry: &Registry) -> (ok: bool)
        ensures
            ok == templates_usable(registry@, self@),
        decreases self,
    {
        match self {
            SpecifierTree::Transport { .. } => true,
            SpecifierTree::Overlay { class, inner } => inner.has_usable_templates(registry),
            SpecifierTree::PeerCtl { class, node } => node.template_usable(registry),
        }
    }
}

} // verus!
