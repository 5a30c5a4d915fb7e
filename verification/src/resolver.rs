//! The spec resolver: from a spec string and the registry to a tree of
//! specifier nodes.

use crate::peer_ctl::PeerCtl;
use crate::registry::{
    class_of, lemma_class_of, simple_prefix, well_formed, ArgumentRule, ClassKind, ClassView,
    Registry,
};
use crate::text::{chars_of, find_colon, first_colon, lemma_first_colon, lemma_first_colon_at, string_of};
use vstd::prelude::*;

verus! {

/// Why a spec string did not resolve.
#[derive(Clone, Copy, Debug, PartialEq, Eq, Structural)]
pub enum ParseError {
    /// No registered class has the prefix of the spec string.
    UnknownPrefix,
    /// A transport refused its literal parameter list.
    MalformedArgument,
    /// A spec string was required and the text was empty.
    EmptyInput,
}

/// A resolved spec string: a chain of overlays that ends in a transport or
/// in a re-specification node. Each node names its class by the class's index
/// in the registry that resolved it.
#[derive(Debug, PartialEq, Eq)]
pub enum SpecifierTree {
    Transport { class: usize, argument: String },
    Overlay { class: usize, inner: Box<SpecifierTree> },
    PeerCtl { class: usize, node: PeerCtl },
}

/// The mathematical content of a specifier tree.
pub enum TreeView {
    Transport { class: int, argument: Seq<char> },
    Overlay { class: int, inner: Box<TreeView> },
    PeerCtl { class: int, template: Seq<char> },
}

/// The content of a tree: class indices as integers, texts as sequences.
pub open spec fn tree_view(tree: SpecifierTree) -> TreeView
    decreases tree,
{
    match tree {
        SpecifierTree::Transport { class, argument } => TreeView::Transport {
            class: class as int,
            argument: argument@,
        },
        SpecifierTree::Overlay { class, inner } => TreeView::Overlay {
            class: class as int,
            inner: Box::new(tree_view(*inner)),
        },
        SpecifierTree::PeerCtl { class, node } => TreeView::PeerCtl {
            class: class as int,
            template: node@,
        },
    }
}

impl View for SpecifierTree {
    type V = TreeView;

    open spec fn view(&self) -> TreeView {
        tree_view(*self)
    }
}

impl TreeView {
    /// The class of the root node.
    pub open spec fn root_class(self) -> int {
        match self {
            TreeView::Transport { class, .. } => class,
            TreeView::Overlay { class, .. } => class,
            TreeView::PeerCtl { class, .. } => class,
        }
    }
}

/// Whether a transport with this rule takes `argument`.
pub open spec fn accepts(rule: ArgumentRule, argument: Seq<char>) -> bool {
    match rule {
        ArgumentRule::Any => true,
        ArgumentRule::Empty => argument.len() == 0,
        ArgumentRule::NonEmpty => argument.len() > 0,
    }
}

/// The head of a spec string: its text up to and including the first colon.
pub open spec fn head_of(spec: Seq<char>) -> Seq<char> {
    spec.take(first_colon(spec) + 1)
}

/// What a spec string resolves to. The text up to and including the first
/// colon is the prefix, which must be registered; what follows is the
/// argument: for an overlay a spec string again, for a transport its literal
/// parameter list, for the re-specification node its template.
pub open spec fn resolved(reg: Seq<ClassView>, spec: Seq<char>) -> Result<TreeView, ParseError>
    decreases spec.len(),
{
    let k = first_colon(spec);
    let class = class_of(reg, head_of(spec));
    let rest = spec.skip(k + 1);
    if spec.len() == 0 {
        Err(ParseError::EmptyInput)
    } else if !(0 <= k < spec.len()) || !(0 <= class < reg.len()) {
        Err(ParseError::UnknownPrefix)
    } else {
        match reg[class].kind {
            ClassKind::Overlay => match resolved(reg, rest) {
                Ok(inner) => Ok(TreeView::Overlay { class, inner: Box::new(inner) }),
                Err(e) => Err(e),
            },
            ClassKind::Transport(rule) => if accepts(rule, rest) {
                Ok(TreeView::Transport { class, argument: rest })
            } else {
                Err(ParseError::MalformedArgument)
            },
            ClassKind::PeerCtl => Ok(TreeView::PeerCtl { class, template: rest }),
        }
    }
}

/// A tree whose nodes name classes of `reg` of the right kind, and whose
/// transport takes its argument.
pub open spec fn fits(reg: Seq<ClassView>, tree: TreeView) -> bool
    decreases tree,
{
    match tree {
        TreeView::Transport { class, argument } => {
            &&& 0 <= class < reg.len()
            &&& reg[class].kind matches ClassKind::Transport(rule)
            &&& accepts(rule, argument)
        },
        TreeView::Overlay { class, inner } => {
            &&& 0 <= class < reg.len()
            &&& reg[class].kind == ClassKind::Overlay
            &&& fits(reg, *inner)
        },
        TreeView::PeerCtl { class, template } => {
            &&& 0 <= class < reg.len()
            &&& reg[class].kind == ClassKind::PeerCtl
        },
    }
}

/// The view of a resolution's outcome.
pub open spec fn resolution_view(r: Result<SpecifierTree, ParseError>) -> Result<
    TreeView,
    ParseError,
> {
    match r {
        Ok(tree) => Ok(tree@),
        Err(e) => Err(e),
    }
}

/// Some registered prefix is a prefix of `spec`.
pub open spec fn has_registered_prefix(reg: Seq<ClassView>, spec: Seq<char>) -> bool {
    exists|i: int, j: int|
        0 <= i < reg.len() && 0 <= j < reg[i].prefixes.len() && (#[trigger] reg[i].prefixes[j]).is_prefix_of(
            spec,
        )
}

/// A spec string that is not empty and begins with no registered prefix
/// resolves to `UnknownPrefix`.
pub proof fn lemma_unknown_prefix(reg: Seq<ClassView>, spec: Seq<char>)
    requires
        spec.len() > 0,
        !has_registered_prefix(reg, spec),
    ensures
        resolved(reg, spec) == Err::<TreeView, ParseError>(ParseError::UnknownPrefix),
{
    lemma_first_colon(spec);
    let k = first_colon(spec);
    let head = head_of(spec);
    lemma_class_of(reg, head);
    let class = class_of(reg, head);
    if k < spec.len() && class < reg.len() {
        let j = choose|j: int| 0 <= j < reg[class].prefixes.len() && reg[class].prefixes[j] == head;
        assert(reg[class].prefixes[j].is_prefix_of(spec));
    }
}

/// In a well-formed registry, a registered prefix that `spec` begins with is
/// the head of `spec`, and it selects the class that declares it. So at most
/// one registered prefix applies to a spec string, none is longer than the
/// one that is matched, and the match is the text up to the first colon.
pub proof fn lemma_prefix_match(reg: Seq<ClassView>, spec: Seq<char>, i: int, j: int)
    requires
        well_formed(reg),
        0 <= i < reg.len(),
        0 <= j < reg[i].prefixes.len(),
        reg[i].prefixes[j].is_prefix_of(spec),
    ensures
        reg[i].prefixes[j] == head_of(spec),
        first_colon(spec) < spec.len(),
        class_of(reg, head_of(spec)) == i,
{
    let p = reg[i].prefixes[j];
    assert(simple_prefix(p));
    lemma_first_colon(p);
    let k = p.len() - 1;
    assert forall|n: int| 0 <= n < k implies spec[n] != ':' by {
        assert(spec[n] == p[n]);
        assert(p.take(k)[n] == p[n]);
    }
    assert(spec[k] == p[k]);
    lemma_first_colon_at(spec, k);
    assert(p =~= head_of(spec));
}

/// Where a registered prefix begins a spec string, the head of the string is
/// that prefix, and a tree that the string resolves to has at its root the
/// class that declares it.
pub proof fn lemma_known_prefix(reg: Seq<ClassView>, spec: Seq<char>)
    requires
        well_formed(reg),
        has_registered_prefix(reg, spec),
    ensures
        0 <= first_colon(spec) < spec.len(),
        0 <= class_of(reg, head_of(spec)) < reg.len(),
        reg[class_of(reg, head_of(spec))].prefixes.contains(head_of(spec)),
        resolved(reg, spec) is Ok ==> resolved(reg, spec)->Ok_0.root_class() == class_of(
            reg,
            head_of(spec),
        ),
{
    let (i, j) = choose|i: int, j: int|
        0 <= i < reg.len() && 0 <= j < reg[i].prefixes.len() && (#[trigger] reg[i].prefixes[j]).is_prefix_of(
            spec,
        );
    lemma_prefix_match(reg, spec, i, j);
    lemma_first_colon(spec);
    lemma_class_of(reg, head_of(spec));
}

/// What resolves fits the registry that resolved it.
pub proof fn lemma_resolved_fits(reg: Seq<ClassView>, spec: Seq<char>)
    ensures
        resolved(reg, spec) matches Ok(tree) ==> fits(reg, tree),
    decreases spec.len(),
{
    let k = first_colon(spec);
    if 0 <= k < spec.len() {
        lemma_resolved_fits(reg, spec.skip(k + 1));
    }
}

impl Registry {
    /// Whether the rule takes the characters from `from` on.
    fn rule_accepts(rule: ArgumentRule, chars: &Vec<char>, from: usize) -> (ok: bool)
        requires
            from <= chars.len(),
        ensures
            ok == accepts(rule, chars@.skip(from as int)),
    {
        match rule {
            ArgumentRule::Any => true,
            ArgumentRule::Empty => from == chars.len(),
            ArgumentRule::NonEmpty => from < chars.len(),
        }
    }

    /// Resolves the text that starts at `start`.
    fn resolve_from(&self, chars: &Vec<char>, start: usize) -> (r: Result<
        SpecifierTree,
        ParseError,
    >)
        requires
            start <= chars.len(),
        ensures
            resolution_view(r) == resolved(self@, chars@.skip(start as int)),
        decreases chars.len() - start,
    {
        let ghost spec = chars@.skip(start as int);
        if start == chars.len() {
            return Err(ParseError::EmptyInput);
        }
        let k = find_colon(chars, start);
        if k == chars.len() {
            return Err(ParseError::UnknownPrefix);
        }
        let token = string_of(chars, start, k + 1);
        proof {
            assert(token@ =~= head_of(spec));
            assert(spec.skip(k - start + 1) =~= chars@.skip(k + 1));
        }
        let count = self.len();
        match self.find_class(&token) {
            None => Err(ParseError::UnknownPrefix),
            Some(class) => {
                match self.class(class).kind {
                    ClassKind::Overlay => match self.resolve_from(chars, k + 1) {
                        Ok(inner) => Ok(SpecifierTree::Overlay { class, inner: Box::new(inner) }),
                        Err(e) => Err(e),
                    },
                    ClassKind::Transport(rule) => {
                        if Self::rule_accepts(rule, chars, k + 1) {
                            let argument = string_of(chars, k + 1, chars.len());
                            assert(argument@ =~= chars@.skip(k + 1));
                            Ok(SpecifierTree::Transport { class, argument })
                        } else {
                            Err(ParseError::MalformedArgument)
                        }
                    },
                    ClassKind::PeerCtl => {
                        let template = string_of(chars, k + 1, chars.len());
                        assert(template@ =~= chars@.skip(k + 1));
                        Ok(SpecifierTree::PeerCtl { class, node: PeerCtl(template) })
                    },
                }
            },
        }
    }

    /// Resolves a spec string. The outcome is a function of the text and of
    /// the registry alone.
    pub fn resolve(&self, spec: &str) -> (r: Result<SpecifierTree, ParseError>)
        ensures
            resolution_view(r) == resolved(self@, spec@),
            r matches Ok(tree) ==> fits(self@, tree@),
            spec@.len() == 0 ==> r == Err::<SpecifierTree, ParseError>(ParseError::EmptyInput),
            spec@.len() > 0 && !has_registered_prefix(self@, spec@) ==> r == Err::<
                SpecifierTree,
                ParseError,
            >(ParseError::UnknownPrefix),
    {
        let chars = chars_of(spec);
        proof {
            assert(chars@.skip(0) =~= spec@);
            lemma_resolved_fits(self@, spec@);
            if spec@.len() > 0 && !has_registered_prefix(self@, spec@) {
                lemma_unknown_prefix(self@, spec@);
            }
        }
        self.resolve_from(&chars, 0)
    }

    /// Whether `tree` fits this registry.
    pub fn fits(&self, tree: &SpecifierTree) -> (ok: bool)
        ensures
            ok == fits(self@, tree@),
        decreases tree,
    {
        match tree {
            SpecifierTree::Transport { class, argument } => {
                if *class >= self.len() {
                    return false;
                }
                match self.class(*class).kind {
                    ClassKind::Transport(rule) => {
                        let chars = chars_of(argument.as_str());
                        proof {
                            assert(chars@.skip(0) =~= argument@);
                        }
                        Self::rule_accepts(rule, &chars, 0)
                    },
                    _ => false,
                }
            },
            SpecifierTree::Overlay { class, inner } => {
                if *class >= self.len() {
                    return false;
                }
                match self.class(*class).kind {
                    ClassKind::Overlay => self.fits(inner),
                    _ => false,
                }
            },
            SpecifierTree::PeerCtl { class, node } => {
                if *class >= self.len() {
                    return false;
                }
                match self.class(*class).kind {
                    ClassKind::PeerCtl => true,
                    _ => false,
                }
            },
        }
    }
}

} // verus!
