//! The specifier registry: a table from textual prefixes to specifier-class
//! descriptors, filled once at start-up and read-only afterwards.

use crate::text::{chars_of, find_colon, first_colon, texts};
use vstd::prelude::*;

verus! {

/// What a transport class asks of the literal text after its prefix.
#[derive(Clone, Copy, Debug, PartialEq, Eq, Structural)]
pub enum ArgumentRule {
    /// Any text, the empty one included.
    Any,
    /// No argument at all.
    Empty,
    /// Some text.
    NonEmpty,
}

/// How the resolver treats the text after a class's prefix.
#[derive(Clone, Copy, Debug, PartialEq, Eq, Structural)]
pub enum ClassKind {
    /// A leaf: the text is the class's literal parameter list.
    Transport(ArgumentRule),
    /// Wraps one inner specifier: the text is itself a spec string.
    Overlay,
    /// The re-specification node: the text is its template.
    PeerCtl,
}

/// Whether peers of a class carry a byte stream or whole messages.
#[derive(Clone, Copy, Debug, PartialEq, Eq, Structural)]
pub enum Orientation {
    StreamOriented,
    MessageOriented,
}

/// Whether a class yields one peer or a sequence of them. On an overlay,
/// `MultiConnect` says that it may wrap a multi-connect inner specifier.
#[derive(Clone, Copy, Debug, PartialEq, Eq, Structural)]
pub enum ConnectMode {
    SingleConnect,
    MultiConnect,
}

/// The descriptor of one specifier class.
#[derive(Clone, Debug, PartialEq, Eq)]
pub struct SpecifierClass {
    pub name: String,
    pub prefixes: Vec<String>,
    pub kind: ClassKind,
    pub orientation: Orientation,
    pub connect: ConnectMode,
    pub global_state: bool,
}

/// The mathematical content of a class descriptor.
pub struct ClassView {
    pub name: Seq<char>,
    pub prefixes: Seq<Seq<char>>,
    pub kind: ClassKind,
    pub orientation: Orientation,
    pub connect: ConnectMode,
    pub global_state: bool,
}

impl View for SpecifierClass {
    type V = ClassView;

    open spec fn view(&self) -> ClassView {
        ClassView {
            name: self.name@,
            prefixes: texts(self.prefixes@),
            kind: self.kind,
            orientation: self.orientation,
            connect: self.connect,
            global_state: self.global_state,
        }
    }
}

/// Why a class was not taken into the registry.
#[derive(Clone, Copy, Debug, PartialEq, Eq, Structural)]
pub enum RegistryError {
    /// A prefix is not a name followed by its single colon.
    MalformedPrefix,
    /// A prefix already belongs to a registered class.
    DuplicatePrefix,
}

/// A prefix as the registry accepts it: it ends in `:` and holds no other.
pub open spec fn simple_prefix(p: Seq<char>) -> bool {
    p.len() >= 1 && first_colon(p) == p.len() - 1
}

/// All prefixes of a class are simple.
pub open spec fn simple_prefixes(prefixes: Seq<Seq<char>>) -> bool {
    forall|j: int| 0 <= j < prefixes.len() ==> simple_prefix(#[trigger] prefixes[j])
}

/// The index of the first class that declares `token` as one of its
/// prefixes, or the number of classes when none does.
pub open spec fn class_of(reg: Seq<ClassView>, token: Seq<char>) -> int
    decreases reg.len(),
{
    if reg.len() == 0 || reg[0].prefixes.contains(token) {
        0
    } else {
        1 + class_of(reg.drop_first(), token)
    }
}

/// Some class declares `token`.
pub open spec fn registered(reg: Seq<ClassView>, token: Seq<char>) -> bool {
    exists|i: int| 0 <= i < reg.len() && (#[trigger] reg[i]).prefixes.contains(token)
}

/// The table's invariant: every prefix is simple, and no prefix belongs to
/// two classes.
pub open spec fn well_formed(reg: Seq<ClassView>) -> bool {
    &&& forall|i: int| 0 <= i < reg.len() ==> simple_prefixes((#[trigger] reg[i]).prefixes)
    &&& forall|i: int, j: int|
        0 <= i < reg.len() && 0 <= j < reg[i].prefixes.len() ==> class_of(
            reg,
            #[trigger] reg[i].prefixes[j],
        ) == i
}

/// `class_of` is within bounds, points at a class that declares the token,
/// and no earlier class does; it is the length exactly when no class does.
pub proof fn lemma_class_of(reg: Seq<ClassView>, token: Seq<char>)
    ensures
        0 <= class_of(reg, token) <= reg.len(),
        class_of(reg, token) < reg.len() ==> reg[class_of(reg, token)].prefixes.contains(token),
        forall|i: int| 0 <= i < class_of(reg, token) ==> !(#[trigger] reg[i]).prefixes.contains(token),
        class_of(reg, token) < reg.len() <==> registered(reg, token),
    decreases reg.len(),
{
    if reg.len() != 0 && !reg[0].prefixes.contains(token) {
        let rest = reg.drop_first();
        lemma_class_of(rest, token);
        let k = class_of(reg, token);
        assert forall|i: int| 0 <= i < k implies !(#[trigger] reg[i]).prefixes.contains(token) by {
            if i > 0 {
                assert(reg[i] == rest[i - 1]);
            }
        }
        if k < reg.len() {
            assert(reg[k] == rest[k - 1]);
        }
        if registered(reg, token) {
            let i = choose|i: int| 0 <= i < reg.len() && (#[trigger] reg[i]).prefixes.contains(token);
            assert(rest[i - 1] == reg[i]);
        }
    }
}

/// A class that declares the token, with no earlier one that does, is the
/// token's class.
pub proof fn lemma_class_of_at(reg: Seq<ClassView>, token: Seq<char>, k: int)
    requires
        0 <= k <= reg.len(),
        forall|i: int| 0 <= i < k ==> !(#[trigger] reg[i]).prefixes.contains(token),
        k < reg.len() ==> reg[k].prefixes.contains(token),
    ensures
        class_of(reg, token) == k,
    decreases reg.len(),
{
    if reg.len() != 0 && !reg[0].prefixes.contains(token) {
        let rest = reg.drop_first();
        assert forall|i: int| 0 <= i < k - 1 implies !(#[trigger] rest[i]).prefixes.contains(token) by {
            assert(rest[i] == reg[i + 1]);
        }
        if k < reg.len() {
            assert(rest[k - 1] == reg[k]);
        }
        lemma_class_of_at(rest, token, k - 1);
    } else if reg.len() != 0 {
        assert(reg[0].prefixes.contains(token));
    }
}

/// Adding a class whose prefixes are simple and new keeps the table
/// well-formed.
pub proof fn lemma_register_keeps_well_formed(reg: Seq<ClassView>, class: ClassView)
    requires
        well_formed(reg),
        simple_prefixes(class.prefixes),
        forall|j: int|
            0 <= j < class.prefixes.len() ==> !registered(reg, #[trigger] class.prefixes[j]),
    ensures
        well_formed(reg.push(class)),
{
    let next = reg.push(class);
    assert forall|i: int| 0 <= i < next.len() implies simple_prefixes(
        (#[trigger] next[i]).prefixes,
    ) by {
        if i < reg.len() {
            assert(next[i] == reg[i]);
        }
    }
    assert forall|i: int, j: int|
        0 <= i < next.len() && 0 <= j < next[i].prefixes.len() implies class_of(
        next,
        #[trigger] next[i].prefixes[j],
    ) == i by {
        let token = next[i].prefixes[j];
        assert(next[i].prefixes.contains(token));
        if i < reg.len() {
            assert(next[i] == reg[i]);
            assert(class_of(reg, reg[i].prefixes[j]) == i);
            lemma_class_of(reg, token);
            assert forall|e: int| 0 <= e < i implies !(#[trigger] next[e]).prefixes.contains(
                token,
            ) by {
                assert(next[e] == reg[e]);
            }
        } else {
            assert(!registered(reg, class.prefixes[j]));
            assert forall|e: int| 0 <= e < i implies !(#[trigger] next[e]).prefixes.contains(
                token,
            ) by {
                assert(next[e] == reg[e]);
            }
        }
        lemma_class_of_at(next, token, i);
    }
}

/// The registry. Its classes are added one by one at start-up; afterwards it
/// is only read.
pub struct Registry {
    classes: Vec<SpecifierClass>,
}

impl View for Registry {
    type V = Seq<ClassView>;

    closed spec fn view(&self) -> Seq<ClassView> {
        Seq::new(self.classes@.len(), |i: int| self.classes@[i]@)
    }
}

/// Whether `text` is a name followed by its single colon.
pub fn is_simple_prefix(text: &str) -> (ok: bool)
    ensures
        ok == simple_prefix(text@),
{
    let chars = chars_of(text);
    if chars.len() == 0 {
        return false;
    }
    let k = find_colon(&chars, 0);
    proof {
        assert(chars@.skip(0) =~= text@);
    }
    k == chars.len() - 1
}

impl Registry {
    #[verifier::type_invariant]
    spec fn inv(self) -> bool {
        well_formed(self@)
    }

    /// An empty registry.
    pub fn new() -> (registry: Registry)
        ensures
            registry@ == Seq::<ClassView>::empty(),
            well_formed(registry@),
    {
        let registry = Registry { classes: Vec::new() };
        assert(registry@ =~= Seq::<ClassView>::empty());
        registry
    }

    /// The number of registered classes.
    pub fn len(&self) -> (n: usize)
        ensures
            n == self@.len(),
            well_formed(self@),
    {
        proof {
            use_type_invariant(self);
        }
        self.classes.len()
    }

    /// The descriptor of the class at `index`.
    pub fn class(&self, index: usize) -> (class: &SpecifierClass)
        requires
            index < self@.len(),
        ensures
            class@ == self@[index as int],
    {
        &self.classes[index]
    }

    /// The class that declares `token` as a prefix, if any does.
    pub fn find_class(&self, token: &String) -> (found: Option<usize>)
        ensures
            well_formed(self@),
            match found {
                Some(index) => index < self@.len() && index == class_of(self@, token@),
                None => class_of(self@, token@) == self@.len(),
            },
            found is Some <==> registered(self@, token@),
    {
        proof {
            use_type_invariant(self);
            lemma_class_of(self@, token@);
        }
        let mut i: usize = 0;
        while i < self.classes.len()
            invariant
                i <= self.classes.len() == self@.len(),
                well_formed(self@),
                forall|e: int| 0 <= e < i ==> !(#[trigger] self@[e]).prefixes.contains(token@),
            decreases self.classes.len() - i,
        {
            let class = &self.classes[i];
            let mut j: usize = 0;
            while j < class.prefixes.len()
                invariant
                    j <= class.prefixes.len(),
                    i < self@.len(),
                    well_formed(self@),
                    class@ == self@[i as int],
                    forall|e: int| 0 <= e < i ==> !(#[trigger] self@[e]).prefixes.contains(token@),
                    forall|e: int| 0 <= e < j ==> class@.prefixes[e] != token@,
                decreases class.prefixes.len() - j,
            {
                if class.prefixes[j] == *token {
                    proof {
                        assert(class@.prefixes[j as int] == token@);
                        lemma_class_of_at(self@, token@, i as int);
                    }
                    return Some(i);
                }
                j += 1;
            }
            i += 1;
        }
        proof {
            lemma_class_of_at(self@, token@, self@.len() as int);
        }
        None
    }

    /// Takes `class` into the registry and returns its index. A class with a
    /// prefix that is not simple, or that is registered already, is refused
    /// and the registry stays as it was.
    pub fn register(&mut self, class: SpecifierClass) -> (outcome: Result<usize, RegistryError>)
        ensures
            well_formed(final(self)@),
            match outcome {
                Ok(index) => {
                    &&& simple_prefixes(class@.prefixes)
                    &&& forall|j: int|
                        0 <= j < class@.prefixes.len() ==> !registered(
                            old(self)@,
                            #[trigger] class@.prefixes[j],
                        )
                    &&& index == old(self)@.len()
                    &&& final(self)@ == old(self)@.push(class@)
                },
                Err(RegistryError::MalformedPrefix) => {
                    &&& !simple_prefixes(class@.prefixes)
                    &&& final(self)@ == old(self)@
                },
                Err(RegistryError::DuplicatePrefix) => {
                    &&& simple_prefixes(class@.prefixes)
                    &&& exists|j: int|
                        0 <= j < class@.prefixes.len() && registered(
                            old(self)@,
                            #[trigger] class@.prefixes[j],
                        )
                    &&& final(self)@ == old(self)@
                },
            },
    {
        proof {
            use_type_invariant(&*self);
        }
        let mut j: usize = 0;
        while j < class.prefixes.len()
            invariant
                j <= class.prefixes.len(),
                self@ == old(self)@,
                well_formed(self@),
                forall|e: int| 0 <= e < j ==> simple_prefix(#[trigger] class@.prefixes[e]),
            decreases class.prefixes.len() - j,
        {
            if !is_simple_prefix(class.prefixes[j].as_str()) {
                assert(!simple_prefix(class@.prefixes[j as int]));
                return Err(RegistryError::MalformedPrefix);
            }
            j += 1;
        }
        let mut j: usize = 0;
        while j < class.prefixes.len()
            invariant
                j <= class.prefixes.len(),
                self@ == old(self)@,
                well_formed(self@),
                simple_prefixes(class@.prefixes),
                forall|e: int| 0 <= e < j ==> !registered(self@, #[trigger] class@.prefixes[e]),
            decreases class.prefixes.len() - j,
        {
            if self.find_class(&class.prefixes[j]).is_some() {
                assert(registered(self@, class@.prefixes[j as int]));
                return Err(RegistryError::DuplicatePrefix);
            }
            j += 1;
        }
        let index = self.classes.len();
        proof {
            lemma_register_keeps_well_formed(self@, class@);
        }
        let ghost model = class@;
        let mut classes: Vec<SpecifierClass> = Vec::new();
        std::mem::swap(&mut classes, &mut self.classes);
        classes.push(class);
        assert(Seq::new(classes@.len(), |i: int| classes@[i]@) =~= old(self)@.push(model));
        self.classes = classes;
        Ok(index)
    }
}

} // verus!
