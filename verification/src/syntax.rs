//! The concrete syntax tree that a parser delivers, as plain data: every
//! token, comment and blank of the source text, nested as they were written.

use vstd::prelude::*;

verus! {

/// The kind of a syntax node.
#[derive(Debug, Clone, Copy, PartialEq, Eq, Structural)]
pub enum SyntaxKind {
    /// The whole document.
    Root,
    /// An array with its brackets, elements, commas and trivia.
    Array,
    /// An object with its braces, properties, commas and trivia.
    Object,
    /// One property of an object: name, colon, value and trivia.
    ObjectProp,
    /// `true` or `false`.
    BooleanLit,
    /// `null`.
    NullKeyword,
    /// A number.
    NumberLit,
    /// A quoted string.
    StringLit,
    /// A word without quotes.
    WordLit,
    /// A bracket, brace, colon or comma.
    Token,
    /// Blanks within a line.
    Whitespace,
    /// A line break.
    Newline,
    /// A line or block comment, delimiters included.
    Comment,
}

impl SyntaxKind {
    /// Whitespace, a line break or a comment.
    pub open spec fn spec_is_trivia(self) -> bool {
        self == SyntaxKind::Whitespace || self == SyntaxKind::Newline || self
            == SyntaxKind::Comment
    }

    /// Whether the kind is whitespace, a line break or a comment.
    #[verifier::when_used_as_spec(spec_is_trivia)]
    pub fn is_trivia(self) -> (r: bool)
        ensures
            r == self.spec_is_trivia(),
    {
        matches!(self, SyntaxKind::Whitespace | SyntaxKind::Newline | SyntaxKind::Comment)
    }
}

/// One node of the syntax tree.
#[derive(Debug, PartialEq)]
pub struct SyntaxNode {
    pub kind: SyntaxKind,
    /// The source text of a node without children.
    pub text: String,
    /// For a string literal its value with the escapes resolved, for an
    /// object property its name likewise; nothing where that fails or does
    /// not apply.
    pub decoded: Option<String>,
    /// The value of a boolean literal.
    pub truth: bool,
    /// For an object property, the position of its value among its
    /// children.
    pub value_index: Option<usize>,
    pub children: Vec<SyntaxNode>,
}

/// The mathematical model of a [`SyntaxNode`].
pub ghost struct Syntax {
    pub kind: SyntaxKind,
    pub text: Seq<char>,
    pub decoded: Option<Seq<char>>,
    pub truth: bool,
    pub value_index: Option<int>,
    pub children: Seq<Syntax>,
}

/// The model of a syntax node, built from the models of its children.
pub open spec fn syntax_of(node: SyntaxNode) -> Syntax
    decreases node,
{
    Syntax {
        kind: node.kind,
        text: node.text@,
        decoded: match node.decoded {
            Some(d) => Some(d@),
            None => None,
        },
        truth: node.truth,
        value_index: match node.value_index {
            Some(i) => Some(i as int),
            None => None,
        },
        children: Seq::new(
            node.children.len() as nat,
            |i: int|
                if 0 <= i < node.children.len() {
                    syntax_of(node.children[i])
                } else {
                    arbitrary()
                },
        ),
    }
}

impl View for SyntaxNode {
    type V = Syntax;

    open spec fn view(&self) -> Syntax {
        syntax_of(*self)
    }
}

fn clone_decoded(s: &Option<String>) -> (r: Option<String>)
    ensures
        match (r, *s) {
            (Some(a), Some(b)) => a@ == b@,
            (None, None) => true,
            _ => false,
        },
{
    match s {
        Some(t) => Some(t.clone()),
        None => None,
    }
}

impl Clone for SyntaxNode {
    fn clone(&self) -> (r: Self)
        ensures
            r@ == self@,
        decreases self,
    {
        let mut children: Vec<SyntaxNode> = Vec::new();
        let mut i: usize = 0;
        while i < self.children.len()
            invariant
                i <= self.children.len(),
                children.len() == i,
                forall|j: int| 0 <= j < i ==> children[j]@ == self.children[j]@,
            decreases self.children.len() - i,
        {
            let c = self.children[i].clone();
            children.push(c);
            i += 1;
        }
        let r = SyntaxNode {
            kind: self.kind,
            text: self.text.clone(),
            decoded: clone_decoded(&self.decoded),
            truth: self.truth,
            value_index: self.value_index,
            children,
        };
        assert(r@.children =~= self@.children);
        r
    }
}

impl SyntaxNode {
    /// A node of the given kind without text or children.
    pub fn new(kind: SyntaxKind) -> (r: Self)
        ensures
            r@ == (Syntax {
                kind,
                text: Seq::empty(),
                decoded: None,
                truth: false,
                value_index: None,
                children: Seq::empty(),
            }),
    {
        let r = SyntaxNode {
            kind,
            text: String::new(),
            decoded: None,
            truth: false,
            value_index: None,
            children: Vec::new(),
        };
        assert(r@.children =~= Seq::<Syntax>::empty());
        r
    }
}

impl SyntaxKind {
    /// A root, array, object or object property: the kinds that have
    /// children.
    pub open spec fn spec_is_container(self) -> bool {
        self == SyntaxKind::Root || self == SyntaxKind::Array || self == SyntaxKind::Object
            || self == SyntaxKind::ObjectProp
    }

    /// Whether the kind is one that has children.
    #[verifier::when_used_as_spec(spec_is_container)]
    pub fn is_container(self) -> (r: bool)
        ensures
            r == self.spec_is_container(),
    {
        matches!(
            self,
            SyntaxKind::Root | SyntaxKind::Array | SyntaxKind::Object | SyntaxKind::ObjectProp
        )
    }
}

/// The shape every tree read from source text has: only a root, array,
/// object or property has children, only a property has a value position,
/// and only a boolean literal is true, all the way down.
pub open spec fn well_shaped(node: Syntax) -> bool
    decreases node,
{
    &&& node.children.len() > 0 ==> node.kind.spec_is_container()
    &&& node.value_index is Some ==> node.kind == SyntaxKind::ObjectProp
    &&& node.truth ==> node.kind == SyntaxKind::BooleanLit
    &&& node.kind.spec_is_container() ==> node.text.len() == 0
    &&& forall|i: int| 0 <= i < node.children.len() ==> well_shaped(#[trigger] node.children[i])
}

/// The largest depth among the first `upto` children of a node.
pub open spec fn max_child_depth(node: Syntax, upto: nat) -> nat
    decreases node, upto,
{
    if upto == 0 || upto > node.children.len() {
        0
    } else {
        let last = syntax_depth(node.children[upto - 1]);
        let rest = max_child_depth(node, (upto - 1) as nat);
        if last > rest {
            last
        } else {
            rest
        }
    }
}

/// The depth of a syntax tree: one for a node without children, one more
/// than its deepest child otherwise.
pub open spec fn syntax_depth(node: Syntax) -> nat
    decreases node, node.children.len() + 1,
{
    1 + max_child_depth(node, node.children.len())
}

/// What the model of a node knows of its `i`-th child.
pub proof fn lemma_syntax_child(node: SyntaxNode, i: int)
    requires
        0 <= i < node.children.len(),
    ensures
        node@.children.len() == node.children.len(),
        node@.children[i] == node.children[i]@,
{
}

/// The model has as many children as the node.
pub proof fn lemma_syntax_count(node: SyntaxNode)
    ensures
        node@.children.len() == node.children.len(),
{
}

/// The models of a list of syntax nodes, in order.
pub open spec fn syntax_models(nodes: Seq<SyntaxNode>) -> Seq<Syntax> {
    Seq::new(nodes.len(), |i: int| nodes[i]@)
}

/// The model of an optional owned text.
pub open spec fn optional_text(text: Option<String>) -> Option<Seq<char>> {
    match text {
        Some(t) => Some(t@),
        None => None,
    }
}

/// The kind of a node for which a reader reports `container` as its
/// container variant and `leaf` as its leaf variant: the container variant
/// where there is one, else the leaf variant, and a token where the reader
/// reports neither.
pub open spec fn resolved_kind(
    container: Option<SyntaxKind>,
    leaf: Option<SyntaxKind>,
) -> SyntaxKind {
    match container {
        Some(kind) => kind,
        None => match leaf {
            Some(kind) => kind,
            None => SyntaxKind::Token,
        },
    }
}

/// The node of a given kind made from what a reader found at it. A root,
/// array, object or property keeps the children and has no text; a property
/// also keeps its name and the position of its value. Any other node keeps
/// its text and has no children; a string literal also keeps its decoded
/// value, a boolean literal its truth. What does not belong to the kind is
/// left out.
pub open spec fn assembled(
    kind: SyntaxKind,
    text: Seq<char>,
    string_value: Option<Seq<char>>,
    truth: bool,
    prop_name: Option<Seq<char>>,
    value_index: Option<int>,
    children: Seq<Syntax>,
) -> Syntax {
    if kind.spec_is_container() {
        Syntax {
            kind,
            text: Seq::empty(),
            decoded: if kind == SyntaxKind::ObjectProp {
                prop_name
            } else {
                None
            },
            truth: false,
            value_index: if kind == SyntaxKind::ObjectProp {
                value_index
            } else {
                None
            },
            children,
        }
    } else {
        Syntax {
            kind,
            text,
            decoded: if kind == SyntaxKind::StringLit {
                string_value
            } else {
                None
            },
            truth: kind == SyntaxKind::BooleanLit && truth,
            value_index: None,
            children: Seq::empty(),
        }
    }
}

/// Whether a node is in the form in which `assembled` makes a node of its
/// kind: it holds nothing that does not belong to its kind.
pub open spec fn in_assembled_form(node: Syntax) -> bool {
    node == assembled(
        node.kind,
        node.text,
        node.decoded,
        node.truth,
        node.decoded,
        node.value_index,
        node.children,
    )
}

/// No child is deeper than the deepest of the children counted.
pub proof fn lemma_child_depth(node: Syntax, upto: nat, i: int)
    requires
        0 <= i < upto <= node.children.len(),
    ensures
        syntax_depth(node.children[i]) <= max_child_depth(node, upto),
    decreases upto,
{
    if i < upto - 1 {
        lemma_child_depth(node, (upto - 1) as nat, i);
    }
}

/// A node assembled from well-shaped children is well shaped, and one
/// deeper than its deepest child.
pub proof fn lemma_assembled_shape(
    kind: SyntaxKind,
    text: Seq<char>,
    string_value: Option<Seq<char>>,
    truth: bool,
    prop_name: Option<Seq<char>>,
    value_index: Option<int>,
    children: Seq<Syntax>,
    bound: nat,
)
    requires
        forall|i: int|
            0 <= i < children.len() ==> well_shaped(#[trigger] children[i]) && syntax_depth(
                children[i],
            ) <= bound,
    ensures
        well_shaped(assembled(kind, text, string_value, truth, prop_name, value_index, children)),
        syntax_depth(assembled(kind, text, string_value, truth, prop_name, value_index, children))
            <= bound + 1,
{
    let node = assembled(kind, text, string_value, truth, prop_name, value_index, children);
    lemma_children_depth(node, bound, node.children.len());
}

proof fn lemma_children_depth(node: Syntax, bound: nat, upto: nat)
    requires
        upto <= node.children.len(),
        forall|i: int| 0 <= i < node.children.len() ==> syntax_depth(#[trigger] node.children[i])
            <= bound,
    ensures
        max_child_depth(node, upto) <= bound,
    decreases upto,
{
    if upto > 0 {
        lemma_children_depth(node, bound, (upto - 1) as nat);
    }
}

impl SyntaxNode {
    /// Makes the node of a given kind from what a reader found at it,
    /// leaving out what does not belong to the kind.
    pub fn assemble(
        kind: SyntaxKind,
        text: String,
        string_value: Option<String>,
        truth: bool,
        prop_name: Option<String>,
        value_index: Option<usize>,
        children: Vec<SyntaxNode>,
    ) -> (r: Self)
        ensures
            r@ == assembled(
                kind,
                text@,
                optional_text(string_value),
                truth,
                optional_text(prop_name),
                match value_index {
                    Some(at) => Some(at as int),
                    None => None,
                },
                syntax_models(children@),
            ),
    {
        let r = if kind.is_container() {
            let is_prop = kind == SyntaxKind::ObjectProp;
            SyntaxNode {
                kind,
                text: String::new(),
                decoded: if is_prop {
                    prop_name
                } else {
                    None
                },
                truth: false,
                value_index: if is_prop {
                    value_index
                } else {
                    None
                },
                children,
            }
        } else {
            SyntaxNode {
                kind,
                text,
                decoded: if kind == SyntaxKind::StringLit {
                    string_value
                } else {
                    None
                },
                truth: kind == SyntaxKind::BooleanLit && truth,
                value_index: None,
                children: Vec::new(),
            }
        };
        assert(r@.children =~= assembled(
            kind,
            text@,
            optional_text(string_value),
            truth,
            optional_text(prop_name),
            match value_index {
                Some(at) => Some(at as int),
                None => None,
            },
            syntax_models(children@),
        ).children);
        r
    }
}

} // verus!
