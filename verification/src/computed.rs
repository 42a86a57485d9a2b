//! The metrics pass: structural complexity, minimum rendered length and the
//! "must break onto several lines" flag of every item, computed once,
//! children before parents.

use crate::options::{CommentPolicy, FracturedJsonOptions};
use crate::text::{byte_len, text_len};
use crate::types::{lemma_child_model, JsonItem, JsonItemType, Node};
use vstd::pervasive::unreached;
use vstd::prelude::*;

verus! {

/// The largest complexity among the first `upto` children, zero if there
/// are none.
pub open spec fn max_child_complexity(node: Node, upto: nat) -> nat
    decreases node, upto,
{
    if upto == 0 || upto > node.children.len() {
        0
    } else {
        let last = complexity(node.children[upto - 1]);
        let rest = max_child_complexity(node, (upto - 1) as nat);
        if last > rest {
            last
        } else {
            rest
        }
    }
}

/// Structural complexity: zero for scalars, comments and blank lines; for
/// an object or array, one more than the largest complexity of a child.
pub open spec fn complexity(node: Node) -> nat
    decreases node, node.children.len() + 1,
{
    if node.is_container() {
        1 + max_child_complexity(node, node.children.len())
    } else {
        0
    }
}

/// What one child adds to the minimum length of its parent: its own
/// minimum length, and inside an object also its quoted name and a colon.
pub open spec fn child_length(node: Node, opts: FracturedJsonOptions, i: int) -> nat
    recommends
        0 <= i < node.children.len(),
    decreases node, 0nat, 1nat,
{
    if 0 <= i < node.children.len() {
        let child = node.children[i];
        if node.kind == JsonItemType::Object {
            byte_len(child.name) + 3 + min_length(child, opts)
        } else {
            min_length(child, opts)
        }
    } else {
        0
    }
}

/// The sum of `child_length` over the first `upto` children.
pub open spec fn children_length(node: Node, opts: FracturedJsonOptions, upto: nat) -> nat
    decreases node, 1nat, upto,
{
    if upto == 0 || upto > node.children.len() {
        0
    } else {
        children_length(node, opts, (upto - 1) as nat) + child_length(node, opts, upto - 1)
    }
}

/// The width of the separators between `n` siblings on one line.
pub open spec fn separators_length(opts: FracturedJsonOptions, n: nat) -> nat {
    if n == 0 {
        0
    } else if opts.comma_padding {
        2 * (n - 1) as nat
    } else {
        (n - 1) as nat
    }
}

/// The width of a container's two brackets and of the padding inside them.
pub open spec fn brackets_length(opts: FracturedJsonOptions) -> nat {
    if opts.simple_bracket_padding {
        4
    } else {
        2
    }
}

/// The byte length of the most compact single-line rendering of a subtree:
/// the raw text for scalars and comments, nothing for a blank line, and for
/// a container its children, their separators and its brackets.
pub open spec fn min_length(node: Node, opts: FracturedJsonOptions) -> nat
    decreases node, 2nat, 0nat,
{
    match node.kind {
        JsonItemType::Array | JsonItemType::Object => children_length(
            node,
            opts,
            node.children.len(),
        ) + separators_length(opts, node.children.len()) + brackets_length(opts),
        JsonItemType::BlankLine => 0,
        _ => byte_len(node.value),
    }
}

/// Whether a node brings a comment with it that counts: one attached to
/// it, or the node itself where it is a comment. Comments count while they
/// are preserved, and not at all once they are removed.
pub open spec fn carries_comment(node: Node, opts: FracturedJsonOptions) -> bool {
    opts.keeps_comments() && (node.has_comments() || node.kind.spec_is_comment())
}

/// Whether one of the first `upto` children carries a comment or is itself
/// forced onto several lines.
pub open spec fn child_forces(node: Node, opts: FracturedJsonOptions, upto: nat) -> bool
    decreases node, upto,
{
    if upto == 0 || upto > node.children.len() {
        false
    } else {
        let child = node.children[upto - 1];
        carries_comment(child, opts) || forces_multiline(child, opts) || child_forces(
            node,
            opts,
            (upto - 1) as nat,
        )
    }
}

/// Whether a subtree must never be rendered on a single line: an object or
/// array with a child that carries a comment, is a comment, or is itself
/// forced.
pub open spec fn forces_multiline(node: Node, opts: FracturedJsonOptions) -> bool
    decreases node, node.children.len() + 1,
{
    node.is_container() && child_forces(node, opts, node.children.len())
}

/// Whether the metrics of a subtree, and of every subtree below it, fit
/// the machine integers that hold them.
pub open spec fn metrics_fit(node: Node, opts: FracturedJsonOptions) -> bool
    decreases node,
{
    &&& complexity(node) <= u32::MAX
    &&& min_length(node, opts) <= usize::MAX
    &&& forall|i: int|
        0 <= i < node.children.len() ==> metrics_fit(#[trigger] node.children[i], opts)
}

/// The data-model invariant of a tree: only objects and arrays have
/// children, and only the children of an object have a name, all the way
/// down.
pub open spec fn well_formed(node: Node) -> bool
    decreases node,
{
    &&& node.children.len() > 0 ==> node.is_container()
    &&& forall|i: int|
        0 <= i < node.children.len() ==> {
            &&& well_formed(#[trigger] node.children[i])
            &&& node.kind != JsonItemType::Object ==> node.children[i].name.len() == 0
        }
}

/// The node reached from `node` by following `path`, a list of child
/// indices; `node` itself for the empty path.
pub open spec fn descendant(node: Node, path: Seq<int>) -> Node
    decreases path.len(),
{
    if path.len() == 0 {
        node
    } else {
        descendant(node.children[path[0]], path.drop_first())
    }
}

/// Whether every index of `path` names an existing child on the way down.
pub open spec fn path_exists(node: Node, path: Seq<int>) -> bool
    decreases path.len(),
{
    path.len() > 0 ==> 0 <= path[0] < node.children.len() && path_exists(
        node.children[path[0]],
        path.drop_first(),
    )
}

proof fn lemma_max_child_complexity(node: Node, upto: nat, i: int)
    requires
        0 <= i < upto <= node.children.len(),
    ensures
        complexity(node.children[i]) <= max_child_complexity(node, upto),
    decreases upto,
{
    if i < upto - 1 {
        lemma_max_child_complexity(node, (upto - 1) as nat, i);
    }
}

/// The complexity of an object or array strictly exceeds the complexity of
/// each of its children.
pub proof fn lemma_complexity_exceeds_child(node: Node, i: int)
    requires
        node.is_container(),
        0 <= i < node.children.len(),
    ensures
        complexity(node) > complexity(node.children[i]),
{
    lemma_max_child_complexity(node, node.children.len(), i);
}

/// The complexity of an object or array strictly exceeds the complexity of
/// everything below it, at any depth, in a well-formed tree.
pub proof fn lemma_complexity_exceeds_descendant(node: Node, path: Seq<int>)
    requires
        well_formed(node),
        path_exists(node, path),
        path.len() > 0,
    ensures
        complexity(node) > complexity(descendant(node, path)),
    decreases path.len(),
{
    let child = node.children[path[0]];
    lemma_complexity_exceeds_child(node, path[0]);
    if path.len() > 1 {
        lemma_complexity_exceeds_descendant(child, path.drop_first());
    } else {
        assert(descendant(child, path.drop_first()) == child);
    }
}

proof fn lemma_child_forces(node: Node, opts: FracturedJsonOptions, upto: nat, i: int)
    requires
        0 <= i < upto <= node.children.len(),
        carries_comment(node.children[i], opts) || forces_multiline(node.children[i], opts),
    ensures
        child_forces(node, opts, upto),
    decreases upto,
{
    if i < upto - 1 {
        lemma_child_forces(node, opts, (upto - 1) as nat, i);
    }
}

/// A child that carries a comment or is itself forced onto several lines
/// forces the object or array that holds it.
pub proof fn lemma_forcing_reaches_parent(node: Node, opts: FracturedJsonOptions, i: int)
    requires
        node.is_container(),
        0 <= i < node.children.len(),
        carries_comment(node.children[i], opts) || forces_multiline(node.children[i], opts),
    ensures
        forces_multiline(node, opts),
{
    lemma_child_forces(node, opts, node.children.len(), i);
}

/// If a node is forced onto several lines, so is every ancestor of it in a
/// well-formed tree.
pub proof fn lemma_forcing_reaches_ancestors(node: Node, opts: FracturedJsonOptions, path: Seq<int>)
    requires
        well_formed(node),
        path_exists(node, path),
        forces_multiline(descendant(node, path), opts),
    ensures
        forces_multiline(node, opts),
    decreases path.len(),
{
    if path.len() > 0 {
        lemma_forcing_reaches_ancestors(node.children[path[0]], opts, path.drop_first());
        lemma_forcing_reaches_parent(node, opts, path[0]);
    }
}

/// A forced node is a container with a child that carries a comment or is
/// forced: forcing never starts at a scalar or at a comment-free leaf.
pub proof fn lemma_forcing_has_cause(node: Node, opts: FracturedJsonOptions) -> (i: int)
    requires
        forces_multiline(node, opts),
    ensures
        node.is_container(),
        0 <= i < node.children.len(),
        carries_comment(node.children[i], opts) || forces_multiline(node.children[i], opts),
{
    lemma_child_forces_witness(node, opts, node.children.len())
}

proof fn lemma_child_forces_witness(node: Node, opts: FracturedJsonOptions, upto: nat) -> (i: int)
    requires
        upto <= node.children.len(),
        child_forces(node, opts, upto),
    ensures
        0 <= i < upto,
        carries_comment(node.children[i], opts) || forces_multiline(node.children[i], opts),
    decreases upto,
{
    let child = node.children[upto - 1];
    if carries_comment(child, opts) || forces_multiline(child, opts) {
        upto - 1
    } else {
        lemma_child_forces_witness(node, opts, (upto - 1) as nat)
    }
}

/// The partial sums of the children's lengths grow with the number of
/// children counted.
pub proof fn lemma_children_length_grows(node: Node, opts: FracturedJsonOptions, a: nat, b: nat)
    requires
        a <= b <= node.children.len(),
    ensures
        children_length(node, opts, a) <= children_length(node, opts, b),
    decreases b,
{
    if a < b {
        lemma_children_length_grows(node, opts, a, (b - 1) as nat);
    }
}

/// No child of a container has a larger minimum length than the container.
pub proof fn lemma_min_length_covers_child(node: Node, opts: FracturedJsonOptions, i: int)
    requires
        node.is_container(),
        0 <= i < node.children.len(),
    ensures
        min_length(node.children[i], opts) <= child_length(node, opts, i),
        child_length(node, opts, i) <= children_length(node, opts, node.children.len()),
        min_length(node.children[i], opts) + brackets_length(opts) <= min_length(node, opts),
{
    lemma_children_length_grows(node, opts, (i + 1) as nat, node.children.len());
}

/// The metrics of one item.
#[derive(Debug, Clone)]
pub struct ComputedItem {
    pub complexity: u32,
    pub minimum_total_length: usize,
    pub requires_multiple_lines: bool,
    pub name_length: usize,
    pub value_length: usize,
}

impl ComputedItem {
    /// Whether these are the metrics of `node` under `opts`.
    pub open spec fn describes(&self, node: Node, opts: FracturedJsonOptions) -> bool {
        &&& self.complexity == complexity(node)
        &&& self.minimum_total_length == min_length(node, opts)
        &&& self.requires_multiple_lines == forces_multiline(node, opts)
        &&& self.name_length == byte_len(node.name)
        &&& self.value_length == byte_len(node.value)
    }
}

/// An item paired with its metrics and with the same pairing for each of
/// its children.
#[derive(Debug)]
pub struct ItemRef<'a> {
    pub item: &'a JsonItem,
    pub computed: ComputedItem,
    pub children: Vec<ItemRef<'a>>,
}

impl<'a> Clone for ItemRef<'a> {
    fn clone(&self) -> (r: Self)
        ensures
            r.same_as(self),
            forall|opts: FracturedJsonOptions| self.wf(opts) ==> r.wf(opts),
        decreases self,
    {
        let mut children: Vec<ItemRef<'a>> = Vec::new();
        let mut i: usize = 0;
        while i < self.children.len()
            invariant
                i <= self.children.len(),
                children.len() == i,
                forall|j: int|
                    0 <= j < i ==> {
                        &&& (#[trigger] children[j]).same_as(&self.children[j])
                        &&& forall|opts: FracturedJsonOptions|
                            self.children[j].wf(opts) ==> children[j].wf(opts)
                    },
            decreases self.children.len() - i,
        {
            let child = self.children[i].clone();
            children.push(child);
            i += 1;
        }
        let computed = ComputedItem {
            complexity: self.computed.complexity,
            minimum_total_length: self.computed.minimum_total_length,
            requires_multiple_lines: self.computed.requires_multiple_lines,
            name_length: self.computed.name_length,
            value_length: self.computed.value_length,
        };
        let r = ItemRef { item: self.item, computed, children };
        assert forall|opts: FracturedJsonOptions| self.wf(opts) implies r.wf(opts) by {
            assert forall|j: int| 0 <= j < r.children.len() implies *(#[trigger] r.children[j]).item
                == r.item.children[j] && r.children[j].wf(opts) by {
                assert(self.children[j].wf(opts));
                assert(r.children[j].same_as(&self.children[j]));
            }
        }
        r
    }
}

impl<'a> ItemRef<'a> {
    /// Whether this pairing is the one the metrics pass builds: the metrics
    /// are those of the item under `opts`, and the children pair up, in
    /// order, with the item's children, each well paired in turn.
    pub open spec fn wf(&self, opts: FracturedJsonOptions) -> bool
        decreases self,
    {
        &&& self.computed.describes(self.item@, opts)
        &&& self.children.len() == self.item.children.len()
        &&& forall|i: int|
            0 <= i < self.children.len() ==> {
                &&& *(#[trigger] self.children[i]).item == self.item.children[i]
                &&& self.children[i].wf(opts)
            }
    }

    /// The model of the item this pairing is about.
    pub open spec fn node(&self) -> Node {
        self.item@
    }

    /// Whether two pairings are about the same item, with the same metrics,
    /// and have the same children in turn.
    pub open spec fn same_as(&self, other: &ItemRef<'a>) -> bool
        decreases self,
    {
        &&& self.item == other.item
        &&& self.computed == other.computed
        &&& self.children.len() == other.children.len()
        &&& forall|i: int|
            0 <= i < self.children.len() ==> (#[trigger] self.children[i]).same_as(
                &other.children[i],
            )
    }

    /// What a well-paired item knows of its `i`-th child: it is paired
    /// with the `i`-th child of the item, and well paired itself.
    pub proof fn lemma_child(&self, opts: FracturedJsonOptions, i: int)
        requires
            self.wf(opts),
            0 <= i < self.children.len(),
        ensures
            self.node().children.len() == self.children.len(),
            self.children[i].wf(opts),
            self.children[i].node() == self.node().children[i],
    {
        lemma_child_model(*self.item, i);
    }

    /// Pairs every item of the tree under `root` with its metrics.
    pub fn from_root(root: &'a JsonItem, options: &FracturedJsonOptions) -> (r: Self)
        requires
            metrics_fit(root@, *options),
        ensures
            r.wf(*options),
            *r.item == *root,
    {
        match Self::compute_recursive(root, options) {
            Some(r) => r,
            None => unreached(),
        }
    }

    /// As `from_root`, for any tree: `None` when a metric of some subtree
    /// does not fit its machine integer.
    pub fn try_from_root(root: &'a JsonItem, options: &FracturedJsonOptions) -> (r: Option<Self>)
        ensures
            r is Some <==> metrics_fit(root@, *options),
            r matches Some(paired) ==> paired.wf(*options) && *paired.item == *root,
    {
        Self::compute_recursive(root, options)
    }

    fn compute_recursive(item: &'a JsonItem, options: &FracturedJsonOptions) -> (r: Option<Self>)
        ensures
            r is Some <==> metrics_fit(item@, *options),
            r matches Some(paired) ==> paired.wf(*options) && *paired.item == *item,
        decreases item,
    {
        let mut children: Vec<ItemRef<'a>> = Vec::new();
        let mut i: usize = 0;
        while i < item.children.len()
            invariant
                i <= item.children.len(),
                children.len() == i,
                forall|j: int|
                    0 <= j < i ==> {
                        &&& *(#[trigger] children[j]).item == item.children[j]
                        &&& children[j].wf(*options)
                        &&& metrics_fit(item@.children[j], *options)
                    },
            decreases item.children.len() - i,
        {
            proof {
                lemma_child_model(*item, i as int);
            }
            match Self::compute_recursive(&item.children[i], options) {
                Some(child) => {
                    children.push(child);
                },
                None => {
                    return None;
                },
            }
            i += 1;
        }
        assert forall|j: int| 0 <= j < item@.children.len() implies metrics_fit(
            #[trigger] item@.children[j],
            *options,
        ) by {
            assert(children[j].wf(*options));
        }
        let complexity = match compute_complexity_impl(item, &children, options) {
            Some(c) => c,
            None => {
                return None;
            },
        };
        let minimum_total_length = match compute_lengths_impl(item, &children, options) {
            Some(l) => l,
            None => {
                return None;
            },
        };
        let requires_multiple_lines = compute_requires_multiple_lines_impl(
            item,
            &children,
            options,
        );
        let computed = ComputedItem {
            complexity,
            minimum_total_length,
            requires_multiple_lines,
            name_length: text_len(item.name.as_str()),
            value_length: text_len(item.value.as_str()),
        };
        Some(ItemRef { item, computed, children })
    }

    /// The kind of the item.
    pub fn item_type(&self) -> (r: JsonItemType)
        ensures
            r == self.node().kind,
    {
        self.item.item_type
    }

    /// The member name of the item.
    pub fn name(&self) -> (r: &str)
        ensures
            r@ == self.node().name,
    {
        self.item.name.as_str()
    }

    /// The raw text of the item.
    pub fn value(&self) -> (r: &str)
        ensures
            r@ == self.node().value,
    {
        self.item.value.as_str()
    }

    /// Whether any comment is attached to the item.
    pub fn has_comments(&self) -> (r: bool)
        ensures
            r == self.node().has_comments(),
    {
        self.item.has_comments()
    }

    /// Whether the item is an object or array without children.
    pub fn is_empty(&self) -> (r: bool)
        ensures
            r == self.node().is_empty(),
    {
        self.item.is_empty()
    }

    /// The comment before the item, if any.
    pub fn prefix_comment(&self) -> (r: Option<&str>)
        ensures
            text_of(r) == self.node().prefix_comment,
    {
        match &self.item.prefix_comment {
            Some(s) => Some(s.as_str()),
            None => None,
        }
    }

    /// The comment between the item's name and its value, if any.
    pub fn middle_comment(&self) -> (r: Option<&str>)
        ensures
            text_of(r) == self.node().middle_comment,
    {
        match &self.item.middle_comment {
            Some(s) => Some(s.as_str()),
            None => None,
        }
    }

    /// The comment after the item, if any.
    pub fn postfix_comment(&self) -> (r: Option<&str>)
        ensures
            text_of(r) == self.node().postfix_comment,
    {
        match &self.item.postfix_comment {
            Some(s) => Some(s.as_str()),
            None => None,
        }
    }

    /// Whether the trailing comment is a line comment.
    pub fn is_post_comment_line_style(&self) -> (r: bool)
        ensures
            r == self.node().is_post_comment_line_style,
    {
        self.item.is_post_comment_line_style
    }

    /// The recorded byte length of the member name.
    pub fn name_length(&self) -> (r: usize)
        ensures
            r == self.computed.name_length,
    {
        self.computed.name_length
    }

    /// The recorded byte length of the raw text.
    pub fn value_length(&self) -> (r: usize)
        ensures
            r == self.computed.value_length,
    {
        self.computed.value_length
    }

    /// The recorded structural complexity.
    pub fn complexity(&self) -> (r: u32)
        ensures
            r == self.computed.complexity,
    {
        self.computed.complexity
    }

    /// The recorded minimum rendered length.
    pub fn minimum_total_length(&self) -> (r: usize)
        ensures
            r == self.computed.minimum_total_length,
    {
        self.computed.minimum_total_length
    }

    /// The recorded "must break onto several lines" flag.
    pub fn requires_multiple_lines(&self) -> (r: bool)
        ensures
            r == self.computed.requires_multiple_lines,
    {
        self.computed.requires_multiple_lines
    }
}

/// The model of an optional borrowed text.
pub open spec fn text_of(s: Option<&str>) -> Option<Seq<char>> {
    match s {
        Some(t) => Some(t@),
        None => None,
    }
}

/// Whether `children` pairs up, in order, with the children of `item`.
pub open spec fn pairs_children(
    item: &JsonItem,
    children: &[ItemRef<'_>],
    opts: FracturedJsonOptions,
) -> bool {
    &&& children@.len() == item.children.len()
    &&& forall|i: int|
        0 <= i < children@.len() ==> {
            &&& *(#[trigger] children@[i]).item == item.children[i]
            &&& children@[i].wf(opts)
        }
}

fn compute_complexity_impl(
    item: &JsonItem,
    children: &[ItemRef<'_>],
    options: &FracturedJsonOptions,
) -> (r: Option<u32>)
    requires
        pairs_children(item, children, *options),
    ensures
        r is Some <==> complexity(item@) <= u32::MAX,
        r matches Some(c) ==> c == complexity(item@),
{
    match item.item_type {
        JsonItemType::Array | JsonItemType::Object => {
            let mut largest: u32 = 0;
            let mut i: usize = 0;
            while i < children.len()
                invariant
                    i <= children@.len(),
                    pairs_children(item, children, *options),
                    largest == max_child_complexity(item@, i as nat),
                decreases children@.len() - i,
            {
                proof {
                    lemma_child_model(*item, i as int);
                }
                let c = children[i].computed.complexity;
                if c > largest {
                    largest = c;
                }
                i += 1;
            }
            largest.checked_add(1)
        },
        _ => Some(0),
    }
}

fn compute_lengths_impl(
    item: &JsonItem,
    children: &[ItemRef<'_>],
    options: &FracturedJsonOptions,
) -> (r: Option<usize>)
    requires
        pairs_children(item, children, *options),
    ensures
        r is Some <==> min_length(item@, *options) <= usize::MAX,
        r matches Some(l) ==> l == min_length(item@, *options),
{
    match item.item_type {
        JsonItemType::Array | JsonItemType::Object => {
            let in_object = item.item_type == JsonItemType::Object;
            let mut children_len: usize = 0;
            let mut i: usize = 0;
            while i < children.len()
                invariant
                    i <= children@.len(),
                    pairs_children(item, children, *options),
                    item@.is_container(),
                    in_object == (item@.kind == JsonItemType::Object),
                    children_len == children_length(item@, *options, i as nat),
                decreases children@.len() - i,
            {
                proof {
                    lemma_child_model(*item, i as int);
                    lemma_children_length_grows(
                        item@,
                        *options,
                        (i + 1) as nat,
                        item@.children.len(),
                    );
                    assert(children@[i as int].wf(*options));
                    assert(children@[i as int].item@ == item@.children[i as int]);
                    assert(children_length(item@, *options, (i + 1) as nat) == children_length(
                        item@,
                        *options,
                        i as nat,
                    ) + child_length(item@, *options, i as int));
                }
                let c = &children[i];
                let mut own: usize = c.computed.minimum_total_length;
                if in_object {
                    own = match c.computed.name_length.checked_add(3) {
                        Some(named) => match named.checked_add(own) {
                            Some(whole) => whole,
                            None => {
                                return None;
                            },
                        },
                        None => {
                            return None;
                        },
                    };
                }
                children_len = match children_len.checked_add(own) {
                    Some(sum) => sum,
                    None => {
                        return None;
                    },
                };
                i += 1;
            }
            let separators: usize = if children.len() == 0 {
                0
            } else if options.comma_padding {
                match (children.len() - 1).checked_mul(2) {
                    Some(s) => s,
                    None => {
                        return None;
                    },
                }
            } else {
                children.len() - 1
            };
            let brackets: usize = if options.simple_bracket_padding {
                4
            } else {
                2
            };
            match children_len.checked_add(separators) {
                Some(inner) => inner.checked_add(brackets),
                None => None,
            }
        },
        JsonItemType::BlankLine => Some(0),
        _ => Some(text_len(item.value.as_str())),
    }
}

fn compute_requires_multiple_lines_impl(
    item: &JsonItem,
    children: &[ItemRef<'_>],
    options: &FracturedJsonOptions,
) -> (r: bool)
    requires
        pairs_children(item, children, *options),
    ensures
        r == forces_multiline(item@, *options),
{
    match item.item_type {
        JsonItemType::Array | JsonItemType::Object => {
            let keeps = options.comment_policy == CommentPolicy::Preserve;
            let mut forced = false;
            let mut i: usize = 0;
            while i < children.len()
                invariant
                    i <= children@.len(),
                    pairs_children(item, children, *options),
                    keeps == options.keeps_comments(),
                    forced == child_forces(item@, *options, i as nat),
                decreases children@.len() - i,
            {
                proof {
                    lemma_child_model(*item, i as int);
                }
                let c = &children[i];
                if (keeps && (c.has_comments() || c.item_type().is_comment()))
                    || c.computed.requires_multiple_lines {
                    forced = true;
                }
                i += 1;
            }
            forced
        },
        _ => false,
    }
}

} // verus!
