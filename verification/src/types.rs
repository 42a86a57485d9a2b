//! The document tree: typed items with raw text, names, attached comments
//! and children, together with the mathematical model the contracts use.

use vstd::prelude::*;

verus! {

/// The kind of a tree item.
#[derive(Debug, Clone, Copy, PartialEq, Eq, Structural)]
pub enum JsonItemType {
    Null,
    False,
    True,
    String,
    Number,
    Object,
    Array,
    BlankLine,
    LineComment,
    BlockComment,
}

impl JsonItemType {
    /// A line or block comment.
    pub open spec fn spec_is_comment(self) -> bool {
        self == JsonItemType::LineComment || self == JsonItemType::BlockComment
    }

    /// A comment or a blank line.
    pub open spec fn spec_is_comment_or_blank(self) -> bool {
        self.spec_is_comment() || self == JsonItemType::BlankLine
    }

    /// An object or an array: the kinds that own children.
    pub open spec fn spec_is_structural(self) -> bool {
        self == JsonItemType::Object || self == JsonItemType::Array
    }

    /// A scalar value: string, number, boolean or null.
    pub open spec fn spec_is_value(self) -> bool {
        self == JsonItemType::String || self == JsonItemType::Number || self == JsonItemType::True
            || self == JsonItemType::False || self == JsonItemType::Null
    }

    /// Returns `true` if this is a comment type (line or block).
    #[verifier::when_used_as_spec(spec_is_comment)]
    pub fn is_comment(self) -> (r: bool)
        ensures
            r == self.spec_is_comment(),
    {
        matches!(self, JsonItemType::LineComment | JsonItemType::BlockComment)
    }

    /// Returns `true` if this is a comment or blank line type.
    #[verifier::when_used_as_spec(spec_is_comment_or_blank)]
    pub fn is_comment_or_blank(self) -> (r: bool)
        ensures
            r == self.spec_is_comment_or_blank(),
    {
        matches!(
            self,
            JsonItemType::LineComment | JsonItemType::BlockComment | JsonItemType::BlankLine
        )
    }

    /// Returns `true` if this is a structural container type (object or array).
    #[verifier::when_used_as_spec(spec_is_structural)]
    pub fn is_structural(self) -> (r: bool)
        ensures
            r == self.spec_is_structural(),
    {
        matches!(self, JsonItemType::Object | JsonItemType::Array)
    }

    /// Returns `true` if this is a JSON value type.
    #[verifier::when_used_as_spec(spec_is_value)]
    pub fn is_value(self) -> (r: bool)
        ensures
            r == self.spec_is_value(),
    {
        matches!(
            self,
            JsonItemType::String | JsonItemType::Number | JsonItemType::True
                | JsonItemType::False | JsonItemType::Null
        )
    }
}

/// Where an item started in the source text.
#[derive(Debug, Clone, PartialEq)]
pub struct InputPosition {
    pub line: usize,
    pub column: usize,
}

impl Default for InputPosition {
    fn default() -> (r: Self)
        ensures
            r.line == 0,
            r.column == 0,
    {
        InputPosition { line: 0, column: 0 }
    }
}

/// One item of the document tree.
#[derive(Debug, PartialEq)]
pub struct JsonItem {
    pub item_type: JsonItemType,
    pub input_position: InputPosition,
    pub name: String,
    pub value: String,
    pub prefix_comment: Option<String>,
    pub middle_comment: Option<String>,
    pub postfix_comment: Option<String>,
    pub is_post_comment_line_style: bool,
    pub children: Vec<JsonItem>,
}

/// The mathematical model of a [`JsonItem`]: text as character sequences,
/// children as a sequence of models. The source position is not part of it.
pub ghost struct Node {
    pub kind: JsonItemType,
    pub name: Seq<char>,
    pub value: Seq<char>,
    pub prefix_comment: Option<Seq<char>>,
    pub middle_comment: Option<Seq<char>>,
    pub postfix_comment: Option<Seq<char>>,
    pub is_post_comment_line_style: bool,
    pub children: Seq<Node>,
}

impl Node {
    /// An item of the given kind with no text, no comments and no children.
    pub open spec fn bare(kind: JsonItemType) -> Node {
        Node {
            kind,
            name: Seq::empty(),
            value: Seq::empty(),
            prefix_comment: None,
            middle_comment: None,
            postfix_comment: None,
            is_post_comment_line_style: false,
            children: Seq::empty(),
        }
    }

    /// Whether a prefix, middle or postfix comment is attached.
    pub open spec fn has_comments(self) -> bool {
        self.prefix_comment is Some || self.middle_comment is Some || self.postfix_comment is Some
    }

    /// An object or array.
    pub open spec fn is_container(self) -> bool {
        self.kind.spec_is_structural()
    }

    /// A container without children.
    pub open spec fn is_empty(self) -> bool {
        self.is_container() && self.children.len() == 0
    }
}

/// The model of an optional text.
pub open spec fn opt_text(s: Option<String>) -> Option<Seq<char>> {
    match s {
        Some(t) => Some(t@),
        None => None,
    }
}

/// The model of an item, built from the models of its children.
pub open spec fn model_of(item: JsonItem) -> Node
    decreases item,
{
    Node {
        kind: item.item_type,
        name: item.name@,
        value: item.value@,
        prefix_comment: opt_text(item.prefix_comment),
        middle_comment: opt_text(item.middle_comment),
        postfix_comment: opt_text(item.postfix_comment),
        is_post_comment_line_style: item.is_post_comment_line_style,
        children: Seq::new(
            item.children.len() as nat,
            |i: int|
                if 0 <= i < item.children.len() {
                    model_of(item.children[i])
                } else {
                    arbitrary()
                },
        ),
    }
}

impl View for JsonItem {
    type V = Node;

    open spec fn view(&self) -> Node {
        model_of(*self)
    }
}

/// Whether two items hold the same in every field, the source positions
/// included, and their children likewise, one by one.
pub open spec fn same_item(a: JsonItem, b: JsonItem) -> bool
    decreases a,
{
    &&& a.item_type == b.item_type
    &&& a.input_position == b.input_position
    &&& a.name == b.name
    &&& a.value == b.value
    &&& a.prefix_comment == b.prefix_comment
    &&& a.middle_comment == b.middle_comment
    &&& a.postfix_comment == b.postfix_comment
    &&& a.is_post_comment_line_style == b.is_post_comment_line_style
    &&& a.children.len() == b.children.len()
    &&& forall|i: int|
        0 <= i < a.children.len() ==> same_item(#[trigger] a.children[i], b.children[i])
}

/// Whether an item and everything below it stands at the source position
/// zero, as items do that were built and not read from a text.
pub open spec fn at_origin(item: JsonItem) -> bool
    decreases item,
{
    &&& item.input_position.line == 0
    &&& item.input_position.column == 0
    &&& forall|i: int| 0 <= i < item.children.len() ==> at_origin(#[trigger] item.children[i])
}

fn clone_text(s: &Option<String>) -> (r: Option<String>)
    ensures
        r == *s,
{
    match s {
        Some(t) => Some(t.clone()),
        None => None,
    }
}

impl Clone for JsonItem {
    fn clone(&self) -> (r: Self)
        ensures
            r@ == self@,
            same_item(r, *self),
        decreases self,
    {
        let mut children: Vec<JsonItem> = Vec::new();
        let mut i: usize = 0;
        while i < self.children.len()
            invariant
                i <= self.children.len(),
                children.len() == i,
                forall|j: int|
                    0 <= j < i ==> children[j]@ == self.children[j]@ && same_item(
                        #[trigger] children[j],
                        self.children[j],
                    ),
            decreases self.children.len() - i,
        {
            let c = self.children[i].clone();
            children.push(c);
            i += 1;
        }
        let r = JsonItem {
            item_type: self.item_type,
            input_position: InputPosition {
                line: self.input_position.line,
                column: self.input_position.column,
            },
            name: self.name.clone(),
            value: self.value.clone(),
            prefix_comment: clone_text(&self.prefix_comment),
            middle_comment: clone_text(&self.middle_comment),
            postfix_comment: clone_text(&self.postfix_comment),
            is_post_comment_line_style: self.is_post_comment_line_style,
            children,
        };
        assert(r@.children =~= self@.children);
        assert(r.input_position == self.input_position);
        r
    }
}

impl JsonItem {
    /// A new item of the given kind: no name, no value, no comments, no
    /// children, at position zero.
    pub fn new(item_type: JsonItemType) -> (r: Self)
        ensures
            r@ == Node::bare(item_type),
            r.input_position.line == 0,
            r.input_position.column == 0,
            r.children@.len() == 0,
            at_origin(r),
    {
        let r = JsonItem {
            item_type,
            input_position: InputPosition::default(),
            name: String::new(),
            value: String::new(),
            prefix_comment: None,
            middle_comment: None,
            postfix_comment: None,
            is_post_comment_line_style: false,
            children: Vec::new(),
        };
        assert(r@.children =~= Seq::<Node>::empty());
        r
    }

    /// The same item with its raw text replaced: every other field, the
    /// children and all positions among them, stays as it is.
    pub fn with_value(self, value: String) -> (r: Self)
        ensures
            r == (JsonItem { value, ..self }),
            r@ == (Node { value: value@, ..self@ }),
    {
        let mut item = self;
        item.value = value;
        assert(item@.children =~= self@.children);
        item
    }

    /// The same item with its member name replaced: every other field, the
    /// children and all positions among them, stays as it is.
    pub fn with_name(self, name: String) -> (r: Self)
        ensures
            r == (JsonItem { name, ..self }),
            r@ == (Node { name: name@, ..self@ }),
    {
        let mut item = self;
        item.name = name;
        assert(item@.children =~= self@.children);
        item
    }

    /// Whether any comment is attached to this item.
    pub fn has_comments(&self) -> (r: bool)
        ensures
            r == self@.has_comments(),
    {
        self.prefix_comment.is_some() || self.middle_comment.is_some()
            || self.postfix_comment.is_some()
    }

    /// Whether this item is an object or array without children.
    pub fn is_empty(&self) -> (r: bool)
        ensures
            r == self@.is_empty(),
    {
        match self.item_type {
            JsonItemType::Object | JsonItemType::Array => self.children.len() == 0,
            _ => false,
        }
    }
}

/// The model has as many children as the item.
pub proof fn lemma_child_count(item: JsonItem)
    ensures
        item@.children.len() == item.children.len(),
{
}

/// The model of the `i`-th child is the `i`-th child of the model.
pub proof fn lemma_child_model(item: JsonItem, i: int)
    requires
        0 <= i < item.children.len(),
    ensures
        item@.children.len() == item.children.len(),
        item@.children[i] == item.children[i]@,
{
}

} // verus!
