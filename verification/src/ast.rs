//! The syntax tree: a closed set of node kinds, and traversal by visitor.

use vstd::prelude::*;

verus! {

/// The primitive types of the language.
#[derive(Clone, Copy, Debug, PartialEq, Eq, Structural)]
pub enum Type {
    I8,
    I16,
    I32,
    I64,
    Iptr,
    U8,
    U16,
    U32,
    U64,
    Uptr,
    F32,
    F64,
    Bool,
    Char,
    String,
}

/// One node of the tree, of any kind. A node owns its children.
#[derive(Debug, PartialEq)]
pub enum Node {
    /// An ordered sequence of nodes: the items of a program, or the
    /// statements of a block.
    List(Vec<Box<Node>>),
    VariableDefinition(VariableDefinition),
    Type(Type),
    ParameterDeclaration(ParameterDeclaration),
    FunctionDefinition(FunctionDefinition),
    IgnoreValue(IgnoreValue),
    IntegerLiteral(i128),
}

/// The definition of a variable: `let`, an optional `mut`, a name, a type
/// and an initial value.
#[derive(Debug, PartialEq)]
pub struct VariableDefinition {
    mutable: bool,
    name: String,
    variable_type: Box<Node>,
    value: Box<Node>,
}

/// One parameter of a function: a name and a type.
#[derive(Debug, PartialEq)]
pub struct ParameterDeclaration {
    name: String,
    parameter_type: Box<Node>,
}

/// The definition of a function: a name, parameters, a return type and a
/// body.
#[derive(Debug, PartialEq)]
pub struct FunctionDefinition {
    name: String,
    parameters: Vec<Box<Node>>,
    return_type: Box<Node>,
    body: Box<Node>,
}

/// An expression used as a statement: its value is discarded.
#[derive(Debug, PartialEq)]
pub struct IgnoreValue(Box<Node>);

/// The mathematical value of a [`Node`]: the same tree, with names as
/// sequences of characters and lists as sequences.
pub enum NodeView {
    List(Seq<NodeView>),
    VariableDefinition {
        mutable: bool,
        name: Seq<char>,
        variable_type: Box<NodeView>,
        value: Box<NodeView>,
    },
    Type(Type),
    ParameterDeclaration { name: Seq<char>, parameter_type: Box<NodeView> },
    FunctionDefinition {
        name: Seq<char>,
        parameters: Seq<NodeView>,
        return_type: Box<NodeView>,
        body: Box<NodeView>,
    },
    IgnoreValue(Box<NodeView>),
    IntegerLiteral(i128),
}

/// The values of the nodes of a list, in order.
pub open spec fn list_view(list: Seq<Box<Node>>) -> Seq<NodeView>
    decreases list,
{
    Seq::new(
        list.len(),
        |i: int|
            if 0 <= i < list.len() {
                list[i].tree()
            } else {
                arbitrary()
            },
    )
}

impl Node {
    /// The value of the node. `node@` is short for it.
    pub open spec fn tree(&self) -> NodeView
        decreases self,
    {
        match self {
            Node::List(list) => NodeView::List(list_view(list@)),
            Node::VariableDefinition(variable) => variable.tree(),
            Node::Type(type_value) => NodeView::Type(*type_value),
            Node::ParameterDeclaration(parameter) => parameter.tree(),
            Node::FunctionDefinition(function) => function.tree(),
            Node::IgnoreValue(ignore_value) => ignore_value.tree(),
            Node::IntegerLiteral(value) => NodeView::IntegerLiteral(*value),
        }
    }
}

impl VariableDefinition {
    /// The value of the node. `node@` is short for it.
    pub closed spec fn tree(&self) -> NodeView
        decreases self,
    {
        NodeView::VariableDefinition {
            mutable: self.mutable,
            name: self.name@,
            variable_type: Box::new(self.variable_type.tree()),
            value: Box::new(self.value.tree()),
        }
    }
}

impl ParameterDeclaration {
    /// The value of the node. `node@` is short for it.
    pub closed spec fn tree(&self) -> NodeView
        decreases self,
    {
        NodeView::ParameterDeclaration {
            name: self.name@,
            parameter_type: Box::new(self.parameter_type.tree()),
        }
    }
}

impl FunctionDefinition {
    /// The value of the node. `node@` is short for it.
    pub closed spec fn tree(&self) -> NodeView
        decreases self,
    {
        NodeView::FunctionDefinition {
            name: self.name@,
            parameters: list_view(self.parameters@),
            return_type: Box::new(self.return_type.tree()),
            body: Box::new(self.body.tree()),
        }
    }
}

impl IgnoreValue {
    /// The value of the node. `node@` is short for it.
    pub closed spec fn tree(&self) -> NodeView
        decreases self,
    {
        NodeView::IgnoreValue(Box::new(self.0.tree()))
    }
}

impl View for Node {
    type V = NodeView;

    open spec fn view(&self) -> NodeView {
        self.tree()
    }
}

impl View for VariableDefinition {
    type V = NodeView;

    open spec fn view(&self) -> NodeView {
        self.tree()
    }
}

impl View for ParameterDeclaration {
    type V = NodeView;

    open spec fn view(&self) -> NodeView {
        self.tree()
    }
}

impl View for FunctionDefinition {
    type V = NodeView;

    open spec fn view(&self) -> NodeView {
        self.tree()
    }
}

impl View for IgnoreValue {
    type V = NodeView;

    open spec fn view(&self) -> NodeView {
        self.tree()
    }
}

impl VariableDefinition {
    pub fn new(mutable: bool, name: String, variable_type: Box<Node>, value: Box<Node>) -> (node:
        VariableDefinition)
        ensures
            node@ == (NodeView::VariableDefinition {
                mutable,
                name: name@,
                variable_type: Box::new(variable_type@),
                value: Box::new(value@),
            }),
    {
        VariableDefinition { mutable, name, variable_type, value }
    }
}

impl ParameterDeclaration {
    pub fn new(name: String, parameter_type: Box<Node>) -> (node: ParameterDeclaration)
        ensures
            node@ == (NodeView::ParameterDeclaration {
                name: name@,
                parameter_type: Box::new(parameter_type@),
            }),
    {
        ParameterDeclaration { name, parameter_type }
    }
}

impl FunctionDefinition {
    pub fn new(
        name: String,
        parameters: Vec<Box<Node>>,
        return_type: Box<Node>,
        body: Box<Node>,
    ) -> (node: FunctionDefinition)
        ensures
            node@ == (NodeView::FunctionDefinition {
                name: name@,
                parameters: list_view(parameters@),
                return_type: Box::new(return_type@),
                body: Box::new(body@),
            }),
    {
        FunctionDefinition { name, parameters, return_type, body }
    }
}

impl IgnoreValue {
    pub fn new(value: Box<Node>) -> (node: IgnoreValue)
        ensures
            node@ == NodeView::IgnoreValue(Box::new(value@)),
    {
        IgnoreValue(value)
    }
}

/// A traversal of the tree: one method for each kind of node.
///
/// What a visit does is up to the visitor, and so is any descent into the
/// children of the node it is given. An implementation describes its visits
/// by [`AstVisitor::visits`], a relation between the visitor before a visit,
/// the node visited, and the visitor after it; each method promises that
/// relation for its own kind of node. Left as it is, the relation allows
/// everything.
pub trait AstVisitor: Sized {
    /// Whether a visit to a node with the value `node` may take the visitor
    /// from `self` to `after`.
    open spec fn visits(&self, node: NodeView, after: &Self) -> bool {
        true
    }

    fn visit_list(&mut self, list: &Vec<Box<Node>>)
        ensures
            old(self).visits(NodeView::List(list_view(list@)), final(self)),
    ;

    fn visit_variable_definition(&mut self, variable: &VariableDefinition)
        ensures
            old(self).visits(variable@, final(self)),
    ;

    fn visit_type(&mut self, type_value: &Type)
        ensures
            old(self).visits(NodeView::Type(*type_value), final(self)),
    ;

    fn visit_parameter_declaration(&mut self, parameter: &ParameterDeclaration)
        ensures
            old(self).visits(parameter@, final(self)),
    ;

    fn visit_function_definition(&mut self, function: &FunctionDefinition)
        ensures
            old(self).visits(function@, final(self)),
    ;

    fn visit_ignore_value(&mut self, ignore_value: &IgnoreValue)
        ensures
            old(self).visits(ignore_value@, final(self)),
    ;

    fn visit_integer_literal(&mut self, integer_literal: &i128)
        ensures
            old(self).visits(NodeView::IntegerLiteral(*integer_literal), final(self)),
    ;
}

/// What every kind of node offers: to be handed to a visitor.
pub trait AstNode {
    /// The node as a tree.
    spec fn node(&self) -> NodeView;

    /// Calls the one method of `visitor` that is meant for this kind of node,
    /// with the node itself, and nothing else: the children are not entered.
    fn apply<V: AstVisitor>(&self, visitor: &mut V)
        ensures
            old(visitor).visits(self.node(), final(visitor)),
    ;
}

impl AstNode for Vec<Box<Node>> {
    open spec fn node(&self) -> NodeView {
        NodeView::List(list_view(self@))
    }

    fn apply<V: AstVisitor>(&self, visitor: &mut V) {
        visitor.visit_list(self);
    }
}

impl AstNode for VariableDefinition {
    open spec fn node(&self) -> NodeView {
        self@
    }

    fn apply<V: AstVisitor>(&self, visitor: &mut V) {
        visitor.visit_variable_definition(self);
    }
}

impl AstNode for Type {
    open spec fn node(&self) -> NodeView {
        NodeView::Type(*self)
    }

    fn apply<V: AstVisitor>(&self, visitor: &mut V) {
        visitor.visit_type(self);
    }
}

impl AstNode for ParameterDeclaration {
    open spec fn node(&self) -> NodeView {
        self@
    }

    fn apply<V: AstVisitor>(&self, visitor: &mut V) {
        visitor.visit_parameter_declaration(self);
    }
}

impl AstNode for FunctionDefinition {
    open spec fn node(&self) -> NodeView {
        self@
    }

    fn apply<V: AstVisitor>(&self, visitor: &mut V) {
        visitor.visit_function_definition(self);
    }
}

impl AstNode for IgnoreValue {
    open spec fn node(&self) -> NodeView {
        self@
    }

    fn apply<V: AstVisitor>(&self, visitor: &mut V) {
        visitor.visit_ignore_value(self);
    }
}

impl AstNode for i128 {
    open spec fn node(&self) -> NodeView {
        NodeView::IntegerLiteral(*self)
    }

    fn apply<V: AstVisitor>(&self, visitor: &mut V) {
        visitor.visit_integer_literal(self);
    }
}

impl AstNode for Node {
    open spec fn node(&self) -> NodeView {
        self@
    }

    fn apply<V: AstVisitor>(&self, visitor: &mut V) {
        match self {
            Node::List(list) => visitor.visit_list(list),
            Node::VariableDefinition(variable) => visitor.visit_variable_definition(variable),
            Node::Type(type_value) => visitor.visit_type(type_value),
            Node::ParameterDeclaration(parameter) => visitor.visit_parameter_declaration(
                parameter,
            ),
            Node::FunctionDefinition(function) => visitor.visit_function_definition(function),
            Node::IgnoreValue(ignore_value) => visitor.visit_ignore_value(ignore_value),
            Node::IntegerLiteral(value) => visitor.visit_integer_literal(value),
        }
    }
}

/// An independent copy of every node of `list`, in order.
fn clone_list(list: &Vec<Box<Node>>) -> (copy: Vec<Box<Node>>)
    ensures
        list_view(copy@) == list_view(list@),
    decreases list,
{
    let mut copy: Vec<Box<Node>> = Vec::new();
    let mut index: usize = 0;
    while index < list.len()
        invariant
            index <= list.len(),
            copy.len() == index,
            forall|i: int| 0 <= i < index ==> copy@[i].tree() == list@[i].tree(),
        decreases list.len() - index,
    {
        let node = (*list[index]).clone();
        copy.push(Box::new(node));
        index = index + 1;
    }
    assert(list_view(copy@) =~= list_view(list@));
    copy
}

impl Clone for Node {
    /// An independent copy of the whole subtree.
    fn clone(&self) -> (copy: Node)
        ensures
            copy@ == self@,
        decreases self,
    {
        match self {
            Node::List(list) => Node::List(clone_list(list)),
            Node::VariableDefinition(variable) => Node::VariableDefinition(variable.clone()),
            Node::Type(type_value) => Node::Type(*type_value),
            Node::ParameterDeclaration(parameter) => Node::ParameterDeclaration(parameter.clone()),
            Node::FunctionDefinition(function) => Node::FunctionDefinition(function.clone()),
            Node::IgnoreValue(ignore_value) => Node::IgnoreValue(ignore_value.clone()),
            Node::IntegerLiteral(value) => Node::IntegerLiteral(*value),
        }
    }
}

impl Clone for VariableDefinition {
    /// An independent copy of the whole subtree.
    fn clone(&self) -> (copy: VariableDefinition)
        ensures
            copy@ == self@,
        decreases self,
    {
        VariableDefinition {
            mutable: self.mutable,
            name: self.name.clone(),
            variable_type: Box::new((*self.variable_type).clone()),
            value: Box::new((*self.value).clone()),
        }
    }
}

impl Clone for ParameterDeclaration {
    /// An independent copy of the whole subtree.
    fn clone(&self) -> (copy: ParameterDeclaration)
        ensures
            copy@ == self@,
        decreases self,
    {
        ParameterDeclaration {
            name: self.name.clone(),
            parameter_type: Box::new((*self.parameter_type).clone()),
        }
    }
}

impl Clone for FunctionDefinition {
    /// An independent copy of the whole subtree.
    fn clone(&self) -> (copy: FunctionDefinition)
        ensures
            copy@ == self@,
        decreases self,
    {
        FunctionDefinition {
            name: self.name.clone(),
            parameters: clone_list(&self.parameters),
            return_type: Box::new((*self.return_type).clone()),
            body: Box::new((*self.body).clone()),
        }
    }
}

impl Clone for IgnoreValue {
    /// An independent copy of the whole subtree.
    fn clone(&self) -> (copy: IgnoreValue)
        ensures
            copy@ == self@,
        decreases self,
    {
        IgnoreValue(Box::new((*self.0).clone()))
    }
}

} // verus!
