use front_end::ast::{
    AstNode, AstVisitor, FunctionDefinition, IgnoreValue, Node, ParameterDeclaration, Type,
    VariableDefinition,
};

#[derive(Default)]
struct Recorder {
    calls: Vec<String>,
}

impl AstVisitor for Recorder {
    fn visit_list(&mut self, list: &Vec<Box<Node>>) {
        self.calls.push(format!("list of {}", list.len()));
    }

    fn visit_variable_definition(&mut self, variable: &VariableDefinition) {
        self.calls.push(format!("{:?}", variable));
    }

    fn visit_type(&mut self, type_value: &Type) {
        self.calls.push(format!("type {:?}", type_value));
    }

    fn visit_parameter_declaration(&mut self, _parameter: &ParameterDeclaration) {
        self.calls.push("parameter_declaration".to_string());
    }

    fn visit_function_definition(&mut self, _function: &FunctionDefinition) {
        self.calls.push("function_definition".to_string());
    }

    fn visit_ignore_value(&mut self, _ignore_value: &IgnoreValue) {
        self.calls.push("ignore_value".to_string());
    }

    fn visit_integer_literal(&mut self, integer_literal: &i128) {
        self.calls.push(format!("integer {}", integer_literal));
    }
}

/// Counts integer literals, entering the children of lists and of ignored
/// values itself.
#[derive(Default)]
struct Counter {
    integers: usize,
}

impl AstVisitor for Counter {
    fn visit_list(&mut self, list: &Vec<Box<Node>>) {
        for node in list.iter() {
            node.apply(self);
        }
    }

    fn visit_variable_definition(&mut self, _variable: &VariableDefinition) {}

    fn visit_type(&mut self, _type_value: &Type) {}

    fn visit_parameter_declaration(&mut self, _parameter: &ParameterDeclaration) {}

    fn visit_function_definition(&mut self, _function: &FunctionDefinition) {}

    fn visit_ignore_value(&mut self, _ignore_value: &IgnoreValue) {}

    fn visit_integer_literal(&mut self, _integer_literal: &i128) {
        self.integers += 1;
    }
}

fn integer(value: i128) -> Box<Node> {
    Box::new(Node::IntegerLiteral(value))
}

fn sample_function() -> FunctionDefinition {
    FunctionDefinition::new(
        "f".to_string(),
        vec![Box::new(Node::ParameterDeclaration(ParameterDeclaration::new(
            "a".to_string(),
            Box::new(Node::Type(Type::I8)),
        )))],
        Box::new(Node::Type(Type::Bool)),
        Box::new(Node::List(vec![integer(1)])),
    )
}

#[test]
fn apply_calls_the_method_of_the_kind() {
    let mut recorder = Recorder::default();
    Node::IgnoreValue(IgnoreValue::new(integer(7))).apply(&mut recorder);
    Node::Type(Type::I32).apply(&mut recorder);
    Node::IntegerLiteral(7).apply(&mut recorder);
    Node::List(vec![integer(1), integer(2)]).apply(&mut recorder);
    Node::FunctionDefinition(sample_function()).apply(&mut recorder);
    Node::ParameterDeclaration(ParameterDeclaration::new(
        "a".to_string(),
        Box::new(Node::Type(Type::I8)),
    ))
    .apply(&mut recorder);
    assert_eq!(
        recorder.calls,
        vec![
            "ignore_value",
            "type I32",
            "integer 7",
            "list of 2",
            "function_definition",
            "parameter_declaration",
        ]
    );
}

#[test]
fn apply_on_the_nodes_themselves() {
    let mut recorder = Recorder::default();
    IgnoreValue::new(integer(7)).apply(&mut recorder);
    Type::U16.apply(&mut recorder);
    9i128.apply(&mut recorder);
    vec![integer(1)].apply(&mut recorder);
    sample_function().apply(&mut recorder);
    ParameterDeclaration::new("a".to_string(), Box::new(Node::Type(Type::I8)))
        .apply(&mut recorder);
    assert_eq!(
        recorder.calls,
        vec![
            "ignore_value",
            "type U16",
            "integer 9",
            "list of 1",
            "function_definition",
            "parameter_declaration",
        ]
    );
}

#[test]
fn apply_hands_over_the_node_itself() {
    let mut recorder = Recorder::default();
    let variable = VariableDefinition::new(
        true,
        "total".to_string(),
        Box::new(Node::Type(Type::I64)),
        integer(100),
    );
    let shown = format!("{:?}", variable);
    Node::VariableDefinition(variable).apply(&mut recorder);
    assert_eq!(recorder.calls, vec![shown]);
}

#[test]
fn apply_does_not_enter_the_children() {
    let mut counter = Counter::default();
    Node::IgnoreValue(IgnoreValue::new(integer(7))).apply(&mut counter);
    assert_eq!(counter.integers, 0);
    Node::FunctionDefinition(sample_function()).apply(&mut counter);
    assert_eq!(counter.integers, 0);
    Node::List(vec![integer(1), integer(2), Box::new(Node::List(vec![integer(3)]))])
        .apply(&mut counter);
    assert_eq!(counter.integers, 3);
}

#[test]
fn a_copy_of_a_tree_is_equal_and_independent() {
    let source = Node::List(vec![
        Box::new(Node::FunctionDefinition(sample_function())),
        Box::new(Node::IgnoreValue(IgnoreValue::new(integer(5)))),
        Box::new(Node::VariableDefinition(VariableDefinition::new(
            false,
            "v".to_string(),
            Box::new(Node::Type(Type::String)),
            integer(3),
        ))),
    ]);
    let mut copy = source.clone();
    assert_eq!(copy, source);
    if let Node::List(nodes) = &mut copy {
        nodes.pop();
        nodes[1] = integer(0);
    }
    assert_ne!(copy, source);
    if let Node::List(nodes) = &source {
        assert_eq!(nodes.len(), 3);
        assert_eq!(nodes[1], Box::new(Node::IgnoreValue(IgnoreValue::new(integer(5)))));
    }
    assert_eq!(sample_function().clone(), sample_function());
    assert_eq!(Type::Char.clone(), Type::Char);
}

#[test]
fn nodes_with_different_fields_differ() {
    let a = VariableDefinition::new(true, "a".to_string(), Box::new(Node::Type(Type::I8)), integer(1));
    let b = VariableDefinition::new(false, "a".to_string(), Box::new(Node::Type(Type::I8)), integer(1));
    let c = VariableDefinition::new(true, "c".to_string(), Box::new(Node::Type(Type::I8)), integer(1));
    let d = VariableDefinition::new(true, "a".to_string(), Box::new(Node::Type(Type::U8)), integer(1));
    let e = VariableDefinition::new(true, "a".to_string(), Box::new(Node::Type(Type::I8)), integer(2));
    assert_ne!(a, b);
    assert_ne!(a, c);
    assert_ne!(a, d);
    assert_ne!(a, e);
    assert_eq!(a, a.clone());
}
