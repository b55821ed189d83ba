//! The abstract syntax tree shared by the parser, the evaluator and the
//! type checker.
use vstd::prelude::*;

verus! {

/// An AST node.  Each composite node exclusively owns its children.
///
/// Float literals carry the IEEE-754 bit pattern of the 64-bit value they
/// denote.
#[derive(Debug)]
pub enum Node {
    /// An ordered sequence of top-level statements.
    Program(Vec<Node>),
    /// A function declaration: name, (type-name, parameter-name) pairs, body.
    Function { name: String, parameters: Vec<(String, String)>, body: Box<Node> },
    /// A self-healing block: its body is retried on failure.
    LiveBlock { body: Box<Node> },
    /// An assertion with an optional message expression.
    Assert { condition: Box<Node>, message: Option<Box<Node>> },
    /// An ordered sequence of statements.
    Block(Vec<Node>),
    /// `let name = value;`
    LetStatement { name: String, value: Box<Node> },
    /// `return value;`
    ReturnStatement { value: Box<Node> },
    /// `if condition { consequence } else { alternative }`
    IfStatement { condition: Box<Node>, consequence: Box<Node>, alternative: Option<Box<Node>> },
    /// An expression in statement position.
    ExpressionStatement(Box<Node>),
    Identifier(String),
    IntegerLiteral(i64),
    FloatLiteral(u64),
    StringLiteral(String),
    BooleanLiteral(bool),
    /// The value of an empty `return;`.
    Void,
    /// A unary operator application.
    PrefixExpression { operator: String, right: Box<Node> },
    /// A binary operator application.
    InfixExpression { left: Box<Node>, operator: String, right: Box<Node> },
    /// A call: callee expression and ordered arguments.
    CallExpression { function: Box<Node>, arguments: Vec<Node> },
}

/// Mathematical model of an AST node.
#[verifier::ext_equal]
pub enum NodeModel {
    Program(Seq<NodeModel>),
    Function { name: Seq<char>, parameters: Seq<(Seq<char>, Seq<char>)>, body: Box<NodeModel> },
    LiveBlock { body: Box<NodeModel> },
    Assert { condition: Box<NodeModel>, message: Option<Box<NodeModel>> },
    Block(Seq<NodeModel>),
    LetStatement { name: Seq<char>, value: Box<NodeModel> },
    ReturnStatement { value: Box<NodeModel> },
    IfStatement {
        condition: Box<NodeModel>,
        consequence: Box<NodeModel>,
        alternative: Option<Box<NodeModel>>,
    },
    ExpressionStatement(Box<NodeModel>),
    Identifier(Seq<char>),
    IntegerLiteral(i64),
    FloatLiteral(u64),
    StringLiteral(Seq<char>),
    BooleanLiteral(bool),
    Void,
    PrefixExpression { operator: Seq<char>, right: Box<NodeModel> },
    InfixExpression { left: Box<NodeModel>, operator: Seq<char>, right: Box<NodeModel> },
    CallExpression { function: Box<NodeModel>, arguments: Seq<NodeModel> },
}

/// The models of a list of nodes, in order.
pub open spec fn nodes_view(s: Seq<Node>) -> Seq<NodeModel>
    decreases s,
{
    if s.len() == 0 {
        Seq::<NodeModel>::empty()
    } else {
        seq![node_view(s[0])] + nodes_view(s.drop_first())
    }
}

/// The model of a node.
pub open spec fn node_view(n: Node) -> NodeModel
    decreases n,
{
    match n {
        Node::Program(stmts) => NodeModel::Program(nodes_view(stmts@)),
        Node::Function { name, parameters, body } => NodeModel::Function {
            name: name@,
            parameters: parameters.deep_view(),
            body: Box::new(node_view(*body)),
        },
        Node::LiveBlock { body } => NodeModel::LiveBlock { body: Box::new(node_view(*body)) },
        Node::Assert { condition, message } => NodeModel::Assert {
            condition: Box::new(node_view(*condition)),
            message: match message {
                Some(m) => Some(Box::new(node_view(*m))),
                None => None,
            },
        },
        Node::Block(stmts) => NodeModel::Block(nodes_view(stmts@)),
        Node::LetStatement { name, value } => NodeModel::LetStatement {
            name: name@,
            value: Box::new(node_view(*value)),
        },
        Node::ReturnStatement { value } => NodeModel::ReturnStatement {
            value: Box::new(node_view(*value)),
        },
        Node::IfStatement { condition, consequence, alternative } => NodeModel::IfStatement {
            condition: Box::new(node_view(*condition)),
            consequence: Box::new(node_view(*consequence)),
            alternative: match alternative {
                Some(a) => Some(Box::new(node_view(*a))),
                None => None,
            },
        },
        Node::ExpressionStatement(e) => NodeModel::ExpressionStatement(Box::new(node_view(*e))),
        Node::Identifier(s) => NodeModel::Identifier(s@),
        Node::IntegerLiteral(i) => NodeModel::IntegerLiteral(i),
        Node::FloatLiteral(b) => NodeModel::FloatLiteral(b),
        Node::StringLiteral(s) => NodeModel::StringLiteral(s@),
        Node::BooleanLiteral(b) => NodeModel::BooleanLiteral(b),
        Node::Void => NodeModel::Void,
        Node::PrefixExpression { operator, right } => NodeModel::PrefixExpression {
            operator: operator@,
            right: Box::new(node_view(*right)),
        },
        Node::InfixExpression { left, operator, right } => NodeModel::InfixExpression {
            left: Box::new(node_view(*left)),
            operator: operator@,
            right: Box::new(node_view(*right)),
        },
        Node::CallExpression { function, arguments } => NodeModel::CallExpression {
            function: Box::new(node_view(*function)),
            arguments: nodes_view(arguments@),
        },
    }
}

/// The model list indexes pointwise into the node models.
pub proof fn lemma_nodes_view(s: Seq<Node>)
    ensures
        nodes_view(s).len() == s.len(),
        forall|i: int| 0 <= i < s.len() ==> nodes_view(s)[i] == node_view(#[trigger] s[i]),
    decreases s,
{
    if s.len() > 0 {
        lemma_nodes_view(s.drop_first());
        assert forall|i: int| 0 <= i < s.len() implies nodes_view(s)[i] == node_view(
            #[trigger] s[i],
        ) by {
            if i > 0 {
                assert(s.drop_first()[i - 1] == s[i]);
                assert(nodes_view(s)[i] == nodes_view(s.drop_first())[i - 1]);
            }
        }
    }
}

/// A vector of nodes has the model list of its contents.
pub proof fn lemma_vec_nodes_view(v: Vec<Node>)
    ensures
        v.deep_view() =~= nodes_view(v@),
{
    lemma_nodes_view(v@);
}

impl DeepView for Node {
    type V = NodeModel;

    open spec fn deep_view(&self) -> NodeModel {
        node_view(*self)
    }
}

/// An owned copy of a parameter list.
pub fn duplicate_params(v: &Vec<(String, String)>) -> (r: Vec<(String, String)>)
    ensures
        r.deep_view() == v.deep_view(),
{
    let mut r: Vec<(String, String)> = Vec::new();
    let mut i: usize = 0;
    while i < v.len()
        invariant
            i <= v@.len(),
            r.deep_view() =~= v.deep_view().subrange(0, i as int),
        decreases v@.len() - i,
    {
        let ghost r0 = r.deep_view();
        r.push((v[i].0.clone(), v[i].1.clone()));
        proof {
            assert(r.deep_view() =~= r0.push(v.deep_view()[i as int]));
            assert(r.deep_view() =~= v.deep_view().subrange(0, i + 1));
        }
        i += 1;
    }
    proof {
        assert(r.deep_view() =~= v.deep_view());
    }
    r
}

/// An owned copy of a node tree.
pub fn duplicate_node(n: &Node) -> (r: Node)
    ensures
        r.deep_view() == n.deep_view(),
    decreases n,
{
    match n {
        Node::Program(stmts) => {
            let d = duplicate_nodes(stmts);
            proof {
                lemma_vec_nodes_view(d);
                lemma_vec_nodes_view(*stmts);
            }
            Node::Program(d)
        },
        Node::Function { name, parameters, body } => Node::Function {
            name: name.clone(),
            parameters: duplicate_params(parameters),
            body: Box::new(duplicate_node(body)),
        },
        Node::LiveBlock { body } => Node::LiveBlock { body: Box::new(duplicate_node(body)) },
        Node::Assert { condition, message } => Node::Assert {
            condition: Box::new(duplicate_node(condition)),
            message: match message {
                Some(m) => Some(Box::new(duplicate_node(m))),
                None => None,
            },
        },
        Node::Block(stmts) => {
            let d = duplicate_nodes(stmts);
            proof {
                lemma_vec_nodes_view(d);
                lemma_vec_nodes_view(*stmts);
            }
            Node::Block(d)
        },
        Node::LetStatement { name, value } => Node::LetStatement {
            name: name.clone(),
            value: Box::new(duplicate_node(value)),
        },
        Node::ReturnStatement { value } => Node::ReturnStatement {
            value: Box::new(duplicate_node(value)),
        },
        Node::IfStatement { condition, consequence, alternative } => Node::IfStatement {
            condition: Box::new(duplicate_node(condition)),
            consequence: Box::new(duplicate_node(consequence)),
            alternative: match alternative {
                Some(a) => Some(Box::new(duplicate_node(a))),
                None => None,
            },
        },
        Node::ExpressionStatement(e) => Node::ExpressionStatement(Box::new(duplicate_node(e))),
        Node::Identifier(s) => Node::Identifier(s.clone()),
        Node::IntegerLiteral(i) => Node::IntegerLiteral(*i),
        Node::FloatLiteral(b) => Node::FloatLiteral(*b),
        Node::StringLiteral(s) => Node::StringLiteral(s.clone()),
        Node::BooleanLiteral(b) => Node::BooleanLiteral(*b),
        Node::Void => Node::Void,
        Node::PrefixExpression { operator, right } => Node::PrefixExpression {
            operator: operator.clone(),
            right: Box::new(duplicate_node(right)),
        },
        Node::InfixExpression { left, operator, right } => Node::InfixExpression {
            left: Box::new(duplicate_node(left)),
            operator: operator.clone(),
            right: Box::new(duplicate_node(right)),
        },
        Node::CallExpression { function, arguments } => {
            let d = duplicate_nodes(arguments);
            proof {
                lemma_vec_nodes_view(d);
                lemma_vec_nodes_view(*arguments);
            }
            Node::CallExpression { function: Box::new(duplicate_node(function)), arguments: d }
        },
    }
}

/// An owned copy of a node list.
pub fn duplicate_nodes(v: &Vec<Node>) -> (r: Vec<Node>)
    ensures
        r.deep_view() == v.deep_view(),
    decreases v,
{
    let mut r: Vec<Node> = Vec::new();
    let mut i: usize = 0;
    while i < v.len()
        invariant
            i <= v@.len(),
            r.deep_view() =~= v.deep_view().subrange(0, i as int),
        decreases v@.len() - i,
    {
        let ghost r0 = r.deep_view();
        let c = duplicate_node(&v[i]);
        r.push(c);
        proof {
            assert(r.deep_view() =~= r0.push(v.deep_view()[i as int]));
            assert(r.deep_view() =~= v.deep_view().subrange(0, i + 1));
        }
        i += 1;
    }
    proof {
        assert(r.deep_view() =~= v.deep_view());
    }
    r
}

} // verus!
