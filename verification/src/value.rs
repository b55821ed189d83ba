//! Runtime values, the scoped environment, and the runtime failure signal.
use crate::ast::Node;
use crate::ast::NodeModel;
use crate::ast::node_view;
use crate::ast::duplicate_node;
use crate::ast::duplicate_params;
use crate::floatbits::float_is_zero;
use crate::floatbits::float_text;
use crate::floatbits::float_to_string;
use crate::text::int_text;
use crate::text::int_to_string;
use vstd::prelude::*;

verus! {

/// A runtime value.  Values are copied on assignment and on call: the
/// language has no shared mutable aliasing.
///
/// Floats are carried as IEEE-754 bit patterns.
#[derive(Debug)]
pub enum Value {
    Int(i64),
    Float(u64),
    Str(String),
    Bool(bool),
    /// A closure: parameter list, body, and the environment captured at its
    /// definition site.
    Function { parameters: Vec<(String, String)>, body: Box<Node>, env: Environment },
    /// A control-flow marker that carries a returned value outward; never
    /// directly observable by user code.
    Return(Box<Value>),
    Void,
}

/// A chain of scopes mapping names to values.  Lookup walks outward through
/// `outer`; a definition writes the innermost scope.
#[derive(Debug)]
pub struct Environment {
    pub store: Vec<(String, Value)>,
    pub outer: Option<Box<Environment>>,
}

/// Mathematical model of a runtime value.
#[verifier::ext_equal]
pub enum ValueModel {
    Int(i64),
    Float(u64),
    Str(Seq<char>),
    Bool(bool),
    Function { parameters: Seq<(Seq<char>, Seq<char>)>, body: NodeModel, env: EnvModel },
    Return(Box<ValueModel>),
    Void,
}

/// Mathematical model of an environment chain.
#[verifier::ext_equal]
pub struct EnvModel {
    pub store: Seq<(Seq<char>, ValueModel)>,
    pub outer: Option<Box<EnvModel>>,
}

/// The model of a value.
pub open spec fn value_view(v: Value) -> ValueModel
    decreases v,
{
    match v {
        Value::Int(i) => ValueModel::Int(i),
        Value::Float(b) => ValueModel::Float(b),
        Value::Str(s) => ValueModel::Str(s@),
        Value::Bool(b) => ValueModel::Bool(b),
        Value::Function { parameters, body, env } => ValueModel::Function {
            parameters: parameters.deep_view(),
            body: node_view(*body),
            env: env_view(env),
        },
        Value::Return(inner) => ValueModel::Return(Box::new(value_view(*inner))),
        Value::Void => ValueModel::Void,
    }
}

/// The models of the bindings of one scope, in insertion order.
pub open spec fn store_view(s: Seq<(String, Value)>) -> Seq<(Seq<char>, ValueModel)>
    decreases s,
{
    if s.len() == 0 {
        Seq::<(Seq<char>, ValueModel)>::empty()
    } else {
        seq![(s[0].0@, value_view(s[0].1))] + store_view(s.drop_first())
    }
}

/// The model of an environment chain.
pub open spec fn env_view(e: Environment) -> EnvModel
    decreases e,
{
    EnvModel {
        store: store_view(e.store@),
        outer: match e.outer {
            Some(o) => Some(Box::new(env_view(*o))),
            None => None,
        },
    }
}

impl DeepView for Value {
    type V = ValueModel;

    open spec fn deep_view(&self) -> ValueModel {
        value_view(*self)
    }
}

impl DeepView for Environment {
    type V = EnvModel;

    open spec fn deep_view(&self) -> EnvModel {
        env_view(*self)
    }
}

/// The bindings' models index pointwise.
pub proof fn lemma_store_view(s: Seq<(String, Value)>)
    ensures
        store_view(s).len() == s.len(),
        forall|i: int|
            0 <= i < s.len() ==> store_view(s)[i] == (#[trigger] s[i].0@, value_view(s[i].1)),
    decreases s,
{
    if s.len() > 0 {
        lemma_store_view(s.drop_first());
        assert forall|i: int|
            0 <= i < s.len() implies store_view(s)[i] == (#[trigger] s[i].0@, value_view(
            s[i].1,
        )) by {
            if i > 0 {
                assert(s.drop_first()[i - 1] == s[i]);
                assert(store_view(s)[i] == store_view(s.drop_first())[i - 1]);
            }
        }
    }
}

/// An empty scope has an empty model.
pub proof fn lemma_store_view_empty()
    ensures
        store_view(Seq::<(String, Value)>::empty()) =~= Seq::<(Seq<char>, ValueModel)>::empty(),
{
}

/// Appending a binding appends its model.
pub proof fn lemma_store_view_push(s: Seq<(String, Value)>, p: (String, Value))
    ensures
        store_view(s.push(p)) =~= store_view(s).push((p.0@, value_view(p.1))),
    decreases s,
{
    reveal_with_fuel(store_view, 2);
    if s.len() == 0 {
        assert(s.push(p).drop_first() =~= Seq::<(String, Value)>::empty());
        assert(s.push(p)[0] == p);
    } else {
        lemma_store_view_push(s.drop_first(), p);
        assert(s.push(p).drop_first() =~= s.drop_first().push(p));
        assert(s.push(p)[0] == s[0]);
        assert(store_view(s.push(p)) =~= store_view(s).push((p.0@, value_view(p.1))));
    }
}

/// The most recent binding of `name` in one scope, if any.
pub open spec fn bindings_get(b: Seq<(Seq<char>, ValueModel)>, name: Seq<char>) -> Option<
    ValueModel,
>
    decreases b.len(),
{
    if b.len() == 0 {
        None
    } else if b.last().0 == name {
        Some(b.last().1)
    } else {
        bindings_get(b.drop_last(), name)
    }
}

/// Lookup walking outward through the scope chain.
pub open spec fn env_get(e: EnvModel, name: Seq<char>) -> Option<ValueModel>
    decreases e,
{
    match bindings_get(e.store, name) {
        Some(v) => Some(v),
        None => match e.outer {
            Some(o) => env_get(*o, name),
            None => None,
        },
    }
}

/// Defining `name` appends a binding to the innermost scope; lookup sees
/// the most recent binding first.
pub open spec fn env_set(e: EnvModel, name: Seq<char>, v: ValueModel) -> EnvModel {
    EnvModel { store: e.store.push((name, v)), outer: e.outer }
}

/// An owned copy of a value, equal in model.
pub fn duplicate_value(v: &Value) -> (r: Value)
    ensures
        r.deep_view() == v.deep_view(),
    decreases v,
{
    match v {
        Value::Int(i) => Value::Int(*i),
        Value::Float(b) => Value::Float(*b),
        Value::Str(s) => Value::Str(s.clone()),
        Value::Bool(b) => Value::Bool(*b),
        Value::Function { parameters, body, env } => Value::Function {
            parameters: duplicate_params(parameters),
            body: Box::new(duplicate_node(body)),
            env: duplicate_env(env),
        },
        Value::Return(inner) => Value::Return(Box::new(duplicate_value(inner))),
        Value::Void => Value::Void,
    }
}

/// An owned copy of an environment chain, equal in model.  This is the
/// deep copy the live-block controller snapshots and restores.
pub fn duplicate_env(e: &Environment) -> (r: Environment)
    ensures
        r.deep_view() == e.deep_view(),
    decreases e,
{
    let mut store: Vec<(String, Value)> = Vec::new();
    let mut i: usize = 0;
    while i < e.store.len()
        invariant
            i <= e.store@.len(),
            store_view(store@) =~= store_view(e.store@.subrange(0, i as int)),
        decreases e.store@.len() - i,
    {
        let ghost pre = store@;
        let name = e.store[i].0.clone();
        let val = duplicate_value(&e.store[i].1);
        let ghost pair = (name, val);
        store.push((name, val));
        proof {
            lemma_store_view_push(pre, pair);
            lemma_store_view_push(e.store@.subrange(0, i as int), e.store@[i as int]);
            assert(e.store@.subrange(0, i + 1) =~= e.store@.subrange(0, i as int).push(
                e.store@[i as int],
            ));
            assert(store_view(store@) =~= store_view(e.store@.subrange(0, i + 1)));
        }
        i += 1;
    }
    proof {
        assert(e.store@.subrange(0, e.store@.len() as int) =~= e.store@);
    }
    let outer: Option<Box<Environment>> = match &e.outer {
        Some(o) => Some(Box::new(duplicate_env(&**o))),
        None => None,
    };
    let r = Environment { store, outer };
    proof {
        assert(r.deep_view() =~= e.deep_view());
    }
    r
}

impl Environment {
    /// An empty top-level environment.
    pub fn new() -> (r: Environment)
        ensures
            r.deep_view() == (EnvModel { store: Seq::<(Seq<char>, ValueModel)>::empty(), outer: None }),
    {
        let r = Environment { store: Vec::new(), outer: None };
        proof {
            lemma_store_view_empty();
            assert(r.deep_view().store == store_view(r.store@));
            assert(r.deep_view() =~= EnvModel {
                store: Seq::<(Seq<char>, ValueModel)>::empty(),
                outer: None,
            });
        }
        r
    }

    /// A fresh scope enclosed in `outer`.
    pub fn new_enclosed(outer: Environment) -> (r: Environment)
        ensures
            r.deep_view() == (EnvModel {
                store: Seq::<(Seq<char>, ValueModel)>::empty(),
                outer: Some(Box::new(outer.deep_view())),
            }),
    {
        let r = Environment { store: Vec::new(), outer: Some(Box::new(outer)) };
        proof {
            lemma_store_view_empty();
            assert(r.deep_view().store == store_view(r.store@));
            assert(r.deep_view().store =~= Seq::<(Seq<char>, ValueModel)>::empty());
        }
        r
    }

    /// Looks `name` up, walking outward through the scope chain; the value
    /// comes back as an owned copy.  Fails exactly when no scope binds the
    /// name.
    pub fn get(&self, name: &String) -> (r: Option<Value>)
        ensures
            match env_get(self.deep_view(), name@) {
                Some(v) => r matches Some(rv) && rv.deep_view() == v,
                None => r is None,
            },
        decreases self,
    {
        let ghost sv = store_view(self.store@);
        let mut i: usize = self.store.len();
        proof {
            lemma_store_view(self.store@);
            assert(sv.subrange(0, i as int) =~= sv);
        }
        while i > 0
            invariant
                i <= self.store@.len(),
                sv == store_view(self.store@),
                sv.len() == self.store@.len(),
                forall|j: int|
                    0 <= j < self.store@.len() ==> sv[j] == (
                    #[trigger] self.store@[j].0@,
                    value_view(self.store@[j].1),
                ),
                bindings_get(sv, name@) == bindings_get(sv.subrange(0, i as int), name@),
            decreases i,
        {
            let idx = i - 1;
            if self.store[idx].0.eq(name) {
                proof {
                    assert(sv.subrange(0, i as int).last() == sv[idx as int]);
                }
                return Some(duplicate_value(&self.store[idx].1));
            }
            proof {
                assert(sv.subrange(0, i as int).drop_last() =~= sv.subrange(0, idx as int));
                assert(sv.subrange(0, i as int).last() == sv[idx as int]);
            }
            i = idx;
        }
        proof {
            assert(sv.subrange(0, 0) =~= Seq::<(Seq<char>, ValueModel)>::empty());
        }
        match &self.outer {
            Some(o) => o.get(name),
            None => None,
        }
    }

    /// Binds `name` to `value` in the innermost scope, shadowing any older
    /// binding of the same name.
    pub fn set(&mut self, name: String, value: Value)
        ensures
            final(self).deep_view() == env_set(
                old(self).deep_view(),
                name@,
                value.deep_view(),
            ),
    {
        let ghost pre = self.store@;
        let ghost nv = name@;
        let ghost vv = value.deep_view();
        let ghost pair = (name, value);
        self.store.push((name, value));
        proof {
            lemma_store_view_push(pre, pair);
            assert(store_view(self.store@) =~= store_view(pre).push((nv, vv)));
            assert(self.deep_view() =~= env_set(old(self).deep_view(), nv, vv));
        }
    }
}

/// Truthiness: booleans as themselves; numbers are truthy when nonzero;
/// strings when non-empty; everything else is truthy.
pub open spec fn truthy(v: ValueModel) -> bool {
    match v {
        ValueModel::Bool(b) => b,
        ValueModel::Int(i) => i != 0,
        ValueModel::Float(bits) => !float_is_zero(bits),
        ValueModel::Str(s) => s.len() != 0,
        _ => true,
    }
}

/// Exec mirror of [`truthy`].
pub fn is_truthy(v: &Value) -> (r: bool)
    ensures
        r == truthy(v.deep_view()),
{
    match v {
        Value::Bool(b) => *b,
        Value::Int(i) => *i != 0,
        Value::Float(bits) => !crate::floatbits::float_is_zero_exec(*bits),
        Value::Str(s) => !s.as_str().is_empty(),
        _ => true,
    }
}

/// The printed text of a value: integers and floats in decimal, strings
/// quoted, booleans as words, closures opaquely, return markers
/// transparently.
pub open spec fn value_text(v: ValueModel) -> Seq<char>
    decreases v,
{
    match v {
        ValueModel::Int(i) => int_text(i),
        ValueModel::Float(bits) => float_text(bits),
        ValueModel::Str(s) => "\""@ + s + "\""@,
        ValueModel::Bool(b) => if b {
            "true"@
        } else {
            "false"@
        },
        ValueModel::Function { .. } => "<function>"@,
        ValueModel::Return(inner) => value_text(*inner),
        ValueModel::Void => "void"@,
    }
}

/// Renders a value as the REPL prints it.
pub fn value_to_string(v: &Value) -> (s: String)
    ensures
        s@ == value_text(v.deep_view()),
    decreases v,
{
    match v {
        Value::Int(i) => int_to_string(*i),
        Value::Float(bits) => float_to_string(*bits),
        Value::Str(s) => {
            let mut out = String::new();
            out.append("\"");
            out.append(s.as_str());
            out.append("\"");
            out
        },
        Value::Bool(b) => {
            if *b {
                String::from_str("true")
            } else {
                String::from_str("false")
            }
        },
        Value::Function { .. } => String::from_str("<function>"),
        Value::Return(inner) => value_to_string(inner),
        Value::Void => String::from_str("void"),
    }
}

/// The runtime failure signal: it aborts the current evaluation and
/// unwinds to the nearest enclosing live block, or to the caller.
#[derive(Debug)]
pub enum Failure {
    /// A name no scope binds.
    IdentifierNotFound { name: String },
    /// Operand types that no rule covers (the operand texts are rendered).
    TypeMismatch { left: String, operator: String, right: String },
    /// An operator the operand types do not support.
    UnknownOperator { left: String, operator: String, right: String },
    /// A prefix operator the operand does not support.
    UnknownPrefixOperator { operator: String, right: String },
    /// Division with a zero divisor, integer or float.
    DivisionByZero,
    /// A call whose callee is not a function value.
    NotAFunction { value: String },
    /// A failed assertion: the evaluated message and the rendered
    /// condition value.
    AssertionFailed { message: String, condition: String },
    /// A live block that used up all its attempts; carries the last
    /// underlying failure.
    Exhausted { attempts: u64, cause: Box<Failure> },
    /// The evaluation depth bound was reached.
    DepthExceeded,
}

/// Mathematical model of a failure.
#[verifier::ext_equal]
pub enum FailureModel {
    IdentifierNotFound { name: Seq<char> },
    TypeMismatch { left: Seq<char>, operator: Seq<char>, right: Seq<char> },
    UnknownOperator { left: Seq<char>, operator: Seq<char>, right: Seq<char> },
    UnknownPrefixOperator { operator: Seq<char>, right: Seq<char> },
    DivisionByZero,
    NotAFunction { value: Seq<char> },
    AssertionFailed { message: Seq<char>, condition: Seq<char> },
    Exhausted { attempts: u64, cause: Box<FailureModel> },
    DepthExceeded,
}

/// The model of a failure.
pub open spec fn failure_view(f: Failure) -> FailureModel
    decreases f,
{
    match f {
        Failure::IdentifierNotFound { name } => FailureModel::IdentifierNotFound { name: name@ },
        Failure::TypeMismatch { left, operator, right } => FailureModel::TypeMismatch {
            left: left@,
            operator: operator@,
            right: right@,
        },
        Failure::UnknownOperator { left, operator, right } => FailureModel::UnknownOperator {
            left: left@,
            operator: operator@,
            right: right@,
        },
        Failure::UnknownPrefixOperator { operator, right } => FailureModel::UnknownPrefixOperator {
            operator: operator@,
            right: right@,
        },
        Failure::DivisionByZero => FailureModel::DivisionByZero,
        Failure::NotAFunction { value } => FailureModel::NotAFunction { value: value@ },
        Failure::AssertionFailed { message, condition } => FailureModel::AssertionFailed {
            message: message@,
            condition: condition@,
        },
        Failure::Exhausted { attempts, cause } => FailureModel::Exhausted {
            attempts,
            cause: Box::new(failure_view(*cause)),
        },
        Failure::DepthExceeded => FailureModel::DepthExceeded,
    }
}

impl DeepView for Failure {
    type V = FailureModel;

    open spec fn deep_view(&self) -> FailureModel {
        failure_view(*self)
    }
}

/// The message text of a failure, one line per failure.
pub open spec fn failure_text(f: FailureModel) -> Seq<char>
    decreases f,
{
    match f {
        FailureModel::IdentifierNotFound { name } => "Identifier not found: "@ + name,
        FailureModel::TypeMismatch { left, operator, right } => "Type mismatch: "@ + left + " "@
            + operator + " "@ + right,
        FailureModel::UnknownOperator { left, operator, right } => "Unknown operator: "@ + left
            + " "@ + operator + " "@ + right,
        FailureModel::UnknownPrefixOperator { operator, right } => "Unknown operator: "@ + operator
            + right,
        FailureModel::DivisionByZero => "Division by zero"@,
        FailureModel::NotAFunction { value } => "Not a function: "@ + value,
        FailureModel::AssertionFailed { message, condition } => "ASSERTION ERROR: "@ + message
            + "\n  - Condition evaluated to: "@ + condition,
        FailureModel::Exhausted { attempts, cause } => "Live block failed after "@
            + crate::text::dec_digits(attempts as nat) + " attempts: "@ + failure_text(*cause),
        FailureModel::DepthExceeded => "Evaluation depth limit exceeded"@,
    }
}

impl Failure {
    /// Renders the failure's message.
    pub fn to_text(&self) -> (s: String)
        ensures
            s@ == failure_text(self.deep_view()),
        decreases self,
    {
        match self {
            Failure::IdentifierNotFound { name } => {
                let mut out = String::from_str("Identifier not found: ");
                out.append(name.as_str());
                out
            },
            Failure::TypeMismatch { left, operator, right } => {
                let mut out = String::from_str("Type mismatch: ");
                out.append(left.as_str());
                out.append(" ");
                out.append(operator.as_str());
                out.append(" ");
                out.append(right.as_str());
                out
            },
            Failure::UnknownOperator { left, operator, right } => {
                let mut out = String::from_str("Unknown operator: ");
                out.append(left.as_str());
                out.append(" ");
                out.append(operator.as_str());
                out.append(" ");
                out.append(right.as_str());
                out
            },
            Failure::UnknownPrefixOperator { operator, right } => {
                let mut out = String::from_str("Unknown operator: ");
                out.append(operator.as_str());
                out.append(right.as_str());
                out
            },
            Failure::DivisionByZero => String::from_str("Division by zero"),
            Failure::NotAFunction { value } => {
                let mut out = String::from_str("Not a function: ");
                out.append(value.as_str());
                out
            },
            Failure::AssertionFailed { message, condition } => {
                let mut out = String::from_str("ASSERTION ERROR: ");
                out.append(message.as_str());
                out.append("\n  - Condition evaluated to: ");
                out.append(condition.as_str());
                out
            },
            Failure::Exhausted { attempts, cause } => {
                let mut out = String::from_str("Live block failed after ");
                let n = crate::text::u64_to_string(*attempts);
                out.append(n.as_str());
                out.append(" attempts: ");
                let inner = cause.to_text();
                out.append(inner.as_str());
                out
            },
            Failure::DepthExceeded => String::from_str("Evaluation depth limit exceeded"),
        }
    }
}

} // verus!
