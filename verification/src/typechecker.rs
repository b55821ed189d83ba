//! The static type checker: a second, independent walk over the AST
//! against an environment of types, mirroring the evaluator's structure.
//! It never runs during evaluation and never touches evaluator state.
use crate::ast::Node;
use crate::ast::NodeModel;
use crate::text::str_eq_lit;
use vstd::prelude::*;

verus! {

/// A static type.  `Any` is the explicit escape hatch: compatible with
/// every type in comparisons and calls.
#[derive(Debug)]
pub enum Type {
    Int,
    Float,
    Str,
    Bool,
    Function { params: Vec<Type>, return_type: Box<Type> },
    Void,
    Any,
}

/// Mathematical model of a static type.
#[verifier::ext_equal]
pub enum TypeModel {
    Int,
    Float,
    Str,
    Bool,
    Function { params: Seq<TypeModel>, return_type: Box<TypeModel> },
    Void,
    Any,
}

/// The models of a list of types.
pub open spec fn types_view(s: Seq<Type>) -> Seq<TypeModel>
    decreases s,
{
    if s.len() == 0 {
        Seq::<TypeModel>::empty()
    } else {
        seq![type_view(s[0])] + types_view(s.drop_first())
    }
}

/// The model of a type.
pub open spec fn type_view(t: Type) -> TypeModel
    decreases t,
{
    match t {
        Type::Int => TypeModel::Int,
        Type::Float => TypeModel::Float,
        Type::Str => TypeModel::Str,
        Type::Bool => TypeModel::Bool,
        Type::Function { params, return_type } => TypeModel::Function {
            params: types_view(params@),
            return_type: Box::new(type_view(*return_type)),
        },
        Type::Void => TypeModel::Void,
        Type::Any => TypeModel::Any,
    }
}

impl DeepView for Type {
    type V = TypeModel;

    open spec fn deep_view(&self) -> TypeModel {
        type_view(*self)
    }
}

/// The type model list indexes pointwise.
pub proof fn lemma_types_view(s: Seq<Type>)
    ensures
        types_view(s).len() == s.len(),
        forall|i: int| 0 <= i < s.len() ==> types_view(s)[i] == type_view(#[trigger] s[i]),
    decreases s,
{
    if s.len() > 0 {
        lemma_types_view(s.drop_first());
        assert forall|i: int| 0 <= i < s.len() implies types_view(s)[i] == type_view(
            #[trigger] s[i],
        ) by {
            if i > 0 {
                assert(s.drop_first()[i - 1] == s[i]);
                assert(types_view(s)[i] == types_view(s.drop_first())[i - 1]);
            }
        }
    }
}

/// A vector of types has the model list of its contents.
pub proof fn lemma_vec_types_view(v: Vec<Type>)
    ensures
        v.deep_view() =~= types_view(v@),
{
    lemma_types_view(v@);
}

/// An owned copy of a type.
pub fn duplicate_type(t: &Type) -> (r: Type)
    ensures
        r.deep_view() == t.deep_view(),
    decreases t,
{
    match t {
        Type::Int => Type::Int,
        Type::Float => Type::Float,
        Type::Str => Type::Str,
        Type::Bool => Type::Bool,
        Type::Function { params, return_type } => {
            let d = duplicate_types(params);
            proof {
                lemma_vec_types_view(d);
                lemma_vec_types_view(*params);
            }
            Type::Function { params: d, return_type: Box::new(duplicate_type(return_type)) }
        },
        Type::Void => Type::Void,
        Type::Any => Type::Any,
    }
}

/// An owned copy of a type list.
#[verifier::loop_isolation(false)]
pub fn duplicate_types(v: &Vec<Type>) -> (r: Vec<Type>)
    ensures
        r.deep_view() == v.deep_view(),
    decreases v,
{
    let mut r: Vec<Type> = Vec::new();
    let mut i: usize = 0;
    while i < v.len()
        invariant
            i <= v@.len(),
            r.deep_view() =~= v.deep_view().subrange(0, i as int),
        decreases v@.len() - i,
    {
        let ghost r0 = r.deep_view();
        let c = duplicate_type(&v[i]);
        r.push(c);
        proof {
            assert(r.deep_view() =~= r0.push(v.deep_view()[i as int]));
            assert(r.deep_view() =~= v.deep_view().subrange(0, i + 1));
        }
        i += 1;
    }
    proof {
        assert(r.deep_view() =~= v.deep_view());
    }
    r
}

/// Whether two types are the same type.
#[verifier::loop_isolation(false)]
pub fn type_eq(a: &Type, b: &Type) -> (r: bool)
    ensures
        r == (a.deep_view() == b.deep_view()),
    decreases a,
{
    match (a, b) {
        (Type::Int, Type::Int) => true,
        (Type::Float, Type::Float) => true,
        (Type::Str, Type::Str) => true,
        (Type::Bool, Type::Bool) => true,
        (Type::Void, Type::Void) => true,
        (Type::Any, Type::Any) => true,
        (
            Type::Function { params: pa, return_type: ra },
            Type::Function { params: pb, return_type: rb },
        ) => {
            proof {
                lemma_vec_types_view(*pa);
                lemma_vec_types_view(*pb);
            }
            if pa.len() != pb.len() {
                proof {
                    assert(pa.deep_view().len() != pb.deep_view().len());
                }
                return false;
            }
            let mut i: usize = 0;
            while i < pa.len()
                invariant
                    i <= pa@.len(),
                    pa@.len() == pb@.len(),
                    forall|j: int| 0 <= j < i ==> pa.deep_view()[j] == pb.deep_view()[j],
                decreases pa@.len() - i,
            {
                if !type_eq(&pa[i], &pb[i]) {
                    proof {
                        assert(pa.deep_view()[i as int] != pb.deep_view()[i as int]);
                    }
                    return false;
                }
                i += 1;
            }
            proof {
                assert(pa.deep_view() =~= pb.deep_view());
            }
            type_eq(ra, rb)
        },
        _ => {
            proof {
                assert(a.deep_view() != b.deep_view());
            }
            false
        },
    }
}

/// The printed names of the types in a function signature, separated by
/// commas.
pub open spec fn types_text(s: Seq<TypeModel>) -> Seq<char>
    decreases s, 0nat,
{
    if s.len() == 0 {
        Seq::<char>::empty()
    } else if s.len() == 1 {
        type_text(s[0])
    } else {
        type_text(s[0]) + ", "@ + types_text(s.drop_first())
    }
}

/// The printed name of a type.
pub open spec fn type_text(t: TypeModel) -> Seq<char>
    decreases t, 1nat,
{
    match t {
        TypeModel::Int => "int"@,
        TypeModel::Float => "float"@,
        TypeModel::Str => "string"@,
        TypeModel::Bool => "bool"@,
        TypeModel::Function { params, return_type } => "fn("@ + types_text(params) + ") -> "@
            + type_text(*return_type),
        TypeModel::Void => "void"@,
        TypeModel::Any => "any"@,
    }
}

impl Type {
    /// Renders the type's printed name.
    pub fn to_text(&self) -> (s: String)
        ensures
            s@ == type_text(self.deep_view()),
        decreases self, 1nat,
    {
        match self {
            Type::Int => String::from_str("int"),
            Type::Float => String::from_str("float"),
            Type::Str => String::from_str("string"),
            Type::Bool => String::from_str("bool"),
            Type::Function { params, return_type } => {
                proof {
                    lemma_vec_types_view(*params);
                }
                let mut out = String::from_str("fn(");
                let ps = Self::params_text(params);
                out.append(ps.as_str());
                out.append(") -> ");
                let rt = return_type.to_text();
                out.append(rt.as_str());
                out
            },
            Type::Void => String::from_str("void"),
            Type::Any => String::from_str("any"),
        }
    }

    /// Renders a parameter list, comma separated.
    #[verifier::loop_isolation(false)]
    fn params_text(params: &Vec<Type>) -> (s: String)
        ensures
            s@ == types_text(params.deep_view()),
        decreases params, 0nat,
    {
        let ghost pm = params.deep_view();
        if params.len() == 0 {
            let s = String::new();
            proof {
                assert(s@ =~= types_text(pm));
            }
            return s;
        }
        let mut out = String::new();
        let mut i: usize = 0;
        proof {
            assert(pm.skip(0) =~= pm);
            assert(out@ + types_text(pm) =~= types_text(pm));
        }
        while i < params.len()
            invariant
                i <= params@.len(),
                pm == params.deep_view(),
                pm.len() == params@.len(),
                params@.len() > 0,
                i < params@.len() ==> out@ + types_text(pm.skip(i as int)) == types_text(pm),
                i == params@.len() ==> out@ == types_text(pm),
            decreases params@.len() - i,
        {
            proof {
                lemma_types_view(params@);
                assert(pm.skip(i as int)[0] == pm[i as int]);
                assert(pm.skip(i as int).drop_first() =~= pm.skip(i + 1));
            }
            let ghost out0 = out@;
            let t = params[i].to_text();
            out.append(t.as_str());
            if i + 1 < params.len() {
                out.append(", ");
                proof {
                    assert(types_text(pm.skip(i as int)) == type_text(pm[i as int]) + ", "@
                        + types_text(pm.skip(i + 1)));
                    assert(out@ + types_text(pm.skip(i + 1)) =~= out0 + types_text(
                        pm.skip(i as int),
                    ));
                }
            } else {
                proof {
                    assert(pm.skip(i as int).len() == 1);
                    assert(types_text(pm.skip(i as int)) == type_text(pm[i as int]));
                }
            }
            i += 1;
        }
        proof {
            assert(out@ == types_text(pm));
        }
        out
    }
}

/// A fault found by the type checker; fatal to the checking pass only.
#[derive(Debug)]
pub enum TypeError {
    /// The checked node was not a program.
    ExpectedProgram,
    /// An assert condition that is not boolean (nor `Any`).
    AssertConditionNotBool { found: Type },
    /// An assert message that is not a string (nor `Any`).
    AssertMessageNotString { found: Type },
    /// An `if` condition that is not boolean (nor `Any`).
    IfConditionNotBool { found: Type },
    /// `if` branches of incompatible types.
    IfBranchMismatch { consequence: Type, alternative: Type },
    /// A name no scope binds.
    UndefinedVariable { name: String },
    /// A prefix operator applied to an unsupported operand type.
    BadPrefixOperand { operator: String, found: Type },
    /// A prefix operator outside the vocabulary.
    UnknownPrefixOperator { operator: String },
    /// Infix operands no rule covers.
    BadInfixOperands { operator: String, left: Type, right: Type },
    /// A comparison between distinct types.
    CannotCompare { left: Type, right: Type },
    /// An infix operator outside the vocabulary.
    UnknownInfixOperator { operator: String },
    /// A call with the wrong number of arguments.
    WrongArgumentCount { expected_count: usize, got_count: usize },
    /// An argument whose type does not match the parameter's.
    ArgumentTypeMismatch { index: usize, expected: Type, got: Type },
    /// A call whose callee is not of function type (nor `Any`).
    NotCallable { found: Type },
    /// A parameter type name outside the fixed vocabulary.
    UnknownTypeName { name: String },
}

/// Mathematical model of a type-checking fault.
#[verifier::ext_equal]
pub enum TypeErrorModel {
    ExpectedProgram,
    AssertConditionNotBool { found: TypeModel },
    AssertMessageNotString { found: TypeModel },
    IfConditionNotBool { found: TypeModel },
    IfBranchMismatch { consequence: TypeModel, alternative: TypeModel },
    UndefinedVariable { name: Seq<char> },
    BadPrefixOperand { operator: Seq<char>, found: TypeModel },
    UnknownPrefixOperator { operator: Seq<char> },
    BadInfixOperands { operator: Seq<char>, left: TypeModel, right: TypeModel },
    CannotCompare { left: TypeModel, right: TypeModel },
    UnknownInfixOperator { operator: Seq<char> },
    WrongArgumentCount { expected_count: nat, got_count: nat },
    ArgumentTypeMismatch { index: nat, expected: TypeModel, got: TypeModel },
    NotCallable { found: TypeModel },
    UnknownTypeName { name: Seq<char> },
}

impl DeepView for TypeError {
    type V = TypeErrorModel;

    open spec fn deep_view(&self) -> TypeErrorModel {
        match self {
            TypeError::ExpectedProgram => TypeErrorModel::ExpectedProgram,
            TypeError::AssertConditionNotBool { found } => TypeErrorModel::AssertConditionNotBool {
                found: found.deep_view(),
            },
            TypeError::AssertMessageNotString { found } => TypeErrorModel::AssertMessageNotString {
                found: found.deep_view(),
            },
            TypeError::IfConditionNotBool { found } => TypeErrorModel::IfConditionNotBool {
                found: found.deep_view(),
            },
            TypeError::IfBranchMismatch { consequence, alternative } => TypeErrorModel::IfBranchMismatch {
                consequence: consequence.deep_view(),
                alternative: alternative.deep_view(),
            },
            TypeError::UndefinedVariable { name } => TypeErrorModel::UndefinedVariable {
                name: name@,
            },
            TypeError::BadPrefixOperand { operator, found } => TypeErrorModel::BadPrefixOperand {
                operator: operator@,
                found: found.deep_view(),
            },
            TypeError::UnknownPrefixOperator { operator } => TypeErrorModel::UnknownPrefixOperator {
                operator: operator@,
            },
            TypeError::BadInfixOperands { operator, left, right } => TypeErrorModel::BadInfixOperands {
                operator: operator@,
                left: left.deep_view(),
                right: right.deep_view(),
            },
            TypeError::CannotCompare { left, right } => TypeErrorModel::CannotCompare {
                left: left.deep_view(),
                right: right.deep_view(),
            },
            TypeError::UnknownInfixOperator { operator } => TypeErrorModel::UnknownInfixOperator {
                operator: operator@,
            },
            TypeError::WrongArgumentCount { expected_count, got_count } => TypeErrorModel::WrongArgumentCount {
                expected_count: *expected_count as nat,
                got_count: *got_count as nat,
            },
            TypeError::ArgumentTypeMismatch { index, expected, got } => TypeErrorModel::ArgumentTypeMismatch {
                index: *index as nat,
                expected: expected.deep_view(),
                got: got.deep_view(),
            },
            TypeError::NotCallable { found } => TypeErrorModel::NotCallable {
                found: found.deep_view(),
            },
            TypeError::UnknownTypeName { name } => TypeErrorModel::UnknownTypeName { name: name@ },
        }
    }
}

/// An environment of types: a chain of scopes, like the value
/// environment, holding static types instead of values.
#[derive(Debug)]
pub struct TypeEnvironment {
    pub store: Vec<(String, Type)>,
    pub outer: Option<Box<TypeEnvironment>>,
}

/// Mathematical model of a type environment chain.
#[verifier::ext_equal]
pub struct TEnvModel {
    pub store: Seq<(Seq<char>, TypeModel)>,
    pub outer: Option<Box<TEnvModel>>,
}

/// The models of the bindings of one scope.
pub open spec fn tstore_view(s: Seq<(String, Type)>) -> Seq<(Seq<char>, TypeModel)>
    decreases s,
{
    if s.len() == 0 {
        Seq::<(Seq<char>, TypeModel)>::empty()
    } else {
        seq![(s[0].0@, type_view(s[0].1))] + tstore_view(s.drop_first())
    }
}

/// The model of a type environment.
pub open spec fn tenv_view(e: TypeEnvironment) -> TEnvModel
    decreases e,
{
    TEnvModel {
        store: tstore_view(e.store@),
        outer: match e.outer {
            Some(o) => Some(Box::new(tenv_view(*o))),
            None => None,
        },
    }
}

impl DeepView for TypeEnvironment {
    type V = TEnvModel;

    open spec fn deep_view(&self) -> TEnvModel {
        tenv_view(*self)
    }
}

/// Appending a binding appends its model.
pub proof fn lemma_tstore_view_push(s: Seq<(String, Type)>, p: (String, Type))
    ensures
        tstore_view(s.push(p)) =~= tstore_view(s).push((p.0@, type_view(p.1))),
    decreases s,
{
    reveal_with_fuel(tstore_view, 2);
    if s.len() == 0 {
        assert(s.push(p).drop_first() =~= Seq::<(String, Type)>::empty());
        assert(s.push(p)[0] == p);
    } else {
        lemma_tstore_view_push(s.drop_first(), p);
        assert(s.push(p).drop_first() =~= s.drop_first().push(p));
        assert(s.push(p)[0] == s[0]);
        assert(tstore_view(s.push(p)) =~= tstore_view(s).push((p.0@, type_view(p.1))));
    }
}

/// The most recent binding of `name` in one scope, if any.
pub open spec fn tbindings_get(b: Seq<(Seq<char>, TypeModel)>, name: Seq<char>) -> Option<
    TypeModel,
>
    decreases b.len(),
{
    if b.len() == 0 {
        None
    } else if b.last().0 == name {
        Some(b.last().1)
    } else {
        tbindings_get(b.drop_last(), name)
    }
}

/// Lookup walking outward through the scope chain.
pub open spec fn tenv_get(e: TEnvModel, name: Seq<char>) -> Option<TypeModel>
    decreases e,
{
    match tbindings_get(e.store, name) {
        Some(t) => Some(t),
        None => match e.outer {
            Some(o) => tenv_get(*o, name),
            None => None,
        },
    }
}

/// Binding a name appends to the innermost scope.
pub open spec fn tenv_set(e: TEnvModel, name: Seq<char>, t: TypeModel) -> TEnvModel {
    TEnvModel { store: e.store.push((name, t)), outer: e.outer }
}

/// An owned copy of a type environment chain.
#[verifier::loop_isolation(false)]
pub fn duplicate_tenv(e: &TypeEnvironment) -> (r: TypeEnvironment)
    ensures
        r.deep_view() == e.deep_view(),
    decreases e,
{
    let mut store: Vec<(String, Type)> = Vec::new();
    let mut i: usize = 0;
    while i < e.store.len()
        invariant
            i <= e.store@.len(),
            tstore_view(store@) =~= tstore_view(e.store@.subrange(0, i as int)),
        decreases e.store@.len() - i,
    {
        let ghost pre = store@;
        let name = e.store[i].0.clone();
        let val = duplicate_type(&e.store[i].1);
        let ghost pair = (name, val);
        store.push((name, val));
        proof {
            lemma_tstore_view_push(pre, pair);
            lemma_tstore_view_push(e.store@.subrange(0, i as int), e.store@[i as int]);
            assert(e.store@.subrange(0, i + 1) =~= e.store@.subrange(0, i as int).push(
                e.store@[i as int],
            ));
            assert(tstore_view(store@) =~= tstore_view(e.store@.subrange(0, i + 1)));
        }
        i += 1;
    }
    proof {
        assert(e.store@.subrange(0, e.store@.len() as int) =~= e.store@);
    }
    let outer: Option<Box<TypeEnvironment>> = match &e.outer {
        Some(o) => Some(Box::new(duplicate_tenv(&**o))),
        None => None,
    };
    let r = TypeEnvironment { store, outer };
    proof {
        assert(r.deep_view() =~= e.deep_view());
    }
    r
}

impl TypeEnvironment {
    /// An empty top-level type environment.
    pub fn new() -> (r: TypeEnvironment)
        ensures
            r.deep_view() == (TEnvModel {
                store: Seq::<(Seq<char>, TypeModel)>::empty(),
                outer: None,
            }),
    {
        let r = TypeEnvironment { store: Vec::new(), outer: None };
        proof {
            assert(r.deep_view().store =~= Seq::<(Seq<char>, TypeModel)>::empty());
            assert(r.deep_view() =~= TEnvModel {
                store: Seq::<(Seq<char>, TypeModel)>::empty(),
                outer: None,
            });
        }
        r
    }

    /// A fresh scope enclosed in `outer`.
    pub fn new_enclosed(outer: TypeEnvironment) -> (r: TypeEnvironment)
        ensures
            r.deep_view() == (TEnvModel {
                store: Seq::<(Seq<char>, TypeModel)>::empty(),
                outer: Some(Box::new(outer.deep_view())),
            }),
    {
        let r = TypeEnvironment { store: Vec::new(), outer: Some(Box::new(outer)) };
        proof {
            assert(r.deep_view().store =~= Seq::<(Seq<char>, TypeModel)>::empty());
        }
        r
    }

    /// Looks a name up, walking outward through the scope chain.
    #[verifier::loop_isolation(false)]
    pub fn get(&self, name: &String) -> (r: Option<Type>)
        ensures
            match tenv_get(self.deep_view(), name@) {
                Some(t) => r matches Some(rt) && rt.deep_view() == t,
                None => r is None,
            },
        decreases self,
    {
        let ghost sv = tstore_view(self.store@);
        let mut i: usize = self.store.len();
        proof {
            lemma_tstore_view_len(self.store@);
            assert(sv.subrange(0, i as int) =~= sv);
        }
        while i > 0
            invariant
                i <= self.store@.len(),
                sv == tstore_view(self.store@),
                sv.len() == self.store@.len(),
                forall|j: int|
                    0 <= j < self.store@.len() ==> sv[j] == (
                    #[trigger] self.store@[j].0@,
                    type_view(self.store@[j].1),
                ),
                tbindings_get(sv, name@) == tbindings_get(sv.subrange(0, i as int), name@),
            decreases i,
        {
            let idx = i - 1;
            if self.store[idx].0.eq(name) {
                proof {
                    assert(sv.subrange(0, i as int).last() == sv[idx as int]);
                }
                return Some(duplicate_type(&self.store[idx].1));
            }
            proof {
                assert(sv.subrange(0, i as int).drop_last() =~= sv.subrange(0, idx as int));
                assert(sv.subrange(0, i as int).last() == sv[idx as int]);
            }
            i = idx;
        }
        proof {
            assert(sv.subrange(0, 0) =~= Seq::<(Seq<char>, TypeModel)>::empty());
        }
        match &self.outer {
            Some(o) => o.get(name),
            None => None,
        }
    }

    /// Binds a name in the innermost scope.
    pub fn set(&mut self, name: String, typ: Type)
        ensures
            final(self).deep_view() == tenv_set(old(self).deep_view(), name@, typ.deep_view()),
    {
        let ghost pre = self.store@;
        let ghost nv = name@;
        let ghost tv = typ.deep_view();
        let ghost pair = (name, typ);
        self.store.push((name, typ));
        proof {
            lemma_tstore_view_push(pre, pair);
            assert(tstore_view(self.store@) =~= tstore_view(pre).push((nv, tv)));
            assert(self.deep_view() =~= tenv_set(old(self).deep_view(), nv, tv));
        }
    }
}

/// Outcome of checking one node: its type or the fault, and the type
/// environment left behind.
#[verifier::ext_equal]
pub struct CheckResult {
    pub outcome: Result<TypeModel, TypeErrorModel>,
    pub env: TEnvModel,
}

/// The fixed vocabulary of parameter type names; the empty name maps to
/// `Any`.
pub open spec fn parse_type_name_spec(name: Seq<char>) -> Result<TypeModel, TypeErrorModel> {
    if name == "int"@ {
        Ok(TypeModel::Int)
    } else if name == "float"@ {
        Ok(TypeModel::Float)
    } else if name == "string"@ {
        Ok(TypeModel::Str)
    } else if name == "bool"@ {
        Ok(TypeModel::Bool)
    } else if name == "void"@ {
        Ok(TypeModel::Void)
    } else if name == ""@ {
        Ok(TypeModel::Any)
    } else {
        Err(TypeErrorModel::UnknownTypeName { name })
    }
}

/// The declared types of a parameter list, or the first bad type name.
pub open spec fn check_params_spec(params: Seq<(Seq<char>, Seq<char>)>) -> Result<
    Seq<TypeModel>,
    TypeErrorModel,
>
    decreases params.len(),
{
    if params.len() == 0 {
        Ok(Seq::<TypeModel>::empty())
    } else {
        match parse_type_name_spec(params[0].0) {
            Err(e) => Err(e),
            Ok(t) => match check_params_spec(params.drop_first()) {
                Err(e) => Err(e),
                Ok(rest) => Ok(seq![t] + rest),
            },
        }
    }
}

/// A successful parameter check yields one type per parameter.
pub proof fn lemma_check_params_len(params: Seq<(Seq<char>, Seq<char>)>)
    ensures
        check_params_spec(params) matches Ok(ts) ==> ts.len() == params.len(),
    decreases params.len(),
{
    if params.len() > 0 {
        lemma_check_params_len(params.drop_first());
    }
}

/// Binds each parameter name to its declared type, in order.
pub open spec fn bind_param_types(
    env: TEnvModel,
    params: Seq<(Seq<char>, Seq<char>)>,
    types: Seq<TypeModel>,
) -> TEnvModel
    decreases params.len(),
{
    if params.len() == 0 || types.len() == 0 {
        env
    } else {
        bind_param_types(
            tenv_set(env, params[0].1, types[0]),
            params.drop_first(),
            types.drop_first(),
        )
    }
}

/// Whether a type may stand where a number is needed.
pub open spec fn numeric_ok(t: TypeModel) -> bool {
    t == TypeModel::Int || t == TypeModel::Float || t == TypeModel::Any
}

/// The static type of a binary application, or the fault.
pub open spec fn infix_type_spec(op: Seq<char>, lt: TypeModel, rt: TypeModel) -> Result<
    TypeModel,
    TypeErrorModel,
> {
    if op == "+"@ || op == "-"@ || op == "*"@ || op == "/"@ {
        if numeric_ok(lt) && numeric_ok(rt) {
            if lt == TypeModel::Float || rt == TypeModel::Float {
                Ok(TypeModel::Float)
            } else {
                Ok(TypeModel::Int)
            }
        } else if op == "+"@ && (lt == TypeModel::Str || rt == TypeModel::Str) {
            Ok(TypeModel::Str)
        } else {
            Err(TypeErrorModel::BadInfixOperands { operator: op, left: lt, right: rt })
        }
    } else if op == "=="@ || op == "!="@ || op == "<"@ || op == ">"@ || op == "<="@ || op
        == ">="@ {
        if lt == rt || lt == TypeModel::Any || rt == TypeModel::Any {
            Ok(TypeModel::Bool)
        } else {
            Err(TypeErrorModel::CannotCompare { left: lt, right: rt })
        }
    } else {
        Err(TypeErrorModel::UnknownInfixOperator { operator: op })
    }
}

/// The static type of a prefix application, or the fault.
pub open spec fn prefix_type_spec(op: Seq<char>, rt: TypeModel) -> Result<
    TypeModel,
    TypeErrorModel,
> {
    if op == "!"@ {
        if rt != TypeModel::Bool && rt != TypeModel::Any {
            Err(TypeErrorModel::BadPrefixOperand { operator: op, found: rt })
        } else {
            Ok(TypeModel::Bool)
        }
    } else if op == "-"@ {
        if rt != TypeModel::Int && rt != TypeModel::Float && rt != TypeModel::Any {
            Err(TypeErrorModel::BadPrefixOperand { operator: op, found: rt })
        } else {
            Ok(rt)
        }
    } else {
        Err(TypeErrorModel::UnknownPrefixOperator { operator: op })
    }
}

/// Checks one node against a type environment: the big static semantics.
pub open spec fn check_spec(n: NodeModel, env: TEnvModel) -> CheckResult
    decreases n, 1nat,
{
    match n {
        NodeModel::Program(stmts) => check_stmts_spec(stmts, env, TypeModel::Void),
        NodeModel::Block(stmts) => {
            let child = TEnvModel {
                store: Seq::<(Seq<char>, TypeModel)>::empty(),
                outer: Some(Box::new(env)),
            };
            let r = check_stmts_spec(stmts, child, TypeModel::Void);
            match r.outcome {
                Err(_) => r,
                Ok(t) => CheckResult { outcome: Ok(t), env },
            }
        },
        NodeModel::Function { name, parameters, body } => {
            match check_params_spec(parameters) {
                Err(e) => CheckResult { outcome: Err(e), env },
                Ok(ptypes) => {
                    let fenv = TEnvModel {
                        store: Seq::<(Seq<char>, TypeModel)>::empty(),
                        outer: Some(Box::new(env)),
                    };
                    let fenv2 = bind_param_types(fenv, parameters, ptypes);
                    let r = check_spec(*body, fenv2);
                    match r.outcome {
                        Err(_) => r,
                        Ok(rt) => CheckResult {
                            outcome: Ok(rt),
                            env: tenv_set(
                                env,
                                name,
                                TypeModel::Function { params: ptypes, return_type: Box::new(rt) },
                            ),
                        },
                    }
                },
            }
        },
        NodeModel::LiveBlock { body } => check_spec(*body, env),
        NodeModel::Assert { condition, message } => {
            let rc = check_spec(*condition, env);
            match rc.outcome {
                Err(_) => rc,
                Ok(ct) => {
                    if ct != TypeModel::Bool && ct != TypeModel::Any {
                        CheckResult {
                            outcome: Err(TypeErrorModel::AssertConditionNotBool { found: ct }),
                            env: rc.env,
                        }
                    } else {
                        match message {
                            None => CheckResult { outcome: Ok(TypeModel::Void), env: rc.env },
                            Some(m) => {
                                let rm = check_spec(*m, rc.env);
                                match rm.outcome {
                                    Err(_) => rm,
                                    Ok(mt) => {
                                        if mt != TypeModel::Str && mt != TypeModel::Any {
                                            CheckResult {
                                                outcome: Err(
                                                    TypeErrorModel::AssertMessageNotString {
                                                        found: mt,
                                                    },
                                                ),
                                                env: rm.env,
                                            }
                                        } else {
                                            CheckResult {
                                                outcome: Ok(TypeModel::Void),
                                                env: rm.env,
                                            }
                                        }
                                    },
                                }
                            },
                        }
                    }
                },
            }
        },
        NodeModel::LetStatement { name, value } => {
            let rv = check_spec(*value, env);
            match rv.outcome {
                Err(_) => rv,
                Ok(t) => CheckResult {
                    outcome: Ok(TypeModel::Void),
                    env: tenv_set(rv.env, name, t),
                },
            }
        },
        NodeModel::ReturnStatement { value } => check_spec(*value, env),
        NodeModel::IfStatement { condition, consequence, alternative } => {
            let rc = check_spec(*condition, env);
            match rc.outcome {
                Err(_) => rc,
                Ok(ct) => {
                    if ct != TypeModel::Bool && ct != TypeModel::Any {
                        CheckResult {
                            outcome: Err(TypeErrorModel::IfConditionNotBool { found: ct }),
                            env: rc.env,
                        }
                    } else {
                        let rcons = check_spec(*consequence, rc.env);
                        match rcons.outcome {
                            Err(_) => rcons,
                            Ok(cons_t) => match alternative {
                                None => CheckResult { outcome: Ok(cons_t), env: rcons.env },
                                Some(a) => {
                                    let ra = check_spec(*a, rcons.env);
                                    match ra.outcome {
                                        Err(_) => ra,
                                        Ok(alt_t) => {
                                            if cons_t != alt_t && cons_t != TypeModel::Any && alt_t
                                                != TypeModel::Any {
                                                CheckResult {
                                                    outcome: Err(
                                                        TypeErrorModel::IfBranchMismatch {
                                                            consequence: cons_t,
                                                            alternative: alt_t,
                                                        },
                                                    ),
                                                    env: ra.env,
                                                }
                                            } else {
                                                CheckResult {
                                                    outcome: Ok(cons_t),
                                                    env: ra.env,
                                                }
                                            }
                                        },
                                    }
                                },
                            },
                        }
                    }
                },
            }
        },
        NodeModel::ExpressionStatement(e) => check_spec(*e, env),
        NodeModel::Identifier(name) => {
            match tenv_get(env, name) {
                Some(t) => CheckResult { outcome: Ok(t), env },
                None => CheckResult {
                    outcome: Err(TypeErrorModel::UndefinedVariable { name }),
                    env,
                },
            }
        },
        NodeModel::IntegerLiteral(_) => CheckResult { outcome: Ok(TypeModel::Int), env },
        NodeModel::FloatLiteral(_) => CheckResult { outcome: Ok(TypeModel::Float), env },
        NodeModel::StringLiteral(_) => CheckResult { outcome: Ok(TypeModel::Str), env },
        NodeModel::BooleanLiteral(_) => CheckResult { outcome: Ok(TypeModel::Bool), env },
        NodeModel::Void => CheckResult { outcome: Ok(TypeModel::Void), env },
        NodeModel::PrefixExpression { operator, right } => {
            let rr = check_spec(*right, env);
            match rr.outcome {
                Err(_) => rr,
                Ok(rt) => CheckResult { outcome: prefix_type_spec(operator, rt), env: rr.env },
            }
        },
        NodeModel::InfixExpression { left, operator, right } => {
            let rl = check_spec(*left, env);
            match rl.outcome {
                Err(_) => rl,
                Ok(lt) => {
                    let rr = check_spec(*right, rl.env);
                    match rr.outcome {
                        Err(_) => rr,
                        Ok(rt) => CheckResult {
                            outcome: infix_type_spec(operator, lt, rt),
                            env: rr.env,
                        },
                    }
                },
            }
        },
        NodeModel::CallExpression { function, arguments } => {
            let rf = check_spec(*function, env);
            match rf.outcome {
                Err(_) => rf,
                Ok(ft) => match ft {
                    TypeModel::Function { params, return_type } => {
                        if arguments.len() != params.len() {
                            CheckResult {
                                outcome: Err(
                                    TypeErrorModel::WrongArgumentCount {
                                        expected_count: params.len(),
                                        got_count: arguments.len(),
                                    },
                                ),
                                env: rf.env,
                            }
                        } else {
                            let ra = check_args_spec(arguments, params, 1, rf.env);
                            match ra.outcome {
                                Err(_) => ra,
                                Ok(_) => CheckResult { outcome: Ok(*return_type), env: ra.env },
                            }
                        }
                    },
                    TypeModel::Any => CheckResult { outcome: Ok(TypeModel::Any), env: rf.env },
                    _ => CheckResult {
                        outcome: Err(TypeErrorModel::NotCallable { found: ft }),
                        env: rf.env,
                    },
                },
            }
        },
    }
}

/// Checks statements in order in a shared environment, carrying the last
/// type.
pub open spec fn check_stmts_spec(stmts: Seq<NodeModel>, env: TEnvModel, last: TypeModel) -> CheckResult
    decreases stmts, 0nat,
{
    if stmts.len() == 0 {
        CheckResult { outcome: Ok(last), env }
    } else {
        let r = check_spec(stmts[0], env);
        match r.outcome {
            Err(_) => r,
            Ok(t) => check_stmts_spec(stmts.drop_first(), r.env, t),
        }
    }
}

/// Checks each argument against its parameter type; `Any` on either side
/// matches anything.  Arguments are numbered from one in the fault.
pub open spec fn check_args_spec(
    args: Seq<NodeModel>,
    params: Seq<TypeModel>,
    idx: nat,
    env: TEnvModel,
) -> CheckResult
    decreases args, 0nat,
{
    if args.len() == 0 || params.len() == 0 {
        CheckResult { outcome: Ok(TypeModel::Void), env }
    } else {
        let r = check_spec(args[0], env);
        match r.outcome {
            Err(_) => r,
            Ok(at) => {
                if at != params[0] && params[0] != TypeModel::Any && at != TypeModel::Any {
                    CheckResult {
                        outcome: Err(
                            TypeErrorModel::ArgumentTypeMismatch {
                                index: idx,
                                expected: params[0],
                                got: at,
                            },
                        ),
                        env: r.env,
                    }
                } else {
                    check_args_spec(args.drop_first(), params.drop_first(), idx + 1, r.env)
                }
            },
        }
    }
}

/// The environment a fresh checker starts with: the built-in `println`.
pub open spec fn initial_tenv() -> TEnvModel {
    tenv_set(
        TEnvModel { store: Seq::<(Seq<char>, TypeModel)>::empty(), outer: None },
        "println"@,
        TypeModel::Function { params: seq![TypeModel::Any], return_type: Box::new(TypeModel::Void) },
    )
}

/// Checking a whole program: the statements in order; anything else is a
/// fault.
pub open spec fn check_program_spec(n: NodeModel, env: TEnvModel) -> CheckResult {
    match n {
        NodeModel::Program(stmts) => check_stmts_spec(stmts, env, TypeModel::Void),
        _ => CheckResult { outcome: Err(TypeErrorModel::ExpectedProgram), env },
    }
}

/// Whether an outcome carries exactly the model outcome.
pub open spec fn toutcome_matches(r: Result<Type, TypeError>, m: Result<
    TypeModel,
    TypeErrorModel,
>) -> bool {
    match (r, m) {
        (Ok(t), Ok(tm)) => t.deep_view() == tm,
        (Err(e), Err(em)) => e.deep_view() == em,
        _ => false,
    }
}

/// Exec mirror of [`parse_type_name_spec`].
pub fn parse_type_name_exec(name: &String) -> (r: Result<Type, TypeError>)
    ensures
        toutcome_matches(r, parse_type_name_spec(name@)),
{
    if str_eq_lit(name.as_str(), "int") {
        Ok(Type::Int)
    } else if str_eq_lit(name.as_str(), "float") {
        Ok(Type::Float)
    } else if str_eq_lit(name.as_str(), "string") {
        Ok(Type::Str)
    } else if str_eq_lit(name.as_str(), "bool") {
        Ok(Type::Bool)
    } else if str_eq_lit(name.as_str(), "void") {
        Ok(Type::Void)
    } else if str_eq_lit(name.as_str(), "") {
        Ok(Type::Any)
    } else {
        Err(TypeError::UnknownTypeName { name: name.clone() })
    }
}

/// The declared types of a parameter list.
#[verifier::loop_isolation(false)]
fn check_params_exec(params: &Vec<(String, String)>) -> (r: Result<Vec<Type>, TypeError>)
    ensures
        match (r, check_params_spec(params.deep_view())) {
            (Ok(v), Ok(vm)) => v.deep_view() == vm,
            (Err(e), Err(em)) => e.deep_view() == em,
            _ => false,
        },
{
    let ghost pm = params.deep_view();
    let mut out: Vec<Type> = Vec::new();
    let mut i: usize = 0;
    proof {
        assert(pm.skip(0) =~= pm);
        assert(out.deep_view() =~= Seq::<TypeModel>::empty());
    }
    while i < params.len()
        invariant
            i <= params@.len(),
            pm == params.deep_view(),
            pm.len() == params@.len(),
            match check_params_spec(pm.skip(i as int)) {
                Ok(rest) => check_params_spec(pm) == Ok::<_, TypeErrorModel>(
                    out.deep_view() + rest,
                ),
                Err(e) => check_params_spec(pm) == Err::<Seq<TypeModel>, _>(e),
            },
        decreases params@.len() - i,
    {
        proof {
            assert(pm.skip(i as int)[0] == pm[i as int]);
            assert(pm[i as int] == params@[i as int].deep_view());
            assert(pm.skip(i as int).drop_first() =~= pm.skip(i + 1));
        }
        match parse_type_name_exec(&params[i].0) {
            Err(e) => {
                return Err(e);
            },
            Ok(t) => {
                let ghost out0 = out.deep_view();
                let ghost tm = t.deep_view();
                out.push(t);
                proof {
                    assert(out.deep_view() =~= out0.push(tm));
                    if let Ok(rest) = check_params_spec(pm.skip(i + 1)) {
                        assert(out0 + (seq![tm] + rest) =~= out.deep_view() + rest);
                    }
                }
            },
        }
        i += 1;
    }
    proof {
        assert(pm.skip(i as int) =~= Seq::<(Seq<char>, Seq<char>)>::empty());
        assert(out.deep_view() + Seq::<TypeModel>::empty() =~= out.deep_view());
    }
    Ok(out)
}

/// Checks statements in order in the given environment, carrying the
/// last type.
#[verifier::loop_isolation(false)]
fn check_stmts_exec(stmts: &Vec<Node>, env: &mut TypeEnvironment) -> (r: Result<Type, TypeError>)
    ensures
        ({
            let s = check_stmts_spec(
                crate::ast::nodes_view(stmts@),
                old(env).deep_view(),
                TypeModel::Void,
            );
            final(env).deep_view() == s.env && toutcome_matches(r, s.outcome)
        }),
    decreases stmts, 0nat,
{
    let ghost sm = crate::ast::nodes_view(stmts@);
    let ghost env0 = env.deep_view();
    let mut last = Type::Void;
    let mut i: usize = 0;
    proof {
        crate::ast::lemma_nodes_view(stmts@);
        assert(sm.skip(0) =~= sm);
    }
    while i < stmts.len()
        invariant
            i <= stmts@.len(),
            sm == crate::ast::nodes_view(stmts@),
            sm.len() == stmts@.len(),
            forall|j: int| 0 <= j < stmts@.len() ==> sm[j] == crate::ast::node_view(
                #[trigger] stmts@[j],
            ),
            check_stmts_spec(sm, env0, TypeModel::Void) == check_stmts_spec(
                sm.skip(i as int),
                env.deep_view(),
                last.deep_view(),
            ),
        decreases stmts@.len() - i,
    {
        proof {
            assert(sm.skip(i as int)[0] == sm[i as int]);
        }
        match check_exec(&stmts[i], env) {
            Err(e) => {
                return Err(e);
            },
            Ok(t) => {
                last = t;
            },
        }
        proof {
            assert(sm.skip(i as int).drop_first() =~= sm.skip(i + 1));
        }
        i += 1;
    }
    proof {
        assert(sm.skip(i as int) =~= Seq::<NodeModel>::empty());
    }
    Ok(last)
}

/// Checks each argument against its parameter type.
#[verifier::loop_isolation(false)]
fn check_args_exec(args: &Vec<Node>, params: &Vec<Type>, env: &mut TypeEnvironment) -> (r: Result<
    (),
    TypeError,
>)
    ensures
        ({
            let s = check_args_spec(
                crate::ast::nodes_view(args@),
                params.deep_view(),
                1,
                old(env).deep_view(),
            );
            &&& final(env).deep_view() == s.env
            &&& match (r, s.outcome) {
                (Ok(_), Ok(_)) => true,
                (Err(e), Err(em)) => e.deep_view() == em,
                _ => false,
            }
        }),
    decreases args, 0nat,
{
    let ghost am = crate::ast::nodes_view(args@);
    let ghost pm = params.deep_view();
    let ghost env0 = env.deep_view();
    let mut i: usize = 0;
    let n = if args.len() < params.len() {
        args.len()
    } else {
        params.len()
    };
    proof {
        crate::ast::lemma_nodes_view(args@);
        lemma_types_view(params@);
        assert(am.skip(0) =~= am);
        assert(pm.skip(0) =~= pm);
    }
    while i < n
        invariant
            i <= n,
            n == if args@.len() < params@.len() {
                args@.len()
            } else {
                params@.len()
            },
            am == crate::ast::nodes_view(args@),
            pm == params.deep_view(),
            am.len() == args@.len(),
            pm.len() == params@.len(),
            forall|j: int| 0 <= j < args@.len() ==> am[j] == crate::ast::node_view(
                #[trigger] args@[j],
            ),
            forall|j: int| 0 <= j < params@.len() ==> pm[j] == type_view(#[trigger] params@[j]),
            check_args_spec(am, pm, 1, env0) == check_args_spec(
                am.skip(i as int),
                pm.skip(i as int),
                (i + 1) as nat,
                env.deep_view(),
            ),
        decreases n - i,
    {
        proof {
            assert(am.skip(i as int)[0] == am[i as int]);
            assert(pm.skip(i as int)[0] == pm[i as int]);
        }
        match check_exec(&args[i], env) {
            Err(e) => {
                return Err(e);
            },
            Ok(at) => {
                let matches_param = type_eq(&at, &params[i]);
                let param_any = matches!(&params[i], Type::Any);
                let at_any = matches!(&at, Type::Any);
                if !matches_param && !param_any && !at_any {
                    return Err(
                        TypeError::ArgumentTypeMismatch {
                            index: i + 1,
                            expected: duplicate_type(&params[i]),
                            got: at,
                        },
                    );
                }
            },
        }
        proof {
            assert(am.skip(i as int).drop_first() =~= am.skip(i + 1));
            assert(pm.skip(i as int).drop_first() =~= pm.skip(i + 1));
        }
        i += 1;
    }
    proof {
        if am.len() < pm.len() {
            assert(am.skip(i as int) =~= Seq::<NodeModel>::empty());
        } else {
            assert(pm.skip(i as int) =~= Seq::<TypeModel>::empty());
        }
    }
    Ok(())
}

/// Checks one node against the environment: the heart of the type
/// checker.
#[verifier::loop_isolation(false)]
#[verifier::rlimit(100)]
pub fn check_exec(node: &Node, env: &mut TypeEnvironment) -> (r: Result<Type, TypeError>)
    ensures
        ({
            let s = check_spec(node.deep_view(), old(env).deep_view());
            final(env).deep_view() == s.env && toutcome_matches(r, s.outcome)
        }),
    decreases node, 1nat,
{
    match node {
        Node::Program(stmts) => check_stmts_exec(stmts, env),
        Node::Block(stmts) => {
            let snapshot = duplicate_tenv(env);
            let mut child = TypeEnvironment::new_enclosed(snapshot);
            match check_stmts_exec(stmts, &mut child) {
                Err(e) => {
                    *env = child;
                    Err(e)
                },
                Ok(t) => Ok(t),
            }
        },
        Node::Function { name, parameters, body } => {
            let ptypes = match check_params_exec(parameters) {
                Err(e) => {
                    return Err(e);
                },
                Ok(p) => p,
            };
            let snapshot = duplicate_tenv(env);
            let mut fenv = TypeEnvironment::new_enclosed(snapshot);
            let ghost fenv0 = fenv.deep_view();
            let ghost pm = parameters.deep_view();
            let ghost tm = ptypes.deep_view();
            let mut i: usize = 0;
            proof {
                lemma_check_params_len(pm);
                assert(pm.skip(0) =~= pm);
                assert(tm.skip(0) =~= tm);
            }
            while i < parameters.len()
                invariant
                    i <= parameters@.len(),
                    pm == parameters.deep_view(),
                    tm == ptypes.deep_view(),
                    pm.len() == parameters@.len(),
                    tm.len() == ptypes@.len(),
                    pm.len() == tm.len(),
                    bind_param_types(fenv0, pm, tm) == bind_param_types(
                        fenv.deep_view(),
                        pm.skip(i as int),
                        tm.skip(i as int),
                    ),
                decreases parameters@.len() - i,
            {
                proof {
                    assert(pm.skip(i as int)[0] == pm[i as int]);
                    assert(tm.skip(i as int)[0] == tm[i as int]);
                    assert(pm[i as int] == parameters@[i as int].deep_view());
                    lemma_types_view(ptypes@);
                    assert(tm[i as int] == type_view(ptypes@[i as int]));
                }
                let pname = parameters[i].1.clone();
                let pt = duplicate_type(&ptypes[i]);
                fenv.set(pname, pt);
                proof {
                    assert(pm.skip(i as int).drop_first() =~= pm.skip(i + 1));
                    assert(tm.skip(i as int).drop_first() =~= tm.skip(i + 1));
                }
                i += 1;
            }
            proof {
                assert(pm.skip(i as int) =~= Seq::<(Seq<char>, Seq<char>)>::empty());
                assert(bind_param_types(fenv0, pm, tm) == fenv.deep_view());
            }
            let rt = match check_exec(body, &mut fenv) {
                Err(e) => {
                    *env = fenv;
                    return Err(e);
                },
                Ok(t) => t,
            };
            let func_type = Type::Function {
                params: ptypes,
                return_type: Box::new(duplicate_type(&rt)),
            };
            proof {
                match &func_type {
                    Type::Function { params: p, .. } => {
                        lemma_vec_types_view(*p);
                    },
                    _ => {},
                }
            }
            env.set(name.clone(), func_type);
            Ok(rt)
        },
        Node::LiveBlock { body } => check_exec(&**body, env),
        Node::Assert { condition, message } => {
            let ct = match check_exec(&**condition, env) {
                Err(e) => {
                    return Err(e);
                },
                Ok(t) => t,
            };
            if !matches!(&ct, Type::Bool) && !matches!(&ct, Type::Any) {
                return Err(TypeError::AssertConditionNotBool { found: ct });
            }
            match message {
                None => Ok(Type::Void),
                Some(m) => {
                    let mt = match check_exec(&**m, env) {
                        Err(e) => {
                            return Err(e);
                        },
                        Ok(t) => t,
                    };
                    if !matches!(&mt, Type::Str) && !matches!(&mt, Type::Any) {
                        return Err(TypeError::AssertMessageNotString { found: mt });
                    }
                    Ok(Type::Void)
                },
            }
        },
        Node::LetStatement { name, value } => {
            let t = match check_exec(&**value, env) {
                Err(e) => {
                    return Err(e);
                },
                Ok(t) => t,
            };
            env.set(name.clone(), t);
            Ok(Type::Void)
        },
        Node::ReturnStatement { value } => check_exec(&**value, env),
        Node::IfStatement { condition, consequence, alternative } => {
            let ct = match check_exec(&**condition, env) {
                Err(e) => {
                    return Err(e);
                },
                Ok(t) => t,
            };
            if !matches!(&ct, Type::Bool) && !matches!(&ct, Type::Any) {
                return Err(TypeError::IfConditionNotBool { found: ct });
            }
            let cons_t = match check_exec(&**consequence, env) {
                Err(e) => {
                    return Err(e);
                },
                Ok(t) => t,
            };
            match alternative {
                None => Ok(cons_t),
                Some(a) => {
                    let alt_t = match check_exec(&**a, env) {
                        Err(e) => {
                            return Err(e);
                        },
                        Ok(t) => t,
                    };
                    let same = type_eq(&cons_t, &alt_t);
                    if !same && !matches!(&cons_t, Type::Any) && !matches!(&alt_t, Type::Any) {
                        return Err(
                            TypeError::IfBranchMismatch { consequence: cons_t, alternative: alt_t },
                        );
                    }
                    Ok(cons_t)
                },
            }
        },
        Node::ExpressionStatement(e) => check_exec(&**e, env),
        Node::Identifier(name) => {
            match env.get(name) {
                Some(t) => Ok(t),
                None => Err(TypeError::UndefinedVariable { name: name.clone() }),
            }
        },
        Node::IntegerLiteral(_) => Ok(Type::Int),
        Node::FloatLiteral(_) => Ok(Type::Float),
        Node::StringLiteral(_) => Ok(Type::Str),
        Node::BooleanLiteral(_) => Ok(Type::Bool),
        Node::Void => Ok(Type::Void),
        Node::PrefixExpression { operator, right } => {
            let rt = match check_exec(&**right, env) {
                Err(e) => {
                    return Err(e);
                },
                Ok(t) => t,
            };
            if str_eq_lit(operator.as_str(), "!") {
                if !matches!(&rt, Type::Bool) && !matches!(&rt, Type::Any) {
                    Err(TypeError::BadPrefixOperand { operator: operator.clone(), found: rt })
                } else {
                    Ok(Type::Bool)
                }
            } else if str_eq_lit(operator.as_str(), "-") {
                if !matches!(&rt, Type::Int) && !matches!(&rt, Type::Float) && !matches!(
                    &rt,
                    Type::Any,
                ) {
                    Err(TypeError::BadPrefixOperand { operator: operator.clone(), found: rt })
                } else {
                    Ok(rt)
                }
            } else {
                Err(TypeError::UnknownPrefixOperator { operator: operator.clone() })
            }
        },
        Node::InfixExpression { left, operator, right } => {
            let lt = match check_exec(&**left, env) {
                Err(e) => {
                    return Err(e);
                },
                Ok(t) => t,
            };
            let rt = match check_exec(&**right, env) {
                Err(e) => {
                    return Err(e);
                },
                Ok(t) => t,
            };
            infix_type_exec(operator, lt, rt)
        },
        Node::CallExpression { function, arguments } => {
            let ft = match check_exec(&**function, env) {
                Err(e) => {
                    return Err(e);
                },
                Ok(t) => t,
            };
            match ft {
                Type::Function { params, return_type } => {
                    proof {
                        lemma_vec_types_view(params);
                        crate::ast::lemma_nodes_view(arguments@);
                    }
                    if arguments.len() != params.len() {
                        return Err(
                            TypeError::WrongArgumentCount {
                                expected_count: params.len(),
                                got_count: arguments.len(),
                            },
                        );
                    }
                    match check_args_exec(arguments, &params, env) {
                        Err(e) => Err(e),
                        Ok(_) => Ok(*return_type),
                    }
                },
                Type::Any => Ok(Type::Any),
                other => Err(TypeError::NotCallable { found: other }),
            }
        },
    }
}

/// Exec mirror of [`infix_type_spec`].
fn infix_type_exec(op: &String, lt: Type, rt: Type) -> (r: Result<Type, TypeError>)
    ensures
        toutcome_matches(r, infix_type_spec(op@, lt.deep_view(), rt.deep_view())),
{
    let arith = str_eq_lit(op.as_str(), "+") || str_eq_lit(op.as_str(), "-") || str_eq_lit(
        op.as_str(),
        "*",
    ) || str_eq_lit(op.as_str(), "/");
    if arith {
        let l_num = matches!(&lt, Type::Int | Type::Float | Type::Any);
        let r_num = matches!(&rt, Type::Int | Type::Float | Type::Any);
        if l_num && r_num {
            if matches!(&lt, Type::Float) || matches!(&rt, Type::Float) {
                Ok(Type::Float)
            } else {
                Ok(Type::Int)
            }
        } else if str_eq_lit(op.as_str(), "+") && (matches!(&lt, Type::Str) || matches!(
            &rt,
            Type::Str,
        )) {
            Ok(Type::Str)
        } else {
            Err(TypeError::BadInfixOperands { operator: op.clone(), left: lt, right: rt })
        }
    } else if str_eq_lit(op.as_str(), "==") || str_eq_lit(op.as_str(), "!=") || str_eq_lit(
        op.as_str(),
        "<",
    ) || str_eq_lit(op.as_str(), ">") || str_eq_lit(op.as_str(), "<=") || str_eq_lit(
        op.as_str(),
        ">=",
    ) {
        let same = type_eq(&lt, &rt);
        if same || matches!(&lt, Type::Any) || matches!(&rt, Type::Any) {
            Ok(Type::Bool)
        } else {
            Err(TypeError::CannotCompare { left: lt, right: rt })
        }
    } else {
        Err(TypeError::UnknownInfixOperator { operator: op.clone() })
    }
}

/// The type checker: owns the environment of types.
pub struct TypeChecker {
    pub env: TypeEnvironment,
}

impl TypeChecker {
    /// A checker with the built-in `println` registered.
    pub fn new() -> (r: TypeChecker)
        ensures
            r.env.deep_view() == initial_tenv(),
    {
        let mut env = TypeEnvironment::new();
        let mut params: Vec<Type> = Vec::new();
        params.push(Type::Any);
        let func = Type::Function { params, return_type: Box::new(Type::Void) };
        proof {
            reveal_with_fuel(types_view, 3);
            reveal_with_fuel(type_view, 2);
            match &func {
                Type::Function { params: p, .. } => {
                    lemma_vec_types_view(*p);
                    assert(p@ =~= seq![Type::Any]);
                    assert(types_view(p@) =~= seq![TypeModel::Any]);
                },
                _ => {},
            }
            assert(func.deep_view() =~= TypeModel::Function {
                params: seq![TypeModel::Any],
                return_type: Box::new(TypeModel::Void),
            });
        }
        env.set(String::from_str("println"), func);
        let r = TypeChecker { env };
        proof {
            assert(r.env.deep_view() =~= initial_tenv());
        }
        r
    }

    /// Checks a whole program in order; anything but a program node is a
    /// fault.
    pub fn check_program(&mut self, program: &Node) -> (r: Result<Type, TypeError>)
        ensures
            ({
                let s = check_program_spec(program.deep_view(), old(self).env.deep_view());
                final(self).env.deep_view() == s.env && toutcome_matches(r, s.outcome)
            }),
    {
        match program {
            Node::Program(stmts) => check_stmts_exec(stmts, &mut self.env),
            _ => Err(TypeError::ExpectedProgram),
        }
    }

    /// Checks one node.
    pub fn check_node(&mut self, node: &Node) -> (r: Result<Type, TypeError>)
        ensures
            ({
                let s = check_spec(node.deep_view(), old(self).env.deep_view());
                final(self).env.deep_view() == s.env && toutcome_matches(r, s.outcome)
            }),
    {
        check_exec(node, &mut self.env)
    }

    /// The fixed vocabulary of parameter type names.
    pub fn parse_type_name(&self, name: &String) -> (r: Result<Type, TypeError>)
        ensures
            toutcome_matches(r, parse_type_name_spec(name@)),
    {
        parse_type_name_exec(name)
    }
}

/// The bindings' models index pointwise.
pub proof fn lemma_tstore_view_len(s: Seq<(String, Type)>)
    ensures
        tstore_view(s).len() == s.len(),
        forall|i: int|
            0 <= i < s.len() ==> tstore_view(s)[i] == (#[trigger] s[i].0@, type_view(s[i].1)),
    decreases s,
{
    if s.len() > 0 {
        lemma_tstore_view_len(s.drop_first());
        assert forall|i: int|
            0 <= i < s.len() implies tstore_view(s)[i] == (#[trigger] s[i].0@, type_view(
            s[i].1,
        )) by {
            if i > 0 {
                assert(s.drop_first()[i - 1] == s[i]);
                assert(tstore_view(s)[i] == tstore_view(s.drop_first())[i - 1]);
            }
        }
    }
}

} // verus!
