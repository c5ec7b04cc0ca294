use vstd::prelude::*;
use vstd::string::StrSliceExecFns;
use vstd::string::StringExecFns;

use crate::operator::Binary;
use crate::operator::Unary;
use crate::text::push_char;
use crate::text::dec_string;
use crate::text::spec_dec_digits;
use crate::text::str_eq;
use crate::token::Identifier;
use crate::token::Literal;
use crate::token::LiteralV;

verus! {

broadcast use vstd::seq::axiom_seq_index_decreases, vstd::std_specs::vec::axiom_vec_decreases_to_view;

/// Mathematical model of a type expression.
#[verifier::ext_equal]
pub enum TypeV {
    Unit,
    I64,
    I32,
    I8,
    U64,
    U32,
    U8,
    F32,
    F64,
    USize,
    Function(Box<FunctionSignatureV>),
    Pointer(Box<TypeV>),
    Const(Box<TypeV>),
    Array { ty: Box<TypeV>, length: int },
    Custom { name: Seq<char>, template_args: Seq<TypeV> },
}

/// Mathematical model of a variable: a name bound to a type.
#[verifier::ext_equal]
pub struct VariableV {
    pub ident: Seq<char>,
    pub type_id: TypeV,
}

/// Mathematical model of a function signature.
#[verifier::ext_equal]
pub struct FunctionSignatureV {
    pub args: Seq<VariableV>,
    pub returns: TypeV,
}

/// Mathematical model of a function: a signature and a body expression.
#[verifier::ext_equal]
pub struct FunctionV {
    pub signature: FunctionSignatureV,
    pub body: Box<ExpressionV>,
}

/// Mathematical model of an expression.
#[verifier::ext_equal]
pub enum ExpressionV {
    Binary { lhs: Box<ExpressionV>, operator: Binary, rhs: Box<ExpressionV> },
    Unary { operator: Unary, expr: Box<ExpressionV> },
    Cast { from: Box<ExpressionV>, to: TypeV },
    FunctionCall { function: Box<ExpressionV>, arguments: Seq<ExpressionV> },
    ObjectReference(Seq<char>),
    ArrayAccess { expr: Box<ExpressionV>, index: Box<ExpressionV> },
    Literal(LiteralV),
    Lambda(FunctionV),
    Scope(Seq<StatementV>),
}

/// Mathematical model of a statement.
#[verifier::ext_equal]
pub enum StatementV {
    Expression(ExpressionV),
    Declaration { var: VariableV, initialisation: Option<ExpressionV> },
    Return(ExpressionV),
}

/// Mathematical model of a top-level statement.
#[verifier::ext_equal]
pub enum TopLevelStatementV {
    Function { ident: Seq<char>, function: FunctionV },
    GlobalVariable { global: VariableV },
}

/// A type expression: primitive scalars, function types, pointers,
/// const-qualified types, fixed-size arrays, and named (template) types.
#[derive(Debug, PartialEq, Eq)]
pub enum Type {
    Unit,
    I64,
    I32,
    I8,
    U64,
    U32,
    U8,
    F32,
    F64,
    USize,
    Function(Box<FunctionSignature>),
    Pointer(Box<Type>),
    Const(Box<Type>),
    Array { ty: Box<Type>, length: usize },
    Custom { name: Identifier, template_args: Vec<Type> },
}

/// A variable: a name bound to a type.
#[derive(Debug, PartialEq, Eq)]
pub struct Variable {
    pub ident: Identifier,
    pub type_id: Type,
}

/// A function signature: the ordered parameters and the return type.
/// Signature identity disregards parameter names: two signatures that
/// differ only there are equal.
#[derive(Debug)]
pub struct FunctionSignature {
    pub args: Vec<Variable>,
    pub returns: Type,
}

/// A function: a signature and a body expression.
#[derive(Debug, PartialEq)]
pub struct Function {
    pub signature: FunctionSignature,
    pub body: Box<Expression>,
}

/// An expression tree node.
#[derive(Debug, PartialEq)]
pub enum Expression {
    Binary { lhs: Box<Expression>, operator: Binary, rhs: Box<Expression> },
    Unary { operator: Unary, expr: Box<Expression> },
    Cast { from: Box<Expression>, to: Type },
    FunctionCall { function: Box<Expression>, arguments: Vec<Expression> },
    ObjectReference(Identifier),
    ArrayAccess { expr: Box<Expression>, index: Box<Expression> },
    Literal(Literal),
    Lambda(Function),
    Scope(Vec<Statement>),
}

/// A statement inside a scope.
#[derive(Debug, PartialEq)]
pub enum Statement {
    Expression(Expression),
    Declaration { var: Variable, initialisation: Option<Expression> },
    Return(Expression),
}

/// A statement valid at module scope.
#[derive(Debug, PartialEq)]
pub enum TopLevelStatement {
    Function { ident: Identifier, function: Function },
    GlobalVariable { global: Variable },
}

pub open spec fn type_view(t: Type) -> TypeV
    decreases t,
{
    match t {
        Type::Unit => TypeV::Unit,
        Type::I64 => TypeV::I64,
        Type::I32 => TypeV::I32,
        Type::I8 => TypeV::I8,
        Type::U64 => TypeV::U64,
        Type::U32 => TypeV::U32,
        Type::U8 => TypeV::U8,
        Type::F32 => TypeV::F32,
        Type::F64 => TypeV::F64,
        Type::USize => TypeV::USize,
        Type::Function(sig) => TypeV::Function(Box::new(signature_view(*sig))),
        Type::Pointer(inner) => TypeV::Pointer(Box::new(type_view(*inner))),
        Type::Const(inner) => TypeV::Const(Box::new(type_view(*inner))),
        Type::Array { ty, length } => TypeV::Array {
            ty: Box::new(type_view(*ty)),
            length: length as int,
        },
        Type::Custom { name, template_args } => TypeV::Custom {
            name: name@,
            template_args: types_view(template_args@),
        },
    }
}

pub open spec fn types_view(v: Seq<Type>) -> Seq<TypeV>
    decreases v,
{
    Seq::new(
        v.len(),
        |i: int| if 0 <= i < v.len() { type_view(v[i]) } else { TypeV::Unit },
    )
}

pub open spec fn variable_view(v: Variable) -> VariableV
    decreases v,
{
    VariableV { ident: v.ident@, type_id: type_view(v.type_id) }
}

pub open spec fn variables_view(v: Seq<Variable>) -> Seq<VariableV>
    decreases v,
{
    Seq::new(
        v.len(),
        |i: int|
            if 0 <= i < v.len() {
                variable_view(v[i])
            } else {
                VariableV { ident: Seq::empty(), type_id: TypeV::Unit }
            },
    )
}

pub open spec fn signature_view(s: FunctionSignature) -> FunctionSignatureV
    decreases s,
{
    FunctionSignatureV { args: variables_view(s.args@), returns: type_view(s.returns) }
}

pub open spec fn function_view(f: Function) -> FunctionV
    decreases f,
{
    FunctionV { signature: signature_view(f.signature), body: Box::new(expression_view(*f.body)) }
}

pub open spec fn expression_view(e: Expression) -> ExpressionV
    decreases e,
{
    match e {
        Expression::Binary { lhs, operator, rhs } => ExpressionV::Binary {
            lhs: Box::new(expression_view(*lhs)),
            operator,
            rhs: Box::new(expression_view(*rhs)),
        },
        Expression::Unary { operator, expr } => ExpressionV::Unary {
            operator,
            expr: Box::new(expression_view(*expr)),
        },
        Expression::Cast { from, to } => ExpressionV::Cast {
            from: Box::new(expression_view(*from)),
            to: type_view(to),
        },
        Expression::FunctionCall { function, arguments } => ExpressionV::FunctionCall {
            function: Box::new(expression_view(*function)),
            arguments: expressions_view(arguments@),
        },
        Expression::ObjectReference(ident) => ExpressionV::ObjectReference(ident@),
        Expression::ArrayAccess { expr, index } => ExpressionV::ArrayAccess {
            expr: Box::new(expression_view(*expr)),
            index: Box::new(expression_view(*index)),
        },
        Expression::Literal(l) => ExpressionV::Literal(l@),
        Expression::Lambda(f) => ExpressionV::Lambda(function_view(f)),
        Expression::Scope(stmts) => ExpressionV::Scope(statements_view(stmts@)),
    }
}

pub open spec fn expressions_view(v: Seq<Expression>) -> Seq<ExpressionV>
    decreases v,
{
    Seq::new(
        v.len(),
        |i: int|
            if 0 <= i < v.len() {
                expression_view(v[i])
            } else {
                ExpressionV::Literal(LiteralV::Unit)
            },
    )
}

pub open spec fn statement_view(s: Statement) -> StatementV
    decreases s,
{
    match s {
        Statement::Expression(e) => StatementV::Expression(expression_view(e)),
        Statement::Declaration { var, initialisation } => StatementV::Declaration {
            var: variable_view(var),
            initialisation: match initialisation {
                Some(e) => Some(expression_view(e)),
                None => None,
            },
        },
        Statement::Return(e) => StatementV::Return(expression_view(e)),
    }
}

pub open spec fn statements_view(v: Seq<Statement>) -> Seq<StatementV>
    decreases v,
{
    Seq::new(
        v.len(),
        |i: int|
            if 0 <= i < v.len() {
                statement_view(v[i])
            } else {
                StatementV::Expression(ExpressionV::Literal(LiteralV::Unit))
            },
    )
}

pub open spec fn top_level_view(t: TopLevelStatement) -> TopLevelStatementV {
    match t {
        TopLevelStatement::Function { ident, function } => TopLevelStatementV::Function {
            ident: ident@,
            function: function_view(function),
        },
        TopLevelStatement::GlobalVariable { global } => TopLevelStatementV::GlobalVariable {
            global: variable_view(global),
        },
    }
}

pub open spec fn top_levels_view(v: Seq<TopLevelStatement>) -> Seq<TopLevelStatementV> {
    Seq::new(v.len(), |i: int| top_level_view(v[i]))
}

impl View for Type {
    type V = TypeV;

    open spec fn view(&self) -> TypeV {
        type_view(*self)
    }
}

impl View for Variable {
    type V = VariableV;

    open spec fn view(&self) -> VariableV {
        variable_view(*self)
    }
}

impl View for FunctionSignature {
    type V = FunctionSignatureV;

    open spec fn view(&self) -> FunctionSignatureV {
        signature_view(*self)
    }
}

impl View for Function {
    type V = FunctionV;

    open spec fn view(&self) -> FunctionV {
        function_view(*self)
    }
}

impl View for Expression {
    type V = ExpressionV;

    open spec fn view(&self) -> ExpressionV {
        expression_view(*self)
    }
}

impl View for Statement {
    type V = StatementV;

    open spec fn view(&self) -> StatementV {
        statement_view(*self)
    }
}

impl View for TopLevelStatement {
    type V = TopLevelStatementV;

    open spec fn view(&self) -> TopLevelStatementV {
        top_level_view(*self)
    }
}

#[verifier::loop_isolation(false)]
pub fn clone_type(t: &Type) -> (r: Type)
    ensures
        r@ == t@,
    decreases t,
{
    match t {
        Type::Unit => Type::Unit,
        Type::I64 => Type::I64,
        Type::I32 => Type::I32,
        Type::I8 => Type::I8,
        Type::U64 => Type::U64,
        Type::U32 => Type::U32,
        Type::U8 => Type::U8,
        Type::F32 => Type::F32,
        Type::F64 => Type::F64,
        Type::USize => Type::USize,
        Type::Function(sig) => Type::Function(Box::new(clone_signature(sig))),
        Type::Pointer(inner) => Type::Pointer(Box::new(clone_type(inner))),
        Type::Const(inner) => Type::Const(Box::new(clone_type(inner))),
        Type::Array { ty, length } => Type::Array {
            ty: Box::new(clone_type(ty)),
            length: *length,
        },
        Type::Custom { name, template_args } => {
            let mut args: Vec<Type> = Vec::new();
            let mut i: usize = 0;
            while i < template_args.len()
                invariant
                    i <= template_args@.len(),
                    args@.len() == i as int,
                    forall|j: int|
                        0 <= j < i as int ==> type_view(#[trigger] args@[j]) == type_view(
                            template_args@[j],
                        ),
                decreases template_args@.len() - i as int,
            {
                proof {
                    assert(decreases_to!(*template_args => template_args@));
                    assert(decreases_to!(template_args@ => template_args@[i as int]));
                }
                args.push(clone_type(&template_args[i]));
                i = i + 1;
            }
            let r = Type::Custom { name: name.clone(), template_args: args };
            proof {
                assert(types_view(args@) =~= types_view(template_args@));
            }
            r
        },
    }
}

pub fn clone_variable(v: &Variable) -> (r: Variable)
    ensures
        r@ == v@,
    decreases v,
{
    Variable { ident: v.ident.clone(), type_id: clone_type(&v.type_id) }
}

#[verifier::loop_isolation(false)]
pub fn clone_signature(s: &FunctionSignature) -> (r: FunctionSignature)
    ensures
        r@ == s@,
    decreases s,
{
    let mut args: Vec<Variable> = Vec::new();
    let mut i: usize = 0;
    while i < s.args.len()
        invariant
            i <= s.args@.len(),
            args@.len() == i as int,
            forall|j: int|
                0 <= j < i as int ==> variable_view(#[trigger] args@[j]) == variable_view(
                    s.args@[j],
                ),
        decreases s.args@.len() - i as int,
    {
        args.push(clone_variable(&s.args[i]));
        i = i + 1;
    }
    let r = FunctionSignature { args, returns: clone_type(&s.returns) };
    proof {
        assert(variables_view(r.args@) =~= variables_view(s.args@));
    }
    r
}

impl Clone for Type {
    fn clone(&self) -> (r: Self)
        ensures
            r@ == self@,
    {
        clone_type(self)
    }
}

impl Clone for Variable {
    fn clone(&self) -> (r: Self)
        ensures
            r@ == self@,
    {
        clone_variable(self)
    }
}

impl Clone for FunctionSignature {
    fn clone(&self) -> (r: Self)
        ensures
            r@ == self@,
    {
        clone_signature(self)
    }
}

/// Type identity: structural equality, except that the parameters of a
/// function signature are compared by their types alone; the names bound
/// to them do not matter.
pub open spec fn type_sim(a: TypeV, b: TypeV) -> bool
    decreases a,
{
    match (a, b) {
        (TypeV::Unit, TypeV::Unit) => true,
        (TypeV::I64, TypeV::I64) => true,
        (TypeV::I32, TypeV::I32) => true,
        (TypeV::I8, TypeV::I8) => true,
        (TypeV::U64, TypeV::U64) => true,
        (TypeV::U32, TypeV::U32) => true,
        (TypeV::U8, TypeV::U8) => true,
        (TypeV::F32, TypeV::F32) => true,
        (TypeV::F64, TypeV::F64) => true,
        (TypeV::USize, TypeV::USize) => true,
        (TypeV::Function(s1), TypeV::Function(s2)) => signature_sim(*s1, *s2),
        (TypeV::Pointer(x), TypeV::Pointer(y)) => type_sim(*x, *y),
        (TypeV::Const(x), TypeV::Const(y)) => type_sim(*x, *y),
        (TypeV::Array { ty: t1, length: l1 }, TypeV::Array { ty: t2, length: l2 }) => l1 == l2
            && type_sim(*t1, *t2),
        (
            TypeV::Custom { name: n1, template_args: a1 },
            TypeV::Custom { name: n2, template_args: a2 },
        ) => n1 == n2 && a1.len() == a2.len() && (forall|i: int|
            0 <= i < a1.len() ==> type_sim(#[trigger] a1[i], a2[i])),
        _ => false,
    }
}

/// Signature identity: same parameter types in the same order and the same
/// return type. Parameter names are irrelevant.
pub open spec fn signature_sim(a: FunctionSignatureV, b: FunctionSignatureV) -> bool
    decreases a,
{
    &&& a.args.len() == b.args.len()
    &&& forall|i: int| 0 <= i < a.args.len() ==> type_sim(#[trigger] a.args[i].type_id, b.args[i].type_id)
    &&& type_sim(a.returns, b.returns)
}

/// Decides type identity (`type_sim`) of two types.
#[verifier::loop_isolation(false)]
pub fn type_eq(a: &Type, b: &Type) -> (r: bool)
    ensures
        r == type_sim(a@, b@),
    decreases a,
{
    match (a, b) {
        (Type::Unit, Type::Unit) => true,
        (Type::I64, Type::I64) => true,
        (Type::I32, Type::I32) => true,
        (Type::I8, Type::I8) => true,
        (Type::U64, Type::U64) => true,
        (Type::U32, Type::U32) => true,
        (Type::U8, Type::U8) => true,
        (Type::F32, Type::F32) => true,
        (Type::F64, Type::F64) => true,
        (Type::USize, Type::USize) => true,
        (Type::Function(s1), Type::Function(s2)) => signature_eq(s1, s2),
        (Type::Pointer(x), Type::Pointer(y)) => type_eq(x, y),
        (Type::Const(x), Type::Const(y)) => type_eq(x, y),
        (Type::Array { ty: t1, length: l1 }, Type::Array { ty: t2, length: l2 }) => *l1 == *l2
            && type_eq(t1, t2),
        (
            Type::Custom { name: n1, template_args: a1 },
            Type::Custom { name: n2, template_args: a2 },
        ) => {
            if !(n1.0 == n2.0) {
                false
            } else if a1.len() != a2.len() {
                false
            } else {
                proof {
                    assert(a@ == TypeV::Custom { name: n1@, template_args: types_view(a1@) });
                    assert(b@ == TypeV::Custom { name: n2@, template_args: types_view(a2@) });
                }
                let mut i: usize = 0;
                while i < a1.len()
                    invariant
                        i <= a1@.len(),
                        a1@.len() == a2@.len(),
                        n1@ == n2@,
                        type_sim(a@, b@) <==> (forall|j: int|
                            0 <= j < a1@.len() ==> type_sim(
                                #[trigger] types_view(a1@)[j],
                                types_view(a2@)[j],
                            )),
                        forall|j: int|
                            0 <= j < i as int ==> type_sim(
                                #[trigger] types_view(a1@)[j],
                                types_view(a2@)[j],
                            ),
                    decreases a1@.len() - i as int,
                {
                    if !type_eq(&a1[i], &a2[i]) {
                        proof {
                            assert(!type_sim(types_view(a1@)[i as int], types_view(a2@)[i as int]));
                        }
                        return false;
                    }
                    i = i + 1;
                }
                true
            }
        },
        _ => false,
    }
}

/// Decides signature identity (`signature_sim`) of two signatures.
#[verifier::loop_isolation(false)]
pub fn signature_eq(a: &FunctionSignature, b: &FunctionSignature) -> (r: bool)
    ensures
        r == signature_sim(a@, b@),
    decreases a,
{
    if a.args.len() != b.args.len() {
        return false;
    }
    let mut i: usize = 0;
    while i < a.args.len()
        invariant
            i <= a.args@.len(),
            a.args@.len() == b.args@.len(),
            forall|j: int|
                0 <= j < i as int ==> type_sim(
                    #[trigger] variables_view(a.args@)[j].type_id,
                    variables_view(b.args@)[j].type_id,
                ),
        decreases a.args@.len() - i as int,
    {
        if !type_eq(&a.args[i].type_id, &b.args[i].type_id) {
            proof {
                assert(!type_sim(
                    variables_view(a.args@)[i as int].type_id,
                    variables_view(b.args@)[i as int].type_id,
                ));
            }
            return false;
        }
        i = i + 1;
    }
    type_eq(&a.returns, &b.returns)
}

impl PartialEq for FunctionSignature {
    fn eq(&self, other: &Self) -> (r: bool) {
        signature_eq(self, other)
    }
}

impl vstd::std_specs::cmp::PartialEqSpecImpl for FunctionSignature {
    open spec fn obeys_eq_spec() -> bool {
        true
    }

    open spec fn eq_spec(&self, other: &Self) -> bool {
        signature_sim(self@, other@)
    }
}

impl Eq for FunctionSignature {

}

/// Const-qualifies a type; a type that is already const-qualified stays as
/// it is, so the wrap is idempotent.
pub open spec fn spec_as_const(t: TypeV) -> TypeV {
    match t {
        TypeV::Const(_) => t,
        _ => TypeV::Const(Box::new(t)),
    }
}

/// Const-qualification is idempotent: qualifying a type twice yields the
/// same type as qualifying it once, whatever the type.
pub proof fn lemma_as_const_idempotent(t: TypeV)
    ensures
        spec_as_const(spec_as_const(t)) == spec_as_const(t),
{
}

/// The base type an identifier names: one of the primitive scalars, or a
/// custom type without template arguments.
pub open spec fn spec_type_of_name(n: Seq<char>) -> TypeV {
    if n == "i64"@ {
        TypeV::I64
    } else if n == "i32"@ {
        TypeV::I32
    } else if n == "i8"@ {
        TypeV::I8
    } else if n == "u64"@ {
        TypeV::U64
    } else if n == "u32"@ {
        TypeV::U32
    } else if n == "u8"@ {
        TypeV::U8
    } else if n == "f32"@ {
        TypeV::F32
    } else if n == "f64"@ {
        TypeV::F64
    } else if n == "unit"@ {
        TypeV::Unit
    } else if n == "usize"@ {
        TypeV::USize
    } else {
        TypeV::Custom { name: n, template_args: Seq::empty() }
    }
}

/// The size of a value of the type, in bytes, where the type has one: the
/// fixed scalar sizes, the platform pointer size for pointers and function
/// types, element size times length for arrays (where the product fits in
/// `usize`), and nothing for custom types.
pub open spec fn spec_size_of(t: TypeV) -> Option<int>
    decreases t,
{
    match t {
        TypeV::Unit => Some(0),
        TypeV::USize => Some(vstd::layout::size_of::<usize>() as int),
        TypeV::I64 => Some(8),
        TypeV::U64 => Some(8),
        TypeV::F64 => Some(8),
        TypeV::I32 => Some(4),
        TypeV::U32 => Some(4),
        TypeV::F32 => Some(4),
        TypeV::U8 => Some(1),
        TypeV::I8 => Some(1),
        TypeV::Const(inner) => spec_size_of(*inner),
        TypeV::Array { ty, length } => match spec_size_of(*ty) {
            Some(x) => if 0 <= x * length <= usize::MAX {
                Some(x * length)
            } else {
                None
            },
            None => None,
        },
        TypeV::Function(_) => Some(vstd::layout::size_of::<usize>() as int),
        TypeV::Pointer(_) => Some(vstd::layout::size_of::<usize>() as int),
        TypeV::Custom { .. } => None,
    }
}

/// The canonical textual rendering of the first `i` template arguments,
/// comma-separated.
pub open spec fn spec_template_args_name(args: Seq<TypeV>, i: int) -> Seq<char>
    decreases args, i,
{
    if i <= 0 || i > args.len() {
        Seq::empty()
    } else if i == 1 {
        spec_type_name(args[0])
    } else {
        spec_template_args_name(args, i - 1) + ", "@ + spec_type_name(args[i - 1])
    }
}

/// The canonical textual rendering of the types of the first `i`
/// parameters, comma-separated.
pub open spec fn spec_sig_args_name(args: Seq<VariableV>, i: int) -> Seq<char>
    decreases args, i,
{
    if i <= 0 || i > args.len() {
        Seq::empty()
    } else if i == 1 {
        spec_type_name(args[0].type_id)
    } else {
        spec_sig_args_name(args, i - 1) + ", "@ + spec_type_name(args[i - 1].type_id)
    }
}

/// The canonical textual rendering of a function signature.
pub open spec fn spec_signature_name(s: FunctionSignatureV) -> Seq<char>
    decreases s, 0int,
{
    "function ("@ + spec_sig_args_name(s.args, s.args.len() as int) + ") => "@ + spec_type_name(
        s.returns,
    )
}

/// The canonical textual rendering of a type: primitives render their
/// lowercase mnemonics; `const T` and `*T` prefix the inner rendering;
/// arrays render as `[T; n]`; custom types render their name and, where
/// template arguments exist, an angle-bracketed comma-separated list.
pub open spec fn spec_type_name(t: TypeV) -> Seq<char>
    decreases t, 0int,
{
    match t {
        TypeV::Unit => "unit"@,
        TypeV::USize => "usize"@,
        TypeV::I64 => "i64"@,
        TypeV::I32 => "i32"@,
        TypeV::I8 => "i8"@,
        TypeV::U64 => "u64"@,
        TypeV::U32 => "u32"@,
        TypeV::U8 => "u8"@,
        TypeV::F32 => "f32"@,
        TypeV::F64 => "f64"@,
        TypeV::Function(sig) => spec_signature_name(*sig),
        TypeV::Const(inner) => "const "@ + spec_type_name(*inner),
        TypeV::Pointer(inner) => "*"@ + spec_type_name(*inner),
        TypeV::Array { ty, length } => "["@ + spec_type_name(*ty) + "; "@ + spec_dec_digits(
            length as nat,
        ) + "]"@,
        TypeV::Custom { name, template_args } => if template_args.len() == 0 {
            name
        } else {
            name + "<"@ + spec_template_args_name(template_args, template_args.len() as int) + ">"@
        },
    }
}

impl Type {
    /// A custom type of the given name, without template arguments.
    pub fn custom(name: &str) -> (r: Self)
        ensures
            r@ == (TypeV::Custom { name: name@, template_args: Seq::<TypeV>::empty() }),
    {
        let r = Type::Custom { name: Identifier(name.to_owned()), template_args: Vec::new() };
        proof {
            assert(types_view(Seq::<Type>::empty()) =~= Seq::<TypeV>::empty());
        }
        r
    }

    /// A custom type of the given name with the given template arguments.
    pub fn template(name: &str, template_args: Vec<Self>) -> (r: Self)
        ensures
            r@ == (TypeV::Custom { name: name@, template_args: types_view(template_args@) }),
    {
        Type::Custom { name: Identifier(name.to_owned()), template_args }
    }

    /// The base type the identifier names.
    pub fn from_name(name: Identifier) -> (r: Self)
        ensures
            r@ == spec_type_of_name(name@),
    {
        let s = name.0.as_str();
        let r = if str_eq(s, "i64") {
            Type::I64
        } else if str_eq(s, "i32") {
            Type::I32
        } else if str_eq(s, "i8") {
            Type::I8
        } else if str_eq(s, "u64") {
            Type::U64
        } else if str_eq(s, "u32") {
            Type::U32
        } else if str_eq(s, "u8") {
            Type::U8
        } else if str_eq(s, "f32") {
            Type::F32
        } else if str_eq(s, "f64") {
            Type::F64
        } else if str_eq(s, "unit") {
            Type::Unit
        } else if str_eq(s, "usize") {
            Type::USize
        } else {
            let r = Type::Custom { name, template_args: Vec::new() };
            proof {
                assert(types_view(Seq::<Type>::empty()) =~= Seq::<TypeV>::empty());
            }
            r
        };
        r
    }

    /// An array of this element type with the given length.
    pub fn as_array(&self, length: usize) -> (r: Self)
        ensures
            r@ == (TypeV::Array { ty: Box::new(self@), length: length as int }),
    {
        Type::Array { ty: Box::new(self.clone()), length }
    }

    /// A pointer to this type.
    pub fn as_pointer(&self) -> (r: Self)
        ensures
            r@ == TypeV::Pointer(Box::new(self@)),
    {
        Type::Pointer(Box::new(self.clone()))
    }

    /// This type const-qualified; a type that is already const stays as it
    /// is, so the wrap is idempotent.
    pub fn as_const(&self) -> (r: Self)
        ensures
            r@ == spec_as_const(self@),
    {
        match self {
            Type::Const(_) => self.clone(),
            _ => Type::Const(Box::new(self.clone())),
        }
    }

    /// The size of a value of this type in bytes, where the type has one.
    pub fn size_of(&self) -> (r: Option<usize>)
        ensures
            match spec_size_of(self@) {
                Option::Some(v) => r matches Some(u) && u as int == v,
                Option::None => r is None,
            },
        decreases self,
    {
        match self {
            Type::Unit => Some(0),
            Type::USize => Some(core::mem::size_of::<usize>()),
            Type::I64 => Some(8),
            Type::U64 => Some(8),
            Type::F64 => Some(8),
            Type::I32 => Some(4),
            Type::U32 => Some(4),
            Type::F32 => Some(4),
            Type::U8 => Some(1),
            Type::I8 => Some(1),
            Type::Const(inner) => inner.size_of(),
            Type::Array { ty, length } => match ty.size_of() {
                Some(x) => x.checked_mul(*length),
                None => None,
            },
            Type::Function(_) => Some(core::mem::size_of::<usize>()),
            Type::Pointer(_) => Some(core::mem::size_of::<usize>()),
            Type::Custom { .. } => None,
        }
    }

    /// The canonical textual rendering of this type.
    #[verifier::loop_isolation(false)]
    pub fn name(&self) -> (r: String)
        ensures
            r@ == spec_type_name(self@),
        decreases self, 1int,
    {
        match self {
            Type::Unit => { return "unit".to_owned(); },
            Type::USize => { return "usize".to_owned(); },
            Type::I64 => { return "i64".to_owned(); },
            Type::I32 => { return "i32".to_owned(); },
            Type::I8 => { return "i8".to_owned(); },
            Type::U64 => { return "u64".to_owned(); },
            Type::U32 => { return "u32".to_owned(); },
            Type::U8 => { return "u8".to_owned(); },
            Type::F32 => { return "f32".to_owned(); },
            Type::F64 => { return "f64".to_owned(); },
            Type::Function(sig) => { return sig.name(); },
            Type::Const(inner) => {
                let mut r = "const ".to_owned();
                r.append(inner.name().as_str());
                return r;
            },
            Type::Pointer(inner) => {
                let mut r = "*".to_owned();
                r.append(inner.name().as_str());
                return r;
            },
            Type::Array { ty, length } => {
                let mut r = "[".to_owned();
                r.append(ty.name().as_str());
                r.append("; ");
                r.append(dec_string(*length).as_str());
                r.append("]");
                return r;
            },
            Type::Custom { name, template_args } => {
                let ghost argsv = types_view(template_args@);
                proof {
                    assert(self@ == TypeV::Custom { name: name@, template_args: argsv });
                }
                let mut r = name.0.clone();
                if template_args.len() > 0 {
                    r.append("<");
                    proof {
                        assert(r@ =~= name@ + "<"@ + spec_template_args_name(argsv, 0));
                    }
                    let mut i: usize = 0;
                    while i < template_args.len()
                        invariant
                            1 <= template_args@.len(),
                            i <= template_args@.len(),
                            argsv == types_view(template_args@),
                            argsv.len() == template_args@.len(),
                            r@ == name@ + "<"@ + spec_template_args_name(argsv, i as int),
                        decreases template_args@.len() - i as int,
                    {
                        if i > 0 {
                            r.append(", ");
                        }
                        r.append(template_args[i].name().as_str());
                        proof {
                            assert(r@ =~= name@ + "<"@ + spec_template_args_name(
                                argsv,
                                i as int + 1,
                            ));
                        }
                        i = i + 1;
                    }
                    r.append(">");
                    proof {
                        assert(r@ == name@ + "<"@ + spec_template_args_name(
                            argsv,
                            argsv.len() as int,
                        ) + ">"@);
                        assert(spec_type_name(self@) == name@ + "<"@ + spec_template_args_name(
                            argsv,
                            argsv.len() as int,
                        ) + ">"@);
                    }
                }
                return r;
            },
        }
    }
}

impl FunctionSignature {
    /// A signature with the given named parameters and return type.
    pub fn new_named(args: Vec<Variable>, returns: Type) -> (r: Self)
        ensures
            r@ == (FunctionSignatureV { args: variables_view(args@), returns: returns@ }),
    {
        FunctionSignature { args, returns }
    }

    /// A signature over parameter types alone; every parameter gets an
    /// empty name.
    #[verifier::loop_isolation(false)]
    pub fn new(args: Vec<Type>, returns: Type) -> (r: Self)
        ensures
            r@.returns == returns@,
            r@.args.len() == args@.len(),
            forall|i: int|
                0 <= i < args@.len() ==> #[trigger] r@.args[i] == (VariableV {
                    ident: Seq::<char>::empty(),
                    type_id: type_view(args@[i]),
                }),
    {
        let mut vars: Vec<Variable> = Vec::new();
        let mut i: usize = 0;
        while i < args.len()
            invariant
                i <= args@.len(),
                vars@.len() == i as int,
                forall|j: int|
                    0 <= j < i as int ==> variable_view(#[trigger] vars@[j]) == (VariableV {
                        ident: Seq::<char>::empty(),
                        type_id: type_view(args@[j]),
                    }),
            decreases args@.len() - i as int,
        {
            vars.push(
                Variable { ident: Identifier(String::new()), type_id: clone_type(&args[i]) },
            );
            i = i + 1;
        }
        FunctionSignature { args: vars, returns }
    }

    /// This signature as a function type.
    pub fn as_type(&self) -> (r: Type)
        ensures
            r@ == TypeV::Function(Box::new(self@)),
    {
        Type::Function(Box::new(self.clone()))
    }

    /// The canonical textual rendering of this signature as a function
    /// type.
    #[verifier::loop_isolation(false)]
    pub fn name(&self) -> (r: String)
        ensures
            r@ == spec_signature_name(self@),
        decreases self, 0int,
    {
        let mut r = "function (".to_owned();
        let ghost argsv = variables_view(self.args@);
        proof {
            assert(r@ =~= "function ("@ + spec_sig_args_name(argsv, 0));
        }
        let mut i: usize = 0;
        while i < self.args.len()
            invariant
                i <= self.args@.len(),
                argsv == variables_view(self.args@),
                argsv.len() == self.args@.len(),
                r@ == "function ("@ + spec_sig_args_name(argsv, i as int),
            decreases self.args@.len() - i as int,
        {
            if i > 0 {
                r.append(", ");
            }
            r.append(self.args[i].type_id.name().as_str());
            proof {
                assert(r@ =~= "function ("@ + spec_sig_args_name(argsv, i as int + 1));
            }
            i = i + 1;
        }
        r.append(") => ");
        r.append(self.returns.name().as_str());
        r
    }
}

impl Variable {
    /// A variable of the given name and type.
    pub fn new(ident: &str, type_id: Type) -> (r: Self)
        ensures
            r@ == (VariableV { ident: ident@, type_id: type_id@ }),
    {
        Variable { ident: Identifier(ident.to_owned()), type_id }
    }

    /// The variable's name.
    pub fn get_name(&self) -> (r: &Identifier)
        ensures
            r@ == self@.ident,
    {
        &self.ident
    }

    /// The variable's type.
    pub fn get_type(&self) -> (r: &Type)
        ensures
            r@ == self@.type_id,
    {
        &self.type_id
    }
}

} // verus!
