use vstd::prelude::*;

use crate::ast::TypeV;
use crate::ast::spec_as_const;
use crate::ast::spec_type_name;
use crate::ast::spec_type_of_name;
use crate::context::ErrorV;
use crate::context::cur;
use crate::grammar::spec_consume_type;
use crate::grammar::spec_template_args;
use crate::lexer::LexerErrorV;
use crate::lexer::lemma_scan_ident_run;
use crate::lexer::spec_tokenize;
use crate::lexer::lemma_lex_projection;
use crate::lexer::spec_lex_tokens;
use crate::lexer::spec_step;
use crate::lexer::spec_word_token;
use crate::lexer::spec_double_op;
use crate::lexer::spec_simple_op;
use crate::lexer::spec_paren;
use crate::text::spec_dec_digits;
use crate::text::spec_is_whitespace;
use crate::text::spec_is_digit;
use crate::text::spec_is_ident_char;
use crate::token::Keyword;
use crate::token::LiteralV;
use crate::token::Operator;
use crate::token::Parenthetical;
use crate::token::TokenV;

verus! {

broadcast use vstd::string::group_string_axioms;

/// Whether the canonical rendering of the type ends in a `>` character:
/// exactly the custom types with template arguments, and anything that
/// wraps one directly.
pub open spec fn name_ends_gt(t: TypeV) -> bool
    decreases t,
{
    match t {
        TypeV::Custom { name: _, template_args } => template_args.len() > 0,
        TypeV::Const(u) => name_ends_gt(*u),
        TypeV::Pointer(u) => name_ends_gt(*u),
        TypeV::Function(_) => true,
        _ => false,
    }
}

/// A name a custom type can carry and get back from its rendering: a
/// non-empty run of identifier characters that does not start with a
/// digit and is no reserved word, word operator, boolean literal or
/// primitive type name.
pub open spec fn valid_custom_name(n: Seq<char>) -> bool {
    &&& n.len() > 0
    &&& forall|i: int| 0 <= i < n.len() ==> spec_is_ident_char(#[trigger] n[i])
    &&& !spec_is_digit(n[0])
    &&& n != "and"@
    &&& n != "or"@
    &&& n != "not"@
    &&& n != "xor"@
    &&& n != "mod"@
    &&& n != "no_cap"@
    &&& n != "true"@
    &&& n != "cap"@
    &&& n != "false"@
    &&& n != "function"@
    &&& n != "return"@
    &&& n != "break"@
    &&& n != "while"@
    &&& n != "for"@
    &&& n != "let"@
    &&& n != "var"@
    &&& n != "in"@
    &&& n != "const"@
    &&& n != "as"@
    &&& n != "i64"@
    &&& n != "i32"@
    &&& n != "i8"@
    &&& n != "u64"@
    &&& n != "u32"@
    &&& n != "u8"@
    &&& n != "f32"@
    &&& n != "f64"@
    &&& n != "unit"@
    &&& n != "usize"@
}

/// The types whose canonical rendering parses back to the same type: no
/// function types (the type grammar has no alternative for them), no
/// directly nested const qualification (parsing collapses it), array
/// lengths that fit both a size and an integer literal, custom names that
/// read back as identifiers, and no template list whose last argument
/// itself ends in `>` (the two closing characters would lex as one
/// shift operator).
pub open spec fn round_trippable(t: TypeV) -> bool
    decreases t,
{
    match t {
        TypeV::Function(_) => false,
        TypeV::Const(u) => !(*u is Const) && round_trippable(*u),
        TypeV::Pointer(u) => round_trippable(*u),
        TypeV::Array { ty, length } => 0 <= length && length <= i64::MAX as int && length
            <= usize::MAX as int && round_trippable(*ty),
        TypeV::Custom { name, template_args } => {
            &&& valid_custom_name(name)
            &&& forall|i: int|
                0 <= i < template_args.len() ==> round_trippable(#[trigger] template_args[i])
            &&& (template_args.len() > 0 ==> !name_ends_gt(template_args.last()))
        },
        _ => true,
    }
}

/// The token sequence the canonical rendering of a type lexes to.
pub open spec fn spec_type_tokens(t: TypeV) -> Seq<TokenV>
    decreases t, 0int,
{
    match t {
        TypeV::Unit => seq![TokenV::Identifier("unit"@)],
        TypeV::USize => seq![TokenV::Identifier("usize"@)],
        TypeV::I64 => seq![TokenV::Identifier("i64"@)],
        TypeV::I32 => seq![TokenV::Identifier("i32"@)],
        TypeV::I8 => seq![TokenV::Identifier("i8"@)],
        TypeV::U64 => seq![TokenV::Identifier("u64"@)],
        TypeV::U32 => seq![TokenV::Identifier("u32"@)],
        TypeV::U8 => seq![TokenV::Identifier("u8"@)],
        TypeV::F32 => seq![TokenV::Identifier("f32"@)],
        TypeV::F64 => seq![TokenV::Identifier("f64"@)],
        TypeV::Function(_) => Seq::empty(),
        TypeV::Const(u) => seq![TokenV::Keyword(Keyword::Const)] + spec_type_tokens(*u),
        TypeV::Pointer(u) => seq![TokenV::Operator(Operator::Star)] + spec_type_tokens(*u),
        TypeV::Array { ty, length } => seq![
            TokenV::Parenthetical(Parenthetical::BracketOpen),
        ] + spec_type_tokens(*ty) + seq![
            TokenV::Operator(Operator::SemiColon),
            TokenV::Literal(LiteralV::Integer(length)),
            TokenV::Parenthetical(Parenthetical::BracketClose),
        ],
        TypeV::Custom { name, template_args } => if template_args.len() == 0 {
            seq![TokenV::Identifier(name)]
        } else {
            seq![TokenV::Identifier(name), TokenV::Operator(Operator::Less)]
                + spec_args_tokens(template_args, 0) + seq![TokenV::Operator(Operator::Greater)]
        },
    }
}

/// The token sequence of the template arguments from index `i` on,
/// comma-separated, without the closing `>`.
pub open spec fn spec_args_tokens(args: Seq<TypeV>, i: int) -> Seq<TokenV>
    decreases args, args.len() - i,
{
    if i < 0 || i >= args.len() {
        Seq::empty()
    } else if i == args.len() - 1 {
        spec_type_tokens(args[i])
    } else {
        spec_type_tokens(args[i]) + seq![TokenV::Operator(Operator::Comma)] + spec_args_tokens(
            args,
            i + 1,
        )
    }
}

/// A token a complete rendered type may be followed by without changing
/// how it parses: a separator of the surrounding form, or the end of the
/// input.
pub open spec fn follower_ok(t: TokenV) -> bool {
    ||| t == TokenV::Operator(Operator::Comma)
    ||| t == TokenV::Operator(Operator::Greater)
    ||| t == TokenV::Operator(Operator::SemiColon)
    ||| t == TokenV::EndOfInput
}

/// Parsing inverts rendering at the token level: wherever the token
/// sequence of a round-trippable type stands in the stream, followed by a
/// separator or the end of the input, the type grammar reads exactly that
/// type and stops exactly after its tokens.
pub proof fn lemma_parse_type_tokens(t: TypeV, toks: Seq<TokenV>, pos: int)
    requires
        round_trippable(t),
        0 <= pos,
        pos + spec_type_tokens(t).len() < toks.len(),
        toks.subrange(pos, pos + spec_type_tokens(t).len()) == spec_type_tokens(t),
        follower_ok(toks[pos + spec_type_tokens(t).len()]),
    ensures
        spec_consume_type(toks, pos) == Ok::<(TypeV, int), ErrorV>(
            (t, pos + spec_type_tokens(t).len()),
        ),
    decreases t, 0int,
{
    let n = spec_type_tokens(t).len() as int;
    assert(forall|k: int|
        0 <= k < n ==> #[trigger] spec_type_tokens(t)[k] == toks[pos + k]) by {
        assert(forall|k: int|
            0 <= k < n ==> #[trigger] spec_type_tokens(t)[k] == toks.subrange(pos, pos + n)[k]);
    }
    match t {
        TypeV::Function(_) => {
            assert(false);
        },
        TypeV::Const(u) => {
            let m = spec_type_tokens(*u).len() as int;
            assert(spec_type_tokens(t)[0] == TokenV::Keyword(Keyword::Const));
            assert(toks[pos] == TokenV::Keyword(Keyword::Const));
            assert(toks.subrange(pos + 1, pos + 1 + m) =~= spec_type_tokens(*u)) by {
                assert(forall|k: int|
                    0 <= k < m ==> #[trigger] spec_type_tokens(*u)[k] == spec_type_tokens(t)[1 + k]);
            }
            lemma_parse_type_tokens(*u, toks, pos + 1);
            assert(spec_as_const(*u) == t);
        },
        TypeV::Pointer(u) => {
            let m = spec_type_tokens(*u).len() as int;
            assert(spec_type_tokens(t)[0] == TokenV::Operator(Operator::Star));
            assert(toks[pos] == TokenV::Operator(Operator::Star));
            assert(toks.subrange(pos + 1, pos + 1 + m) =~= spec_type_tokens(*u)) by {
                assert(forall|k: int|
                    0 <= k < m ==> #[trigger] spec_type_tokens(*u)[k] == spec_type_tokens(t)[1 + k]);
            }
            lemma_parse_type_tokens(*u, toks, pos + 1);
        },
        TypeV::Array { ty, length } => {
            let m = spec_type_tokens(*ty).len() as int;
            assert(spec_type_tokens(t)[0] == TokenV::Parenthetical(Parenthetical::BracketOpen));
            assert(spec_type_tokens(t)[1 + m] == TokenV::Operator(Operator::SemiColon));
            assert(spec_type_tokens(t)[2 + m] == TokenV::Literal(LiteralV::Integer(length)));
            assert(spec_type_tokens(t)[3 + m] == TokenV::Parenthetical(Parenthetical::BracketClose));
            assert(toks[pos] == TokenV::Parenthetical(Parenthetical::BracketOpen));
            assert(toks[pos + 1 + m] == TokenV::Operator(Operator::SemiColon));
            assert(toks[pos + 2 + m] == TokenV::Literal(LiteralV::Integer(length)));
            assert(toks[pos + 3 + m] == TokenV::Parenthetical(Parenthetical::BracketClose));
            assert(toks.subrange(pos + 1, pos + 1 + m) =~= spec_type_tokens(*ty)) by {
                assert(forall|k: int|
                    0 <= k < m ==> #[trigger] spec_type_tokens(*ty)[k] == spec_type_tokens(t)[1 + k]);
            }
            lemma_parse_type_tokens(*ty, toks, pos + 1);
        },
        TypeV::Custom { name, template_args } => {
            if template_args.len() == 0 {
                assert(spec_type_tokens(t)[0] == TokenV::Identifier(name));
                assert(toks[pos] == TokenV::Identifier(name));
                assert(template_args =~= Seq::<TypeV>::empty());
                assert(spec_type_of_name(name) == t);
                assert(cur(toks, pos + 1) != TokenV::Operator(Operator::Less));
            } else {
                let k = spec_args_tokens(template_args, 0).len() as int;
                assert(spec_type_tokens(t)[0] == TokenV::Identifier(name));
                assert(spec_type_tokens(t)[1] == TokenV::Operator(Operator::Less));
                assert(spec_type_tokens(t)[2 + k] == TokenV::Operator(Operator::Greater));
                assert(toks[pos] == TokenV::Identifier(name));
                assert(toks[pos + 1] == TokenV::Operator(Operator::Less));
                assert(toks[pos + 2 + k] == TokenV::Operator(Operator::Greater));
                assert(toks.subrange(pos + 2, pos + 2 + k) =~= spec_args_tokens(template_args, 0))
                    by {
                    assert(forall|j: int|
                        0 <= j < k ==> #[trigger] spec_args_tokens(template_args, 0)[j]
                            == spec_type_tokens(t)[2 + j]);
                }
                lemma_parse_args_tokens(template_args, 0, toks, pos + 2, Seq::empty());
                assert(spec_type_of_name(name) == (TypeV::Custom {
                    name,
                    template_args: Seq::empty(),
                }));
                assert(Seq::<TypeV>::empty() + template_args.subrange(0, template_args.len() as int)
                    =~= template_args);
            }
        },
        _ => {
            lemma_primitive_names();
            assert(toks[pos] == spec_type_tokens(t)[0]);
        },
    }
}

/// The renderings of the ten primitive types are the words their names
/// look up to: each resolves to its own scalar in the base-type table.
pub proof fn lemma_primitive_names()
    ensures
        spec_type_of_name("unit"@) == TypeV::Unit,
        spec_type_of_name("usize"@) == TypeV::USize,
        spec_type_of_name("i64"@) == TypeV::I64,
        spec_type_of_name("i32"@) == TypeV::I32,
        spec_type_of_name("i8"@) == TypeV::I8,
        spec_type_of_name("u64"@) == TypeV::U64,
        spec_type_of_name("u32"@) == TypeV::U32,
        spec_type_of_name("u8"@) == TypeV::U8,
        spec_type_of_name("f32"@) == TypeV::F32,
        spec_type_of_name("f64"@) == TypeV::F64,
{
    reveal_strlit("unit");
    reveal_strlit("usize");
    reveal_strlit("i64");
    reveal_strlit("i32");
    reveal_strlit("i8");
    reveal_strlit("u64");
    reveal_strlit("u32");
    reveal_strlit("u8");
    reveal_strlit("f32");
    reveal_strlit("f64");
    assert("unit"@.len() == 4 && "unit"@[0] == 'u' && "unit"@[1] == 'n');
    assert("usize"@.len() == 5 && "usize"@[0] == 'u' && "usize"@[1] == 's');
    assert("i64"@.len() == 3 && "i64"@[0] == 'i' && "i64"@[1] == '6');
    assert("i32"@.len() == 3 && "i32"@[0] == 'i' && "i32"@[1] == '3');
    assert("i8"@.len() == 2 && "i8"@[0] == 'i' && "i8"@[1] == '8');
    assert("u64"@.len() == 3 && "u64"@[0] == 'u' && "u64"@[1] == '6');
    assert("u32"@.len() == 3 && "u32"@[0] == 'u' && "u32"@[1] == '3');
    assert("u8"@.len() == 2 && "u8"@[0] == 'u' && "u8"@[1] == '8');
    assert("f32"@.len() == 3 && "f32"@[0] == 'f' && "f32"@[1] == '3');
    assert("f64"@.len() == 3 && "f64"@[0] == 'f' && "f64"@[1] == '6');
}

/// Parsing inverts rendering for a template argument list: wherever the
/// token sequences of the arguments from index `i` on stand
/// comma-separated in the stream with the closing `>` after them, the
/// argument-list grammar reads exactly those types and stops after the
/// `>`.
pub proof fn lemma_parse_args_tokens(
    args: Seq<TypeV>,
    i: int,
    toks: Seq<TokenV>,
    pos: int,
    acc: Seq<TypeV>,
)
    requires
        0 <= i < args.len(),
        forall|j: int| 0 <= j < args.len() ==> round_trippable(#[trigger] args[j]),
        !name_ends_gt(args.last()),
        0 <= pos,
        pos + spec_args_tokens(args, i).len() + 1 < toks.len(),
        toks.subrange(pos, pos + spec_args_tokens(args, i).len()) == spec_args_tokens(args, i),
        toks[pos + spec_args_tokens(args, i).len()] == TokenV::Operator(Operator::Greater),
    ensures
        spec_template_args(toks, pos, acc) == Ok::<(Seq<TypeV>, int), ErrorV>(
            (
                acc + args.subrange(i, args.len() as int),
                pos + spec_args_tokens(args, i).len() + 1,
            ),
        ),
    decreases args, args.len() - i,
{
    let n = spec_args_tokens(args, i).len() as int;
    assert(forall|k: int|
        0 <= k < n ==> #[trigger] spec_args_tokens(args, i)[k] == toks[pos + k]) by {
        assert(forall|k: int|
            0 <= k < n ==> #[trigger] spec_args_tokens(args, i)[k] == toks.subrange(
                pos,
                pos + n,
            )[k]);
    }
    let m = spec_type_tokens(args[i]).len() as int;
    lemma_type_tokens_start(args[i]);
    if i == args.len() - 1 {
        assert(toks.subrange(pos, pos + m) =~= spec_type_tokens(args[i])) by {
            assert(forall|k: int|
                0 <= k < m ==> #[trigger] spec_type_tokens(args[i])[k] == spec_args_tokens(
                    args,
                    i,
                )[k]);
        }
        lemma_parse_type_tokens(args[i], toks, pos);
        assert(spec_type_tokens(args[i])[0] == toks[pos]);
        assert(cur(toks, pos) != TokenV::Operator(Operator::Greater));
        assert(cur(toks, pos + m) == TokenV::Operator(Operator::Greater));
        assert(acc + args.subrange(i, args.len() as int) =~= acc.push(args[i]));
    } else {
        assert(toks.subrange(pos, pos + m) =~= spec_type_tokens(args[i])) by {
            assert(forall|k: int|
                0 <= k < m ==> #[trigger] spec_type_tokens(args[i])[k] == spec_args_tokens(
                    args,
                    i,
                )[k]);
        }
        assert(spec_args_tokens(args, i)[m] == TokenV::Operator(Operator::Comma));
        assert(toks[pos + m] == TokenV::Operator(Operator::Comma));
        lemma_parse_type_tokens(args[i], toks, pos);
        assert(spec_type_tokens(args[i])[0] == toks[pos]);
        assert(cur(toks, pos) != TokenV::Operator(Operator::Greater));
        assert(toks.subrange(pos + m + 1, pos + m + 1 + spec_args_tokens(args, i + 1).len())
            =~= spec_args_tokens(args, i + 1)) by {
            assert(forall|k: int|
                0 <= k < spec_args_tokens(args, i + 1).len() ==> #[trigger] spec_args_tokens(
                    args,
                    i + 1,
                )[k] == spec_args_tokens(args, i)[m + 1 + k]);
        }
        lemma_parse_args_tokens(args, i + 1, toks, pos + m + 1, acc.push(args[i]));
        assert(acc.push(args[i]) + args.subrange(i + 1, args.len() as int) =~= acc + args.subrange(
            i,
            args.len() as int,
        ));
    }
}

/// What the lexer makes of one word: each primitive type name reads back
/// as an identifier, and `const` as its keyword.
pub proof fn lemma_word_tokens()
    ensures
        spec_word_token("unit"@) == TokenV::Identifier("unit"@),
        spec_word_token("usize"@) == TokenV::Identifier("usize"@),
        spec_word_token("i64"@) == TokenV::Identifier("i64"@),
        spec_word_token("i32"@) == TokenV::Identifier("i32"@),
        spec_word_token("i8"@) == TokenV::Identifier("i8"@),
        spec_word_token("u64"@) == TokenV::Identifier("u64"@),
        spec_word_token("u32"@) == TokenV::Identifier("u32"@),
        spec_word_token("u8"@) == TokenV::Identifier("u8"@),
        spec_word_token("f32"@) == TokenV::Identifier("f32"@),
        spec_word_token("f64"@) == TokenV::Identifier("f64"@),
        spec_word_token("const"@) == TokenV::Keyword(Keyword::Const),
        forall|n: Seq<char>| valid_custom_name(n) ==> #[trigger] spec_word_token(n)
            == TokenV::Identifier(n),
{
    reveal_strlit("unit");
    reveal_strlit("usize");
    reveal_strlit("i64");
    reveal_strlit("i32");
    reveal_strlit("i8");
    reveal_strlit("u64");
    reveal_strlit("u32");
    reveal_strlit("u8");
    reveal_strlit("f32");
    reveal_strlit("f64");
    reveal_strlit("and");
    reveal_strlit("or");
    reveal_strlit("not");
    reveal_strlit("xor");
    reveal_strlit("mod");
    reveal_strlit("no_cap");
    reveal_strlit("true");
    reveal_strlit("cap");
    reveal_strlit("false");
    reveal_strlit("function");
    reveal_strlit("return");
    reveal_strlit("break");
    reveal_strlit("while");
    reveal_strlit("for");
    reveal_strlit("let");
    reveal_strlit("var");
    reveal_strlit("in");
    reveal_strlit("const");
    reveal_strlit("as");
    assert("unit"@.len() == 4 && "unit"@[0] == 'u' && "unit"@[1] == 'n');
    assert("usize"@.len() == 5 && "usize"@[0] == 'u' && "usize"@[1] == 's');
    assert("i64"@.len() == 3 && "i64"@[0] == 'i' && "i64"@[1] == '6');
    assert("i32"@.len() == 3 && "i32"@[0] == 'i' && "i32"@[1] == '3');
    assert("i8"@.len() == 2 && "i8"@[0] == 'i' && "i8"@[1] == '8');
    assert("u64"@.len() == 3 && "u64"@[0] == 'u' && "u64"@[1] == '6');
    assert("u32"@.len() == 3 && "u32"@[0] == 'u' && "u32"@[1] == '3');
    assert("u8"@.len() == 2 && "u8"@[0] == 'u' && "u8"@[1] == '8');
    assert("f32"@.len() == 3 && "f32"@[0] == 'f' && "f32"@[1] == '3');
    assert("f64"@.len() == 3 && "f64"@[0] == 'f' && "f64"@[1] == '6');
    assert("and"@.len() == 3 && "and"@[0] == 'a' && "and"@[1] == 'n');
    assert("or"@.len() == 2 && "or"@[0] == 'o' && "or"@[1] == 'r');
    assert("not"@.len() == 3 && "not"@[0] == 'n' && "not"@[1] == 'o');
    assert("xor"@.len() == 3 && "xor"@[0] == 'x' && "xor"@[1] == 'o');
    assert("mod"@.len() == 3 && "mod"@[0] == 'm' && "mod"@[1] == 'o');
    assert("no_cap"@.len() == 6 && "no_cap"@[0] == 'n' && "no_cap"@[1] == 'o');
    assert("true"@.len() == 4 && "true"@[0] == 't' && "true"@[1] == 'r');
    assert("cap"@.len() == 3 && "cap"@[0] == 'c' && "cap"@[1] == 'a');
    assert("false"@.len() == 5 && "false"@[0] == 'f' && "false"@[1] == 'a');
    assert("function"@.len() == 8 && "function"@[0] == 'f' && "function"@[1] == 'u');
    assert("return"@.len() == 6 && "return"@[0] == 'r' && "return"@[1] == 'e');
    assert("break"@.len() == 5 && "break"@[0] == 'b' && "break"@[1] == 'r');
    assert("while"@.len() == 5 && "while"@[0] == 'w' && "while"@[1] == 'h');
    assert("for"@.len() == 3 && "for"@[0] == 'f' && "for"@[1] == 'o');
    assert("let"@.len() == 3 && "let"@[0] == 'l' && "let"@[1] == 'e');
    assert("var"@.len() == 3 && "var"@[0] == 'v' && "var"@[1] == 'a');
    assert("in"@.len() == 2 && "in"@[0] == 'i' && "in"@[1] == 'n');
    assert("const"@.len() == 5 && "const"@[0] == 'c' && "const"@[1] == 'o');
    assert("as"@.len() == 2 && "as"@[0] == 'a' && "as"@[1] == 's');
}

/// A word of identifier characters, standing maximally in the text, lexes
/// in one step to the token the word stands for.
pub proof fn lemma_lex_word(s: Seq<char>, pos: int, end: int)
    requires
        0 <= pos < end <= s.len(),
        forall|k: int| pos <= k < end ==> spec_is_ident_char(#[trigger] s[k]),
        !spec_is_digit(s[pos]),
        end == s.len() || !spec_is_ident_char(s[end]),
    ensures
        spec_step(s, pos) == Ok::<(Option<TokenV>, int), LexerErrorV>(
            (Some(spec_word_token(s.subrange(pos, end))), end),
        ),
{
    let c = s[pos];
    assert(spec_is_ident_char(c));
    assert(c != '"' && c != '\'');
    assert(!spec_is_whitespace(c));
    assert(spec_paren(c) is None);
    assert(spec_simple_op(c) is None);
    assert(pos + 1 < s.len() ==> spec_double_op(c, s[pos + 1]) is None);
    lemma_scan_ident_run(s, pos + 1, end, seq![c]);
    assert(seq![c] + s.subrange(pos + 1, end) =~= s.subrange(pos, end));
}

/// A single character that the lexer reads as one token of its own: the
/// step consumes it and nothing more. `<` and `>` join with a following
/// `=`, `<` or `>` into a two-character operator, so they stand alone only
/// where no such character follows.
pub proof fn lemma_lex_single(s: Seq<char>, pos: int)
    requires
        0 <= pos < s.len(),
        s[pos] == '*' || s[pos] == '[' || s[pos] == ']' || s[pos] == ';' || s[pos] == ',' || s[pos]
            == '<' || s[pos] == '>',
        s[pos] == '<' ==> pos + 1 >= s.len() || (s[pos + 1] != '=' && s[pos + 1] != '<'),
        s[pos] == '>' ==> pos + 1 >= s.len() || (s[pos + 1] != '=' && s[pos + 1] != '>'),
    ensures
        s[pos] == '*' ==> spec_step(s, pos) == Ok::<(Option<TokenV>, int), LexerErrorV>(
            (Some(TokenV::Operator(Operator::Star)), pos + 1),
        ),
        s[pos] == '[' ==> spec_step(s, pos) == Ok::<(Option<TokenV>, int), LexerErrorV>(
            (Some(TokenV::Parenthetical(Parenthetical::BracketOpen)), pos + 1),
        ),
        s[pos] == ']' ==> spec_step(s, pos) == Ok::<(Option<TokenV>, int), LexerErrorV>(
            (Some(TokenV::Parenthetical(Parenthetical::BracketClose)), pos + 1),
        ),
        s[pos] == ';' ==> spec_step(s, pos) == Ok::<(Option<TokenV>, int), LexerErrorV>(
            (Some(TokenV::Operator(Operator::SemiColon)), pos + 1),
        ),
        s[pos] == ',' ==> spec_step(s, pos) == Ok::<(Option<TokenV>, int), LexerErrorV>(
            (Some(TokenV::Operator(Operator::Comma)), pos + 1),
        ),
        s[pos] == '<' ==> spec_step(s, pos) == Ok::<(Option<TokenV>, int), LexerErrorV>(
            (Some(TokenV::Operator(Operator::Less)), pos + 1),
        ),
        s[pos] == '>' ==> spec_step(s, pos) == Ok::<(Option<TokenV>, int), LexerErrorV>(
            (Some(TokenV::Operator(Operator::Greater)), pos + 1),
        ),
{
    let c = s[pos];
    assert(!spec_is_whitespace(c));
    assert(pos + 1 < s.len() ==> spec_double_op(c, s[pos + 1]) is None);
}

/// A space lexes to nothing: the step skips it.
pub proof fn lemma_lex_space(s: Seq<char>, pos: int)
    requires
        0 <= pos < s.len(),
        s[pos] == ' ',
    ensures
        spec_step(s, pos) == Ok::<(Option<TokenV>, int), LexerErrorV>((None, pos + 1)),
{
    assert(spec_is_whitespace(' '));
}

/// The decimal digits of an array length, standing maximally in the text,
/// lex in one step to the integer literal of the length's value.
pub proof fn lemma_lex_length(s: Seq<char>, pos: int, length: int)
    requires
        0 <= length <= i64::MAX as int,
        0 <= pos,
        pos + spec_dec_digits(length as nat).len() <= s.len(),
        s.subrange(pos, pos + spec_dec_digits(length as nat).len()) == spec_dec_digits(
            length as nat,
        ),
        ({
            let end = pos + spec_dec_digits(length as nat).len();
            end == s.len() || !(s[end] == '_' || s[end] == '.' || spec_is_digit(s[end]))
        }),
    ensures
        spec_step(s, pos) == Ok::<(Option<TokenV>, int), LexerErrorV>(
            (
                Some(TokenV::Literal(LiteralV::Integer(length))),
                pos + spec_dec_digits(length as nat).len(),
            ),
        ),
{
    let d = spec_dec_digits(length as nat);
    let end = pos + d.len();
    crate::lexer::lemma_dec_digits_are_digits(length as nat);
    assert forall|k: int| pos <= k < end implies spec_is_digit(#[trigger] s[k]) by {
        assert(s[k] == s.subrange(pos, end)[k - pos]);
        assert(s.subrange(pos, end)[k - pos] == d[k - pos]);
        assert(spec_is_digit(d[k - pos]));
    }
    let c = s[pos];
    assert(c == d[0]) by {
        assert(d[0] == s.subrange(pos, end)[0]);
    }
    assert(spec_is_digit(c));
    assert(c != '"' && c != '\'');
    assert(!spec_is_whitespace(c));
    assert(spec_paren(c) is None);
    assert(spec_simple_op(c) is None);
    assert(pos + 1 < s.len() ==> spec_double_op(c, s[pos + 1]) is None);
    crate::lexer::lemma_scan_number_run(s, pos + 1, end, seq![c]);
    assert(seq![c] + s.subrange(pos + 1, end) =~= s.subrange(pos, end));
    crate::lexer::lemma_strip_digits_identity(d);
    crate::lexer::lemma_digits_val_of_dec(length as nat);
}

/// The first token of a rendered type opens one of the type grammar's
/// alternatives; it is never the closing `>` of a template list.
pub proof fn lemma_type_tokens_start(t: TypeV)
    requires
        round_trippable(t),
    ensures
        spec_type_tokens(t).len() >= 1,
        spec_type_tokens(t)[0] != TokenV::Operator(Operator::Greater),
{
    lemma_type_tokens_nonempty(t);
}

/// A run of identifier characters standing maximally in the text lexes to
/// the word's token, and the rest of the text lexes on from its end.
pub proof fn lemma_lex_ident_name(w: Seq<char>, s: Seq<char>, pos: int)
    requires
        w.len() >= 1,
        forall|k: int| 0 <= k < w.len() ==> spec_is_ident_char(#[trigger] w[k]),
        !spec_is_digit(w[0]),
        0 <= pos,
        pos + w.len() <= s.len(),
        s.subrange(pos, pos + w.len()) == w,
        pos + w.len() == s.len() || !spec_is_ident_char(s[pos + w.len()]),
    ensures
        spec_lex_tokens(s, pos) == (match spec_lex_tokens(s, pos + w.len()) {
            Ok(rest) => Ok::<Seq<TokenV>, LexerErrorV>(seq![spec_word_token(w)] + rest),
            Err(e) => Err(e),
        }),
{
    let end = pos + w.len();
    assert forall|k: int| pos <= k < end implies spec_is_ident_char(#[trigger] s[k]) by {
        assert(s[k] == s.subrange(pos, end)[k - pos]);
        assert(s.subrange(pos, end)[k - pos] == w[k - pos]);
    }
    assert(s[pos] == w[0]) by {
        assert(s.subrange(pos, end)[0] == w[0]);
    }
    lemma_lex_word(s, pos, end);
    assert(s.subrange(pos, end) == w);
}

/// The first character of a rendered round-trippable type: an identifier
/// character, a `*` or a `[` — never something that joins leftward with a
/// `<` before it.
pub proof fn lemma_name_first_char(t: TypeV)
    requires
        round_trippable(t),
    ensures
        spec_type_name(t).len() >= 1,
        spec_is_ident_char(spec_type_name(t)[0]) || spec_type_name(t)[0] == '*'
            || spec_type_name(t)[0] == '[',
    decreases t,
{
    reveal_strlit("unit");
    reveal_strlit("usize");
    reveal_strlit("i64");
    reveal_strlit("i32");
    reveal_strlit("i8");
    reveal_strlit("u64");
    reveal_strlit("u32");
    reveal_strlit("u8");
    reveal_strlit("f32");
    reveal_strlit("f64");
    reveal_strlit("const ");
    reveal_strlit("*");
    reveal_strlit("[");
    match t {
        TypeV::Const(u) => {
            assert(spec_type_name(t)[0] == "const "@[0]);
            assert("const "@[0] == 'c');
        },
        TypeV::Pointer(u) => {
            assert(spec_type_name(t)[0] == "*"@[0]);
        },
        TypeV::Array { ty, length } => {
            assert(spec_type_name(t)[0] == "["@[0]);
        },
        TypeV::Custom { name, template_args } => {
            if template_args.len() == 0 {
                assert(spec_type_name(t)[0] == name[0]);
            } else {
                assert(spec_type_name(t)[0] == name[0]);
            }
        },
        _ => {},
    }
}

/// The characters of each primitive type's rendering: identifier
/// characters throughout, with a letter first.
pub proof fn lemma_primitive_name_chars()
    ensures
        forall|k: int| 0 <= k < "unit"@.len() ==> spec_is_ident_char(#[trigger] "unit"@[k]),
        forall|k: int| 0 <= k < "usize"@.len() ==> spec_is_ident_char(#[trigger] "usize"@[k]),
        forall|k: int| 0 <= k < "i64"@.len() ==> spec_is_ident_char(#[trigger] "i64"@[k]),
        forall|k: int| 0 <= k < "i32"@.len() ==> spec_is_ident_char(#[trigger] "i32"@[k]),
        forall|k: int| 0 <= k < "i8"@.len() ==> spec_is_ident_char(#[trigger] "i8"@[k]),
        forall|k: int| 0 <= k < "u64"@.len() ==> spec_is_ident_char(#[trigger] "u64"@[k]),
        forall|k: int| 0 <= k < "u32"@.len() ==> spec_is_ident_char(#[trigger] "u32"@[k]),
        forall|k: int| 0 <= k < "u8"@.len() ==> spec_is_ident_char(#[trigger] "u8"@[k]),
        forall|k: int| 0 <= k < "f32"@.len() ==> spec_is_ident_char(#[trigger] "f32"@[k]),
        forall|k: int| 0 <= k < "f64"@.len() ==> spec_is_ident_char(#[trigger] "f64"@[k]),
        forall|k: int| 0 <= k < "const"@.len() ==> spec_is_ident_char(#[trigger] "const"@[k]),
        !spec_is_digit("unit"@[0]),
        !spec_is_digit("usize"@[0]),
        !spec_is_digit("i64"@[0]),
        !spec_is_digit("i32"@[0]),
        !spec_is_digit("i8"@[0]),
        !spec_is_digit("u64"@[0]),
        !spec_is_digit("u32"@[0]),
        !spec_is_digit("u8"@[0]),
        !spec_is_digit("f32"@[0]),
        !spec_is_digit("f64"@[0]),
        !spec_is_digit("const"@[0]),
        "unit"@.len() == 4,
        "usize"@.len() == 5,
        "i64"@.len() == 3,
        "i32"@.len() == 3,
        "i8"@.len() == 2,
        "u64"@.len() == 3,
        "u32"@.len() == 3,
        "u8"@.len() == 2,
        "f32"@.len() == 3,
        "f64"@.len() == 3,
        "const"@.len() == 5,
{
    reveal_strlit("unit");
    reveal_strlit("usize");
    reveal_strlit("i64");
    reveal_strlit("i32");
    reveal_strlit("i8");
    reveal_strlit("u64");
    reveal_strlit("u32");
    reveal_strlit("u8");
    reveal_strlit("f32");
    reveal_strlit("f64");
    reveal_strlit("const");
    assert forall|k: int| 0 <= k < "unit"@.len() implies spec_is_ident_char(
        #[trigger] "unit"@[k],
    ) by {
        if k == 0 {
        } else if k == 1 {
        } else if k == 2 {
        } else {
            assert(k == 3);
        }
    }
    assert forall|k: int| 0 <= k < "usize"@.len() implies spec_is_ident_char(
        #[trigger] "usize"@[k],
    ) by {
        if k == 0 {
        } else if k == 1 {
        } else if k == 2 {
        } else if k == 3 {
        } else {
            assert(k == 4);
        }
    }
    assert forall|k: int| 0 <= k < "i64"@.len() implies spec_is_ident_char(
        #[trigger] "i64"@[k],
    ) by {
        if k == 0 {
        } else if k == 1 {
        } else {
            assert(k == 2);
        }
    }
    assert forall|k: int| 0 <= k < "i32"@.len() implies spec_is_ident_char(
        #[trigger] "i32"@[k],
    ) by {
        if k == 0 {
        } else if k == 1 {
        } else {
            assert(k == 2);
        }
    }
    assert forall|k: int| 0 <= k < "i8"@.len() implies spec_is_ident_char(
        #[trigger] "i8"@[k],
    ) by {
        if k == 0 {
        } else {
            assert(k == 1);
        }
    }
    assert forall|k: int| 0 <= k < "u64"@.len() implies spec_is_ident_char(
        #[trigger] "u64"@[k],
    ) by {
        if k == 0 {
        } else if k == 1 {
        } else {
            assert(k == 2);
        }
    }
    assert forall|k: int| 0 <= k < "u32"@.len() implies spec_is_ident_char(
        #[trigger] "u32"@[k],
    ) by {
        if k == 0 {
        } else if k == 1 {
        } else {
            assert(k == 2);
        }
    }
    assert forall|k: int| 0 <= k < "u8"@.len() implies spec_is_ident_char(
        #[trigger] "u8"@[k],
    ) by {
        if k == 0 {
        } else {
            assert(k == 1);
        }
    }
    assert forall|k: int| 0 <= k < "f32"@.len() implies spec_is_ident_char(
        #[trigger] "f32"@[k],
    ) by {
        if k == 0 {
        } else if k == 1 {
        } else {
            assert(k == 2);
        }
    }
    assert forall|k: int| 0 <= k < "f64"@.len() implies spec_is_ident_char(
        #[trigger] "f64"@[k],
    ) by {
        if k == 0 {
        } else if k == 1 {
        } else {
            assert(k == 2);
        }
    }
    assert forall|k: int| 0 <= k < "const"@.len() implies spec_is_ident_char(
        #[trigger] "const"@[k],
    ) by {
        if k == 0 {
        } else if k == 1 {
        } else if k == 2 {
        } else if k == 3 {
        } else {
            assert(k == 4);
        }
    }
}

/// The rendering of the template arguments from index `i` on,
/// comma-separated: the suffix-shaped face of the rendered argument list.
pub open spec fn spec_args_name_suffix(args: Seq<TypeV>, i: int) -> Seq<char>
    decreases args, args.len() - i,
{
    if i < 0 || i >= args.len() {
        Seq::empty()
    } else if i == args.len() - 1 {
        spec_type_name(args[i])
    } else {
        spec_type_name(args[i]) + ", "@ + spec_args_name_suffix(args, i + 1)
    }
}

/// The whole rendered argument list splits at any index into the first
/// arguments and the rest; in particular it equals its suffix shape.
pub proof fn lemma_args_name_forms(args: Seq<TypeV>, i: int)
    requires
        0 <= i <= args.len(),
    ensures
        crate::ast::spec_template_args_name(args, args.len() as int)
            == crate::ast::spec_template_args_name(args, i) + (if i >= args.len() {
            Seq::<char>::empty()
        } else if i == 0 {
            spec_args_name_suffix(args, 0)
        } else {
            ", "@ + spec_args_name_suffix(args, i)
        }),
    decreases args.len() - i,
{
    let prefix = |j: int| crate::ast::spec_template_args_name(args, j);
    if i == args.len() {
        assert(prefix(i) + Seq::<char>::empty() =~= prefix(i));
    } else {
        lemma_args_name_forms(args, i + 1);
        if i == 0 {
            if i + 1 == args.len() {
                assert(Seq::<char>::empty() + spec_args_name_suffix(args, 0) =~= spec_type_name(
                    args[0],
                ));
                assert(prefix(args.len() as int) + Seq::<char>::empty() =~= prefix(
                    args.len() as int,
                ));
            } else {
                assert(prefix(0) + spec_args_name_suffix(args, 0) =~= prefix(1) + (", "@
                    + spec_args_name_suffix(args, 1)));
            }
        } else {
            if i + 1 == args.len() {
                assert(prefix(args.len() as int) + Seq::<char>::empty() =~= prefix(
                    args.len() as int,
                ));
                assert(prefix(i) + (", "@ + spec_args_name_suffix(args, i)) =~= prefix(i + 1));
            } else {
                assert(prefix(i) + (", "@ + spec_args_name_suffix(args, i)) =~= prefix(i + 1) + (
                ", "@ + spec_args_name_suffix(args, i + 1)));
            }
        }
    }
}

/// A character a complete rendered type may be followed by without
/// changing how it lexes: a separator or closer of the surrounding form,
/// or the end of the input. A `>` may follow only a rendering that does
/// not itself end in `>`, else the two would lex as one shift operator.
pub open spec fn char_follower_ok(s: Seq<char>, p: int, gt_ok: bool) -> bool {
    ||| p == s.len()
    ||| s[p] == ' '
    ||| s[p] == ';'
    ||| s[p] == ','
    ||| s[p] == ']'
    ||| (gt_ok && s[p] == '>')
}

/// Lexing respects rendering: wherever the canonical rendering of a
/// round-trippable type stands in the text, followed by a separator the
/// rendering cannot join with, the lexer reads exactly the type's token
/// sequence and carries on from the rendering's end.
/// Lexing respects rendering: wherever the canonical rendering of a
/// round-trippable type stands in the text, followed by a separator the
/// rendering cannot join with, the lexer reads exactly the type's token
/// sequence and carries on from the rendering's end.
pub proof fn lemma_lex_type_name(t: TypeV, s: Seq<char>, pos: int)
    requires
        round_trippable(t),
        0 <= pos,
        pos + spec_type_name(t).len() <= s.len(),
        s.subrange(pos, pos + spec_type_name(t).len()) == spec_type_name(t),
        char_follower_ok(s, pos + spec_type_name(t).len(), !name_ends_gt(t)),
    ensures
        spec_lex_tokens(s, pos) == (match spec_lex_tokens(s, pos + spec_type_name(t).len()) {
            Ok(rest) => Ok::<Seq<TokenV>, LexerErrorV>(spec_type_tokens(t) + rest),
            Err(e) => Err(e),
        }),
    decreases t, 1int,
{
    match t {
        TypeV::Function(_) => {
            assert(false);
        },
        TypeV::Const(u) => {
            lemma_lex_name_const(t, s, pos);
        },
        TypeV::Pointer(u) => {
            lemma_lex_name_pointer(t, s, pos);
        },
        TypeV::Array { ty, length } => {
            lemma_lex_name_array(t, s, pos);
        },
        TypeV::Custom { name, template_args } => {
            lemma_lex_name_custom(t, s, pos);
        },
        _ => {
            lemma_lex_name_primitive(t, s, pos);
        },
    }
}

/// The index facts a rendering placed in a text gives: each character of
/// the rendering stands at its offset from the start.
proof fn lemma_name_chars_at(t: TypeV, s: Seq<char>, pos: int)
    requires
        0 <= pos,
        pos + spec_type_name(t).len() <= s.len(),
        s.subrange(pos, pos + spec_type_name(t).len()) == spec_type_name(t),
    ensures
        forall|k: int|
            0 <= k < spec_type_name(t).len() ==> #[trigger] spec_type_name(t)[k] == s[pos + k],
{
    let m = spec_type_name(t).len() as int;
    assert forall|k: int| 0 <= k < m implies #[trigger] spec_type_name(t)[k] == s[pos + k] by {
        assert(s.subrange(pos, pos + m)[k] == s[pos + k]);
    }
}

/// Lexing a rendered const-qualified type: the `const` keyword, the
/// space, then the inner rendering.
proof fn lemma_lex_name_const(t: TypeV, s: Seq<char>, pos: int)
    requires
        t is Const,
        round_trippable(t),
        0 <= pos,
        pos + spec_type_name(t).len() <= s.len(),
        s.subrange(pos, pos + spec_type_name(t).len()) == spec_type_name(t),
        char_follower_ok(s, pos + spec_type_name(t).len(), !name_ends_gt(t)),
    ensures
        spec_lex_tokens(s, pos) == (match spec_lex_tokens(s, pos + spec_type_name(t).len()) {
            Ok(rest) => Ok::<Seq<TokenV>, LexerErrorV>(spec_type_tokens(t) + rest),
            Err(e) => Err(e),
        }),
    decreases t, 0int,
{
    let u = t->Const_0;
    let m = spec_type_name(t).len() as int;
    let end = pos + m;
    lemma_name_chars_at(t, s, pos);
    lemma_word_tokens();
    lemma_primitive_name_chars();
    reveal_strlit("const ");
    reveal_strlit("const");
    let mu = spec_type_name(*u).len() as int;
    assert("const "@.len() == 6 && "const "@[0] == 'c' && "const "@[1] == 'o' && "const "@[2]
        == 'n' && "const "@[3] == 's' && "const "@[4] == 't' && "const "@[5] == ' ');
    assert("const"@.len() == 5 && "const"@[0] == 'c' && "const"@[1] == 'o' && "const"@[2] == 'n'
        && "const"@[3] == 's' && "const"@[4] == 't');
    assert(forall|k: int| 0 <= k < 6 ==> #[trigger] spec_type_name(t)[k] == "const "@[k]);
    assert forall|k: int| 0 <= k < 5 implies #[trigger] s.subrange(pos, pos + 5)[k]
        == "const"@[k] by {
        assert(s.subrange(pos, pos + 5)[k] == s[pos + k]);
        assert(s[pos + k] == "const "@[k]);
        if k == 0 {
        } else if k == 1 {
        } else if k == 2 {
        } else if k == 3 {
        } else {
            assert(k == 4);
        }
    }
    assert(s.subrange(pos, pos + 5) =~= "const"@);
    assert(s[pos + 5] == ' ') by {
        assert(spec_type_name(t)[5] == "const "@[5]);
    }
    assert(!spec_is_ident_char(' '));
    lemma_lex_ident_name("const"@, s, pos);
    lemma_lex_space(s, pos + 5);
    assert(forall|k: int|
        0 <= k < mu ==> #[trigger] spec_type_name(*u)[k] == spec_type_name(t)[6 + k]);
    assert forall|k: int| 0 <= k < mu implies #[trigger] s.subrange(pos + 6, pos + 6 + mu)[k]
        == spec_type_name(*u)[k] by {
        assert(s.subrange(pos + 6, pos + 6 + mu)[k] == s[pos + 6 + k]);
        assert(s[pos + 6 + k] == spec_type_name(t)[6 + k]);
    }
    assert(s.subrange(pos + 6, pos + 6 + mu) =~= spec_type_name(*u));
    lemma_lex_type_name(*u, s, pos + 6);
    match spec_lex_tokens(s, end) {
        Ok(rest) => {
            assert(spec_lex_tokens(s, pos + 6) == Ok::<Seq<TokenV>, LexerErrorV>(
                spec_type_tokens(*u) + rest,
            ));
            assert(spec_lex_tokens(s, pos + 5) == spec_lex_tokens(s, pos + 6));
            assert(seq![TokenV::Keyword(Keyword::Const)] + (spec_type_tokens(*u) + rest)
                =~= spec_type_tokens(t) + rest);
        },
        Err(_) => {
            assert(spec_lex_tokens(s, pos + 5) == spec_lex_tokens(s, pos + 6));
        },
    }
}

/// Lexing a rendered pointer type: the `*`, then the inner rendering.
proof fn lemma_lex_name_pointer(t: TypeV, s: Seq<char>, pos: int)
    requires
        t is Pointer,
        round_trippable(t),
        0 <= pos,
        pos + spec_type_name(t).len() <= s.len(),
        s.subrange(pos, pos + spec_type_name(t).len()) == spec_type_name(t),
        char_follower_ok(s, pos + spec_type_name(t).len(), !name_ends_gt(t)),
    ensures
        spec_lex_tokens(s, pos) == (match spec_lex_tokens(s, pos + spec_type_name(t).len()) {
            Ok(rest) => Ok::<Seq<TokenV>, LexerErrorV>(spec_type_tokens(t) + rest),
            Err(e) => Err(e),
        }),
    decreases t, 0int,
{
    let u = t->Pointer_0;
    let m = spec_type_name(t).len() as int;
    let end = pos + m;
    lemma_name_chars_at(t, s, pos);
    reveal_strlit("*");
    let mu = spec_type_name(*u).len() as int;
    assert("*"@.len() == 1 && "*"@[0] == '*');
    assert(spec_type_name(t)[0] == '*');
    assert(s[pos] == '*');
    lemma_lex_single(s, pos);
    assert(forall|k: int|
        0 <= k < mu ==> #[trigger] spec_type_name(*u)[k] == spec_type_name(t)[1 + k]);
    assert forall|k: int| 0 <= k < mu implies #[trigger] s.subrange(pos + 1, pos + 1 + mu)[k]
        == spec_type_name(*u)[k] by {
        assert(s.subrange(pos + 1, pos + 1 + mu)[k] == s[pos + 1 + k]);
        assert(s[pos + 1 + k] == spec_type_name(t)[1 + k]);
    }
    assert(s.subrange(pos + 1, pos + 1 + mu) =~= spec_type_name(*u));
    lemma_lex_type_name(*u, s, pos + 1);
    match spec_lex_tokens(s, end) {
        Ok(rest) => {
            assert(seq![TokenV::Operator(Operator::Star)] + (spec_type_tokens(*u) + rest)
                =~= spec_type_tokens(t) + rest);
        },
        Err(_) => {},
    }
}

/// Lexing a rendered array type: the `[`, the element rendering, the
/// `; `, the decimal length, and the `]`.
#[verifier::rlimit(30)]
proof fn lemma_lex_name_array(t: TypeV, s: Seq<char>, pos: int)
    requires
        t is Array,
        round_trippable(t),
        0 <= pos,
        pos + spec_type_name(t).len() <= s.len(),
        s.subrange(pos, pos + spec_type_name(t).len()) == spec_type_name(t),
        char_follower_ok(s, pos + spec_type_name(t).len(), !name_ends_gt(t)),
    ensures
        spec_lex_tokens(s, pos) == (match spec_lex_tokens(s, pos + spec_type_name(t).len()) {
            Ok(rest) => Ok::<Seq<TokenV>, LexerErrorV>(spec_type_tokens(t) + rest),
            Err(e) => Err(e),
        }),
    decreases t, 0int,
{
    let ty = t->Array_ty;
    let length = t->Array_length;
    let m = spec_type_name(t).len() as int;
    let end = pos + m;
    lemma_name_chars_at(t, s, pos);
    reveal_strlit("[");
    reveal_strlit("; ");
    reveal_strlit("]");
    let mt = spec_type_name(*ty).len() as int;
    let d = spec_dec_digits(length as nat);
    let dl = d.len() as int;
    assert("["@.len() == 1 && "["@[0] == '[');
    assert("; "@.len() == 2 && "; "@[0] == ';' && "; "@[1] == ' ');
    assert("]"@.len() == 1 && "]"@[0] == ']');
    assert(m == 4 + mt + dl);
    assert(spec_type_name(t)[0] == '[');
    assert(s[pos] == '[');
    assert(s[pos + 1 + mt] == ';') by {
        assert(spec_type_name(t)[1 + mt] == ';');
    }
    assert(s[pos + 2 + mt] == ' ') by {
        assert(spec_type_name(t)[2 + mt] == ' ');
    }
    assert(s[pos + 3 + mt + dl] == ']') by {
        assert(spec_type_name(t)[3 + mt + dl] == ']');
    }
    lemma_lex_single(s, pos);
    assert(forall|k: int|
        0 <= k < mt ==> #[trigger] spec_type_name(*ty)[k] == spec_type_name(t)[1 + k]);
    assert forall|k: int| 0 <= k < mt implies #[trigger] s.subrange(pos + 1, pos + 1 + mt)[k]
        == spec_type_name(*ty)[k] by {
        assert(s.subrange(pos + 1, pos + 1 + mt)[k] == s[pos + 1 + k]);
        assert(s[pos + 1 + k] == spec_type_name(t)[1 + k]);
    }
    assert(s.subrange(pos + 1, pos + 1 + mt) =~= spec_type_name(*ty));
    lemma_lex_type_name(*ty, s, pos + 1);
    lemma_lex_single(s, pos + 1 + mt);
    lemma_lex_space(s, pos + 2 + mt);
    assert(forall|k: int| 0 <= k < dl ==> #[trigger] d[k] == spec_type_name(t)[3 + mt + k]);
    assert forall|k: int| 0 <= k < dl implies #[trigger] s.subrange(
        pos + 3 + mt,
        pos + 3 + mt + dl,
    )[k] == d[k] by {
        assert(s.subrange(pos + 3 + mt, pos + 3 + mt + dl)[k] == s[pos + 3 + mt + k]);
        assert(s[pos + 3 + mt + k] == spec_type_name(t)[3 + mt + k]);
    }
    assert(s.subrange(pos + 3 + mt, pos + 3 + mt + dl) =~= d);
    crate::lexer::lemma_dec_digits_are_digits(length as nat);
    assert(!(s[pos + 3 + mt + dl] == '_' || s[pos + 3 + mt + dl] == '.' || spec_is_digit(
        s[pos + 3 + mt + dl],
    )));
    lemma_lex_length(s, pos + 3 + mt, length);
    lemma_lex_single(s, pos + 3 + mt + dl);
    match spec_lex_tokens(s, end) {
        Ok(rest) => {
            assert(spec_lex_tokens(s, pos + 3 + mt + dl) == Ok::<Seq<TokenV>, LexerErrorV>(
                seq![TokenV::Parenthetical(Parenthetical::BracketClose)] + rest,
            ));
            assert(spec_lex_tokens(s, pos + 3 + mt) == Ok::<Seq<TokenV>, LexerErrorV>(
                seq![TokenV::Literal(LiteralV::Integer(length))] + (seq![
                    TokenV::Parenthetical(Parenthetical::BracketClose),
                ] + rest),
            ));
            assert(spec_lex_tokens(s, pos + 2 + mt) == spec_lex_tokens(s, pos + 3 + mt));
            assert(spec_lex_tokens(s, pos + 1 + mt) == Ok::<Seq<TokenV>, LexerErrorV>(
                seq![TokenV::Operator(Operator::SemiColon)] + (seq![
                    TokenV::Literal(LiteralV::Integer(length)),
                ] + (seq![TokenV::Parenthetical(Parenthetical::BracketClose)] + rest)),
            ));
            let tail = seq![TokenV::Operator(Operator::SemiColon)] + (seq![
                TokenV::Literal(LiteralV::Integer(length)),
            ] + (seq![TokenV::Parenthetical(Parenthetical::BracketClose)] + rest));
            assert(spec_lex_tokens(s, pos + 1) == Ok::<Seq<TokenV>, LexerErrorV>(
                spec_type_tokens(*ty) + tail,
            ));
            assert(seq![TokenV::Parenthetical(Parenthetical::BracketOpen)] + (spec_type_tokens(*ty)
                + tail) =~= spec_type_tokens(t) + rest);
        },
        Err(_) => {
            assert(spec_lex_tokens(s, pos + 2 + mt) == spec_lex_tokens(s, pos + 3 + mt));
        },
    }
}

/// Lexing a rendered custom type: its name as an identifier and, where
/// template arguments exist, the angle-bracketed list after it.
#[verifier::rlimit(30)]
proof fn lemma_lex_name_custom(t: TypeV, s: Seq<char>, pos: int)
    requires
        t is Custom,
        round_trippable(t),
        0 <= pos,
        pos + spec_type_name(t).len() <= s.len(),
        s.subrange(pos, pos + spec_type_name(t).len()) == spec_type_name(t),
        char_follower_ok(s, pos + spec_type_name(t).len(), !name_ends_gt(t)),
    ensures
        spec_lex_tokens(s, pos) == (match spec_lex_tokens(s, pos + spec_type_name(t).len()) {
            Ok(rest) => Ok::<Seq<TokenV>, LexerErrorV>(spec_type_tokens(t) + rest),
            Err(e) => Err(e),
        }),
    decreases t, 0int,
{
    let name = t->Custom_name;
    let template_args = t->Custom_template_args;
    let m = spec_type_name(t).len() as int;
    let end = pos + m;
    lemma_name_chars_at(t, s, pos);
    lemma_word_tokens();
    assert(end == s.len() || !spec_is_ident_char(s[end]));
    let nl = name.len() as int;
    if template_args.len() == 0 {
        assert forall|k: int| 0 <= k < nl implies #[trigger] s.subrange(pos, pos + nl)[k]
            == name[k] by {
            assert(s.subrange(pos, pos + nl)[k] == s[pos + k]);
            assert(s[pos + k] == spec_type_name(t)[k]);
        }
        assert(s.subrange(pos, pos + nl) =~= name);
        lemma_lex_ident_name(name, s, pos);
        match spec_lex_tokens(s, end) {
            Ok(rest) => {
                assert(seq![spec_word_token(name)] =~= spec_type_tokens(t));
            },
            Err(_) => {},
        }
    } else {
        reveal_strlit("<");
        reveal_strlit(">");
        assert("<"@.len() == 1 && "<"@[0] == '<');
        assert(">"@.len() == 1 && ">"@[0] == '>');
        lemma_args_name_forms(template_args, 0);
        let al = spec_args_name_suffix(template_args, 0).len() as int;
        assert(m == nl + 2 + al);
        assert(forall|k: int| 0 <= k < nl ==> #[trigger] spec_type_name(t)[k] == name[k]);
        assert forall|k: int| 0 <= k < nl implies #[trigger] s.subrange(pos, pos + nl)[k]
            == name[k] by {
            assert(s.subrange(pos, pos + nl)[k] == s[pos + k]);
            assert(s[pos + k] == spec_type_name(t)[k]);
        }
        assert(s.subrange(pos, pos + nl) =~= name);
        assert(s[pos + nl] == '<') by {
            assert(spec_type_name(t)[nl] == '<');
        }
        assert(s[pos + nl + 1 + al] == '>') by {
            assert(spec_type_name(t)[nl + 1 + al] == '>');
        }
        assert(!spec_is_ident_char('<'));
        lemma_lex_ident_name(name, s, pos);
        assert(forall|k: int|
            0 <= k < al ==> #[trigger] spec_args_name_suffix(template_args, 0)[k]
                == spec_type_name(t)[nl + 1 + k]);
        assert forall|k: int| 0 <= k < al implies #[trigger] s.subrange(
            pos + nl + 1,
            pos + nl + 1 + al,
        )[k] == spec_args_name_suffix(template_args, 0)[k] by {
            assert(s.subrange(pos + nl + 1, pos + nl + 1 + al)[k] == s[pos + nl + 1 + k]);
            assert(s[pos + nl + 1 + k] == spec_type_name(t)[nl + 1 + k]);
        }
        assert(s.subrange(pos + nl + 1, pos + nl + 1 + al) =~= spec_args_name_suffix(
            template_args,
            0,
        ));
        lemma_name_first_char(template_args[0]);
        assert(s[pos + nl + 1] == spec_type_name(template_args[0])[0]) by {
            assert(spec_args_name_suffix(template_args, 0)[0] == spec_type_name(
                template_args[0],
            )[0]);
            assert(s.subrange(pos + nl + 1, pos + nl + 1 + al)[0] == s[pos + nl + 1]);
        }
        assert(s[pos + nl + 1] != '=' && s[pos + nl + 1] != '<');
        lemma_lex_single(s, pos + nl);
        lemma_lex_args_name(template_args, 0, s, pos + nl + 1);
        assert(s.len() == end || (s[end] != '=' && s[end] != '>'));
        lemma_lex_single(s, pos + nl + 1 + al);
        match spec_lex_tokens(s, end) {
            Ok(rest) => {
                assert(spec_lex_tokens(s, pos + nl + 1 + al) == Ok::<Seq<TokenV>, LexerErrorV>(
                    seq![TokenV::Operator(Operator::Greater)] + rest,
                ));
                let tail = seq![TokenV::Operator(Operator::Greater)] + rest;
                assert(spec_lex_tokens(s, pos + nl + 1) == Ok::<Seq<TokenV>, LexerErrorV>(
                    spec_args_tokens(template_args, 0) + tail,
                ));
                assert(spec_lex_tokens(s, pos + nl) == Ok::<Seq<TokenV>, LexerErrorV>(
                    seq![TokenV::Operator(Operator::Less)] + (spec_args_tokens(template_args, 0)
                        + tail),
                ));
                assert(seq![spec_word_token(name)] + (seq![TokenV::Operator(Operator::Less)] + (
                spec_args_tokens(template_args, 0) + tail)) =~= spec_type_tokens(t) + rest);
            },
            Err(_) => {},
        }
    }
}

/// Lexing a rendered primitive type: one word, read back as the
/// identifier the base-type table resolves.
proof fn lemma_lex_name_primitive(t: TypeV, s: Seq<char>, pos: int)
    requires
        !(t is Custom) && !(t is Const) && !(t is Pointer) && !(t is Array) && !(t is Function),
        round_trippable(t),
        0 <= pos,
        pos + spec_type_name(t).len() <= s.len(),
        s.subrange(pos, pos + spec_type_name(t).len()) == spec_type_name(t),
        char_follower_ok(s, pos + spec_type_name(t).len(), !name_ends_gt(t)),
    ensures
        spec_lex_tokens(s, pos) == (match spec_lex_tokens(s, pos + spec_type_name(t).len()) {
            Ok(rest) => Ok::<Seq<TokenV>, LexerErrorV>(spec_type_tokens(t) + rest),
            Err(e) => Err(e),
        }),
{
    let m = spec_type_name(t).len() as int;
    let end = pos + m;
    lemma_word_tokens();
    lemma_primitive_name_chars();
    assert(end == s.len() || !spec_is_ident_char(s[end]));
    assert(s.subrange(pos, end) =~= spec_type_name(t));
    match t {
        TypeV::Unit => {
            assert(spec_type_name(t) == "unit"@);
        },
        TypeV::USize => {
            assert(spec_type_name(t) == "usize"@);
        },
        TypeV::I64 => {
            assert(spec_type_name(t) == "i64"@);
        },
        TypeV::I32 => {
            assert(spec_type_name(t) == "i32"@);
        },
        TypeV::I8 => {
            assert(spec_type_name(t) == "i8"@);
        },
        TypeV::U64 => {
            assert(spec_type_name(t) == "u64"@);
        },
        TypeV::U32 => {
            assert(spec_type_name(t) == "u32"@);
        },
        TypeV::U8 => {
            assert(spec_type_name(t) == "u8"@);
        },
        TypeV::F32 => {
            assert(spec_type_name(t) == "f32"@);
        },
        TypeV::F64 => {
            assert(spec_type_name(t) == "f64"@);
        },
        _ => {
            assert(false);
        },
    }
    lemma_lex_ident_name(spec_type_name(t), s, pos);
    match spec_lex_tokens(s, end) {
        Ok(rest) => {
            assert(seq![spec_word_token(spec_type_name(t))] =~= spec_type_tokens(t));
        },
        Err(_) => {},
    }
}

/// Lexing respects rendering for a template argument list: the rendered
/// arguments from index `i` on, up to but not including the closing `>`,
/// lex to exactly their token sequences joined with commas.
pub proof fn lemma_lex_args_name(args: Seq<TypeV>, i: int, s: Seq<char>, pos: int)
    requires
        0 <= i < args.len(),
        forall|j: int| 0 <= j < args.len() ==> round_trippable(#[trigger] args[j]),
        !name_ends_gt(args.last()),
        0 <= pos,
        pos + spec_args_name_suffix(args, i).len() < s.len(),
        s.subrange(pos, pos + spec_args_name_suffix(args, i).len()) == spec_args_name_suffix(
            args,
            i,
        ),
        s[pos + spec_args_name_suffix(args, i).len()] == '>',
    ensures
        spec_lex_tokens(s, pos) == (match spec_lex_tokens(
            s,
            pos + spec_args_name_suffix(args, i).len(),
        ) {
            Ok(rest) => Ok::<Seq<TokenV>, LexerErrorV>(spec_args_tokens(args, i) + rest),
            Err(e) => Err(e),
        }),
    decreases args, args.len() - i,
{
    reveal_strlit(", ");
    assert(", "@.len() == 2 && ", "@[0] == ',' && ", "@[1] == ' ');
    let al = spec_args_name_suffix(args, i).len() as int;
    let end = pos + al;
    assert(forall|k: int|
        0 <= k < al ==> #[trigger] spec_args_name_suffix(args, i)[k] == s[pos + k]) by {
        assert(forall|k: int|
            0 <= k < al ==> #[trigger] spec_args_name_suffix(args, i)[k] == s.subrange(
                pos,
                end,
            )[k]);
    }
    let mi = spec_type_name(args[i]).len() as int;
    if i == args.len() - 1 {
        assert(s.subrange(pos, pos + mi) =~= spec_type_name(args[i])) by {
            assert(forall|k: int|
                0 <= k < mi ==> #[trigger] s.subrange(pos, pos + mi)[k] == s[pos + k]);
        }
        assert(char_follower_ok(s, pos + mi, !name_ends_gt(args[i])));
        lemma_lex_type_name(args[i], s, pos);
    } else {
        assert(forall|k: int|
            0 <= k < mi ==> #[trigger] spec_type_name(args[i])[k] == spec_args_name_suffix(
                args,
                i,
            )[k]);
        assert(s.subrange(pos, pos + mi) =~= spec_type_name(args[i])) by {
            assert(forall|k: int|
                0 <= k < mi ==> #[trigger] s.subrange(pos, pos + mi)[k] == s[pos + k]);
        }
        assert(s[pos + mi] == ',') by {
            assert(spec_args_name_suffix(args, i)[mi] == ',');
        }
        assert(s[pos + mi + 1] == ' ') by {
            assert(spec_args_name_suffix(args, i)[mi + 1] == ' ');
        }
        assert(char_follower_ok(s, pos + mi, !name_ends_gt(args[i])));
        lemma_lex_type_name(args[i], s, pos);
        lemma_lex_single(s, pos + mi);
        lemma_lex_space(s, pos + mi + 1);
        let rl = spec_args_name_suffix(args, i + 1).len() as int;
        assert(al == mi + 2 + rl);
        assert(forall|k: int|
            0 <= k < rl ==> #[trigger] spec_args_name_suffix(args, i + 1)[k]
                == spec_args_name_suffix(args, i)[mi + 2 + k]);
        assert(s.subrange(pos + mi + 2, pos + mi + 2 + rl) =~= spec_args_name_suffix(
            args,
            i + 1,
        )) by {
            assert(forall|k: int|
                0 <= k < rl ==> #[trigger] s.subrange(pos + mi + 2, pos + mi + 2 + rl)[k] == s[pos
                    + mi + 2 + k]);
        }
        lemma_lex_args_name(args, i + 1, s, pos + mi + 2);
        match spec_lex_tokens(s, end) {
            Ok(rest) => {
                assert(spec_lex_tokens(s, pos + mi + 2) == Ok::<Seq<TokenV>, LexerErrorV>(
                    spec_args_tokens(args, i + 1) + rest,
                ));
                assert(spec_lex_tokens(s, pos + mi + 1) == spec_lex_tokens(s, pos + mi + 2));
                assert(spec_lex_tokens(s, pos + mi) == Ok::<Seq<TokenV>, LexerErrorV>(
                    seq![TokenV::Operator(Operator::Comma)] + (spec_args_tokens(args, i + 1)
                        + rest),
                ));
                assert(spec_type_tokens(args[i]) + (seq![TokenV::Operator(Operator::Comma)] + (
                spec_args_tokens(args, i + 1) + rest)) =~= spec_args_tokens(args, i) + rest);
            },
            Err(_) => {
                assert(spec_lex_tokens(s, pos + mi + 1) == spec_lex_tokens(s, pos + mi + 2));
            },
        }
    }
}

/// Rendering and parsing are mutual inverses: parsing the canonical
/// rendering of any round-trippable type yields exactly that type back.
pub proof fn lemma_type_name_round_trip(t: TypeV)
    requires
        round_trippable(t),
    ensures
        crate::grammar::spec_parse_type(spec_type_name(t)) == Ok::<TypeV, ErrorV>(t),
{
    let s = spec_type_name(t);
    let m = s.len() as int;
    assert(s.subrange(0, m) =~= s);
    lemma_lex_type_name(t, s, 0);
    assert(spec_lex_tokens(s, m) == Ok::<Seq<TokenV>, LexerErrorV>(Seq::empty()));
    assert(spec_lex_tokens(s, 0) == Ok::<Seq<TokenV>, LexerErrorV>(
        spec_type_tokens(t) + Seq::empty(),
    ));
    assert(spec_type_tokens(t) + Seq::<TokenV>::empty() =~= spec_type_tokens(t));
    lemma_lex_projection(
        s,
        0,
        crate::token::FilePosV { row: 0, column: 0 },
        Seq::empty(),
    );
    match spec_tokenize(s) {
        Err(_) => {
            assert(false);
        },
        Ok(traced) => {
            let toks = crate::grammar::spec_token_stream(traced);
            assert(Seq::new(traced.len(), |i: int| traced[i].token) == Seq::new(
                0,
                |i: int| TokenV::EndOfInput,
            ) + spec_type_tokens(t)) by {
                assert(Seq::new(traced.len(), |i: int| traced[i].token) == Seq::new(
                    Seq::<crate::token::TracedTokenV>::empty().len(),
                    |i: int| Seq::<crate::token::TracedTokenV>::empty()[i].token,
                ) + spec_type_tokens(t));
                assert(Seq::new(
                    Seq::<crate::token::TracedTokenV>::empty().len(),
                    |i: int| Seq::<crate::token::TracedTokenV>::empty()[i].token,
                ) + spec_type_tokens(t) =~= Seq::new(0, |i: int| TokenV::EndOfInput)
                    + spec_type_tokens(t));
            }
            assert(toks =~= spec_type_tokens(t).push(TokenV::EndOfInput)) by {
                assert(Seq::new(0, |i: int| TokenV::EndOfInput) + spec_type_tokens(t)
                    =~= spec_type_tokens(t));
            }
            let n = spec_type_tokens(t).len() as int;
            assert(toks.subrange(0, n) =~= spec_type_tokens(t));
            assert(toks[n] == TokenV::EndOfInput);
            lemma_parse_type_tokens(t, toks, 0);
        },
    }
}

/// The token sequence of a round-trippable type holds at least one token:
/// the grammar never reads a type from nothing.
pub proof fn lemma_type_tokens_nonempty(t: TypeV)
    requires
        round_trippable(t),
    ensures
        spec_type_tokens(t).len() >= 1,
    decreases t,
{
    match t {
        TypeV::Const(u) => lemma_type_tokens_nonempty(*u),
        TypeV::Pointer(u) => lemma_type_tokens_nonempty(*u),
        _ => {},
    }
}

} // verus!