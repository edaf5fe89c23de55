//! The interface-definition front end: a lexer and a recursive-descent
//! parser that turn source text into the grammar's own syntax tree. Parse
//! failures abort immediately with a syntax error; no partial tree is ever
//! returned.

use vstd::prelude::*;
use crate::text::str_eq;
use crate::types::{TypeExpr, Literal, BuildError};

verus! {

/// One lexical token of the interface-definition grammar.
#[derive(Debug)]
pub enum Token {
    Ident(String),
    StrLit(String),
    IntLit(u64),
    LBrace,
    RBrace,
    LParen,
    RParen,
    LBracket,
    RBracket,
    Lt,
    Gt,
    Comma,
    Semi,
    Colon,
    Question,
    Equals,
    Ellipsis,
}

pub open spec fn is_ident_start(c: char) -> bool {
    ('a' <= c && c <= 'z') || ('A' <= c && c <= 'Z') || c == '_'
}

pub open spec fn is_ident_char(c: char) -> bool {
    is_ident_start(c) || ('0' <= c && c <= '9')
}

fn ident_start(c: char) -> (r: bool)
    ensures
        r == is_ident_start(c),
{
    ('a' <= c && c <= 'z') || ('A' <= c && c <= 'Z') || c == '_'
}

fn ident_char(c: char) -> (r: bool)
    ensures
        r == is_ident_char(c),
{
    ident_start(c) || ('0' <= c && c <= '9')
}

fn is_digit(c: char) -> (r: bool)
    ensures
        r == ('0' <= c && c <= '9'),
{
    '0' <= c && c <= '9'
}

/// A token is well-formed: an identifier is nonempty, starts with a
/// letter or an underscore and continues with letters, digits and
/// underscores; a string literal holds no quote character.
pub open spec fn token_wf(t: Token) -> bool {
    match t {
        Token::Ident(s) => s@.len() > 0 && is_ident_start(s@[0]) && (forall|i: int|
            0 <= i < s@.len() ==> is_ident_char(#[trigger] s@[i])),
        Token::StrLit(s) => forall|i: int| 0 <= i < s@.len() ==> #[trigger] s@[i] != '"',
        _ => true,
    }
}

/// Splits the source text into tokens, each well-formed. Fails with a
/// syntax error on any character that starts no token, on an unterminated
/// string literal, on an unterminated ellipsis and on an integer literal
/// too large for 64 bits.
pub fn lex(s: &str) -> (r: Result<Vec<Token>, BuildError>)
    ensures
        r matches Ok(toks) ==> forall|k: int| 0 <= k < toks@.len() ==> token_wf(#[trigger] toks@[k]),
        r matches Err(e) ==> e is Syntax,
{
    let n = s.unicode_len();
    let mut toks: Vec<Token> = Vec::new();
    let mut i: usize = 0;
    while i < n
        invariant
            n == s@.len(),
            i <= n,
            forall|k: int| 0 <= k < toks@.len() ==> token_wf(#[trigger] toks@[k]),
        decreases n - i,
    {
        let c = s.get_char(i);
        if c == ' ' || c == '\t' || c == '\n' || c == '\r' {
            i += 1;
        } else if c == '/' {
            if i + 1 < n && s.get_char(i + 1) == '/' {
                let mut j = i + 2;
                while j < n && s.get_char(j) != '\n'
                    invariant
                        n == s@.len(),
                        i + 2 <= j <= n,
                    decreases n - j,
                {
                    j += 1;
                }
                i = j;
            } else {
                return Err(BuildError::Syntax("unexpected character".to_owned()));
            }
        } else if ident_start(c) {
            let start = i;
            let mut j = i + 1;
            while j < n && ident_char(s.get_char(j))
                invariant
                    n == s@.len(),
                    start < j <= n,
                    is_ident_start(s@[start as int]),
                    forall|m: int| start < m < j ==> is_ident_char(#[trigger] s@[m]),
                decreases n - j,
            {
                j += 1;
            }
            let text = s.substring_char(start, j).to_owned();
            proof {
                assert(text@ == s@.subrange(start as int, j as int));
                assert forall|m: int| 0 <= m < text@.len() implies is_ident_char(
                    #[trigger] text@[m],
                ) by {
                    assert(text@[m] == s@[start + m]);
                }
                assert(text@[0] == s@[start as int]);
            }
            toks.push(Token::Ident(text));
            i = j;
        } else if c == '"' {
            let mut j = i + 1;
            while j < n && s.get_char(j) != '"'
                invariant
                    n == s@.len(),
                    i + 1 <= j <= n,
                    forall|m: int| i + 1 <= m < j ==> #[trigger] s@[m] != '"',
                decreases n - j,
            {
                j += 1;
            }
            if j == n {
                return Err(BuildError::Syntax("unterminated string literal".to_owned()));
            }
            let text = s.substring_char(i + 1, j).to_owned();
            proof {
                assert(text@ == s@.subrange(i + 1 as int, j as int));
                assert forall|m: int| 0 <= m < text@.len() implies #[trigger] text@[m] != '"' by {
                    assert(text@[m] == s@[i + 1 + m]);
                }
            }
            toks.push(Token::StrLit(text));
            i = j + 1;
        } else if is_digit(c) {
            let mut val: u64 = 0;
            let mut j = i;
            while j < n && is_digit(s.get_char(j))
                invariant
                    n == s@.len(),
                    i <= j <= n,
                decreases n - j,
            {
                let d = (s.get_char(j) as u32 - '0' as u32) as u64;
                let v10 = match val.checked_mul(10) {
                    Some(v) => v,
                    None => {
                        return Err(BuildError::Syntax("integer literal too large".to_owned()));
                    },
                };
                val = match v10.checked_add(d) {
                    Some(v) => v,
                    None => {
                        return Err(BuildError::Syntax("integer literal too large".to_owned()));
                    },
                };
                j += 1;
            }
            toks.push(Token::IntLit(val));
            i = j;
        } else if c == '{' {
            toks.push(Token::LBrace);
            i += 1;
        } else if c == '}' {
            toks.push(Token::RBrace);
            i += 1;
        } else if c == '(' {
            toks.push(Token::LParen);
            i += 1;
        } else if c == ')' {
            toks.push(Token::RParen);
            i += 1;
        } else if c == '[' {
            toks.push(Token::LBracket);
            i += 1;
        } else if c == ']' {
            toks.push(Token::RBracket);
            i += 1;
        } else if c == '<' {
            toks.push(Token::Lt);
            i += 1;
        } else if c == '>' {
            toks.push(Token::Gt);
            i += 1;
        } else if c == ',' {
            toks.push(Token::Comma);
            i += 1;
        } else if c == ';' {
            toks.push(Token::Semi);
            i += 1;
        } else if c == ':' {
            toks.push(Token::Colon);
            i += 1;
        } else if c == '?' {
            toks.push(Token::Question);
            i += 1;
        } else if c == '=' {
            toks.push(Token::Equals);
            i += 1;
        } else if c == '.' {
            if n - i > 2 && s.get_char(i + 1) == '.' && s.get_char(i + 2) == '.' {
                toks.push(Token::Ellipsis);
                i += 3;
            } else {
                return Err(BuildError::Syntax("unexpected character".to_owned()));
            }
        } else {
            return Err(BuildError::Syntax("unexpected character".to_owned()));
        }
    }
    Ok(toks)
}

/// The return slot of an operation: `void`, or a type expression.
#[derive(Debug)]
pub enum UdlReturnType {
    Void,
    Expr(TypeExpr),
}

/// One declared argument of an operation.
#[derive(Debug)]
pub struct UdlArgument {
    pub variadic: bool,
    pub name: String,
    pub type_: TypeExpr,
    pub default: Option<Literal>,
    pub has_attributes: bool,
}

/// One operation member of a namespace, interface or callback body.
#[derive(Debug)]
pub struct UdlOperation {
    pub special: Option<String>,
    pub stringifier: bool,
    pub name: Option<String>,
    pub return_type: UdlReturnType,
    pub args: Vec<UdlArgument>,
}

/// One field of a dictionary body.
#[derive(Debug)]
pub struct UdlDictField {
    pub required: bool,
    pub name: String,
    pub type_: TypeExpr,
    pub default: Option<Literal>,
}

/// One top-level definition of the interface-definition grammar.
#[derive(Debug)]
pub enum UdlDefinition {
    Namespace { name: String, operations: Vec<UdlOperation> },
    EnumDef { name: String, values: Vec<String>, is_error: bool },
    Interface {
        name: String,
        is_enum: bool,
        inheritance: Option<String>,
        operations: Vec<UdlOperation>,
    },
    Dictionary { name: String, fields: Vec<UdlDictField> },
    Callback { name: String, operations: Vec<UdlOperation> },
}

fn syntax_err(what: &str) -> (r: BuildError)
    ensures
        r is Syntax,
{
    BuildError::Syntax(what.to_owned())
}

/// Parses one type expression starting at token `i`.
fn parse_type_expr(toks: &Vec<Token>, i: usize) -> (r: Result<(TypeExpr, usize), BuildError>)
    requires
        i <= toks@.len(),
    ensures
        r matches Ok(p) ==> i < p.1 <= toks@.len(),
        r matches Err(e) ==> e is Syntax,
    decreases toks@.len() - i,
{
    if i >= toks.len() {
        return Err(syntax_err("expected a type"));
    }
    let (base, mut j): (TypeExpr, usize) = match &toks[i] {
        Token::Ident(name) => {
            let next_is_lt = i + 1 < toks.len() && matches!(&toks[i + 1], Token::Lt);
            if next_is_lt && str_eq(name.as_str(), "sequence") {
                let (inner, j) = parse_type_expr(toks, i + 2)?;
                if j < toks.len() && matches!(&toks[j], Token::Gt) {
                    (TypeExpr::Sequence(Box::new(inner)), j + 1)
                } else {
                    return Err(syntax_err("expected the closing angle of a sequence type"));
                }
            } else if next_is_lt && str_eq(name.as_str(), "record") {
                let (key, j) = parse_type_expr(toks, i + 2)?;
                if !(j < toks.len() && matches!(&toks[j], Token::Comma)) {
                    return Err(syntax_err("expected a comma in a record type"));
                }
                let (val, j2) = parse_type_expr(toks, j + 1)?;
                if j2 < toks.len() && matches!(&toks[j2], Token::Gt) {
                    (TypeExpr::Mapping(Box::new(key), Box::new(val)), j2 + 1)
                } else {
                    return Err(syntax_err("expected the closing angle of a record type"));
                }
            } else {
                (TypeExpr::Named(name.clone()), i + 1)
            }
        },
        _ => {
            return Err(syntax_err("expected a type name"));
        },
    };
    if j < toks.len() && matches!(&toks[j], Token::Question) {
        j += 1;
        Ok((TypeExpr::Optional(Box::new(base)), j))
    } else {
        Ok((base, j))
    }
}

/// Parses one literal (a default value) starting at token `i`.
fn parse_literal(toks: &Vec<Token>, i: usize) -> (r: Result<(Literal, usize), BuildError>)
    requires
        i <= toks@.len(),
    ensures
        r matches Ok(p) ==> i < p.1 <= toks@.len(),
        r matches Err(e) ==> e is Syntax,
{
    if i >= toks.len() {
        return Err(syntax_err("expected a literal"));
    }
    match &toks[i] {
        Token::StrLit(s) => Ok((Literal::Str(s.clone()), i + 1)),
        Token::IntLit(v) => Ok((Literal::UInt(*v), i + 1)),
        Token::Ident(name) => {
            if str_eq(name.as_str(), "true") {
                Ok((Literal::Boolean(true), i + 1))
            } else if str_eq(name.as_str(), "false") {
                Ok((Literal::Boolean(false), i + 1))
            } else {
                Err(syntax_err("expected a literal"))
            }
        },
        _ => Err(syntax_err("expected a literal")),
    }
}

/// Skips an attribute block `[` ... `]` starting at token `i`, which must
/// hold the opening bracket.
fn skip_attributes(toks: &Vec<Token>, i: usize) -> (r: Result<usize, BuildError>)
    requires
        i <= toks@.len(),
    ensures
        r matches Ok(j) ==> i < j <= toks@.len(),
        r matches Err(e) ==> e is Syntax,
{
    if !(i < toks.len() && matches!(&toks[i], Token::LBracket)) {
        return Err(syntax_err("expected an attribute block"));
    }
    let mut j = i + 1;
    while j < toks.len() && !matches!(&toks[j], Token::RBracket)
        invariant
            i < j <= toks@.len(),
        decreases toks@.len() - j,
    {
        j += 1;
    }
    if j >= toks.len() {
        return Err(syntax_err("unterminated attribute block"));
    }
    Ok(j + 1)
}

/// Parses one argument of an operation starting at token `i`.
fn parse_argument(toks: &Vec<Token>, i: usize) -> (r: Result<(UdlArgument, usize), BuildError>)
    requires
        i <= toks@.len(),
    ensures
        r matches Ok(p) ==> i < p.1 <= toks@.len(),
        r matches Err(e) ==> e is Syntax,
{
    let mut j = i;
    let mut has_attributes = false;
    if j < toks.len() && matches!(&toks[j], Token::LBracket) {
        j = skip_attributes(toks, j)?;
        has_attributes = true;
    }
    let (type_, mut j2) = parse_type_expr(toks, j)?;
    let mut variadic = false;
    if j2 < toks.len() && matches!(&toks[j2], Token::Ellipsis) {
        variadic = true;
        j2 += 1;
    }
    if j2 >= toks.len() {
        return Err(syntax_err("expected an argument name"));
    }
    let name: String = match &toks[j2] {
        Token::Ident(n) => n.clone(),
        _ => {
            return Err(syntax_err("expected an argument name"));
        },
    };
    let mut j3 = j2 + 1;
    let mut default: Option<Literal> = None;
    if j3 < toks.len() && matches!(&toks[j3], Token::Equals) {
        let (lit, j4) = parse_literal(toks, j3 + 1)?;
        default = Some(lit);
        j3 = j4;
    }
    Ok((UdlArgument { variadic, name, type_, default, has_attributes }, j3))
}

/// Parses a parenthesized argument list starting at token `i`, which must
/// hold the opening parenthesis.
fn parse_args(toks: &Vec<Token>, i: usize) -> (r: Result<(Vec<UdlArgument>, usize), BuildError>)
    requires
        i <= toks@.len(),
    ensures
        r matches Ok(p) ==> i < p.1 <= toks@.len(),
        r matches Err(e) ==> e is Syntax,
{
    if !(i < toks.len() && matches!(&toks[i], Token::LParen)) {
        return Err(syntax_err("expected an argument list"));
    }
    let mut args: Vec<UdlArgument> = Vec::new();
    let mut j = i + 1;
    if j < toks.len() && matches!(&toks[j], Token::RParen) {
        return Ok((args, j + 1));
    }
    loop
        invariant
            i < j <= toks@.len(),
        decreases toks@.len() - j,
    {
        let (arg, j2) = parse_argument(toks, j)?;
        args.push(arg);
        j = j2;
        if j < toks.len() && matches!(&toks[j], Token::Comma) {
            j += 1;
        } else if j < toks.len() && matches!(&toks[j], Token::RParen) {
            return Ok((args, j + 1));
        } else {
            return Err(syntax_err("expected a comma or the end of the argument list"));
        }
    }
}

/// Parses one operation member, ending at its semicolon.
fn parse_operation(toks: &Vec<Token>, i: usize) -> (r: Result<(UdlOperation, usize), BuildError>)
    requires
        i <= toks@.len(),
    ensures
        r matches Ok(p) ==> i < p.1 <= toks@.len(),
        r matches Err(e) ==> e is Syntax,
{
    let mut j = i;
    let mut special: Option<String> = None;
    let mut stringifier = false;
    if j < toks.len() {
        if let Token::Ident(kw) = &toks[j] {
            if str_eq(kw.as_str(), "getter") || str_eq(kw.as_str(), "setter") || str_eq(
                kw.as_str(),
                "deleter",
            ) {
                special = Some(kw.clone());
                j += 1;
            }
        }
    }
    if j < toks.len() {
        if let Token::Ident(kw) = &toks[j] {
            if str_eq(kw.as_str(), "stringifier") {
                stringifier = true;
                j += 1;
            }
        }
    }
    let mut is_void = false;
    if j < toks.len() {
        if let Token::Ident(kw) = &toks[j] {
            let next_is_lt = j + 1 < toks.len() && matches!(&toks[j + 1], Token::Lt);
            if str_eq(kw.as_str(), "void") && !next_is_lt {
                is_void = true;
            }
        }
    }
    let (return_type, mut j2): (UdlReturnType, usize) = if is_void {
        (UdlReturnType::Void, j + 1)
    } else {
        let (t, j2) = parse_type_expr(toks, j)?;
        (UdlReturnType::Expr(t), j2)
    };
    let mut name: Option<String> = None;
    if j2 < toks.len() {
        if let Token::Ident(n) = &toks[j2] {
            name = Some(n.clone());
            j2 += 1;
        }
    }
    let (args, j3) = parse_args(toks, j2)?;
    if j3 < toks.len() && matches!(&toks[j3], Token::Semi) {
        Ok((UdlOperation { special, stringifier, name, return_type, args }, j3 + 1))
    } else {
        Err(syntax_err("expected a semicolon after an operation"))
    }
}

/// Parses a brace-enclosed list of operations starting at token `i`, which
/// must hold the opening brace; ends after the closing brace and its
/// semicolon.
fn parse_operation_block(toks: &Vec<Token>, i: usize) -> (r: Result<
    (Vec<UdlOperation>, usize),
    BuildError,
>)
    requires
        i <= toks@.len(),
    ensures
        r matches Ok(p) ==> i < p.1 <= toks@.len(),
        r matches Err(e) ==> e is Syntax,
{
    if !(i < toks.len() && matches!(&toks[i], Token::LBrace)) {
        return Err(syntax_err("expected an opening brace"));
    }
    let mut ops: Vec<UdlOperation> = Vec::new();
    let mut j = i + 1;
    loop
        invariant
            i < j <= toks@.len(),
        decreases toks@.len() - j,
    {
        if j < toks.len() && matches!(&toks[j], Token::RBrace) {
            if j + 1 < toks.len() && matches!(&toks[j + 1], Token::Semi) {
                return Ok((ops, j + 2));
            }
            return Err(syntax_err("expected a semicolon after a definition body"));
        }
        if j >= toks.len() {
            return Err(syntax_err("unterminated definition body"));
        }
        let (op, j2) = parse_operation(toks, j)?;
        ops.push(op);
        j = j2;
    }
}

/// Parses one top-level definition starting at token `i`.
fn parse_definition(toks: &Vec<Token>, i: usize) -> (r: Result<(UdlDefinition, usize), BuildError>)
    requires
        i <= toks@.len(),
    ensures
        r matches Ok(p) ==> i < p.1 <= toks@.len(),
        r matches Err(e) ==> e is Syntax,
{
    let mut j = i;
    let mut is_enum_attr = false;
    let mut is_error_attr = false;
    if j < toks.len() && matches!(&toks[j], Token::LBracket) {
        let mut k = j + 1;
        loop
            invariant
                j < k <= toks@.len(),
            decreases toks@.len() - k,
        {
            if k < toks.len() && matches!(&toks[k], Token::RBracket) {
                k += 1;
                break ;
            }
            if k >= toks.len() {
                return Err(syntax_err("unterminated attribute block"));
            }
            match &toks[k] {
                Token::Ident(a) => {
                    if str_eq(a.as_str(), "Enum") {
                        is_enum_attr = true;
                    } else if str_eq(a.as_str(), "Error") {
                        is_error_attr = true;
                    }
                    k += 1;
                },
                Token::Comma => {
                    k += 1;
                },
                _ => {
                    return Err(syntax_err("expected an attribute name"));
                },
            }
        }
        j = k;
    }
    if j >= toks.len() {
        return Err(syntax_err("expected a definition"));
    }
    let kw: String = match &toks[j] {
        Token::Ident(k) => k.clone(),
        _ => {
            return Err(syntax_err("expected a definition keyword"));
        },
    };
    if str_eq(kw.as_str(), "namespace") {
        if j + 1 >= toks.len() {
            return Err(syntax_err("expected a namespace name"));
        }
        let name: String = match &toks[j + 1] {
            Token::Ident(n) => n.clone(),
            _ => {
                return Err(syntax_err("expected a namespace name"));
            },
        };
        let (operations, j2) = parse_operation_block(toks, j + 2)?;
        Ok((UdlDefinition::Namespace { name, operations }, j2))
    } else if str_eq(kw.as_str(), "enum") {
        if j + 1 >= toks.len() {
            return Err(syntax_err("expected an enum name"));
        }
        let name: String = match &toks[j + 1] {
            Token::Ident(n) => n.clone(),
            _ => {
                return Err(syntax_err("expected an enum name"));
            },
        };
        if !(j + 2 < toks.len() && matches!(&toks[j + 2], Token::LBrace)) {
            return Err(syntax_err("expected an opening brace"));
        }
        let mut values: Vec<String> = Vec::new();
        let mut k = j + 3;
        loop
            invariant
                i <= j,
                j + 3 <= k <= toks@.len(),
            decreases toks@.len() - k,
        {
            if k < toks.len() && matches!(&toks[k], Token::RBrace) {
                if k + 1 < toks.len() && matches!(&toks[k + 1], Token::Semi) {
                    return Ok((
                        UdlDefinition::EnumDef { name, values, is_error: is_error_attr },
                        k + 2,
                    ));
                }
                return Err(syntax_err("expected a semicolon after a definition body"));
            }
            if k >= toks.len() {
                return Err(syntax_err("unterminated enum body"));
            }
            match &toks[k] {
                Token::StrLit(v) => {
                    values.push(v.clone());
                    k += 1;
                    if k < toks.len() && matches!(&toks[k], Token::Comma) {
                        k += 1;
                    }
                },
                _ => {
                    return Err(syntax_err("expected an enum value"));
                },
            }
        }
    } else if str_eq(kw.as_str(), "interface") {
        if j + 1 >= toks.len() {
            return Err(syntax_err("expected an interface name"));
        }
        let name: String = match &toks[j + 1] {
            Token::Ident(n) => n.clone(),
            _ => {
                return Err(syntax_err("expected an interface name"));
            },
        };
        let mut j2 = j + 2;
        let mut inheritance: Option<String> = None;
        if j2 < toks.len() && matches!(&toks[j2], Token::Colon) {
            if j2 + 1 >= toks.len() {
                return Err(syntax_err("expected a parent interface name"));
            }
            match &toks[j2 + 1] {
                Token::Ident(p) => {
                    inheritance = Some(p.clone());
                    j2 += 2;
                },
                _ => {
                    return Err(syntax_err("expected a parent interface name"));
                },
            }
        }
        let (operations, j3) = parse_operation_block(toks, j2)?;
        Ok((
            UdlDefinition::Interface { name, is_enum: is_enum_attr, inheritance, operations },
            j3,
        ))
    } else if str_eq(kw.as_str(), "dictionary") {
        if j + 1 >= toks.len() {
            return Err(syntax_err("expected a dictionary name"));
        }
        let name: String = match &toks[j + 1] {
            Token::Ident(n) => n.clone(),
            _ => {
                return Err(syntax_err("expected a dictionary name"));
            },
        };
        if !(j + 2 < toks.len() && matches!(&toks[j + 2], Token::LBrace)) {
            return Err(syntax_err("expected an opening brace"));
        }
        let mut fields: Vec<UdlDictField> = Vec::new();
        let mut k = j + 3;
        loop
            invariant
                i <= j,
                j + 3 <= k <= toks@.len(),
            decreases toks@.len() - k,
        {
            if k < toks.len() && matches!(&toks[k], Token::RBrace) {
                if k + 1 < toks.len() && matches!(&toks[k + 1], Token::Semi) {
                    return Ok((UdlDefinition::Dictionary { name, fields }, k + 2));
                }
                return Err(syntax_err("expected a semicolon after a definition body"));
            }
            if k >= toks.len() {
                return Err(syntax_err("unterminated dictionary body"));
            }
            let mut required = false;
            if let Token::Ident(kw2) = &toks[k] {
                if str_eq(kw2.as_str(), "required") {
                    required = true;
                    k += 1;
                }
            }
            let (type_, k2) = parse_type_expr(toks, k)?;
            if k2 >= toks.len() {
                return Err(syntax_err("expected a field name"));
            }
            let fname: String = match &toks[k2] {
                Token::Ident(n) => n.clone(),
                _ => {
                    return Err(syntax_err("expected a field name"));
                },
            };
            let mut k3 = k2 + 1;
            let mut default: Option<Literal> = None;
            if k3 < toks.len() && matches!(&toks[k3], Token::Equals) {
                let (lit, k4) = parse_literal(toks, k3 + 1)?;
                default = Some(lit);
                k3 = k4;
            }
            if !(k3 < toks.len() && matches!(&toks[k3], Token::Semi)) {
                return Err(syntax_err("expected a semicolon after a dictionary field"));
            }
            fields.push(UdlDictField { required, name: fname, type_, default });
            k = k3 + 1;
        }
    } else if str_eq(kw.as_str(), "callback") {
        if !(j + 1 < toks.len() && matches!(&toks[j + 1], Token::Ident(k2) if str_eq(
            k2.as_str(),
            "interface",
        ))) {
            return Err(syntax_err("expected a callback interface"));
        }
        if j + 2 >= toks.len() {
            return Err(syntax_err("expected a callback interface name"));
        }
        let name: String = match &toks[j + 2] {
            Token::Ident(n) => n.clone(),
            _ => {
                return Err(syntax_err("expected a callback interface name"));
            },
        };
        let (operations, j3) = parse_operation_block(toks, j + 3)?;
        Ok((UdlDefinition::Callback { name, operations }, j3))
    } else {
        Err(syntax_err("unknown definition keyword"))
    }
}

/// Parses a whole interface-definition source text into its top-level
/// definitions. Fails with a syntax error on malformed input; no partial
/// list is returned.
pub fn parse_udl(s: &str) -> (r: Result<Vec<UdlDefinition>, BuildError>)
    ensures
        r matches Err(e) ==> e is Syntax,
{
    let toks = lex(s)?;
    let mut defs: Vec<UdlDefinition> = Vec::new();
    let mut i: usize = 0;
    while i < toks.len()
        invariant
            i <= toks@.len(),
        decreases toks@.len() - i,
    {
        let (d, j) = parse_definition(&toks, i)?;
        defs.push(d);
        i = j;
    }
    Ok(defs)
}

} // verus!
