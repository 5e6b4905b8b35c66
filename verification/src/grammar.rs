//! What the parser's trees have to do with the grammar.
//!
//! A tree is [`well_formed`] where only `-` stands in front of a value, and
//! [`shaped`] where its operators are nested as the tiers of binding
//! strength demand.  Its [`spelling`] is the row of tokens that it is
//! written with.
//!
//! The laws, in both directions.  What is parsed is well formed and
//! shaped, and spells exactly the tokens that were read for it
//! ([`lemma_parsed_shape`], [`lemma_parsed_spelling`]).  And where the
//! tokens spell a well-formed, shaped tree, that tree is what is parsed
//! ([`lemma_spelled_is_parsed`]).  So the parser reads the trees of the
//! grammar, all of them and no others, and each from its own spelling
//! only.  A text that spells a row of statements to its end is parsed to
//! those statements, with no diagnostic
//! ([`lemma_spelled_program_is_parsed`]).

use vstd::prelude::*;

use crate::ast::Expr;
use crate::ast::Statement;
use crate::ast::Value;
use crate::lexer::Cursor;
use crate::parser::chain;
use crate::parser::expression;
use crate::parser::lemma_progress;
use crate::parser::lemma_statement_progress;
use crate::parser::program;
use crate::parser::statement;
use crate::parser::value;
use crate::parser::Outcome;
use crate::parser::Parsed;
use crate::parser::PrecedenceLevel;
use crate::token::Symbol;
use crate::token::Token;
use crate::Operator;

verus! {

/// That every operator in front of a value in `expr` is one that can stand
/// there.
pub open spec fn well_formed(expr: Expr) -> bool
    decreases expr,
{
    match expr {
        Expr::BinaryOperation(_, left, right) => well_formed(*left) && well_formed(*right),
        Expr::Value(value) => well_formed_value(value),
    }
}

/// That every operator in front of a value in `value` is one that can
/// stand there.
pub open spec fn well_formed_value(value: Value) -> bool
    decreases value,
{
    match value {
        Value::Expr(expr) => well_formed(*expr),
        Value::Integer(_) => true,
        Value::Null => true,
        Value::UnaryOperation(operator, operand) => operator.unary() && well_formed_value(
            *operand,
        ),
    }
}

/// That `expr` has the shape that the tier `level` gives: at `MAX` a
/// single value; at `MID` a value, or `* /` with a `MID` shape to the left
/// and a value to the right; at `LOW` a `MID` shape, or `+ -` with a `LOW`
/// shape to the left and a `MID` shape to the right; and in parentheses a
/// `LOW` shape again.  So an operator stands above those that bind
/// tighter, and to the right of those of its own tier: anything else was
/// written in parentheses.
pub open spec fn shaped(level: PrecedenceLevel, expr: Expr) -> bool
    decreases expr, level.rank(),
{
    match expr {
        Expr::BinaryOperation(operator, left, right) => {
            if PrecedenceLevel::of(operator) == level {
                shaped(level, *left) && shaped(level.tighter(), *right)
            } else {
                level is LOW && shaped(PrecedenceLevel::MID, expr)
            }
        },
        Expr::Value(value) => shaped_value(value),
    }
}

/// That every expression in parentheses in `value` has the shape of the
/// loosest tier.
pub open spec fn shaped_value(value: Value) -> bool
    decreases value, 0nat,
{
    match value {
        Value::Expr(expr) => shaped(PrecedenceLevel::LOW, *expr),
        Value::UnaryOperation(_, operand) => shaped_value(*operand),
        _ => true,
    }
}

/// What the parser reads is well formed, and has the shape of its tier.
pub proof fn lemma_parsed_shape(level: PrecedenceLevel, c: Cursor)
    ensures
        value(c).result matches Ok(v) ==> well_formed_value(v) && shaped_value(v),
        expression(level, c).result matches Ok(e) ==> well_formed(e) && shaped(level, e),
    decreases c.remaining(), level.rank(),
{
    c.lemma_token_advances();
    lemma_value_well_formed(c);
    match level {
        PrecedenceLevel::MAX => {},
        _ => {
            lemma_parsed_shape(level.tighter(), c);
            lemma_progress(level.tighter(), c);
            let first = expression(level.tighter(), c);
            if first.result is Ok {
                let e = first.result->Ok_0;
                lemma_chain_shape(level, e, first.rest);
            }
        },
    }
}

proof fn lemma_value_well_formed(c: Cursor)
    ensures
        value(c).result matches Ok(v) ==> well_formed_value(v) && shaped_value(v),
    decreases c.remaining(), 0nat,
{
    c.lemma_token_advances();
    let rest = c.after_token();
    match c.token() {
        Token::Operator(_, operator) => {
            if operator.unary() {
                lemma_value_well_formed(rest);
            }
        },
        Token::ParenthesisL(_) => {
            if !(rest.token() is ParenthesisR) {
                lemma_parsed_shape(PrecedenceLevel::LOW, rest);
            }
        },
        _ => {},
    }
}

proof fn lemma_chain_shape(level: PrecedenceLevel, left: Expr, c: Cursor)
    requires
        !(level is MAX),
        well_formed(left),
        shaped(level, left),
    ensures
        chain(level, left, c).result matches Ok(e) ==> well_formed(e) && shaped(level, e),
    decreases c.remaining(), (level.rank() - 1) as nat,
{
    c.lemma_token_advances();
    match c.token() {
        Token::Operator(_, operator) => {
            if operator.binary() && PrecedenceLevel::of(operator) == level {
                let after = c.after_token();
                after.lemma_token_advances();
                lemma_progress(level.tighter(), after);
                lemma_parsed_shape(level.tighter(), after);
                let right = expression(level.tighter(), after);
                if right.result is Ok {
                    let joined = Expr::BinaryOperation(
                        operator,
                        Box::new(left),
                        Box::new(right.result->Ok_0),
                    );
                    lemma_chain_shape(level, joined, right.rest);
                }
            }
        },
        _ => {},
    }
}

/// What an expression says when it is written out token by token.
pub open spec fn spelling(expr: Expr) -> Seq<Symbol>
    decreases expr,
{
    match expr {
        Expr::BinaryOperation(operator, left, right) => spelling(*left)
            + seq![Symbol::Operator(operator)] + spelling(*right),
        Expr::Value(value) => spelling_of_value(value),
    }
}

/// What a value says when it is written out token by token.
pub open spec fn spelling_of_value(value: Value) -> Seq<Symbol>
    decreases value,
{
    match value {
        Value::Expr(expr) => seq![Symbol::ParenthesisL] + spelling(*expr)
            + seq![Symbol::ParenthesisR],
        Value::Integer(n) => seq![Symbol::Integer(n)],
        Value::Null => seq![Symbol::ParenthesisL, Symbol::ParenthesisR],
        Value::UnaryOperation(operator, operand) => seq![Symbol::Operator(operator)]
            + spelling_of_value(*operand),
    }
}

/// The tree that is read says what the tokens said that were read for it:
/// nothing is left out, added or reordered.
pub proof fn lemma_parsed_spelling(level: PrecedenceLevel, c: Cursor)
    ensures
        value(c).result matches Ok(v) ==> c.spells(value(c).rest, spelling_of_value(v)),
        expression(level, c).result matches Ok(e) ==> c.spells(
            expression(level, c).rest,
            spelling(e),
        ),
    decreases c.remaining(), level.rank(),
{
    c.lemma_token_advances();
    lemma_value_spelling(c);
    match level {
        PrecedenceLevel::MAX => {},
        _ => {
            lemma_parsed_spelling(level.tighter(), c);
            lemma_progress(level.tighter(), c);
            let first = expression(level.tighter(), c);
            if first.result is Ok {
                lemma_chain_spelling(level, c, first.result->Ok_0, first.rest);
            }
        },
    }
}

proof fn lemma_value_spelling(c: Cursor)
    ensures
        value(c).result matches Ok(v) ==> c.spells(value(c).rest, spelling_of_value(v)),
    decreases c.remaining(), 0nat,
{
    c.lemma_token_advances();
    c.lemma_spells_token();
    let rest = c.after_token();
    match c.token() {
        Token::Operator(_, operator) => {
            if operator.unary() {
                lemma_value_spelling(rest);
                let operand = value(rest);
                if operand.result is Ok {
                    c.lemma_spells_both(
                        rest,
                        operand.rest,
                        seq![Symbol::Operator(operator)],
                        spelling_of_value(operand.result->Ok_0),
                    );
                }
            }
        },
        Token::ParenthesisL(_) => {
            rest.lemma_spells_token();
            if rest.token() is ParenthesisR {
                c.lemma_spells_both(
                    rest,
                    rest.after_token(),
                    seq![Symbol::ParenthesisL],
                    seq![Symbol::ParenthesisR],
                );
                assert(seq![Symbol::ParenthesisL] + seq![Symbol::ParenthesisR] =~= seq![
                    Symbol::ParenthesisL,
                    Symbol::ParenthesisR,
                ]);
            } else {
                lemma_parsed_spelling(PrecedenceLevel::LOW, rest);
                let inner = expression(PrecedenceLevel::LOW, rest);
                if inner.result is Ok && inner.rest.token() is ParenthesisR {
                    let e = inner.result->Ok_0;
                    inner.rest.lemma_spells_token();
                    c.lemma_spells_both(rest, inner.rest, seq![Symbol::ParenthesisL], spelling(e));
                    c.lemma_spells_both(
                        inner.rest,
                        inner.rest.after_token(),
                        seq![Symbol::ParenthesisL] + spelling(e),
                        seq![Symbol::ParenthesisR],
                    );
                }
            }
        },
        _ => {},
    }
}

proof fn lemma_chain_spelling(level: PrecedenceLevel, start: Cursor, left: Expr, c: Cursor)
    requires
        start.spells(c, spelling(left)),
    ensures
        chain(level, left, c).result matches Ok(e) ==> start.spells(
            chain(level, left, c).rest,
            spelling(e),
        ),
    decreases c.remaining(), (level.rank() - 1) as nat,
{
    c.lemma_token_advances();
    match c.token() {
        Token::Operator(_, operator) => {
            if operator.binary() && PrecedenceLevel::of(operator) == level {
                let after = c.after_token();
                after.lemma_token_advances();
                lemma_progress(level.tighter(), after);
                lemma_parsed_spelling(level.tighter(), after);
                let right = expression(level.tighter(), after);
                if right.result is Ok {
                    let e = right.result->Ok_0;
                    c.lemma_spells_token();
                    start.lemma_spells_both(
                        c,
                        after,
                        spelling(left),
                        seq![Symbol::Operator(operator)],
                    );
                    start.lemma_spells_both(
                        after,
                        right.rest,
                        spelling(left) + seq![Symbol::Operator(operator)],
                        spelling(e),
                    );
                    lemma_chain_spelling(
                        level,
                        start,
                        Expr::BinaryOperation(operator, Box::new(left), Box::new(e)),
                        right.rest,
                    );
                }
            }
        },
        _ => {},
    }
}

/// A statement that is read says what its tokens said: its expression,
/// and `;`.
pub proof fn lemma_statement_spelling(c: Cursor)
    ensures
        statement(c).result matches Ok(s) ==> c.spells(
            statement(c).rest,
            spelling(s.expr) + seq![Symbol::Terminator],
        ),
{
    lemma_parsed_spelling(PrecedenceLevel::LOW, c);
    let body = expression(PrecedenceLevel::LOW, c);
    if statement(c).result is Ok {
        body.rest.lemma_spells_token();
        c.lemma_spells_both(
            body.rest,
            body.rest.after_token(),
            spelling(body.result->Ok_0),
            seq![Symbol::Terminator],
        );
    }
}

/// Every statement of a parsed program is well formed and has the shape
/// of the loosest tier.
pub proof fn lemma_program_shape(c: Cursor, i: int)
    requires
        0 <= i < program(c).statements.len(),
    ensures
        well_formed(program(c).statements[i].expr),
        shaped(PrecedenceLevel::LOW, program(c).statements[i].expr),
    decreases c.remaining(),
{
    lemma_statement_progress(c);
    lemma_parsed_shape(PrecedenceLevel::LOW, c);
    let first = statement(c);
    match first.result {
        Ok(s) => {
            if i > 0 {
                lemma_program_shape(first.rest, i - 1);
            }
        },
        Err(e) => {
            if e.kind is SyntaxError {
                lemma_program_shape(first.rest, i);
            }
        },
    }
}

/// Whether `token` ends an expression of the tier `level`: it is no
/// operator that binds at that tier or tighter.
pub open spec fn ends(level: PrecedenceLevel, token: Token) -> bool {
    match token {
        Token::Operator(_, operator) => PrecedenceLevel::of(operator).rank() > level.rank(),
        _ => true,
    }
}

/// The operand with which the chain of tier `level` at the top of `expr`
/// begins.
spec fn head(level: PrecedenceLevel, expr: Expr) -> Expr
    decreases expr,
{
    match expr {
        Expr::BinaryOperation(operator, left, _) => {
            if PrecedenceLevel::of(operator) == level {
                head(level, *left)
            } else {
                expr
            }
        },
        _ => expr,
    }
}

/// The operators of the chain of tier `level` at the top of `expr`, each
/// with its right operand, from left to right.
spec fn links(level: PrecedenceLevel, expr: Expr) -> Seq<(Operator, Expr)>
    decreases expr,
{
    match expr {
        Expr::BinaryOperation(operator, left, right) => {
            if PrecedenceLevel::of(operator) == level {
                links(level, *left).push((operator, *right))
            } else {
                Seq::empty()
            }
        },
        _ => Seq::empty(),
    }
}

/// The tree of a chain: `left` with the links joined to it one by one,
/// each above what was there before.
spec fn joined(left: Expr, links: Seq<(Operator, Expr)>) -> Expr
    decreases links.len(),
{
    if links.len() == 0 {
        left
    } else {
        joined(
            Expr::BinaryOperation(links[0].0, Box::new(left), Box::new(links[0].1)),
            links.drop_first(),
        )
    }
}

/// What the links of a chain say: each its operator and its operand.
spec fn spelling_of_links(links: Seq<(Operator, Expr)>) -> Seq<Symbol>
    decreases links.len(),
{
    if links.len() == 0 {
        Seq::empty()
    } else {
        seq![Symbol::Operator(links[0].0)] + spelling(links[0].1) + spelling_of_links(
            links.drop_first(),
        )
    }
}

/// That the links are of the tier `level`: each operator binds there, and
/// each operand is well formed and has the shape of the next tighter tier.
spec fn linked(level: PrecedenceLevel, links: Seq<(Operator, Expr)>) -> bool {
    forall|i: int|
        0 <= i < links.len() ==> {
            &&& PrecedenceLevel::of((#[trigger] links[i]).0) == level
            &&& well_formed(links[i].1)
            &&& shaped(level.tighter(), links[i].1)
        }
}

proof fn lemma_joined_last(left: Expr, links: Seq<(Operator, Expr)>, last: (Operator, Expr))
    ensures
        joined(left, links.push(last)) == Expr::BinaryOperation(
            last.0,
            Box::new(joined(left, links)),
            Box::new(last.1),
        ),
    decreases links.len(),
{
    let longer = links.push(last);
    if links.len() == 0 {
        assert(joined(left, longer) == joined(
            Expr::BinaryOperation(last.0, Box::new(left), Box::new(last.1)),
            longer.drop_first(),
        ));
    } else {
        assert(longer.drop_first() =~= links.drop_first().push(last));
        lemma_joined_last(
            Expr::BinaryOperation(links[0].0, Box::new(left), Box::new(links[0].1)),
            links.drop_first(),
            last,
        );
    }
}

proof fn lemma_spelling_of_last_link(links: Seq<(Operator, Expr)>, last: (Operator, Expr))
    ensures
        spelling_of_links(links.push(last)) == spelling_of_links(links) + seq![
            Symbol::Operator(last.0),
        ] + spelling(last.1),
    decreases links.len(),
{
    let longer = links.push(last);
    if links.len() == 0 {
        assert(spelling_of_links(longer.drop_first()) =~= Seq::<Symbol>::empty());
    } else {
        assert(longer.drop_first() =~= links.drop_first().push(last));
        lemma_spelling_of_last_link(links.drop_first(), last);
    }
}

/// An expression of a tier is a chain of that tier: its head with its
/// links joined to it, and it says what they say in their order.
proof fn lemma_chain_of(level: PrecedenceLevel, expr: Expr)
    requires
        !(level is MAX),
        well_formed(expr),
        shaped(level, expr),
    ensures
        joined(head(level, expr), links(level, expr)) == expr,
        spelling(expr) == spelling(head(level, expr)) + spelling_of_links(links(level, expr)),
        well_formed(head(level, expr)),
        shaped(level.tighter(), head(level, expr)),
        linked(level, links(level, expr)),
    decreases expr,
{
    match expr {
        Expr::BinaryOperation(operator, left, right) => {
            if PrecedenceLevel::of(operator) == level {
                lemma_chain_of(level, *left);
                lemma_joined_last(head(level, *left), links(level, *left), (operator, *right));
                lemma_spelling_of_last_link(links(level, *left), (operator, *right));
            } else {
            }
        },
        Expr::Value(_) => {
        },
    }
}

/// That a symbol can begin a value.
spec fn begins_value(symbol: Symbol) -> bool {
    symbol is Integer || symbol is ParenthesisL || symbol == Symbol::Operator(Operator::Subtract)
}

/// The spelling of a well-formed tree begins with a symbol that can begin
/// a value.
proof fn lemma_spelling_begins(expr: Expr)
    requires
        well_formed(expr),
    ensures
        spelling(expr).len() > 0,
        begins_value(spelling(expr)[0]),
    decreases expr,
{
    match expr {
        Expr::BinaryOperation(operator, left, right) => {
            lemma_spelling_begins(*left);
        },
        Expr::Value(value) => {
            lemma_spelling_of_value_begins(value);
        },
    }
}

proof fn lemma_spelling_of_value_begins(value: Value)
    requires
        well_formed_value(value),
    ensures
        spelling_of_value(value).len() > 0,
        begins_value(spelling_of_value(value)[0]),
{
}

/// The value whose spelling is read is the value that is parsed: if the
/// tokens from `c` to `rest` spell a well-formed, shaped value, then
/// parsing a value at `c` gives that value and stops at `rest`.
pub proof fn lemma_spelled_value_is_parsed(v: Value, c: Cursor, rest: Cursor)
    requires
        well_formed_value(v),
        shaped_value(v),
        c.spells(rest, spelling_of_value(v)),
    ensures
        value(c) == (Parsed { result: Ok(v), rest }),
    decreases spelling_of_value(v).len(), 0nat,
{
    let symbols = spelling_of_value(v);
    match v {
        Value::Expr(inner) => {
            let e = *inner;
            lemma_spelling_begins(e);
            assert(symbols.drop_first() =~= spelling(e) + seq![Symbol::ParenthesisR]);
            c.lemma_spells_first(rest, symbols);
            let after = c.after_token();
            after.lemma_spells_parts(rest, spelling(e), seq![Symbol::ParenthesisR]);
            let middle = after.after_tokens(spelling(e).len());
            after.lemma_spells_first(middle, spelling(e));
            middle.lemma_spells_first(rest, seq![Symbol::ParenthesisR]);
            lemma_spelled_is_parsed(PrecedenceLevel::LOW, e, after, middle);
        },
        Value::Integer(_) => {
            c.lemma_spells_first(rest, symbols);
        },
        Value::Null => {
            c.lemma_spells_first(rest, symbols);
            c.after_token().lemma_spells_first(rest, symbols.drop_first());
        },
        Value::UnaryOperation(operator, operand) => {
            assert(symbols.drop_first() =~= spelling_of_value(*operand));
            c.lemma_spells_first(rest, symbols);
            lemma_spelled_value_is_parsed(*operand, c.after_token(), rest);
        },
    }
}

/// The expression whose spelling is read is the expression that is parsed:
/// if the tokens from `c` to `rest` spell a well-formed expression with
/// the shape of the tier `level`, and the token at `rest` ends such an
/// expression, then parsing at that tier at `c` gives that expression and
/// stops at `rest`.
pub proof fn lemma_spelled_is_parsed(level: PrecedenceLevel, expr: Expr, c: Cursor, rest: Cursor)
    requires
        well_formed(expr),
        shaped(level, expr),
        c.spells(rest, spelling(expr)),
        ends(level, rest.token()),
    ensures
        expression(level, c) == (Parsed { result: Ok(expr), rest }),
    decreases spelling(expr).len(), level.rank(),
{
    match level {
        PrecedenceLevel::MAX => {
            match expr {
                Expr::Value(v) => {
                    lemma_spelled_value_is_parsed(v, c, rest);
                },
                _ => {},
            }
        },
        _ => {
            lemma_chain_of(level, expr);
            let first = head(level, expr);
            let others = links(level, expr);
            c.lemma_spells_parts(rest, spelling(first), spelling_of_links(others));
            let middle = c.after_tokens(spelling(first).len());
            if others.len() > 0 {
                middle.lemma_spells_first(rest, spelling_of_links(others));
            }
            lemma_spelled_is_parsed(level.tighter(), first, c, middle);
            lemma_progress(level.tighter(), c);
            c.lemma_token_advances();
            lemma_links_are_chained(level, first, others, middle, rest);
        },
    }
}

/// The links whose spelling is read are the links that are chained.
proof fn lemma_links_are_chained(
    level: PrecedenceLevel,
    left: Expr,
    links: Seq<(Operator, Expr)>,
    c: Cursor,
    rest: Cursor,
)
    requires
        !(level is MAX),
        linked(level, links),
        c.spells(rest, spelling_of_links(links)),
        ends(level, rest.token()),
    ensures
        chain(level, left, c) == (Parsed { result: Ok(joined(left, links)), rest }),
    decreases spelling_of_links(links).len(), 0nat,
{
    if links.len() > 0 {
        let operator = links[0].0;
        let right = links[0].1;
        let others = links.drop_first();
        let symbols = spelling_of_links(links);
        assert(linked(level, others)) by {
            assert forall|i: int| 0 <= i < others.len() implies {
                &&& PrecedenceLevel::of((#[trigger] others[i]).0) == level
                &&& well_formed(others[i].1)
                &&& shaped(level.tighter(), others[i].1)
            } by {
            }
        }
        assert(symbols.drop_first() =~= spelling(right) + spelling_of_links(others));
        c.lemma_spells_first(rest, symbols);
        let after = c.after_token();
        after.lemma_spells_parts(rest, spelling(right), spelling_of_links(others));
        let middle = after.after_tokens(spelling(right).len());
        if others.len() > 0 {
            middle.lemma_spells_first(rest, spelling_of_links(others));
        }
        lemma_spelled_is_parsed(level.tighter(), right, after, middle);
        c.lemma_token_advances();
        after.lemma_token_advances();
        lemma_progress(level.tighter(), after);
        lemma_links_are_chained(
            level,
            Expr::BinaryOperation(operator, Box::new(left), Box::new(right)),
            others,
            middle,
            rest,
        );
    }
}

/// The statement whose spelling is read is the statement that is parsed:
/// if the tokens from `c` to `rest` spell a well-formed expression with
/// the shape of the loosest tier, and `;`, then parsing a statement at `c`
/// gives that expression and stops at `rest`.
pub proof fn lemma_spelled_statement_is_parsed(expr: Expr, c: Cursor, rest: Cursor)
    requires
        well_formed(expr),
        shaped(PrecedenceLevel::LOW, expr),
        c.spells(rest, spelling(expr) + seq![Symbol::Terminator]),
    ensures
        statement(c) == (Parsed { result: Ok(Statement { expr }), rest }),
{
    lemma_spelling_begins(expr);
    c.lemma_spells_parts(rest, spelling(expr), seq![Symbol::Terminator]);
    let middle = c.after_tokens(spelling(expr).len());
    c.lemma_spells_first(middle, spelling(expr));
    middle.lemma_spells_first(rest, seq![Symbol::Terminator]);
    lemma_spelled_is_parsed(PrecedenceLevel::LOW, expr, c, middle);
}

/// What a row of statements says: each its expression, and `;`.
pub open spec fn spelling_of_statements(statements: Seq<Statement>) -> Seq<Symbol>
    decreases statements.len(),
{
    if statements.len() == 0 {
        Seq::empty()
    } else {
        spelling(statements[0].expr) + seq![Symbol::Terminator] + spelling_of_statements(
            statements.drop_first(),
        )
    }
}

/// The program whose spelling is read is the program that is parsed, and
/// nothing is reported: if the tokens from `c` to `rest` spell statements
/// that are well formed and have the shape of the loosest tier, and the
/// text ends at `rest`, then parsing a program at `c` gives those
/// statements and no diagnostic, and stops at `rest`.
pub proof fn lemma_spelled_program_is_parsed(statements: Seq<Statement>, c: Cursor, rest: Cursor)
    requires
        forall|i: int|
            0 <= i < statements.len() ==> well_formed((#[trigger] statements[i]).expr) && shaped(
                PrecedenceLevel::LOW,
                statements[i].expr,
            ),
        c.spells(rest, spelling_of_statements(statements)),
        rest.token() is EOF,
    ensures
        program(c) == (Outcome { statements, diagnostics: Seq::empty(), rest }),
    decreases statements.len(),
{
    if statements.len() == 0 {
        assert(program(c).statements =~= statements);
    } else {
        let first = statements[0];
        let others = statements.drop_first();
        let line = spelling(first.expr) + seq![Symbol::Terminator];
        c.lemma_spells_parts(rest, line, spelling_of_statements(others));
        let middle = c.after_tokens(line.len());
        lemma_spelled_statement_is_parsed(first.expr, c, middle);
        assert forall|i: int| 0 <= i < others.len() implies well_formed(
            (#[trigger] others[i]).expr,
        ) && shaped(PrecedenceLevel::LOW, others[i].expr) by {
            assert(others[i] == statements[i + 1]);
        }
        lemma_spelled_program_is_parsed(others, middle, rest);
        assert(program(c).statements =~= statements);
    }
}

} // verus!
