//! What the engine reads off the text of a partition query.

use crate::errors::ConnectorAgentError;
use sqlparser::ast::Statement;
use sqlparser::dialect::MySqlDialect;
use sqlparser::parser::{Parser, ParserError};
use sqlparser::tokenizer::{Token, Tokenizer};
use vstd::prelude::*;
use vstd::utf8::encode_utf8;

verus! {

/// What the engine reads off one parsed statement.
#[derive(Debug)]
pub enum StatementShape {
    /// A query, with the text of its `LIMIT` expression where it has one.
    Query(Option<String>),
    /// Any other statement.
    Other,
}

/// A statement shape as a mathematical value.
pub enum Shape {
    Query(Option<Seq<char>>),
    Other,
}

impl View for StatementShape {
    type V = Shape;

    open spec fn view(&self) -> Shape {
        match *self {
            StatementShape::Query(Some(text)) => Shape::Query(Some(text@)),
            StatementShape::Query(None) => Shape::Query(None),
            StatementShape::Other => Shape::Other,
        }
    }
}

/// The views of the shapes of a statement list.
pub open spec fn shape_views(shapes: Seq<StatementShape>) -> Seq<Shape> {
    shapes.map_values(|s: StatementShape| s@)
}

/// What `sqlparser::parser::Parser::parse_sql` makes of a text in the MySQL
/// dialect: `None` where it refuses the text, else the shape of each statement
/// in order, a `LIMIT` expression being given as its `Display` text.
pub uninterp spec fn parsed_shapes(sql: Seq<char>) -> Option<Seq<Shape>>;

/// The kinds of tokens, as far as the engine tells them apart: the four that
/// the parser cannot take in the MySQL dialect, and all the others.
#[derive(Clone, Copy, Debug, PartialEq, Eq, Structural)]
pub enum TokenKind {
    /// `#`
    Sharp,
    /// `<<`
    ShiftLeft,
    /// `>>`
    ShiftRight,
    /// `]`
    RBracket,
    /// Any other token.
    Other,
}

/// What `sqlparser::tokenizer::Tokenizer::tokenize` makes of a text in the
/// MySQL dialect: `None` where it refuses the text, else the kind of each
/// token in order.
pub uninterp spec fn token_kinds(sql: Seq<char>) -> Option<Seq<TokenKind>>;

/// Calls `sqlparser::tokenizer::Tokenizer::tokenize` with `MySqlDialect` and
/// keeps of each token its kind. Nothing is claimed about which texts the
/// tokenizer takes or into what: the outcome only gets its name. The
/// tokenizer's error comes as the parser's, which is what the parser makes of
/// it too.
#[verifier::external_body]
fn tokenize_kinds(sql: &str) -> (r: Result<Vec<TokenKind>, ParserError>)
    ensures
        match r {
            Ok(kinds) => token_kinds(sql@) == Some(kinds@),
            Err(_) => token_kinds(sql@) is None,
        },
{
    let tokens = Tokenizer::new(&MySqlDialect {}, sql).tokenize()?;
    Ok(
        tokens.into_iter().map(
            |token| match token {
                Token::Sharp => TokenKind::Sharp,
                Token::ShiftLeft => TokenKind::ShiftLeft,
                Token::ShiftRight => TokenKind::ShiftRight,
                Token::RBracket => TokenKind::RBracket,
                _ => TokenKind::Other,
            },
        ).collect(),
    )
}

/// Whether the parser can take every one of the tokens.
pub open spec fn takeable(kinds: Seq<TokenKind>) -> bool {
    forall|i: int| 0 <= i < kinds.len() ==> #[trigger] kinds[i] == TokenKind::Other
}

/// Tells whether the parser can take every one of the tokens.
pub fn all_takeable(kinds: &Vec<TokenKind>) -> (b: bool)
    ensures
        b == takeable(kinds@),
{
    let mut i: usize = 0;
    while i < kinds.len()
        invariant
            i <= kinds.len(),
            forall|k: int| 0 <= k < i ==> #[trigger] kinds@[k] == TokenKind::Other,
        decreases kinds.len() - i,
    {
        match kinds[i] {
            TokenKind::Other => {},
            _ => {
                return false;
            },
        }
        i += 1;
    }
    true
}

/// Whether a text is one that can be handed to the parser: the tokenizer
/// takes it, and the parser can take every one of its tokens.
pub open spec fn parseable(sql: Seq<char>) -> bool {
    token_kinds(sql) matches Some(kinds) && takeable(kinds)
}

/// Tests a text before it is handed to the parser. A text that the tokenizer
/// refuses is a `SQLParserError`; one with a token that the parser cannot
/// take, which is one of `#`, `<<`, `>>` and `]` outside of strings, comments
/// and quoted names, is a `SQLQueryNotSupported` with the text.
pub fn check_tokens(sql: &str) -> (r: Result<(), ConnectorAgentError>)
    ensures
        match token_kinds(sql@) {
            None => r matches Err(ConnectorAgentError::SQLParserError(_)),
            Some(kinds) => if takeable(kinds) {
                r is Ok
            } else {
                &&& r matches Err(ConnectorAgentError::SQLQueryNotSupported(q))
                &&& q@ == sql@
            },
        },
{
    match tokenize_kinds(sql) {
        Ok(kinds) => if all_takeable(&kinds) {
            Ok(())
        } else {
            Err(ConnectorAgentError::SQLQueryNotSupported(sql.to_owned()))
        },
        Err(e) => Err(ConnectorAgentError::SQLParserError(e)),
    }
}

/// Calls `sqlparser::parser::Parser::parse_sql` with `MySqlDialect` and keeps
/// of each statement whether it is a query and, rendered by `Display`, its
/// `LIMIT` expression. Nothing is claimed about which texts parse or into what:
/// the outcome only gets its name.
///
/// The parser gives the tokens `]`, `#`, `<<` and `>>` the precedence of an
/// operator and has, in this dialect, no rule to parse them as one: it panics
/// where one follows an expression. So `requires` leaves out every text of
/// which the tokenizer, which the parser runs first, makes such a token. The
/// parser's other `unwrap` and `unreachable!` sites stand behind tests that
/// exclude them. It descends into nested expressions by recursion, so it is
/// taken to return only for texts that are not nested deeper than the stack
/// allows.
#[verifier::external_body]
fn parse_shapes(sql: &str) -> (r: Result<Vec<StatementShape>, ParserError>)
    requires
        parseable(sql@),
    ensures
        match r {
            Ok(shapes) => parsed_shapes(sql@) == Some(shape_views(shapes@)),
            Err(_) => parsed_shapes(sql@) is None,
        },
{
    let statements = Parser::parse_sql(&MySqlDialect {}, sql)?;
    Ok(
        statements.into_iter().map(
            |statement| match statement {
                Statement::Query(q) => StatementShape::Query(q.limit.map(|e| e.to_string())),
                _ => StatementShape::Other,
            },
        ).collect(),
    )
}

/// Whether `b` is an ASCII decimal digit.
pub open spec fn is_digit(b: u8) -> bool {
    48 <= b <= 57
}

/// Whether every byte of `s` is a decimal digit.
pub open spec fn all_digits(s: Seq<u8>) -> bool {
    forall|i: int| 0 <= i < s.len() ==> is_digit(#[trigger] s[i])
}

/// The number that the decimal digits `s` spell.
pub open spec fn decimal_value(s: Seq<u8>) -> nat
    decreases s.len(),
{
    if s.len() == 0 {
        0
    } else {
        (decimal_value(s.drop_last()) * 10 + (s.last() - 48)) as nat
    }
}

/// The row count that a text spells: one or more decimal digits whose number
/// fits the machine word.
pub open spec fn count_of(text: Seq<u8>) -> Option<usize> {
    if text.len() > 0 && all_digits(text) && decimal_value(text) <= usize::MAX {
        Some(decimal_value(text) as usize)
    } else {
        None
    }
}

/// A longer digit string spells a number that is no smaller than what any
/// of its prefixes spells.
proof fn lemma_decimal_prefix(s: Seq<u8>, i: int)
    requires
        all_digits(s),
        0 <= i <= s.len(),
    ensures
        decimal_value(s.subrange(0, i)) <= decimal_value(s),
    decreases s.len() - i,
{
    if i < s.len() {
        lemma_decimal_prefix(s, i + 1);
        let longer = s.subrange(0, i + 1);
        assert(longer.drop_last() =~= s.subrange(0, i));
        assert(is_digit(s[i]));
        assert(longer.last() == s[i]);
    } else {
        assert(s.subrange(0, i) =~= s);
    }
}

/// Reads a row count off a text.
pub fn parse_count(text: &str) -> (r: Option<usize>)
    ensures
        r == count_of(encode_utf8(text@)),
{
    let bytes = text.as_bytes();
    let ghost all = bytes@;
    if bytes.len() == 0 {
        return None;
    }
    let mut acc: usize = 0;
    let mut i: usize = 0;
    while i < bytes.len()
        invariant
            i <= bytes.len(),
            all == bytes@,
            all == encode_utf8(text@),
            all_digits(all.subrange(0, i as int)),
            acc == decimal_value(all.subrange(0, i as int)),
        decreases bytes.len() - i,
    {
        let b = bytes[i];
        let ghost shorter = all.subrange(0, i as int);
        let ghost longer = all.subrange(0, i + 1);
        proof {
            assert(longer.drop_last() =~= shorter);
            assert(longer.last() == b);
        }
        if b < 48 || b > 57 {
            assert(!is_digit(all[i as int]));
            return None;
        }
        let d: usize = (b - 48) as usize;
        assert(all_digits(longer)) by {
            assert forall|k: int| 0 <= k < longer.len() implies is_digit(#[trigger] longer[k]) by {
                if k < i {
                    assert(longer[k] == shorter[k]);
                }
            }
        }
        if acc > (usize::MAX - d) / 10 {
            proof {
                assert(acc * 10 + d > usize::MAX);
                assert(decimal_value(longer) > usize::MAX);
                if all_digits(all) {
                    lemma_decimal_prefix(all, i + 1);
                }
            }
            return None;
        }
        acc = acc * 10 + d;
        i += 1;
    }
    proof {
        assert(all.subrange(0, all.len() as int) =~= all);
    }
    Some(acc)
}

/// The `LIMIT` that a parsed text carries as its row count (`Some(None)` for a
/// query without one), or `None` where the text is not of a supported form: it
/// must be one statement, a query, whose `LIMIT`, if any, spells a row count.
pub open spec fn limit_of(shapes: Seq<Shape>) -> Option<Option<usize>> {
    if shapes.len() != 1 {
        None
    } else {
        match shapes[0] {
            Shape::Other => None,
            Shape::Query(None) => Some(None),
            Shape::Query(Some(text)) => match count_of(encode_utf8(text)) {
                Some(n) => Some(Some(n)),
                None => None,
            },
        }
    }
}

/// Reads the row limit off the shapes of a parsed text; `sql` is the text, for
/// the error.
pub fn limit_from_shapes(sql: &str, shapes: &Vec<StatementShape>) -> (r: Result<
    Option<usize>,
    ConnectorAgentError,
>)
    ensures
        match r {
            Ok(limit) => limit_of(shape_views(shapes@)) == Some(limit),
            Err(ConnectorAgentError::SQLQueryNotSupported(q)) => {
                &&& limit_of(shape_views(shapes@)) is None
                &&& q@ == sql@
            },
            Err(_) => false,
        },
{
    if shapes.len() != 1 {
        return Err(ConnectorAgentError::SQLQueryNotSupported(sql.to_owned()));
    }
    match &shapes[0] {
        StatementShape::Other => Err(ConnectorAgentError::SQLQueryNotSupported(sql.to_owned())),
        StatementShape::Query(None) => Ok(None),
        StatementShape::Query(Some(text)) => match parse_count(text.as_str()) {
            Some(n) => Ok(Some(n)),
            None => Err(ConnectorAgentError::SQLQueryNotSupported(sql.to_owned())),
        },
    }
}

/// What the engine reads off the text of a query.
pub enum LimitAnswer {
    /// A single query, with the row count of its limit if it has one.
    Limit(Option<usize>),
    /// The parser refuses the text.
    Unparsed,
    /// The text is not of a supported form.
    Unsupported,
}

/// What `get_limit` answers for a text. A text that the tokenizer refuses is
/// unparsed, and one with a token that the parser cannot take is not
/// supported. Of the others, the parser's answer decides: a text that it
/// refuses is unparsed, and one that it takes must be a single query whose
/// limit, if any, spells a row count.
pub open spec fn limit_answer(sql: Seq<char>) -> LimitAnswer {
    match token_kinds(sql) {
        None => LimitAnswer::Unparsed,
        Some(kinds) => if !takeable(kinds) {
            LimitAnswer::Unsupported
        } else {
            match parsed_shapes(sql) {
                None => LimitAnswer::Unparsed,
                Some(shapes) => match limit_of(shapes) {
                    Some(limit) => LimitAnswer::Limit(limit),
                    None => LimitAnswer::Unsupported,
                },
            }
        },
    }
}

/// The row count that a query's `LIMIT` clause fixes, if it has one. An
/// unparsed text is a `SQLParserError`, and one that is not supported a
/// `SQLQueryNotSupported` with the text.
pub fn get_limit(sql: &str) -> (r: Result<Option<usize>, ConnectorAgentError>)
    ensures
        match limit_answer(sql@) {
            LimitAnswer::Limit(limit) => r matches Ok(l) && l == limit,
            LimitAnswer::Unparsed => r matches Err(ConnectorAgentError::SQLParserError(_)),
            LimitAnswer::Unsupported => {
                &&& r matches Err(ConnectorAgentError::SQLQueryNotSupported(q))
                &&& q@ == sql@
            },
        },
{
    match check_tokens(sql) {
        Ok(()) => {},
        Err(e) => {
            return Err(e);
        },
    }
    match parse_shapes(sql) {
        Ok(shapes) => limit_from_shapes(sql, &shapes),
        Err(e) => Err(ConnectorAgentError::SQLParserError(e)),
    }
}

} // verus!
