//! Extracting the one token of a static expression.

use vstd::prelude::*;
use crate::ast::{Expression, ExpressionKind, Token};

verus! {

/// The token of an expression that is a single literal, looking through
/// parentheses; operators and everything else have none.
pub open spec fn spec_static_token(e: Expression) -> Option<Token>
    decreases e,
{
    match e.kind {
        ExpressionKind::Parentheses { expression } => spec_static_token(*expression),
        ExpressionKind::Number { token } => Some(token),
        ExpressionKind::String { token } => Some(token),
        ExpressionKind::Symbol { token } => Some(token),
        _ => None,
    }
}

/// Given an expression that is a single token (like `true`), returns that
/// token. Given one in parentheses (like `(true)`), returns the token
/// inside the parentheses.
pub fn extract_static_token<'a>(expression: &'a Expression) -> (r: Option<&'a Token>)
    ensures
        match r {
            Some(t) => spec_static_token(*expression) == Some(*t),
            None => spec_static_token(*expression) is None,
        },
    decreases *expression,
{
    match &expression.kind {
        ExpressionKind::Parentheses { expression } => extract_static_token(expression),
        ExpressionKind::Number { token } => Some(token),
        ExpressionKind::String { token } => Some(token),
        ExpressionKind::Symbol { token } => Some(token),
        _ => None,
    }
}

} // verus!
