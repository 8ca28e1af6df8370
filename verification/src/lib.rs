//! A formula engine for computing on secret operands: a tokenizer, an
//! infix-to-postfix converter, a postfix evaluator that is generic over the
//! arithmetic representation, and the decisions of the two sides of the
//! protocol that carries a formula to a remote evaluator and back.

pub mod arith;
pub mod bindings;
pub mod execute;
pub mod expression;
pub mod failures;
pub mod formula;
pub mod ident;
pub mod initiator;
pub mod operator;
pub mod plain;
pub mod postfix;
pub mod prompt;
pub mod responder;
pub mod secure;
pub mod session;
pub mod token;
pub mod tokenizer;
pub mod unique;
pub mod width;

pub use arith::{fhe_computation, ArithmeticType};
pub use bindings::{to_variables_map, Bindings};
pub use execute::{execute, ExecutionError, Failure};
pub use formula::{answer, evaluate, tokenize_postfix, FormulaError, FormulaFailure};
pub use ident::Ident;
pub use operator::Operator;
pub use secure::{secure_supports, NarrowTerm, Term, WideTerm};
pub use postfix::{to_postfix, TransformationError};
pub use token::{Lexeme, Token};
pub use tokenizer::{
    classify, is_delimiter_char, is_whitespace_char, tokenize, tokenize_classified,
    TokenizationError,
};
pub use unique::unique_idents;
pub use plain::{execute_plain, expected_result};
pub use width::{Choice, Width};
pub use initiator::{initiator_start, initiator_step, InitiatorAction, InitiatorEvent, InitiatorState, Round};
pub use responder::{responder_start, responder_step, ResponderAction, ResponderEvent, ResponderState, Service};
pub use prompt::exit_answer;
