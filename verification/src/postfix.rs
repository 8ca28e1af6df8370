//! The converter from infix to postfix order.

use vstd::prelude::*;
use crate::operator::Operator;
use crate::token::{lexemes, Lexeme, Token};
use crate::tokenizer::emit;

verus! {

/// Why a sequence of tokens has no postfix form.
#[derive(Debug, Copy, Clone, PartialEq, Eq, Structural)]
pub enum TransformationError {
    /// A parenthesis has no partner.
    UnmatchedParen,
}

impl TransformationError {
    /// The text of the error message.
    pub open spec fn message_spec(self) -> Seq<char> {
        "Unmatched set of parenthesis"@
    }

    /// The error as a message for display.
    pub fn message(&self) -> (s: String)
        ensures
            s@ == self.message_spec(),
    {
        String::from_str("Unmatched set of parenthesis")
    }
}

/// Whether the parentheses of `tokens` from position `i` on close what is
/// open, `depth` parentheses being open before position `i`.
pub open spec fn closes_well(tokens: Seq<Lexeme>, i: int, depth: nat) -> bool
    decreases tokens.len() - i,
{
    if i < 0 || i >= tokens.len() {
        depth == 0
    } else {
        match tokens[i] {
            Lexeme::Open => closes_well(tokens, i + 1, depth + 1),
            Lexeme::Close => depth > 0 && closes_well(tokens, i + 1, (depth - 1) as nat),
            _ => closes_well(tokens, i + 1, depth),
        }
    }
}

/// Whether every parenthesis of `tokens` has its partner.
pub open spec fn balanced(tokens: Seq<Lexeme>) -> bool {
    closes_well(tokens, 0, 0)
}

/// Whether the lexeme is an operand or an operator.
pub open spec fn is_postfix_lexeme(lexeme: Lexeme) -> bool {
    lexeme is Name || lexeme is Operator
}

/// Whether the sequence holds operands and operators only.
pub open spec fn paren_free(tokens: Seq<Lexeme>) -> bool {
    forall|k: int| 0 <= k < tokens.len() ==> is_postfix_lexeme(#[trigger] tokens[k])
}

/// Whether an operator on top of the stack leaves before `op` is pushed:
/// `op` binds no tighter than it.
pub open spec fn yields_to(top: Lexeme, op: Operator) -> bool {
    top matches Lexeme::Operator(op2) && op.rank() <= op2.rank()
}

/// The stack and the output after a closing parenthesis: the entries above
/// the topmost opening parenthesis go to the output in the order in which
/// they leave, and that parenthesis is dropped. `None` where the stack holds
/// no opening parenthesis.
pub open spec fn close_group(stack: Seq<Lexeme>, out: Seq<Lexeme>) -> Option<
    (Seq<Lexeme>, Seq<Lexeme>),
>
    decreases stack.len(),
{
    if stack.len() == 0 {
        None
    } else if stack.last() == Lexeme::Open {
        Some((stack.drop_last(), out))
    } else {
        close_group(stack.drop_last(), out.push(stack.last()))
    }
}

/// The stack and the output before the operator `op` is pushed: the
/// operators on top of the stack that `op` binds no tighter than go to the
/// output in the order in which they leave.
pub open spec fn make_room(op: Operator, stack: Seq<Lexeme>, out: Seq<Lexeme>) -> (
    Seq<Lexeme>,
    Seq<Lexeme>,
)
    decreases stack.len(),
{
    if stack.len() > 0 && yields_to(stack.last(), op) {
        make_room(op, stack.drop_last(), out.push(stack.last()))
    } else {
        (stack, out)
    }
}

/// The output after the last token: what the stack still holds goes to the
/// output from the top down. A parenthesis among it is an error.
pub open spec fn drain(stack: Seq<Lexeme>, out: Seq<Lexeme>) -> Result<
    Seq<Lexeme>,
    TransformationError,
>
    decreases stack.len(),
{
    if stack.len() == 0 {
        Ok(out)
    } else if stack.last() == Lexeme::Open || stack.last() == Lexeme::Close {
        Err(TransformationError::UnmatchedParen)
    } else {
        drain(stack.drop_last(), out.push(stack.last()))
    }
}

/// The result of converting `tokens` from position `i` on, with the given
/// stack of waiting operators and opening parentheses and the given output.
pub open spec fn convert(tokens: Seq<Lexeme>, i: int, stack: Seq<Lexeme>, out: Seq<Lexeme>) -> Result<
    Seq<Lexeme>,
    TransformationError,
>
    decreases tokens.len() - i,
{
    if i < 0 || i >= tokens.len() {
        drain(stack, out)
    } else {
        match tokens[i] {
            Lexeme::Name(_) => convert(tokens, i + 1, stack, out.push(tokens[i])),
            Lexeme::Open => convert(tokens, i + 1, stack.push(tokens[i]), out),
            Lexeme::Close => match close_group(stack, out) {
                None => Err(TransformationError::UnmatchedParen),
                Some((rest, grown)) => convert(tokens, i + 1, rest, grown),
            },
            Lexeme::Operator(op) => {
                let (rest, grown) = make_room(op, stack, out);
                convert(tokens, i + 1, rest.push(tokens[i]), grown)
            },
        }
    }
}

/// The postfix form of a sequence of lexemes in infix order, or why it has none.
pub open spec fn to_postfix_spec(tokens: Seq<Lexeme>) -> Result<Seq<Lexeme>, TransformationError> {
    convert(tokens, 0, Seq::empty(), Seq::empty())
}

/// Whether `r` is what converting `tokens` gives.
pub open spec fn postfixed(tokens: Seq<Lexeme>, r: Result<Vec<Token>, TransformationError>) -> bool {
    match r {
        Ok(postfix) => to_postfix_spec(tokens) == Ok::<Seq<Lexeme>, TransformationError>(
            lexemes(postfix@),
        ),
        Err(e) => to_postfix_spec(tokens) == Err::<Seq<Lexeme>, TransformationError>(e),
    }
}

/// Whether the stack holds operators and opening parentheses only.
pub open spec fn waiting(stack: Seq<Lexeme>) -> bool {
    forall|k: int| 0 <= k < stack.len() ==> (#[trigger] stack[k]) is Operator || stack[k] is Open
}

/// The number of opening parentheses on the stack.
pub open spec fn open_count(stack: Seq<Lexeme>) -> nat
    decreases stack.len(),
{
    if stack.len() == 0 {
        0
    } else if stack.last() is Open {
        1 + open_count(stack.drop_last())
    } else {
        open_count(stack.drop_last())
    }
}

proof fn lemma_close_group(stack: Seq<Lexeme>, out: Seq<Lexeme>)
    requires
        waiting(stack),
        paren_free(out),
    ensures
        close_group(stack, out) is None <==> open_count(stack) == 0,
        close_group(stack, out) matches Some((rest, grown)) ==> waiting(rest) && paren_free(grown)
            && open_count(rest) + 1 == open_count(stack),
    decreases stack.len(),
{
    if stack.len() > 0 && stack.last() != Lexeme::Open {
        lemma_close_group(stack.drop_last(), out.push(stack.last()));
    }
}

proof fn lemma_make_room(op: Operator, stack: Seq<Lexeme>, out: Seq<Lexeme>)
    requires
        waiting(stack),
        paren_free(out),
    ensures
        waiting(make_room(op, stack, out).0),
        paren_free(make_room(op, stack, out).1),
        open_count(make_room(op, stack, out).0) == open_count(stack),
    decreases stack.len(),
{
    if stack.len() > 0 && yields_to(stack.last(), op) {
        lemma_make_room(op, stack.drop_last(), out.push(stack.last()));
    }
}

proof fn lemma_drain(stack: Seq<Lexeme>, out: Seq<Lexeme>)
    requires
        waiting(stack),
        paren_free(out),
    ensures
        drain(stack, out) is Ok <==> open_count(stack) == 0,
        drain(stack, out) matches Ok(all) ==> paren_free(all),
    decreases stack.len(),
{
    if stack.len() > 0 && !(stack.last() == Lexeme::Open || stack.last() == Lexeme::Close) {
        lemma_drain(stack.drop_last(), out.push(stack.last()));
    }
}

proof fn lemma_convert(tokens: Seq<Lexeme>, i: int, stack: Seq<Lexeme>, out: Seq<Lexeme>)
    requires
        0 <= i <= tokens.len(),
        waiting(stack),
        paren_free(out),
    ensures
        convert(tokens, i, stack, out) is Ok <==> closes_well(tokens, i, open_count(stack)),
        convert(tokens, i, stack, out) matches Ok(all) ==> paren_free(all),
    decreases tokens.len() - i,
{
    if i >= tokens.len() {
        lemma_drain(stack, out);
    } else {
        match tokens[i] {
            Lexeme::Name(_) => {
                lemma_convert(tokens, i + 1, stack, out.push(tokens[i]));
            },
            Lexeme::Open => {
                assert(stack.push(tokens[i]).drop_last() =~= stack);
                lemma_convert(tokens, i + 1, stack.push(tokens[i]), out);
            },
            Lexeme::Close => {
                lemma_close_group(stack, out);
                match close_group(stack, out) {
                    None => {},
                    Some((rest, grown)) => {
                        lemma_convert(tokens, i + 1, rest, grown);
                    },
                }
            },
            Lexeme::Operator(op) => {
                lemma_make_room(op, stack, out);
                let (rest, grown) = make_room(op, stack, out);
                assert(rest.push(tokens[i]).drop_last() =~= rest);
                lemma_convert(tokens, i + 1, rest.push(tokens[i]), grown);
            },
        }
    }
}

/// A sequence of lexemes has a postfix form exactly where each of its
/// parentheses has a partner; otherwise the conversion fails with
/// `UnmatchedParen`. The postfix form holds operands and operators only.
pub proof fn lemma_postfix_exists_iff_balanced(tokens: Seq<Lexeme>)
    ensures
        to_postfix_spec(tokens) is Ok <==> balanced(tokens),
        !balanced(tokens) ==> to_postfix_spec(tokens) == Err::<
            Seq<Lexeme>,
            TransformationError,
        >(TransformationError::UnmatchedParen),
        to_postfix_spec(tokens) matches Ok(postfix) ==> paren_free(postfix),
{
    lemma_convert(tokens, 0, Seq::empty(), Seq::empty());
    if let Err(e) = to_postfix_spec(tokens) {
        assert(e is UnmatchedParen);
    }
}

/// The names of the operands of a sequence, in the order in which they stand.
pub open spec fn operand_names(tokens: Seq<Lexeme>) -> Seq<Seq<char>>
    decreases tokens.len(),
{
    if tokens.len() == 0 {
        Seq::empty()
    } else {
        match tokens.last() {
            Lexeme::Name(name) => operand_names(tokens.drop_last()).push(name),
            _ => operand_names(tokens.drop_last()),
        }
    }
}

proof fn lemma_operands_push(tokens: Seq<Lexeme>, lexeme: Lexeme)
    ensures
        operand_names(tokens.push(lexeme)) == match lexeme {
            Lexeme::Name(name) => operand_names(tokens).push(name),
            _ => operand_names(tokens),
        },
{
    assert(tokens.push(lexeme).drop_last() =~= tokens);
}

proof fn lemma_close_group_operands(stack: Seq<Lexeme>, out: Seq<Lexeme>)
    requires
        waiting(stack),
    ensures
        close_group(stack, out) matches Some((rest, grown)) ==> operand_names(grown)
            == operand_names(out),
    decreases stack.len(),
{
    if stack.len() > 0 && stack.last() != Lexeme::Open {
        lemma_operands_push(out, stack.last());
        lemma_close_group_operands(stack.drop_last(), out.push(stack.last()));
    }
}

proof fn lemma_make_room_operands(op: Operator, stack: Seq<Lexeme>, out: Seq<Lexeme>)
    requires
        waiting(stack),
    ensures
        operand_names(make_room(op, stack, out).1) == operand_names(out),
    decreases stack.len(),
{
    if stack.len() > 0 && yields_to(stack.last(), op) {
        lemma_operands_push(out, stack.last());
        lemma_make_room_operands(op, stack.drop_last(), out.push(stack.last()));
    }
}

proof fn lemma_drain_operands(stack: Seq<Lexeme>, out: Seq<Lexeme>)
    requires
        waiting(stack),
    ensures
        drain(stack, out) matches Ok(all) ==> operand_names(all) == operand_names(out),
    decreases stack.len(),
{
    if stack.len() > 0 && !(stack.last() == Lexeme::Open || stack.last() == Lexeme::Close) {
        lemma_operands_push(out, stack.last());
        lemma_drain_operands(stack.drop_last(), out.push(stack.last()));
    }
}

proof fn lemma_convert_operands(tokens: Seq<Lexeme>, i: int, stack: Seq<Lexeme>, out: Seq<Lexeme>)
    requires
        0 <= i <= tokens.len(),
        waiting(stack),
        paren_free(out),
        operand_names(out) == operand_names(tokens.take(i)),
    ensures
        convert(tokens, i, stack, out) matches Ok(all) ==> operand_names(all) == operand_names(
            tokens,
        ),
    decreases tokens.len() - i,
{
    if i >= tokens.len() {
        assert(tokens.take(i) =~= tokens);
        lemma_drain_operands(stack, out);
    } else {
        assert(tokens.take(i + 1) =~= tokens.take(i).push(tokens[i]));
        lemma_operands_push(tokens.take(i), tokens[i]);
        match tokens[i] {
            Lexeme::Name(_) => {
                lemma_operands_push(out, tokens[i]);
                lemma_convert_operands(tokens, i + 1, stack, out.push(tokens[i]));
            },
            Lexeme::Open => {
                lemma_convert_operands(tokens, i + 1, stack.push(tokens[i]), out);
            },
            Lexeme::Close => {
                lemma_close_group(stack, out);
                lemma_close_group_operands(stack, out);
                match close_group(stack, out) {
                    None => {},
                    Some((rest, grown)) => {
                        lemma_convert_operands(tokens, i + 1, rest, grown);
                    },
                }
            },
            Lexeme::Operator(op) => {
                lemma_make_room(op, stack, out);
                lemma_make_room_operands(op, stack, out);
                let (rest, grown) = make_room(op, stack, out);
                lemma_convert_operands(tokens, i + 1, rest.push(tokens[i]), grown);
            },
        }
    }
}

/// The conversion keeps the operands in their order: the postfix form
/// names the same operands as the sequence it came from, in the same order.
pub proof fn lemma_postfix_keeps_operand_order(tokens: Seq<Lexeme>)
    ensures
        to_postfix_spec(tokens) matches Ok(postfix) ==> operand_names(postfix) == operand_names(
            tokens,
        ),
{
    assert(tokens.take(0) =~= Seq::<Lexeme>::empty());
    lemma_convert_operands(tokens, 0, Seq::empty(), Seq::empty());
}

/// An operator that binds tighter than the one before it is applied first:
/// `a low b high c` has the postfix form of `a low (b high c)`, which is
/// `a b c high low`.
pub proof fn lemma_tighter_operator_groups_first(
    a: Seq<char>,
    b: Seq<char>,
    c: Seq<char>,
    low: Operator,
    high: Operator,
)
    requires
        low.rank() < high.rank(),
    ensures
        to_postfix_spec(
            seq![
                Lexeme::Name(a),
                Lexeme::Operator(low),
                Lexeme::Name(b),
                Lexeme::Operator(high),
                Lexeme::Name(c),
            ],
        ) == to_postfix_spec(
            seq![
                Lexeme::Name(a),
                Lexeme::Operator(low),
                Lexeme::Open,
                Lexeme::Name(b),
                Lexeme::Operator(high),
                Lexeme::Name(c),
                Lexeme::Close,
            ],
        ),
        to_postfix_spec(
            seq![
                Lexeme::Name(a),
                Lexeme::Operator(low),
                Lexeme::Name(b),
                Lexeme::Operator(high),
                Lexeme::Name(c),
            ],
        ) == Ok::<Seq<Lexeme>, TransformationError>(
            seq![
                Lexeme::Name(a),
                Lexeme::Name(b),
                Lexeme::Name(c),
                Lexeme::Operator(high),
                Lexeme::Operator(low),
            ],
        ),
{
    let plain = seq![
        Lexeme::Name(a),
        Lexeme::Operator(low),
        Lexeme::Name(b),
        Lexeme::Operator(high),
        Lexeme::Name(c),
    ];
    let grouped = seq![
        Lexeme::Name(a),
        Lexeme::Operator(low),
        Lexeme::Open,
        Lexeme::Name(b),
        Lexeme::Operator(high),
        Lexeme::Name(c),
        Lexeme::Close,
    ];
    let e = Seq::<Lexeme>::empty();
    let lo = Lexeme::Operator(low);
    let hi = Lexeme::Operator(high);
    let expected = seq![Lexeme::Name(a), Lexeme::Name(b), Lexeme::Name(c), hi, lo];
    reveal_with_fuel(make_room, 3);
    reveal_with_fuel(close_group, 3);
    reveal_with_fuel(drain, 3);
    // a low b high c
    let o1 = e.push(Lexeme::Name(a));
    assert(convert(plain, 0, e, e) == convert(plain, 1, e, o1));
    let s1 = e.push(lo);
    assert(convert(plain, 1, e, o1) == convert(plain, 2, s1, o1));
    let o2 = o1.push(Lexeme::Name(b));
    assert(convert(plain, 2, s1, o1) == convert(plain, 3, s1, o2));
    assert(make_room(high, s1, o2) == (s1, o2));
    let s2 = s1.push(hi);
    assert(convert(plain, 3, s1, o2) == convert(plain, 4, s2, o2));
    let o3 = o2.push(Lexeme::Name(c));
    assert(convert(plain, 4, s2, o2) == convert(plain, 5, s2, o3));
    assert(convert(plain, 5, s2, o3) == drain(s2, o3));
    assert(s2.drop_last() =~= s1);
    assert(s1.drop_last() =~= e);
    assert(drain(s2, o3) == drain(s1, o3.push(hi)));
    assert(drain(s1, o3.push(hi)) == drain(e, o3.push(hi).push(lo)));
    assert(o3.push(hi).push(lo) =~= expected);
    // a low ( b high c )
    assert(convert(grouped, 0, e, e) == convert(grouped, 1, e, o1));
    assert(convert(grouped, 1, e, o1) == convert(grouped, 2, s1, o1));
    let g1 = s1.push(Lexeme::Open);
    assert(convert(grouped, 2, s1, o1) == convert(grouped, 3, g1, o1));
    assert(convert(grouped, 3, g1, o1) == convert(grouped, 4, g1, o2));
    assert(make_room(high, g1, o2) == (g1, o2));
    let g2 = g1.push(hi);
    assert(convert(grouped, 4, g1, o2) == convert(grouped, 5, g2, o2));
    assert(convert(grouped, 5, g2, o2) == convert(grouped, 6, g2, o3));
    assert(g2.drop_last() =~= g1);
    assert(g1.drop_last() =~= s1);
    assert(close_group(g2, o3) == close_group(g1, o3.push(hi)));
    assert(close_group(g1, o3.push(hi)) == Some((s1, o3.push(hi))));
    assert(convert(grouped, 6, g2, o3) == convert(grouped, 7, s1, o3.push(hi)));
    assert(convert(grouped, 7, s1, o3.push(hi)) == drain(s1, o3.push(hi)));
}

/// Of two operators in a row, the second of which binds no tighter than the
/// first, the first is applied first: `a first b second c` has the postfix
/// form `a b first c second`, grouping to the left.
pub proof fn lemma_operators_group_to_the_left(
    a: Seq<char>,
    b: Seq<char>,
    c: Seq<char>,
    first: Operator,
    second: Operator,
)
    requires
        second.rank() <= first.rank(),
    ensures
        to_postfix_spec(
            seq![
                Lexeme::Name(a),
                Lexeme::Operator(first),
                Lexeme::Name(b),
                Lexeme::Operator(second),
                Lexeme::Name(c),
            ],
        ) == Ok::<Seq<Lexeme>, TransformationError>(
            seq![
                Lexeme::Name(a),
                Lexeme::Name(b),
                Lexeme::Operator(first),
                Lexeme::Name(c),
                Lexeme::Operator(second),
            ],
        ),
{
    let plain = seq![
        Lexeme::Name(a),
        Lexeme::Operator(first),
        Lexeme::Name(b),
        Lexeme::Operator(second),
        Lexeme::Name(c),
    ];
    let e = Seq::<Lexeme>::empty();
    let f = Lexeme::Operator(first);
    let g = Lexeme::Operator(second);
    let expected = seq![Lexeme::Name(a), Lexeme::Name(b), f, Lexeme::Name(c), g];
    reveal_with_fuel(make_room, 3);
    reveal_with_fuel(drain, 3);
    let o1 = e.push(Lexeme::Name(a));
    assert(convert(plain, 0, e, e) == convert(plain, 1, e, o1));
    let s1 = e.push(f);
    assert(convert(plain, 1, e, o1) == convert(plain, 2, s1, o1));
    let o2 = o1.push(Lexeme::Name(b));
    assert(convert(plain, 2, s1, o1) == convert(plain, 3, s1, o2));
    assert(s1.drop_last() =~= e);
    assert(make_room(second, s1, o2) == (e, o2.push(f)));
    let s2 = e.push(g);
    assert(convert(plain, 3, s1, o2) == convert(plain, 4, s2, o2.push(f)));
    let o3 = o2.push(f).push(Lexeme::Name(c));
    assert(convert(plain, 4, s2, o2.push(f)) == convert(plain, 5, s2, o3));
    assert(s2.drop_last() =~= e);
    assert(convert(plain, 5, s2, o3) == drain(s2, o3));
    assert(drain(s2, o3) == drain(e, o3.push(g)));
    assert(o3.push(g) =~= expected);
}

/// Takes the top entry off a stack that holds one.
fn take_top(stack: &mut Vec<Token>) -> (top: Token)
    requires
        old(stack).len() > 0,
    ensures
        lexemes(final(stack)@) == lexemes(old(stack)@).drop_last(),
        top@ == lexemes(old(stack)@).last(),
        final(stack).len() + 1 == old(stack).len(),
{
    let top = stack.pop().unwrap();
    assert(lexemes(stack@) =~= lexemes(old(stack)@).drop_last());
    top
}

/// Brings a sequence of tokens from infix into postfix order.
///
/// The result is exactly [`to_postfix_spec`] of the tokens. The conversion
/// succeeds where every parenthesis has its partner and fails with
/// `UnmatchedParen` otherwise; what it returns holds identifiers and
/// operators only.
pub fn to_postfix(tokens: Vec<Token>) -> (r: Result<Vec<Token>, TransformationError>)
    ensures
        postfixed(lexemes(tokens@), r),
        r is Ok <==> balanced(lexemes(tokens@)),
        r matches Ok(postfix) ==> paren_free(lexemes(postfix@)) && operand_names(
            lexemes(postfix@),
        ) == operand_names(lexemes(tokens@)),
{
    broadcast use vstd::std_specs::vec::group_vec_axioms;
    let ghost input = lexemes(tokens@);
    proof {
        lemma_postfix_exists_iff_balanced(input);
        lemma_postfix_keeps_operand_order(input);
    }
    let mut postfix_tokens: Vec<Token> = Vec::new();
    let mut stack: Vec<Token> = Vec::new();
    let mut i: usize = 0;
    proof {
        assert(lexemes(stack@) =~= Seq::empty());
        assert(lexemes(postfix_tokens@) =~= Seq::empty());
    }
    while i < tokens.len()
        invariant
            0 <= i <= tokens.len(),
            input == lexemes(tokens@),
            convert(input, i as int, lexemes(stack@), lexemes(postfix_tokens@)) == to_postfix_spec(
                input,
            ),
            to_postfix_spec(input) is Ok <==> balanced(input),
            to_postfix_spec(input) matches Ok(postfix) ==> paren_free(postfix) && operand_names(
                postfix,
            ) == operand_names(input),
        decreases tokens.len() - i,
    {
        let token = tokens[i].clone();
        assert(input[i as int] == token@);
        match token {
            Token::Ident(_) => {
                emit(&mut postfix_tokens, token);
            },
            Token::OpeningParen => {
                emit(&mut stack, token);
            },
            Token::ClosingParen => {
                let ghost stack0 = lexemes(stack@);
                let ghost out0 = lexemes(postfix_tokens@);
                assert(close_group(stack0, out0) is None ==> to_postfix_spec(input) == Err::<
                    Seq<Lexeme>,
                    TransformationError,
                >(TransformationError::UnmatchedParen));
                loop
                    invariant_except_break
                        input == lexemes(tokens@),
                        to_postfix_spec(input) is Ok <==> balanced(input),
                        close_group(lexemes(stack@), lexemes(postfix_tokens@)) == close_group(
                            stack0,
                            out0,
                        ),
                        close_group(stack0, out0) is None ==> to_postfix_spec(input) == Err::<
                            Seq<Lexeme>,
                            TransformationError,
                        >(TransformationError::UnmatchedParen),
                    ensures
                        close_group(stack0, out0) == Some(
                            (lexemes(stack@), lexemes(postfix_tokens@)),
                        ),
                    decreases stack.len(),
                {
                    if stack.len() == 0 {
                        return Err(TransformationError::UnmatchedParen);
                    }
                    let t = take_top(&mut stack);
                    if let Token::OpeningParen = t {
                        break;
                    }
                    emit(&mut postfix_tokens, t);
                }
            },
            Token::Operator(op) => {
                let ghost stack0 = lexemes(stack@);
                let ghost out0 = lexemes(postfix_tokens@);
                loop
                    invariant_except_break
                        make_room(op, lexemes(stack@), lexemes(postfix_tokens@)) == make_room(
                            op,
                            stack0,
                            out0,
                        ),
                    ensures
                        make_room(op, stack0, out0) == (
                            lexemes(stack@),
                            lexemes(postfix_tokens@),
                        ),
                    decreases stack.len(),
                {
                    if stack.len() == 0 {
                        break;
                    }
                    let leaves = match &stack[stack.len() - 1] {
                        Token::Operator(op2) => op.precedence() <= op2.precedence(),
                        _ => false,
                    };
                    if !leaves {
                        break;
                    }
                    let t = take_top(&mut stack);
                    emit(&mut postfix_tokens, t);
                }
                emit(&mut stack, token);
            },
        }
        i += 1;
    }
    let ghost stack0 = lexemes(stack@);
    let ghost out0 = lexemes(postfix_tokens@);
    while stack.len() > 0
        invariant
            input == lexemes(tokens@),
            drain(lexemes(stack@), lexemes(postfix_tokens@)) == drain(stack0, out0),
            drain(stack0, out0) == to_postfix_spec(input),
            to_postfix_spec(input) is Ok <==> balanced(input),
            to_postfix_spec(input) matches Ok(postfix) ==> paren_free(postfix) && operand_names(
                postfix,
            ) == operand_names(input),
        decreases stack.len(),
    {
        let t = take_top(&mut stack);
        match t {
            Token::OpeningParen | Token::ClosingParen => {
                return Err(TransformationError::UnmatchedParen);
            },
            _ => {},
        }
        emit(&mut postfix_tokens, t);
    }
    Ok(postfix_tokens)
}

} // verus!
