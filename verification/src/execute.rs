//! The evaluator of formulas in postfix order.

use vstd::prelude::*;
use vstd::std_specs::cmp::PartialEqSpecImpl;
use crate::arith::ArithmeticType;
use crate::bindings::{bound, to_variables_map, Bindings};
use crate::ident::Ident;
use crate::operator::Operator;
use crate::postfix::{is_postfix_lexeme, paren_free};
use crate::token::{lexemes, Lexeme, Token};

verus! {

/// Why an evaluation gave no value: the mathematical value of an
/// [`ExecutionError`].
pub enum Failure {
    InvalidComputation,
    OperatorNotSupported(Operator),
    VariableNotDefined(Seq<char>),
}

/// Why an evaluation gave no value.
#[derive(Debug, Eq)]
pub enum ExecutionError {
    /// The sequence did not reduce to exactly one value.
    InvalidComputation,
    /// The value type declined the operator.
    OperatorNotSupported(Operator),
    /// An operator met an identifier that is bound to no value.
    VariableNotDefined(Ident),
}

impl View for ExecutionError {
    type V = Failure;

    open spec fn view(&self) -> Failure {
        match self {
            ExecutionError::InvalidComputation => Failure::InvalidComputation,
            ExecutionError::OperatorNotSupported(op) => Failure::OperatorNotSupported(*op),
            ExecutionError::VariableNotDefined(ident) => Failure::VariableNotDefined(ident@),
        }
    }
}

impl Clone for ExecutionError {
    fn clone(&self) -> (r: Self)
        ensures
            r@ == self@,
    {
        match self {
            ExecutionError::InvalidComputation => ExecutionError::InvalidComputation,
            ExecutionError::OperatorNotSupported(op) => ExecutionError::OperatorNotSupported(*op),
            ExecutionError::VariableNotDefined(ident) => ExecutionError::VariableNotDefined(
                ident.clone(),
            ),
        }
    }
}

impl PartialEq for ExecutionError {
    fn eq(&self, other: &Self) -> (r: bool) {
        match (self, other) {
            (ExecutionError::InvalidComputation, ExecutionError::InvalidComputation) => true,
            (ExecutionError::OperatorNotSupported(a), ExecutionError::OperatorNotSupported(b)) => *a
                == *b,
            (ExecutionError::VariableNotDefined(a), ExecutionError::VariableNotDefined(b)) => a
                == b,
            _ => false,
        }
    }
}

impl PartialEqSpecImpl for ExecutionError {
    open spec fn obeys_eq_spec() -> bool {
        true
    }

    open spec fn eq_spec(&self, other: &Self) -> bool {
        self@ == other@
    }
}

impl Failure {
    /// The text of the error message.
    pub open spec fn message_spec(self) -> Seq<char> {
        match self {
            Failure::InvalidComputation => "Computation is not valid"@,
            Failure::OperatorNotSupported(op) => "Operator "@ + op.name_spec()
                + " is not supported by the type"@,
            Failure::VariableNotDefined(name) => "Variable '"@ + name + "' was not defined"@,
        }
    }
}

impl ExecutionError {
    /// The error as a message for display.
    pub fn message(&self) -> (s: String)
        ensures
            s@ == self@.message_spec(),
    {
        match self {
            ExecutionError::InvalidComputation => String::from_str("Computation is not valid"),
            ExecutionError::OperatorNotSupported(op) => {
                let mut s = String::from_str("Operator ");
                s.append(op.name());
                s.append(" is not supported by the type");
                s
            },
            ExecutionError::VariableNotDefined(ident) => {
                let mut s = String::from_str("Variable '");
                s.append(ident.as_str());
                s.append("' was not defined");
                s
            },
        }
    }
}

/// The mathematical value of the result of an evaluation.
pub open spec fn outcome<T>(r: Result<T, ExecutionError>) -> Result<T, Failure> {
    match r {
        Ok(value) => Ok(value),
        Err(e) => Err(e@),
    }
}

/// An entry of the evaluator's stack: the name of a variable, or a value
/// that an operator gave.
pub enum Operand<T> {
    Named(Seq<char>),
    Computed(T),
}

/// The value that an operand stands for; `None` for a name that is bound to nothing.
pub open spec fn resolve<T>(operand: Operand<T>, bindings: Map<Seq<char>, T>) -> Option<T> {
    match operand {
        Operand::Named(name) => if bindings.contains_key(name) {
            Some(bindings[name])
        } else {
            None
        },
        Operand::Computed(value) => Some(value),
    }
}

/// The failure for an operand that stands for no value.
pub open spec fn unbound<T>(operand: Operand<T>) -> Failure {
    match operand {
        Operand::Named(name) => Failure::VariableNotDefined(name),
        Operand::Computed(_) => Failure::InvalidComputation,
    }
}

/// The result once the sequence is read: the value of the one operand that
/// the stack holds. Any other number of operands is an invalid computation,
/// and a name that is bound to nothing is the failure that names it.
pub open spec fn finish<T>(stack: Seq<Operand<T>>, bindings: Map<Seq<char>, T>) -> Result<
    T,
    Failure,
> {
    if stack.len() != 1 {
        Err(Failure::InvalidComputation)
    } else {
        match resolve(stack[0], bindings) {
            Some(value) => Ok(value),
            None => Err(unbound(stack[0])),
        }
    }
}

/// Whether evaluating `postfix` from position `i` on, with the given stack
/// of operands, may end in `out`.
///
/// A name is pushed. An operator takes the two topmost operands, the upper
/// one as its right and the lower one as its left operand; fewer than two is
/// an invalid computation. The left operand is resolved first, then the
/// right one, and a name bound to nothing is the failure that names it. An
/// operator that the type does not support is a failure; otherwise any
/// value that the type allows for the operator and the operands is pushed.
pub open spec fn runs_to<T: ArithmeticType>(
    postfix: Seq<Lexeme>,
    i: int,
    stack: Seq<Operand<T>>,
    bindings: Map<Seq<char>, T>,
    out: Result<T, Failure>,
) -> bool
    decreases postfix.len() - i,
{
    if i < 0 || i >= postfix.len() {
        out == finish(stack, bindings)
    } else {
        match postfix[i] {
            Lexeme::Name(name) => runs_to(
                postfix,
                i + 1,
                stack.push(Operand::Named(name)),
                bindings,
                out,
            ),
            Lexeme::Operator(op) => {
                if stack.len() < 2 {
                    out == Err::<T, Failure>(Failure::InvalidComputation)
                } else {
                    let lhs = stack[stack.len() - 2];
                    let rhs = stack[stack.len() - 1];
                    match (resolve(lhs, bindings), resolve(rhs, bindings)) {
                        (None, _) => out == Err::<T, Failure>(unbound(lhs)),
                        (Some(_), None) => out == Err::<T, Failure>(unbound(rhs)),
                        (Some(left), Some(right)) => {
                            if !T::supports(op) {
                                out == Err::<T, Failure>(Failure::OperatorNotSupported(op))
                            } else {
                                exists|value: T| #[trigger]
                                    left.combines(&right, op, value) && runs_to(
                                        postfix,
                                        i + 1,
                                        stack.take(stack.len() - 2).push(Operand::Computed(value)),
                                        bindings,
                                        out,
                                    )
                            }
                        },
                    }
                }
            },
            _ => false,
        }
    }
}

/// Whether `out` is a result that evaluating `postfix` under `bindings` may have.
pub open spec fn evaluates_to<T: ArithmeticType>(
    postfix: Seq<Lexeme>,
    bindings: Map<Seq<char>, T>,
    out: Result<T, Failure>,
) -> bool {
    runs_to(postfix, 0, Seq::empty(), bindings, out)
}

/// An entry of the stack as the evaluator holds it: the identifier of a
/// variable, or the place of a computed value among the values computed so far.
enum Slot {
    User(Ident),
    Temp(usize),
}

/// The operand that a slot stands for.
spec fn operand_of<T>(slot: Slot, temps: Seq<T>) -> Operand<T> {
    match slot {
        Slot::User(ident) => Operand::Named(ident@),
        Slot::Temp(k) => Operand::Computed(temps[k as int]),
    }
}

/// Whether every slot that names a computed value names one that exists.
spec fn slots_ok(slots: Seq<Slot>, count: int) -> bool {
    forall|k: int|
        0 <= k < slots.len() ==> ((#[trigger] slots[k]) matches Slot::Temp(t) ==> t < count)
}

/// The operands that a stack of slots stands for.
spec fn operands<T>(slots: Seq<Slot>, temps: Seq<T>) -> Seq<Operand<T>> {
    Seq::new(slots.len(), |k: int| operand_of(slots[k], temps))
}

/// The value of a slot, if it has one.
fn value_of<'a, T>(slot: &Slot, variables: &'a Bindings<T>, temps: &'a Vec<T>) -> (r: Option<&'a T>)
    requires
        variables.wf(),
        slot matches Slot::Temp(t) ==> t < temps.len(),
    ensures
        r == match resolve(operand_of(*slot, temps@), variables@) {
            Some(value) => Some(&value),
            None => None,
        },
{
    match slot {
        Slot::User(ident) => variables.get(ident),
        Slot::Temp(k) => Some(&temps[*k]),
    }
}

/// Evaluates a formula in postfix order under the given bindings.
///
/// Every result is one that [`evaluates_to`] allows: the value of the
/// formula, built from the values that the type's operator gave, or the first
/// failure. On a type whose operator is a function of its operands, such as
/// the plain integers, this is a single result. The sequence must hold no
/// parenthesis, as the postfix form of a formula holds none.
pub fn execute<T>(postfix: Vec<Token>, valued_idents: Vec<(Ident, T)>) -> (r: Result<
    T,
    ExecutionError,
>) where T: ArithmeticType
    requires
        paren_free(lexemes(postfix@)),
    ensures
        evaluates_to(lexemes(postfix@), bound(valued_idents@), outcome(r)),
{
    let ghost input = lexemes(postfix@);
    let ghost bindings = bound(valued_idents@);
    let variables = to_variables_map(valued_idents);
    let mut ident_bank: Vec<Slot> = Vec::new();
    let mut temps: Vec<T> = Vec::new();
    let mut i: usize = 0;
    proof {
        assert(operands(ident_bank@, temps@) =~= Seq::<Operand<T>>::empty());
    }
    while i < postfix.len()
        invariant
            0 <= i <= postfix.len(),
            input == lexemes(postfix@),
            paren_free(input),
            variables.wf(),
            variables@ == bindings,
            bindings == bound(valued_idents@),
            slots_ok(ident_bank@, temps.len() as int),
            forall|out: Result<T, Failure>| #[trigger]
                runs_to(input, i as int, operands(ident_bank@, temps@), bindings, out)
                    ==> evaluates_to(input, bindings, out),
        decreases postfix.len() - i,
    {
        let ghost stack = operands(ident_bank@, temps@);
        let ghost slots = ident_bank@;
        let ghost values = temps@;
        assert(input[i as int] == postfix[i as int]@);
        assert(is_postfix_lexeme(input[i as int]));
        match &postfix[i] {
            Token::Ident(ident) => {
                ident_bank.push(Slot::User(ident.clone()));
                proof {
                    let next = stack.push(Operand::Named(ident@));
                    assert(operands(ident_bank@, temps@) =~= next);
                    assert forall|out: Result<T, Failure>| #[trigger]
                        runs_to(input, i + 1, next, bindings, out) implies evaluates_to(
                        input,
                        bindings,
                        out,
                    ) by {
                        assert(runs_to(input, i as int, stack, bindings, out));
                    }
                }
            },
            Token::Operator(op) => {
                let op = *op;
                if ident_bank.len() < 2 {
                    proof {
                        assert(runs_to(
                            input,
                            i as int,
                            stack,
                            bindings,
                            Err::<T, Failure>(Failure::InvalidComputation),
                        ));
                    }
                    return Err(ExecutionError::InvalidComputation);
                }
                let rhs_slot = ident_bank.pop().unwrap();
                let lhs_slot = ident_bank.pop().unwrap();
                proof {
                    assert(stack[stack.len() - 1] == operand_of(rhs_slot, values));
                    assert(stack[stack.len() - 2] == operand_of(lhs_slot, values));
                    assert(slots[slots.len() - 1] == rhs_slot);
                    assert(slots[slots.len() - 2] == lhs_slot);
                    assert(operands(ident_bank@, temps@) =~= stack.take(stack.len() - 2));
                }
                let lhs = match value_of(&lhs_slot, &variables, &temps) {
                    Some(value) => value,
                    None => {
                        match lhs_slot {
                            Slot::User(ident) => {
                                proof {
                                    assert(runs_to(
                                        input,
                                        i as int,
                                        stack,
                                        bindings,
                                        Err::<T, Failure>(Failure::VariableNotDefined(ident@)),
                                    ));
                                }
                                return Err(ExecutionError::VariableNotDefined(ident));
                            },
                            Slot::Temp(_) => {
                                return Err(ExecutionError::InvalidComputation);
                            },
                        }
                    },
                };
                let rhs = match value_of(&rhs_slot, &variables, &temps) {
                    Some(value) => value,
                    None => {
                        match rhs_slot {
                            Slot::User(ident) => {
                                proof {
                                    assert(runs_to(
                                        input,
                                        i as int,
                                        stack,
                                        bindings,
                                        Err::<T, Failure>(Failure::VariableNotDefined(ident@)),
                                    ));
                                }
                                return Err(ExecutionError::VariableNotDefined(ident));
                            },
                            Slot::Temp(_) => {
                                return Err(ExecutionError::InvalidComputation);
                            },
                        }
                    },
                };
                let ghost left = *lhs;
                let ghost right = *rhs;
                let result = match lhs.apply_operator(rhs, op) {
                    Some(value) => value,
                    None => {
                        proof {
                            assert(runs_to(
                                input,
                                i as int,
                                stack,
                                bindings,
                                Err::<T, Failure>(Failure::OperatorNotSupported(op)),
                            ));
                        }
                        return Err(ExecutionError::OperatorNotSupported(op));
                    },
                };
                let ghost value = result;
                ident_bank.push(Slot::Temp(temps.len()));
                temps.push(result);
                proof {
                    let next = stack.take(stack.len() - 2).push(Operand::Computed(value));
                    assert(operands(ident_bank@, temps@) =~= next);
                    assert(left.combines(&right, op, value));
                    assert forall|out: Result<T, Failure>| #[trigger]
                        runs_to(input, i + 1, next, bindings, out) implies evaluates_to(
                        input,
                        bindings,
                        out,
                    ) by {
                        assert(runs_to(input, i as int, stack, bindings, out));
                    }
                }
            },
            _ => {
                // A parenthesis: ruled out by the precondition.
                return Err(ExecutionError::InvalidComputation);
            },
        }
        i += 1;
    }
    let ghost stack = operands(ident_bank@, temps@);
    if ident_bank.len() != 1 {
        proof {
            assert(runs_to(
                input,
                i as int,
                stack,
                bindings,
                Err::<T, Failure>(Failure::InvalidComputation),
            ));
        }
        return Err(ExecutionError::InvalidComputation);
    }
    let slot = ident_bank.pop().unwrap();
    assert(stack[0] == operand_of(slot, temps@));
    let r = match slot {
        Slot::User(ident) => match variables.take(&ident) {
            Some(value) => Ok(value),
            None => Err(ExecutionError::VariableNotDefined(ident)),
        },
        Slot::Temp(k) => Ok(temps.swap_remove(k)),
    };
    proof {
        assert(outcome(r) == finish(stack, bindings));
        assert(runs_to(input, i as int, stack, bindings, outcome(r)));
    }
    r
}

} // verus!
