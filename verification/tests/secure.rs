use commons::{
    answer, execute, secure_supports, tokenize_postfix, ArithmeticType, ExecutionError, Ident,
    NarrowTerm, Operator, Term, WideTerm, Width,
};

fn operand(name: &str) -> Term {
    Term::Operand(Ident::new(name))
}

fn applied(op: Operator, left: Term, right: Term) -> Term {
    Term::Applied(op, Box::new(left), Box::new(right))
}

fn narrow(names: &[&str]) -> Vec<(Ident, NarrowTerm)> {
    names.iter().map(|n| (Ident::new(n), NarrowTerm::operand(Ident::new(n)))).collect()
}

fn wide(names: &[&str]) -> Vec<(Ident, WideTerm)> {
    names.iter().map(|n| (Ident::new(n), WideTerm::operand(Ident::new(n)))).collect()
}

/// The term on plain integers: what the holder of the values computes.
fn plain(term: &Term, values: &[(&str, u32)]) -> u32 {
    match term {
        Term::Operand(ident) => values.iter().find(|(n, _)| *n == ident.as_str()).unwrap().1,
        Term::Applied(op, left, right) => {
            plain(left, values).apply_operator(&plain(right, values), *op).unwrap()
        }
    }
}

#[test]
fn shifts_are_supported_by_no_secure_type() {
    for width in [Width::Narrow, Width::Wide] {
        assert!(!secure_supports(width, Operator::BitLeftShift));
        assert!(!secure_supports(width, Operator::BitRightShift));
    }
}

#[test]
fn the_wide_type_has_no_division_and_no_comparison() {
    for op in [
        Operator::Division,
        Operator::Less,
        Operator::Greater,
        Operator::LessEqual,
        Operator::GreaterEqual,
        Operator::EqualEqual,
    ] {
        assert!(!secure_supports(Width::Wide, op));
        assert!(secure_supports(Width::Narrow, op));
    }
}

#[test]
fn terms_apply_exactly_the_supported_operators() {
    let all = [
        Operator::Multiplication,
        Operator::Division,
        Operator::Addition,
        Operator::Subtraction,
        Operator::BitLeftShift,
        Operator::BitRightShift,
        Operator::Less,
        Operator::Greater,
        Operator::LessEqual,
        Operator::GreaterEqual,
        Operator::EqualEqual,
        Operator::BitAnd,
        Operator::BitOr,
        Operator::BitXor,
    ];
    for op in all {
        let a = NarrowTerm::operand(Ident::new("a"));
        let b = NarrowTerm::operand(Ident::new("b"));
        let expected = if secure_supports(Width::Narrow, op) {
            Some(NarrowTerm(applied(op, operand("a"), operand("b"))))
        } else {
            None
        };
        assert_eq!(a.apply_operator(&b, op), expected);
        let a = WideTerm::operand(Ident::new("a"));
        let b = WideTerm::operand(Ident::new("b"));
        let expected = if secure_supports(Width::Wide, op) {
            Some(WideTerm(applied(op, operand("a"), operand("b"))))
        } else {
            None
        };
        assert_eq!(a.apply_operator(&b, op), expected);
    }
}

#[test]
fn narrow_formula_gives_the_term_to_compute() {
    let term = answer("(a + b) * c", narrow(&["a", "b", "c"])).unwrap();
    assert_eq!(
        term,
        NarrowTerm(applied(
            Operator::Multiplication,
            applied(Operator::Addition, operand("a"), operand("b")),
            operand("c")
        ))
    );
    let values = [("a", 2), ("b", 3), ("c", 4)];
    assert_eq!(Width::Narrow.reduce(plain(&term.0, &values)), 4);
}

#[test]
fn operands_keep_their_sides() {
    let term = answer("a - b / c", wide(&["a", "b", "c"]));
    assert_eq!(term, Err(String::from("Operator Division is not supported by the type")));
    let term = answer("a - b / c", narrow(&["a", "b", "c"])).unwrap();
    assert_eq!(
        term.0,
        applied(
            Operator::Subtraction,
            operand("a"),
            applied(Operator::Division, operand("b"), operand("c"))
        )
    );
    assert_eq!(plain(&term.0, &[("a", 7), ("b", 6), ("c", 3)]), 5);
}

#[test]
fn shift_on_the_wide_width_is_declined_and_a_corrected_formula_is_taken() {
    assert_eq!(
        answer("a >> b", wide(&["a", "b"])),
        Err(String::from("Operator BitRightShift is not supported by the type"))
    );
    assert_eq!(
        execute(tokenize_postfix("a >> b").unwrap(), wide(&["a", "b"])),
        Err(ExecutionError::OperatorNotSupported(Operator::BitRightShift))
    );
    assert_eq!(
        answer("a + b", wide(&["a", "b"])),
        Ok(WideTerm(applied(Operator::Addition, operand("a"), operand("b"))))
    );
}

#[test]
fn shift_on_the_narrow_width_is_declined() {
    assert_eq!(
        answer("a << b", narrow(&["a", "b"])),
        Err(String::from("Operator BitLeftShift is not supported by the type"))
    );
    assert_eq!(
        answer("a < b", narrow(&["a", "b"])),
        Ok(NarrowTerm(applied(Operator::Less, operand("a"), operand("b"))))
    );
}

#[test]
fn unbound_operand_of_a_term_is_named() {
    assert_eq!(
        answer("a + b", narrow(&["a"])),
        Err(String::from("Variable 'b' was not defined"))
    );
    assert_eq!(answer("a", wide(&[])), Err(String::from("Variable 'a' was not defined")));
}

#[test]
fn terms_can_be_copied() {
    let term = applied(Operator::BitXor, operand("a"), applied(Operator::BitAnd, operand("b"), operand("c")));
    assert_eq!(term.clone(), term);
    assert_eq!(operand("a").apply(&operand("b"), Operator::BitOr), applied(Operator::BitOr, operand("a"), operand("b")));
}
