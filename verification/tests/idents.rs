use commons::{tokenize, unique_idents, Ident, Operator};

fn names(idents: &[Ident]) -> Vec<String> {
    idents.iter().map(|i| i.as_str().to_string()).collect()
}

#[test]
fn each_identifier_once() {
    let idents = unique_idents(tokenize("a + a * a - b + a").unwrap());
    assert_eq!(names(&idents), vec!["a", "b"]);
}

#[test]
fn result_does_not_depend_on_the_order() {
    let one = unique_idents(tokenize("c + a * b").unwrap());
    let other = unique_idents(tokenize("b - (a / c) + b + c").unwrap());
    assert_eq!(one, other);
    assert_eq!(names(&one), vec!["a", "b", "c"]);
}

#[test]
fn identifiers_come_in_dictionary_order() {
    let idents = unique_idents(tokenize("b + ab + a + B + abc + é").unwrap());
    assert_eq!(names(&idents), vec!["B", "a", "ab", "abc", "b", "é"]);
}

#[test]
fn formula_without_identifiers() {
    assert_eq!(unique_idents(tokenize("+ ( )").unwrap()), vec![]);
    assert_eq!(unique_idents(vec![]), vec![]);
}

#[test]
fn identifier_order_and_equality() {
    let a = Ident::new("a");
    let ab = Ident::new("ab");
    let b = Ident::new("b");
    assert!(a.precedes(&ab));
    assert!(ab.precedes(&b));
    assert!(a.precedes(&b));
    assert!(!b.precedes(&a));
    assert!(!a.precedes(&a));
    assert!(!ab.precedes(&a));
    assert_eq!(a, Ident::new("a"));
    assert_ne!(a, ab);
    assert_eq!(a.clone(), a);
    assert_eq!(ab.as_str(), "ab");
    assert_eq!(Ident::from_string(String::from("xy")), Ident::new("xy"));
    assert!(a < ab && ab < b);
}

#[test]
fn operator_ranks() {
    assert_eq!(Operator::Multiplication.precedence(), 7);
    assert_eq!(Operator::Division.precedence(), 7);
    assert_eq!(Operator::Addition.precedence(), 6);
    assert_eq!(Operator::Subtraction.precedence(), 6);
    assert_eq!(Operator::BitLeftShift.precedence(), 5);
    assert_eq!(Operator::BitRightShift.precedence(), 5);
    assert_eq!(Operator::Less.precedence(), 5);
    assert_eq!(Operator::Greater.precedence(), 5);
    assert_eq!(Operator::LessEqual.precedence(), 5);
    assert_eq!(Operator::GreaterEqual.precedence(), 5);
    assert_eq!(Operator::EqualEqual.precedence(), 5);
    assert_eq!(Operator::BitAnd.precedence(), 3);
    assert_eq!(Operator::BitXor.precedence(), 2);
    assert_eq!(Operator::BitOr.precedence(), 1);
}

#[test]
fn operator_names() {
    assert_eq!(Operator::BitRightShift.name(), "BitRightShift");
    assert_eq!(Operator::EqualEqual.name(), "EqualEqual");
    assert_eq!(Operator::Multiplication.name(), format!("{:?}", Operator::Multiplication));
}
