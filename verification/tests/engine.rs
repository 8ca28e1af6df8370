use commons::{execute, to_postfix, tokenize, Ident};

#[test]
fn it_works() {
    let variables = vec![
        (Ident::new("a"), 1u32),
        (Ident::new("b"), 17),
        (Ident::new("c"), 5),
        (Ident::new("d"), 3),
        (Ident::new("e"), 10),
    ];

    let tokens = tokenize("(a + b)").unwrap();
    println!("tokens: {:?}", tokens);
    let postfix = to_postfix(tokens).unwrap();
    println!("tokens: {:?}", postfix);
    assert_eq!(tokenize("a b +").unwrap(), postfix);
    let result = execute(postfix, variables.clone()).unwrap();
    println!("result is : {}", result);
    assert_eq!(result, 18);

    let tokens = tokenize("(a + b) - e").unwrap();
    println!("tokens: {:?}", tokens);
    let postfix = to_postfix(tokens).unwrap();
    println!("tokens: {:?}", postfix);
    assert_eq!(tokenize("a b + e -").unwrap(), postfix);
    let result = execute(postfix, variables.clone()).unwrap();
    println!("result is : {}", result);
    assert_eq!(result, 8);

    let tokens = tokenize("a * b - (c + d) + e").unwrap();
    println!("tokens: {:?}", tokens);
    let postfix = to_postfix(tokens).unwrap();
    println!("postfix tokens: {:?}", postfix);
    let expected_postfix = tokenize("a b * c d+-e+").unwrap();
    assert_eq!(expected_postfix, postfix);
    let result = execute(postfix, variables).unwrap();
    println!("result is : {}", result);
    assert_eq!(result, 19);
}
