use ztar_rod::ast::{Expression, Identifier, IdentifierOrPointer, Statement};
use ztar_rod::capture::{fix_call_arg_capture, funword, is_capture_ready, FUNWORD_STR};
use ztar_rod::datatype::DataType;
use ztar_rod::scope::Scope;

fn ident(text: &str) -> Expression {
    Expression::Identifier(Identifier(text.to_string()))
}

fn call(callee: &str, arguments: Vec<Expression>) -> Statement {
    Statement::MethodCall {
        method: IdentifierOrPointer::Identifier(Identifier(callee.to_string())),
        arguments,
    }
}

fn call_at(ptr: u32, arguments: Vec<Expression>) -> Statement {
    Statement::MethodCall { method: IdentifierOrPointer::Pointer(ptr), arguments }
}

fn scope_with_callables() -> Scope {
    let mut scope = Scope::new();
    scope.insert_ptr(
        0x100,
        "three".to_string(),
        DataType::Fun(vec![DataType::Int, DataType::Bool, DataType::Any]),
    );
    scope.insert_ptr(0x200, "none".to_string(), DataType::Fun(vec![]));
    scope.insert_ptr(0x300, "engine".to_string(), DataType::Asm(vec![DataType::Int, DataType::Int]));
    scope.insert_name("counter".to_string(), DataType::Int);
    scope
}

#[test]
fn funword_names_count_in_upper_case_hexadecimal() {
    assert_eq!(FUNWORD_STR, "funword");
    assert_eq!(funword(0), "funword_0");
    assert_eq!(funword(9), "funword_9");
    assert_eq!(funword(10), "funword_A");
    assert_eq!(funword(15), "funword_F");
    assert_eq!(funword(16), "funword_10");
    assert_eq!(funword(255), "funword_FF");
    assert_eq!(funword(256), "funword_100");
    assert_eq!(funword(0xDEAD_BEEF), "funword_DEADBEEF");
    assert_eq!(funword(usize::MAX), format!("funword_{:X}", usize::MAX));
}

#[test]
fn call_of_a_function_of_three_parameters_gets_three_arguments() {
    let scope = scope_with_callables();
    let mut block = vec![call("three", vec![])];
    assert!(is_capture_ready(&block, &scope));
    assert_eq!(fix_call_arg_capture(&mut block, &scope), Ok(()));
    assert_eq!(
        block,
        vec![call("three", vec![ident("funword_0"), ident("funword_1"), ident("funword_2")])]
    );
}

#[test]
fn call_of_a_function_by_its_address_gets_its_arguments() {
    let scope = scope_with_callables();
    let mut block = vec![call_at(0x100, vec![])];
    assert_eq!(fix_call_arg_capture(&mut block, &scope), Ok(()));
    assert_eq!(
        block,
        vec![call_at(0x100, vec![ident("funword_0"), ident("funword_1"), ident("funword_2")])]
    );
}

#[test]
fn call_of_a_function_without_parameters_stays_without_arguments() {
    let scope = scope_with_callables();
    let mut block = vec![call("none", vec![])];
    assert_eq!(fix_call_arg_capture(&mut block, &scope), Ok(()));
    assert_eq!(block, vec![call("none", vec![])]);
}

#[test]
fn call_of_an_engine_method_is_unchanged() {
    let scope = scope_with_callables();
    let mut block = vec![
        call("engine", vec![]),
        call("engine", vec![Expression::LiteralInt(1), ident("counter")]),
        call_at(0x300, vec![Expression::LiteralInt(1)]),
    ];
    assert!(is_capture_ready(&block, &scope));
    assert_eq!(fix_call_arg_capture(&mut block, &scope), Ok(()));
    assert_eq!(
        block,
        vec![
            call("engine", vec![]),
            call("engine", vec![Expression::LiteralInt(1), ident("counter")]),
            call_at(0x300, vec![Expression::LiteralInt(1)]),
        ]
    );
}

#[test]
fn call_of_something_unknown_or_not_callable_is_unchanged() {
    let scope = scope_with_callables();
    let mut block = vec![
        call("unknown", vec![ident("a")]),
        call("counter", vec![]),
        call_at(0x999, vec![]),
    ];
    assert!(is_capture_ready(&block, &scope));
    assert_eq!(fix_call_arg_capture(&mut block, &scope), Ok(()));
    assert_eq!(
        block,
        vec![call("unknown", vec![ident("a")]), call("counter", vec![]), call_at(0x999, vec![])]
    );
}

#[test]
fn nested_blocks_are_fixed_too() {
    let scope = scope_with_callables();
    let mut block = vec![
        Statement::If {
            condition: Expression::LiteralBool(true),
            block_true: vec![call("three", vec![])],
            block_false: vec![Statement::Loop {
                block: vec![call("three", vec![]), Statement::Return],
            }],
        },
        Statement::VarAssign {
            identifier: Identifier("counter".to_string()),
            expression: Expression::LiteralInt(2),
        },
    ];
    assert!(is_capture_ready(&block, &scope));
    assert_eq!(fix_call_arg_capture(&mut block, &scope), Ok(()));
    let three = || call("three", vec![ident("funword_0"), ident("funword_1"), ident("funword_2")]);
    assert_eq!(
        block,
        vec![
            Statement::If {
                condition: Expression::LiteralBool(true),
                block_true: vec![three()],
                block_false: vec![Statement::Loop { block: vec![three(), Statement::Return] }],
            },
            Statement::VarAssign {
                identifier: Identifier("counter".to_string()),
                expression: Expression::LiteralInt(2),
            },
        ]
    );
}

#[test]
fn seventeen_parameters_reach_two_digits() {
    let mut scope = Scope::new();
    let mut params = Vec::new();
    for _ in 0..17 {
        params.push(DataType::Int);
    }
    scope.insert_name("wide".to_string(), DataType::Fun(params));
    let mut block = vec![call("wide", vec![])];
    assert_eq!(fix_call_arg_capture(&mut block, &scope), Ok(()));
    match &block[0] {
        Statement::MethodCall { arguments, .. } => {
            assert_eq!(arguments.len(), 17);
            assert_eq!(arguments[9], ident("funword_9"));
            assert_eq!(arguments[10], ident("funword_A"));
            assert_eq!(arguments[15], ident("funword_F"));
            assert_eq!(arguments[16], ident("funword_10"));
        }
        _ => panic!("the statement is no longer a call"),
    }
}

#[test]
fn a_function_call_with_arguments_is_not_ready() {
    let scope = scope_with_callables();
    assert!(!is_capture_ready(&vec![call("three", vec![ident("a")])], &scope));
    assert!(!is_capture_ready(&vec![call("none", vec![ident("a")])], &scope));
    assert!(!is_capture_ready(
        &vec![
            Statement::Return,
            Statement::Loop {
                block: vec![Statement::If {
                    condition: Expression::LiteralBool(false),
                    block_true: vec![],
                    block_false: vec![call_at(0x100, vec![Expression::LiteralInt(0)])],
                }],
            },
        ],
        &scope
    ));
    assert!(is_capture_ready(&vec![], &scope));
}
