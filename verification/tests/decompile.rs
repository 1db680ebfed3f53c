use ztar_rod::ast::{Declaration, Expression, Identifier, IdentifierOrPointer, Statement};
use ztar_rod::datatype::DataType;
use ztar_rod::decompile::{seed_scope, EntryPoint};
use ztar_rod::error::DecodeError;
use ztar_rod::{decompile_map, Error, Scope};

fn ident(text: &str) -> Expression {
    Expression::Identifier(Identifier(text.to_string()))
}

fn call(callee: &str, arguments: Vec<Expression>) -> Statement {
    Statement::MethodCall {
        method: IdentifierOrPointer::Identifier(Identifier(callee.to_string())),
        arguments,
    }
}

fn methods() -> Vec<EntryPoint> {
    vec![
        EntryPoint {
            ptr: 0x802C_0000,
            name: "call_global".to_string(),
            datatype: DataType::Asm(vec![DataType::Bool]),
        },
        EntryPoint {
            ptr: 0x802C_0040,
            name: "sleep".to_string(),
            datatype: DataType::Asm(vec![DataType::Int]),
        },
    ]
}

#[test]
fn seeded_scope_holds_the_methods_and_main() {
    let scope = seed_scope(&methods(), 0x8024_0000);
    assert_eq!(scope.depth(), 1);
    assert_eq!(scope.lookup_ptr(0x802C_0000), Some("call_global"));
    assert_eq!(scope.lookup_name("call_global"), Some(&DataType::Asm(vec![DataType::Bool])));
    assert_eq!(scope.lookup_ptr(0x802C_0040), Some("sleep"));
    assert_eq!(scope.lookup_name("sleep"), Some(&DataType::Asm(vec![DataType::Int])));
    assert_eq!(scope.lookup_ptr(0x8024_0000), Some("main"));
    assert_eq!(scope.lookup_name("main"), Some(&DataType::Fun(vec![])));
    assert_eq!(scope.lookup_ptr(0x8024_0004), None);
}

#[test]
fn main_takes_the_place_of_a_method_at_its_address() {
    let scope = seed_scope(&methods(), 0x802C_0040);
    assert_eq!(scope.lookup_ptr(0x802C_0040), Some("main"));
    assert_eq!(scope.lookup_name("sleep"), Some(&DataType::Asm(vec![DataType::Int])));
    let scope = seed_scope(&vec![], 4);
    assert_eq!(scope.lookup_ptr(4), Some("main"));
}

#[test]
fn variable_passed_to_a_bool_method_is_declared_bool_and_true() {
    let main_ptr = 0x8024_0000;
    let mut scope = seed_scope(&methods(), main_ptr);
    scope.insert_name("x".to_string(), DataType::Any);
    let decoded = Ok(vec![
        Statement::VarDeclare {
            datatype: DataType::Any,
            identifier: Identifier("x".to_string()),
            expression: Some(Expression::LiteralInt(1)),
        },
        call("call_global", vec![ident("x")]),
    ]);
    let declaration = decompile_map(main_ptr, decoded, &mut scope).unwrap();
    assert_eq!(
        declaration,
        Declaration::Fun {
            name: IdentifierOrPointer::Pointer(main_ptr),
            arguments: vec![],
            block: vec![
                Statement::VarDeclare {
                    datatype: DataType::Bool,
                    identifier: Identifier("x".to_string()),
                    expression: Some(Expression::LiteralBool(true)),
                },
                call("call_global", vec![ident("x")]),
            ],
        }
    );
    assert_eq!(scope.lookup_name("x"), Some(&DataType::Bool));
    assert_eq!(scope.lookup_ptr(main_ptr), Some("main"));
}

#[test]
fn calls_are_completed_before_types_are_inferred() {
    let main_ptr = 0x8024_0000;
    let mut scope = seed_scope(&methods(), main_ptr);
    scope.insert_ptr(
        0x8024_0100,
        "helper".to_string(),
        DataType::Fun(vec![DataType::Bool, DataType::Int]),
    );
    scope.insert_name("funword_0".to_string(), DataType::Any);
    scope.insert_name("funword_1".to_string(), DataType::Any);
    let decoded = Ok(vec![
        Statement::MethodCall { method: IdentifierOrPointer::Pointer(0x8024_0100), arguments: vec![] },
        call("main", vec![]),
    ]);
    let declaration = decompile_map(main_ptr, decoded, &mut scope).unwrap();
    assert_eq!(
        declaration,
        Declaration::Fun {
            name: IdentifierOrPointer::Pointer(main_ptr),
            arguments: vec![],
            block: vec![
                Statement::MethodCall {
                    method: IdentifierOrPointer::Pointer(0x8024_0100),
                    arguments: vec![ident("funword_0"), ident("funword_1")],
                },
                call("main", vec![]),
            ],
        }
    );
    assert_eq!(scope.lookup_name("funword_0"), Some(&DataType::Bool));
    assert_eq!(scope.lookup_name("funword_1"), Some(&DataType::Int));
}

#[test]
fn decoder_failure_is_handed_on() {
    let mut scope = seed_scope(&methods(), 8);
    let decoded = Err(DecodeError { reason: "bad opcode 0x7F".to_string() });
    assert_eq!(
        decompile_map(8, decoded, &mut scope),
        Err(Error::BytecodeDecompile(DecodeError { reason: "bad opcode 0x7F".to_string() }))
    );
    assert_eq!(scope.depth(), 1);
    assert_eq!(scope.lookup_ptr(8), Some("main"));
}

#[test]
fn inference_failure_gives_no_declaration() {
    let mut scope: Scope = seed_scope(&methods(), 8);
    scope.insert_name("x".to_string(), DataType::Any);
    let decoded = Ok(vec![
        Statement::VarDeclare {
            datatype: DataType::Int,
            identifier: Identifier("x".to_string()),
            expression: Some(Expression::LiteralInt(1)),
        },
        call("call_global", vec![ident("x")]),
    ]);
    assert_eq!(
        decompile_map(8, decoded, &mut scope),
        Err(Error::VarDeclareTypeMismatch {
            identifier: "x".to_string(),
            declared_datatype: DataType::Int,
            inferred_datatype: DataType::Bool,
        })
    );
}
