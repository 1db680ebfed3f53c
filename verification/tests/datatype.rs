use ztar_rod::ast::{Declaration, Expression, Identifier, IdentifierOrPointer, Statement};
use ztar_rod::datatype::DataType;
use ztar_rod::error::{DecodeError, Error};

#[test]
fn datatypes_compare_by_kind_and_parameters() {
    assert_eq!(DataType::Any, DataType::Any);
    assert_ne!(DataType::Int, DataType::Bool);
    assert_ne!(DataType::Int, DataType::Float);
    assert_eq!(
        DataType::Fun(vec![DataType::Int, DataType::Bool]),
        DataType::Fun(vec![DataType::Int, DataType::Bool])
    );
    assert_ne!(
        DataType::Fun(vec![DataType::Int, DataType::Bool]),
        DataType::Fun(vec![DataType::Bool, DataType::Int])
    );
    assert_ne!(DataType::Fun(vec![DataType::Int]), DataType::Fun(vec![]));
    assert_ne!(DataType::Fun(vec![DataType::Int]), DataType::Asm(vec![DataType::Int]));
    assert_ne!(
        DataType::Asm(vec![DataType::Fun(vec![DataType::Int])]),
        DataType::Asm(vec![DataType::Fun(vec![DataType::Bool])])
    );
}

#[test]
fn datatype_clone_is_equal() {
    let datatype = DataType::Asm(vec![
        DataType::Fun(vec![DataType::Bool, DataType::Any]),
        DataType::Float,
    ]);
    assert_eq!(datatype.clone(), datatype);
    assert_eq!(DataType::Any.clone(), DataType::Any);
}

#[test]
fn only_the_wildcard_is_any() {
    assert!(DataType::Any.is_any());
    assert!(!DataType::Int.is_any());
    assert!(!DataType::Bool.is_any());
    assert!(!DataType::Float.is_any());
    assert!(!DataType::Fun(vec![]).is_any());
    assert!(!DataType::Asm(vec![DataType::Any]).is_any());
}

#[test]
fn decode_error_is_wrapped() {
    let error = Error::from(DecodeError { reason: "unknown opcode".to_string() });
    assert_eq!(
        error,
        Error::BytecodeDecompile(DecodeError { reason: "unknown opcode".to_string() })
    );
    assert!(!error.is_internal());
}

#[test]
fn only_a_known_type_inferred_again_is_internal() {
    let mismatch = Error::VarDeclareTypeMismatch {
        identifier: "x".to_string(),
        declared_datatype: DataType::Int,
        inferred_datatype: DataType::Bool,
    };
    let known = Error::TypeAlreadyKnown {
        identifier: "x".to_string(),
        known_datatype: DataType::Int,
        inferred_datatype: DataType::Bool,
    };
    assert!(!mismatch.is_internal());
    assert!(known.is_internal());
}

#[test]
fn statement_clone_is_equal() {
    let block = vec![
        Statement::VarDeclare {
            datatype: DataType::Any,
            identifier: Identifier("x".to_string()),
            expression: Some(Expression::LiteralInt(1)),
        },
        Statement::If {
            condition: Expression::Identifier(Identifier("x".to_string())),
            block_true: vec![Statement::MethodCall {
                method: IdentifierOrPointer::Pointer(0x20),
                arguments: vec![Expression::LiteralBool(true), Expression::LiteralInt(9)],
            }],
            block_false: vec![Statement::Loop {
                block: vec![
                    Statement::VarAssign {
                        identifier: Identifier("x".to_string()),
                        expression: Expression::LiteralInt(0),
                    },
                    Statement::Return,
                ],
            }],
        },
    ];
    let copy: Vec<Statement> = block.iter().map(|statement| statement.clone()).collect();
    assert_eq!(copy, block);
    let declaration = Declaration::Fun {
        name: IdentifierOrPointer::Identifier(Identifier("main".to_string())),
        arguments: vec![(Identifier("a".to_string()), DataType::Fun(vec![DataType::Int]))],
        block,
    };
    assert_eq!(declaration.clone(), declaration);
}
