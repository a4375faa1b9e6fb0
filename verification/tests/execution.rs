use relational_engine::execution::expr_evaluation::{
    evaluate_expr, evaluate_predicate_with_ctx, EvaluationError,
};
use relational_engine::execution::filter::FilterOperation;
use relational_engine::execution::join::InnerJoinOperation;
use relational_engine::execution::project::ProjectOperation;
use relational_engine::execution::scan::ScanOperation;
use relational_engine::execution::{NextTuple, Operator, SubQueryTuples};
use relational_engine::parser::ast::{BinaryExpr, BinaryOperation, Expr, LiteralExpr};
use relational_engine::planner::plan::query_plan::QueryResultSchema;
use relational_engine::storage::error::StorageError;
use relational_engine::storage::storage_manager::{
    AttributeName, Attributes, CreateTableRequest, StorageManager, TableName,
};
use relational_engine::storage::tuple::{StoreId, TupleId, TupleRecord};
use relational_engine::storage::tuple_serde::{
    deserialize_tuple, serialize_tuple, SerdeError, StorageTupleValue,
};
use relational_engine::storage::types::AttributeType;

fn name(s: &str) -> AttributeName {
    AttributeName(s.to_owned())
}

fn text(s: &str) -> StorageTupleValue {
    StorageTupleValue::String(s.to_owned())
}

fn identifier(s: &str) -> Expr {
    Expr::Literal(LiteralExpr::Identifier(s.to_owned()))
}

fn integer(n: i32) -> Expr {
    Expr::Literal(LiteralExpr::Integer(n))
}

fn binary(left: Expr, op: BinaryOperation, right: Expr) -> Expr {
    Expr::Binary(BinaryExpr {
        left: Box::new(left),
        op,
        right: Box::new(right),
    })
}

fn types(schema: &QueryResultSchema) -> Vec<AttributeType> {
    schema
        .attributes
        .attributes_iter()
        .iter()
        .map(|(_, _type)| _type.clone())
        .collect()
}

fn drain<T: NextTuple>(op: &mut T) -> Vec<Result<TupleRecord, StorageError>> {
    let mut items = Vec::new();
    while let Some(item) = op.next() {
        items.push(item)
    }
    items
}

#[test]
fn scan_scan() {
    let mut scan = ScanOperation::new(vec![TupleRecord(vec![0xca, 0xfe])]);
    let mut items = Vec::new();
    while let Some(item) = scan.next() {
        items.push(item)
    }
    assert_eq!(items, vec![Ok(TupleRecord(vec![0xca, 0xfe]))]);

    // the same through the store of a table
    let mut storage_manager = StorageManager::new();
    storage_manager
        .create_table(CreateTableRequest {
            table_name: TableName("person".to_owned()),
            primary_key: AttributeName("name".to_owned()),
            schema_attributes: vec![],
        })
        .unwrap();
    storage_manager
        .insert_tuple(&TableName("person".to_owned()), TupleRecord(vec![0xca, 0xfe]))
        .unwrap();
    let tuples = ScanOperation::execute(&TableName("person".to_owned()), &storage_manager);
    let mut tuples = tuples.iter();
    let mut items = Vec::new();
    while let Some(item) = tuples.next() {
        items.push(item)
    }
    assert_eq!(items, vec![Ok(TupleRecord(vec![0xca, 0xfe]))])
}

#[test]
fn rows_of_a_table_are_iterated_in_order() {
    let mut storage_manager = StorageManager::new();
    let table = TableName("person".to_owned());
    storage_manager
        .create_table(CreateTableRequest {
            table_name: TableName("person".to_owned()),
            primary_key: AttributeName("name".to_owned()),
            schema_attributes: vec![],
        })
        .unwrap();
    storage_manager.insert_tuple(&table, TupleRecord(vec![2])).unwrap();
    storage_manager.insert_tuple(&table, TupleRecord(vec![1])).unwrap();
    let tuples = ScanOperation::execute(&table, &storage_manager);
    let mut iter = tuples.iter();
    assert_eq!(iter.next(), Some(Ok(TupleRecord(vec![2]))));
    assert_eq!(iter.next(), Some(Ok(TupleRecord(vec![1]))));
    assert_eq!(iter.next(), None);
    // a second iterator starts again
    assert_eq!(tuples.iter().next(), Some(Ok(TupleRecord(vec![2]))));
}

#[test]
fn execute_takes_all_that_an_operator_yields() {
    let filter = FilterOperation::new(
        binary(identifier("age"), BinaryOperation::GreaterThan, integer(11)),
        left_schema(),
        Box::new(Operator::Scan(ScanOperation::new(people()))),
    );
    assert_eq!(
        filter.execute(),
        vec![Ok(people()[2].clone()), Ok(people()[3].clone())]
    );
    let project = ProjectOperation {
        record_schema: left_schema(),
        projected_attributes: vec![name("age")],
        input: Box::new(Operator::Scan(ScanOperation::new(people()))),
    };
    assert_eq!(
        project.execute(),
        vec![
            Ok(TupleRecord(vec![0, 0, 0, 11])),
            Ok(TupleRecord(vec![0, 0, 0, 10])),
            Ok(TupleRecord(vec![0, 0, 0, 13])),
            Ok(TupleRecord(vec![0, 0, 0, 12]))
        ]
    );
    assert_eq!(
        FilterOperation::evaluate_predicate_with_ctx(
            &binary(identifier("n"), BinaryOperation::Equal, integer(6)),
            &row()
        ),
        Ok(true)
    );
}

#[test]
fn scan_of_a_store() {
    let mut storage_manager = StorageManager::new();
    storage_manager
        .create_table(CreateTableRequest {
            table_name: TableName("person".to_owned()),
            primary_key: AttributeName("name".to_owned()),
            schema_attributes: vec![],
        })
        .unwrap();

    let id = storage_manager
        .insert_tuple(&TableName("person".to_owned()), TupleRecord(vec![0xca, 0xfe]))
        .unwrap();
    assert_eq!(
        id,
        TupleId {
            store_id: StoreId(0),
            slot_index: 0
        }
    );

    let tuples = storage_manager
        .get_table_store(&TableName("person".to_owned()))
        .unwrap()
        .records();
    let items = drain(&mut ScanOperation::new(tuples));
    assert_eq!(items, vec![Ok(TupleRecord(vec![0xca, 0xfe]))])
}

#[test]
fn filter_filter() {
    let schema = QueryResultSchema::new(Attributes::new(vec![
        (AttributeName("name".to_owned()), AttributeType::Text),
        (AttributeName("age".to_owned()), AttributeType::Integer),
    ]));

    let input = ScanOperation::new(vec![
        serialize_tuple(vec![
            StorageTupleValue::String("a".to_owned()),
            StorageTupleValue::Integer(11),
        ]),
        serialize_tuple(vec![
            StorageTupleValue::String("b".to_owned()),
            StorageTupleValue::Integer(10),
        ]),
        serialize_tuple(vec![
            StorageTupleValue::String("c".to_owned()),
            StorageTupleValue::Integer(12),
        ]),
        serialize_tuple(vec![
            StorageTupleValue::String("d".to_owned()),
            StorageTupleValue::Integer(9),
        ]),
    ]);
    let mut f = FilterOperation {
        predicate: Expr::Binary(BinaryExpr {
            left: Box::new(Expr::Literal(LiteralExpr::Identifier("age".to_owned()))),
            op: BinaryOperation::LessThanOrEqual,
            right: Box::new(Expr::Literal(LiteralExpr::Integer(10))),
        }),
        schema: schema.clone(),
        input: Box::new(Operator::Scan(input)),
    };

    let mut filtered_tuples = Vec::new();
    while let Some(tuple) = f.next() {
        filtered_tuples.push(tuple)
    }
    assert_eq!(
        filtered_tuples
            .into_iter()
            .map(|tuple| tuple.map(|tuple| deserialize_tuple(tuple, types(&schema))))
            .collect::<Vec<_>>(),
        vec![
            Ok(vec![
                StorageTupleValue::String("b".to_owned()),
                StorageTupleValue::Integer(10)
            ]),
            Ok(vec![
                StorageTupleValue::String("d".to_owned()),
                StorageTupleValue::Integer(9)
            ])
        ]
    );
}

#[test]
fn project_project() {
    let schema = QueryResultSchema::new(Attributes::new(vec![
        (AttributeName("name".to_owned()), AttributeType::Text),
        (AttributeName("age".to_owned()), AttributeType::Integer),
        (AttributeName("location".to_owned()), AttributeType::Text),
        (AttributeName("is_member".to_owned()), AttributeType::Boolean),
    ]));
    let projection_schema = QueryResultSchema::new(Attributes::new(vec![
        (AttributeName("is_member".to_owned()), AttributeType::Boolean),
        (AttributeName("age".to_owned()), AttributeType::Integer),
    ]));
    let input = ScanOperation::new(vec![
        serialize_tuple(vec![
            StorageTupleValue::String("a".to_owned()),
            StorageTupleValue::Integer(11),
            StorageTupleValue::String("locA".to_owned()),
            StorageTupleValue::Boolean(true),
        ]),
        serialize_tuple(vec![
            StorageTupleValue::String("b".to_owned()),
            StorageTupleValue::Integer(10),
            StorageTupleValue::String("locB".to_owned()),
            StorageTupleValue::Boolean(false),
        ]),
        serialize_tuple(vec![
            StorageTupleValue::String("c".to_owned()),
            StorageTupleValue::Integer(12),
            StorageTupleValue::String("locC".to_owned()),
            StorageTupleValue::Boolean(false),
        ]),
        serialize_tuple(vec![
            StorageTupleValue::String("d".to_owned()),
            StorageTupleValue::Integer(9),
            StorageTupleValue::String("locD".to_owned()),
            StorageTupleValue::Boolean(true),
        ]),
    ]);
    let mut p = ProjectOperation {
        record_schema: schema.clone(),
        projected_attributes: vec![
            AttributeName("is_member".to_owned()),
            AttributeName("age".to_owned()),
        ],
        input: Box::new(Operator::Scan(input)),
    };

    let mut projected_tuples = Vec::new();
    while let Some(tuple) = p.next() {
        projected_tuples.push(tuple)
    }
    assert_eq!(
        projected_tuples
            .into_iter()
            .map(|tuple| tuple.map(|tuple| deserialize_tuple(tuple, types(&projection_schema))))
            .collect::<Vec<_>>(),
        vec![
            Ok(vec![
                StorageTupleValue::Boolean(true),
                StorageTupleValue::Integer(11),
            ]),
            Ok(vec![
                StorageTupleValue::Boolean(false),
                StorageTupleValue::Integer(10),
            ]),
            Ok(vec![
                StorageTupleValue::Boolean(false),
                StorageTupleValue::Integer(12),
            ]),
            Ok(vec![
                StorageTupleValue::Boolean(true),
                StorageTupleValue::Integer(9),
            ]),
        ]
    );
}

fn people() -> Vec<TupleRecord> {
    vec![
        serialize_tuple(vec![
            StorageTupleValue::String("a".to_owned()),
            StorageTupleValue::Integer(11),
        ]),
        serialize_tuple(vec![
            StorageTupleValue::String("b".to_owned()),
            StorageTupleValue::Integer(10),
        ]),
        serialize_tuple(vec![
            StorageTupleValue::String("a".to_owned()),
            StorageTupleValue::Integer(13),
        ]),
        serialize_tuple(vec![
            StorageTupleValue::String("c".to_owned()),
            StorageTupleValue::Integer(12),
        ]),
    ]
}

fn employees() -> Vec<TupleRecord> {
    vec![
        serialize_tuple(vec![
            StorageTupleValue::String("a".to_owned()),
            StorageTupleValue::String("sales".to_owned()),
        ]),
        serialize_tuple(vec![
            StorageTupleValue::String("d".to_owned()),
            StorageTupleValue::String("product".to_owned()),
        ]),
        serialize_tuple(vec![
            StorageTupleValue::String("c".to_owned()),
            StorageTupleValue::String("marketing".to_owned()),
        ]),
    ]
}

fn left_schema() -> QueryResultSchema {
    QueryResultSchema::new(Attributes::new(vec![
        (AttributeName("name".to_owned()), AttributeType::Text),
        (AttributeName("age".to_owned()), AttributeType::Integer),
    ]))
}

fn right_schema() -> QueryResultSchema {
    QueryResultSchema::new(Attributes::new(vec![
        (AttributeName("id".to_owned()), AttributeType::Text),
        (AttributeName("department".to_owned()), AttributeType::Text),
    ]))
}

fn join_schema() -> QueryResultSchema {
    QueryResultSchema::new(Attributes::new(vec![
        (AttributeName("name".to_owned()), AttributeType::Text),
        (AttributeName("age".to_owned()), AttributeType::Integer),
        (AttributeName("id".to_owned()), AttributeType::Text),
        (AttributeName("department".to_owned()), AttributeType::Text),
    ]))
}

fn person_joins_employee(left: Vec<TupleRecord>, right: Vec<TupleRecord>) -> InnerJoinOperation {
    let left_input = SubQueryTuples {
        schema: left_schema().with_alias("person"),
        tuples: Box::new(Operator::Scan(ScanOperation::new(left))),
    };
    let right_input = SubQueryTuples {
        schema: right_schema().with_alias("employee"),
        tuples: Box::new(Operator::Scan(ScanOperation::new(right))),
    };
    let predicate = Expr::Binary(BinaryExpr {
        left: Box::new(Expr::Literal(LiteralExpr::Identifier(
            "person.name".to_owned(),
        ))),
        op: BinaryOperation::Equal,
        right: Box::new(Expr::Literal(LiteralExpr::Identifier(
            "employee.id".to_owned(),
        ))),
    });
    InnerJoinOperation::new(left_input, right_input, predicate)
}

#[test]
fn join() {
    let mut j = person_joins_employee(people(), employees());
    let mut joined_tuples = Vec::new();
    while let Some(tuple) = j.next() {
        joined_tuples.push(tuple);
    }

    let mut joined_tuples = joined_tuples
        .into_iter()
        .map(|tuple| tuple.map(|tuple| deserialize_tuple(tuple, types(&join_schema()))))
        .collect::<Vec<_>>();
    joined_tuples.sort_by_key(|result| match result {
        Ok(tuples) => tuples.clone(),
        Err(_) => vec![],
    });
    assert_eq!(
        joined_tuples,
        vec![
            Ok(vec![
                StorageTupleValue::String("a".to_owned()),
                StorageTupleValue::Integer(11),
                StorageTupleValue::String("a".to_owned()),
                StorageTupleValue::String("sales".to_owned()),
            ]),
            Ok(vec![
                StorageTupleValue::String("a".to_owned()),
                StorageTupleValue::Integer(13),
                StorageTupleValue::String("a".to_owned()),
                StorageTupleValue::String("sales".to_owned()),
            ]),
            Ok(vec![
                StorageTupleValue::String("c".to_owned()),
                StorageTupleValue::Integer(12),
                StorageTupleValue::String("c".to_owned()),
                StorageTupleValue::String("marketing".to_owned()),
            ]),
        ]
    )
}

#[test]
fn join_yields_by_right_row_then_by_left_row() {
    let mut j = person_joins_employee(people(), employees());
    let rows: Vec<_> = drain(&mut j)
        .into_iter()
        .map(|tuple| deserialize_tuple(tuple.unwrap(), types(&join_schema())))
        .collect();
    assert_eq!(
        rows,
        vec![
            vec![text("a"), StorageTupleValue::Integer(11), text("a"), text("sales")],
            vec![text("a"), StorageTupleValue::Integer(13), text("a"), text("sales")],
            vec![text("c"), StorageTupleValue::Integer(12), text("c"), text("marketing")],
        ]
    );
    // the joined row is the left record followed by the right record
    let mut j = person_joins_employee(people(), employees());
    assert_eq!(
        j.next(),
        Some(Ok(TupleRecord::concat(&people()[0], &employees()[0])))
    );
}

#[test]
fn join_with_an_empty_side_yields_nothing() {
    assert_eq!(drain(&mut person_joins_employee(vec![], employees())), vec![]);
    assert_eq!(drain(&mut person_joins_employee(people(), vec![])), vec![]);
    let mut j = person_joins_employee(vec![], vec![]);
    assert_eq!(j.next(), None);
    assert_eq!(j.next(), None);
}

#[test]
fn join_surfaces_a_row_it_cannot_read() {
    // a left row that ends too early
    let mut j = person_joins_employee(vec![TupleRecord(vec![0, 0, 0, 1])], employees());
    assert!(matches!(
        j.next(),
        Some(Err(StorageError::TupleSerdeError(_)))
    ));
    // a right row with bytes left over
    let mut right = employees();
    right[0].0.push(0);
    let mut j = person_joins_employee(people(), right);
    assert!(matches!(
        j.next(),
        Some(Err(StorageError::TupleSerdeError(_)))
    ));
    // the rows after it still come
    assert!(matches!(j.next(), Some(Ok(_))));
    assert_eq!(j.next(), None);
}

#[test]
fn filter_surfaces_what_it_cannot_evaluate() {
    let rows = vec![
        serialize_tuple(vec![text("a"), StorageTupleValue::Integer(0)]),
        serialize_tuple(vec![text("b"), StorageTupleValue::Integer(5)]),
        TupleRecord(vec![1, 2, 3]),
        serialize_tuple(vec![text("c"), StorageTupleValue::Integer(2)]),
    ];
    // 10 / age = 2
    let mut f = FilterOperation::new(
        binary(
            binary(integer(10), BinaryOperation::Division, identifier("age")),
            BinaryOperation::Equal,
            integer(2),
        ),
        left_schema(),
        Box::new(Operator::Scan(ScanOperation::new(rows.clone()))),
    );
    assert!(matches!(
        f.next(),
        Some(Err(StorageError::EvaluationError(_)))
    ));
    assert_eq!(f.next(), Some(Ok(rows[1].clone())));
    assert!(matches!(
        f.next(),
        Some(Err(StorageError::TupleSerdeError(_)))
    ));
    assert_eq!(f.next(), None);
    assert_eq!(f.next(), None);
    // a name that the rows do not have
    let mut f = FilterOperation::new(
        binary(identifier("x.age"), BinaryOperation::Equal, integer(2)),
        left_schema(),
        Box::new(Operator::Scan(ScanOperation::new(rows.clone()))),
    );
    match f.next() {
        Some(Err(StorageError::EvaluationError(message))) => {
            assert_eq!(message, "no such attribute x.age")
        }
        other => panic!("unexpected {:?}", other),
    }
}

#[test]
fn filter_yields_a_subsequence_in_order() {
    let rows: Vec<TupleRecord> = (0..20)
        .map(|i| serialize_tuple(vec![text("p"), StorageTupleValue::Integer(i % 7)]))
        .collect();
    let mut f = FilterOperation::new(
        binary(identifier("age"), BinaryOperation::GreaterThan, integer(3)),
        left_schema(),
        Box::new(Operator::Scan(ScanOperation::new(rows.clone()))),
    );
    let kept: Vec<TupleRecord> = drain(&mut f).into_iter().map(|r| r.unwrap()).collect();
    let expected: Vec<TupleRecord> = rows
        .iter()
        .enumerate()
        .filter(|(i, _)| i % 7 > 3)
        .map(|(_, r)| r.clone())
        .collect();
    assert_eq!(kept, expected);
}

#[test]
fn operators_stack() {
    // project(filter(scan))
    let filter = FilterOperation::new(
        binary(identifier("age"), BinaryOperation::NotEqual, integer(10)),
        left_schema(),
        Box::new(Operator::Scan(ScanOperation::new(people()))),
    );
    let mut project = ProjectOperation {
        record_schema: left_schema(),
        projected_attributes: vec![name("age"), name("name"), name("age")],
        input: Box::new(Operator::Filter(filter)),
    };
    let rows = drain(&mut project);
    assert_eq!(
        rows,
        vec![
            Ok(serialize_tuple(vec![
                StorageTupleValue::Integer(11),
                text("a"),
                StorageTupleValue::Integer(11)
            ])),
            Ok(serialize_tuple(vec![
                StorageTupleValue::Integer(13),
                text("a"),
                StorageTupleValue::Integer(13)
            ])),
            Ok(serialize_tuple(vec![
                StorageTupleValue::Integer(12),
                text("c"),
                StorageTupleValue::Integer(12)
            ])),
        ]
    );
    // a projection on a name that the rows do not have
    let mut project = ProjectOperation {
        record_schema: left_schema(),
        projected_attributes: vec![name("x.age")],
        input: Box::new(Operator::Scan(ScanOperation::new(people()))),
    };
    assert!(matches!(
        project.next(),
        Some(Err(StorageError::EvaluationError(_)))
    ));
}

fn row() -> Vec<(AttributeName, StorageTupleValue)> {
    vec![
        (name("n"), StorageTupleValue::Integer(6)),
        (name("t"), text("x")),
        (name("b"), StorageTupleValue::Boolean(true)),
        (name("n"), StorageTupleValue::Integer(7)),
    ]
}

#[test]
fn evaluation_follows_the_matrix() {
    let ctx = row();
    let value = |e: Expr| evaluate_expr(&e, &ctx);
    let n = || identifier("n");
    assert_eq!(value(n()).unwrap(), StorageTupleValue::Integer(6));
    assert_eq!(
        value(binary(n(), BinaryOperation::Addition, integer(4))).unwrap(),
        StorageTupleValue::Integer(10)
    );
    assert_eq!(
        value(binary(n(), BinaryOperation::Subtraction, integer(10))).unwrap(),
        StorageTupleValue::Integer(-4)
    );
    assert_eq!(
        value(binary(n(), BinaryOperation::Multiplication, integer(-7))).unwrap(),
        StorageTupleValue::Integer(-42)
    );
    assert_eq!(
        value(binary(integer(-7), BinaryOperation::Division, integer(2))).unwrap(),
        StorageTupleValue::Integer(-3)
    );
    assert_eq!(
        value(binary(integer(7), BinaryOperation::Division, integer(-2))).unwrap(),
        StorageTupleValue::Integer(-3)
    );
    assert_eq!(
        value(binary(integer(i32::MAX), BinaryOperation::Addition, integer(1))),
        Err(EvaluationError::Overflow)
    );
    assert_eq!(
        value(binary(integer(i32::MIN), BinaryOperation::Subtraction, integer(1))),
        Err(EvaluationError::Overflow)
    );
    assert_eq!(
        value(binary(integer(65536), BinaryOperation::Multiplication, integer(65536))),
        Err(EvaluationError::Overflow)
    );
    assert_eq!(
        value(binary(integer(i32::MIN), BinaryOperation::Division, integer(-1))),
        Err(EvaluationError::Overflow)
    );
    assert_eq!(
        value(binary(n(), BinaryOperation::Division, integer(0))),
        Err(EvaluationError::DivisionByZero)
    );
    assert_eq!(
        value(binary(identifier("t"), BinaryOperation::Equal, identifier("t"))).unwrap(),
        StorageTupleValue::Boolean(true)
    );
    assert_eq!(
        value(binary(
            identifier("t"),
            BinaryOperation::NotEqual,
            Expr::Literal(LiteralExpr::String("x".to_owned()))
        ))
        .unwrap(),
        StorageTupleValue::Boolean(false)
    );
    assert_eq!(
        value(binary(identifier("t"), BinaryOperation::LessThan, identifier("t"))),
        Err(EvaluationError::InvalidOperands)
    );
    assert_eq!(
        value(binary(identifier("b"), BinaryOperation::GreaterThan, identifier("b"))),
        Err(EvaluationError::InvalidOperands)
    );
    assert_eq!(
        value(binary(identifier("b"), BinaryOperation::Equal, n())),
        Err(EvaluationError::InvalidOperands)
    );
    assert_eq!(
        value(identifier("missing")),
        Err(EvaluationError::NoSuchAttribute("missing".to_owned()))
    );
    // the left operand first
    assert_eq!(
        value(binary(
            identifier("missing"),
            BinaryOperation::Addition,
            binary(integer(1), BinaryOperation::Division, integer(0))
        )),
        Err(EvaluationError::NoSuchAttribute("missing".to_owned()))
    );
}

#[test]
fn predicates_are_booleans() {
    let ctx = row();
    let holds = |e: Expr| evaluate_predicate_with_ctx(&e, &ctx);
    assert_eq!(
        holds(binary(identifier("n"), BinaryOperation::LessThanOrEqual, integer(6))),
        Ok(true)
    );
    assert_eq!(
        holds(binary(identifier("n"), BinaryOperation::GreaterThanOrEqual, integer(7))),
        Ok(false)
    );
    assert_eq!(holds(identifier("b")), Ok(true));
    assert_eq!(holds(identifier("n")), Err(EvaluationError::NotBoolean));
    assert_eq!(
        EvaluationError::DivisionByZero.to_string(),
        "division by zero"
    );
}

#[test]
fn serde_errors_name_the_attribute() {
    let schema = Attributes::new(vec![
        (name("a"), AttributeType::Integer),
        (name("b"), AttributeType::Text),
        (name("c"), AttributeType::Boolean),
    ]);
    let whole = serialize_tuple(vec![
        StorageTupleValue::Integer(1),
        text("xy"),
        StorageTupleValue::Boolean(true),
    ]);
    assert_eq!(whole, TupleRecord(vec![0, 0, 0, 1, 0, 0, 0, 2, 120, 121, 1]));
    assert_eq!(
        whole.to_values(&schema).unwrap(),
        vec![
            (name("a"), StorageTupleValue::Integer(1)),
            (name("b"), text("xy")),
            (name("c"), StorageTupleValue::Boolean(true))
        ]
    );
    let cut = |n: usize| TupleRecord(whole.0[..n].to_vec());
    assert_eq!(cut(0).to_values(&schema), Err(SerdeError::EOF("a".to_owned())));
    assert_eq!(cut(3).to_values(&schema), Err(SerdeError::EOF("a".to_owned())));
    assert_eq!(cut(4).to_values(&schema), Err(SerdeError::EOF("b".to_owned())));
    assert_eq!(cut(9).to_values(&schema), Err(SerdeError::EOF("b".to_owned())));
    assert_eq!(cut(10).to_values(&schema), Err(SerdeError::EOF("c".to_owned())));
    let mut more = whole.clone();
    more.0.push(7);
    assert_eq!(more.to_values(&schema), Err(SerdeError::TrailingBytes));
    let broken = TupleRecord(vec![0, 0, 0, 1, 0, 0, 0, 2, 0xff, 0xfe, 1]);
    assert_eq!(
        broken.to_values(&schema),
        Err(SerdeError::InvalidText("b".to_owned()))
    );
    // any byte but zero is true
    let other = TupleRecord(vec![0, 0, 0, 1, 0, 0, 0, 0, 2]);
    assert_eq!(
        other.to_values(&schema).unwrap(),
        vec![
            (name("a"), StorageTupleValue::Integer(1)),
            (name("b"), text("")),
            (name("c"), StorageTupleValue::Boolean(true))
        ]
    );
    assert_eq!(
        SerdeError::EOF("a".to_owned()).to_string(),
        "unable to deserialize a"
    );
    assert_eq!(
        StorageError::from(SerdeError::EOF("a".to_owned())),
        StorageError::TupleSerdeError("unable to deserialize a".to_owned())
    );
}
