use relational_engine::parser::ast::{
    AttributeDefinition, AttributeType as ParserAttributeType, AttributeValue, BinaryExpr,
    BinaryOperation, CreateTableStmt, Expr, FromClause, InsertStmt, JoinStmt, JoinType,
    LiteralExpr, SelectProperties, SelectStmt, SingleSelectStmt, Stmt, WhereClause,
};
use relational_engine::planner::plan::create_plan::CreateTablePlan;
use relational_engine::planner::plan::insert_plan::InsertTuplePlan;
use relational_engine::planner::plan::query_plan::{
    FilterNode, JoinNode, ProjectNode, QueryPlan, QueryPlanNode, QueryResultSchema, ScanNode,
};
use relational_engine::planner::plan::Plan;
use relational_engine::storage::error::StorageError;
use relational_engine::storage::storage_manager::{
    AttributeName, Attributes, CreateTableRequest, StorageManager, TableName,
};
use relational_engine::storage::tuple::TupleRecord;
use relational_engine::storage::tuple_serde::StorageTupleValue;
use relational_engine::storage::types::AttributeType;
use relational_engine::translate::error::TranslateError;
use relational_engine::translate::type_check::{
    type_check_expr, type_check_join_predicate, type_check_projection,
};
use relational_engine::translate::Translator;

fn name(s: &str) -> AttributeName {
    AttributeName(s.to_owned())
}

fn schema_of(attributes: Vec<(AttributeName, AttributeType)>) -> QueryResultSchema {
    QueryResultSchema::new(Attributes::new(attributes))
}

fn person_name_age() -> Vec<(AttributeName, AttributeType)> {
    vec![
        (AttributeName("name".to_owned()), AttributeType::Text),
        (AttributeName("age".to_owned()), AttributeType::Integer),
    ]
}

fn catalog_with(table: &str, attributes: Vec<(AttributeName, AttributeType)>) -> StorageManager {
    let mut storage_manager = StorageManager::new();
    storage_manager
        .create_table(CreateTableRequest {
            table_name: TableName(table.to_owned()),
            primary_key: AttributeName("name".to_owned()),
            schema_attributes: attributes,
        })
        .unwrap();
    storage_manager
}

fn identifier(s: &str) -> Expr {
    Expr::Literal(LiteralExpr::Identifier(s.to_owned()))
}

fn integer(n: i32) -> Expr {
    Expr::Literal(LiteralExpr::Integer(n))
}

fn binary(left: Expr, op: BinaryOperation, right: Expr) -> Expr {
    Expr::Binary(BinaryExpr {
        left: Box::new(left),
        op,
        right: Box::new(right),
    })
}

fn select_all(table: &str, alias: Option<&str>) -> SingleSelectStmt {
    SingleSelectStmt {
        properties: SelectProperties::Star,
        from_clause: FromClause::Table(table.to_owned()),
        where_clause: WhereClause::Absent,
        alias: alias.map(|a| a.to_owned()),
    }
}

#[test]
fn translate_create_table() {
    let stmt = CreateTableStmt {
        table_name: "person".to_owned(),
        attribute_definitions: vec![
            AttributeDefinition {
                name: "name".to_owned(),
                attribute_type: ParserAttributeType::Text,
                is_primary_key: true,
            },
            AttributeDefinition {
                name: "age".to_owned(),
                attribute_type: ParserAttributeType::Integer,
                is_primary_key: false,
            },
        ],
    };

    let t = Translator {
        storage_manager: &StorageManager::new(),
    };

    let req = t.translate_create_table(stmt).unwrap();
    assert_eq!(
        req,
        Plan::CreateTable(CreateTablePlan {
            table_name: TableName("person".to_owned()),
            primary_key: AttributeName("name".to_owned()),
            schema_attributes: vec![
                (AttributeName("name".to_owned()), AttributeType::Text),
                (AttributeName("age".to_owned()), AttributeType::Integer),
            ]
        })
    );
}

#[test]
fn translate_insert() {
    let stmt = InsertStmt {
        table_name: "person".to_owned(),
        attribute_names: vec!["name".to_owned(), "age".to_owned()],
        attribute_values: vec![
            AttributeValue::String("bob".to_owned()),
            AttributeValue::Expr(Expr::Literal(LiteralExpr::Integer(20))),
        ],
    };

    let mut storage_manager = StorageManager::new();
    storage_manager
        .create_table(CreateTableRequest {
            table_name: TableName("person".to_owned()),
            primary_key: AttributeName("name".to_owned()),
            schema_attributes: vec![
                (AttributeName("name".to_owned()), AttributeType::Text),
                (AttributeName("age".to_owned()), AttributeType::Integer),
            ],
        })
        .unwrap();
    let t = Translator {
        storage_manager: &storage_manager,
    };

    let plan = t.translate_insert(stmt).unwrap();
    assert_eq!(
        plan,
        Plan::InsertTuple(InsertTuplePlan {
            table_name: TableName("person".to_owned()),
            tuple: TupleRecord(vec![0, 0, 0, 3, 98, 111, 98, 0, 0, 0, 20])
        })
    );
}

#[test]
fn translate_select_star() {
    let predicate = Expr::Binary(BinaryExpr {
        left: Box::new(Expr::Literal(LiteralExpr::Identifier("age".to_owned()))),
        op: BinaryOperation::NotEqual,
        right: Box::new(Expr::Binary(BinaryExpr {
            left: Box::new(Expr::Literal(LiteralExpr::Integer(8))),
            op: BinaryOperation::Addition,
            right: Box::new(Expr::Literal(LiteralExpr::Integer(2))),
        })),
    });
    let stmt = SelectStmt::Select(SingleSelectStmt {
        properties: SelectProperties::Star,
        from_clause: FromClause::Table("person".to_owned()),
        where_clause: WhereClause::Expr(predicate.clone()),
        alias: None,
    });

    let schema_attributes = vec![
        (AttributeName("name".to_owned()), AttributeType::Text),
        (AttributeName("age".to_owned()), AttributeType::Integer),
    ];

    let mut storage_manager = StorageManager::new();
    storage_manager
        .create_table(CreateTableRequest {
            table_name: TableName("person".to_owned()),
            primary_key: AttributeName("name".to_owned()),
            schema_attributes: schema_attributes.clone(),
        })
        .unwrap();

    let t = Translator {
        storage_manager: &storage_manager,
    };

    let plan = t.translate_select(stmt).unwrap();

    let schema = schema_of(schema_attributes.clone());
    assert_eq!(
        plan,
        Plan::Query(QueryPlan {
            result_schema: schema.clone(),
            plan: QueryPlanNode::Filter(FilterNode {
                predicate: predicate.clone(),
                schema: schema.clone(),
                child: Box::new(QueryPlan {
                    result_schema: schema.clone(),
                    plan: QueryPlanNode::Scan(ScanNode {
                        schema: schema.clone(),
                        table_name: TableName("person".to_owned())
                    })
                })
            })
        })
    );
}

fn person_with_membership() -> Vec<(AttributeName, AttributeType)> {
    vec![
        (AttributeName("name".to_owned()), AttributeType::Text),
        (AttributeName("age".to_owned()), AttributeType::Integer),
        (AttributeName("location".to_owned()), AttributeType::Text),
        (AttributeName("is_member".to_owned()), AttributeType::Boolean),
    ]
}

#[test]
fn translate_projection() {
    let predicate = Expr::Binary(BinaryExpr {
        left: Box::new(Expr::Literal(LiteralExpr::Identifier("age".to_owned()))),
        op: BinaryOperation::NotEqual,
        right: Box::new(Expr::Binary(BinaryExpr {
            left: Box::new(Expr::Literal(LiteralExpr::Integer(8))),
            op: BinaryOperation::Addition,
            right: Box::new(Expr::Literal(LiteralExpr::Integer(2))),
        })),
    });
    let stmt = SelectStmt::Select(SingleSelectStmt {
        properties: SelectProperties::Identifiers(vec!["is_member".to_owned(), "age".to_owned()]),
        from_clause: FromClause::Table("person".to_owned()),
        where_clause: WhereClause::Expr(predicate.clone()),
        alias: None,
    });

    let schema_attributes = person_with_membership();

    let mut storage_manager = StorageManager::new();
    storage_manager
        .create_table(CreateTableRequest {
            table_name: TableName("person".to_owned()),
            primary_key: AttributeName("name".to_owned()),
            schema_attributes: schema_attributes.clone(),
        })
        .unwrap();

    let t = Translator {
        storage_manager: &storage_manager,
    };

    let plan = t.translate_select(stmt).unwrap();

    let schema = schema_of(schema_attributes.clone());
    let result_schema = schema_of(vec![
        (AttributeName("is_member".to_owned()), AttributeType::Boolean),
        (AttributeName("age".to_owned()), AttributeType::Integer),
    ]);
    assert_eq!(
        plan,
        Plan::Query(QueryPlan {
            result_schema: result_schema.clone(),
            plan: QueryPlanNode::Project(ProjectNode {
                schema: result_schema.clone(),
                record_schema: schema.clone(),
                attributes: vec![
                    AttributeName("is_member".to_owned()),
                    AttributeName("age".to_owned())
                ],
                child: Box::new(QueryPlan {
                    result_schema: schema.clone(),
                    plan: QueryPlanNode::Filter(FilterNode {
                        predicate: predicate.clone(),
                        schema: schema.clone(),
                        child: Box::new(QueryPlan {
                            result_schema: schema.clone(),
                            plan: QueryPlanNode::Scan(ScanNode {
                                schema: schema.clone(),
                                table_name: TableName("person".to_owned())
                            })
                        })
                    })
                })
            })
        })
    );
}

#[test]
fn translate_projection_with_alias() {
    let stmt = SelectStmt::Select(SingleSelectStmt {
        properties: SelectProperties::Identifiers(vec![
            "employee.is_member".to_owned(),
            "employee.age".to_owned(),
        ]),
        from_clause: FromClause::Table("person".to_owned()),
        where_clause: WhereClause::Absent,
        alias: Some("employee".to_owned()),
    });

    let schema_attributes = person_with_membership();

    let mut storage_manager = StorageManager::new();
    storage_manager
        .create_table(CreateTableRequest {
            table_name: TableName("person".to_owned()),
            primary_key: AttributeName("name".to_owned()),
            schema_attributes: schema_attributes.clone(),
        })
        .unwrap();

    let t = Translator {
        storage_manager: &storage_manager,
    };

    let plan = t.translate_select(stmt).unwrap();

    let schema = schema_of(schema_attributes.clone());
    let result_schema = schema_of(vec![
        (
            AttributeName("employee.is_member".to_owned()),
            AttributeType::Boolean,
        ),
        (
            AttributeName("employee.age".to_owned()),
            AttributeType::Integer,
        ),
    ]);
    assert_eq!(
        plan,
        Plan::Query(QueryPlan {
            result_schema: result_schema.clone(),
            plan: QueryPlanNode::Project(ProjectNode {
                schema: result_schema.clone(),
                record_schema: schema.clone(),
                attributes: vec![
                    AttributeName("employee.is_member".to_owned()),
                    AttributeName("employee.age".to_owned())
                ],
                child: Box::new(QueryPlan {
                    result_schema: schema.clone(),
                    plan: QueryPlanNode::Scan(ScanNode {
                        schema: schema.clone(),
                        table_name: TableName("person".to_owned())
                    })
                })
            })
        }),
    );
}

#[test]
fn translate_projection_with_wrong_alias() {
    let stmt = SelectStmt::Select(SingleSelectStmt {
        properties: SelectProperties::Identifiers(vec!["is_member".to_owned(), "age".to_owned()]),
        from_clause: FromClause::Table("person".to_owned()),
        where_clause: WhereClause::Absent,
        alias: Some("employee".to_owned()),
    });

    let schema_attributes = person_with_membership();

    let mut storage_manager = StorageManager::new();
    storage_manager
        .create_table(CreateTableRequest {
            table_name: TableName("person".to_owned()),
            primary_key: AttributeName("name".to_owned()),
            schema_attributes: schema_attributes.clone(),
        })
        .unwrap();

    let t = Translator {
        storage_manager: &storage_manager,
    };

    let plan = t.translate_select(stmt);
    assert!(matches!(plan, Err(TranslateError::NoSuchAttribute(_))));
}

#[test]
fn translate_inner_join() {
    // select person.age, employee.name from foo as person
    //  inner join (select * from foo where false) as employee on true;
    let stmt = SelectStmt::Join(JoinStmt {
        join_type: JoinType::InnerJoin,
        properties: SelectProperties::Identifiers(vec![
            "person.age".to_owned(),
            "employee.name".to_owned(),
        ]),
        left: SingleSelectStmt {
            properties: SelectProperties::Star,
            from_clause: FromClause::Table("foo".to_owned()),
            where_clause: WhereClause::Absent,
            alias: Some("person".to_owned()),
        },
        right: SingleSelectStmt {
            properties: SelectProperties::Star,
            from_clause: FromClause::Select(Box::new(SelectStmt::Select(SingleSelectStmt {
                properties: SelectProperties::Star,
                from_clause: FromClause::Table("foo".to_owned()),
                where_clause: WhereClause::Expr(Expr::Literal(LiteralExpr::Boolean(false))),
                alias: None,
            }))),
            where_clause: WhereClause::Absent,
            alias: Some("employee".to_owned()),
        },
        predicate: WhereClause::Expr(Expr::Literal(LiteralExpr::Boolean(true))),
    });

    let schema_attributes = vec![
        (AttributeName("name".to_owned()), AttributeType::Text),
        (AttributeName("age".to_owned()), AttributeType::Integer),
    ];

    let mut storage_manager = StorageManager::new();
    storage_manager
        .create_table(CreateTableRequest {
            table_name: TableName("foo".to_owned()),
            primary_key: AttributeName("name".to_owned()),
            schema_attributes: schema_attributes.clone(),
        })
        .unwrap();

    let t = Translator {
        storage_manager: &storage_manager,
    };

    let plan = t.translate_select(stmt).unwrap();

    let schema = schema_of(schema_attributes.clone());
    let join_schema = schema_of(vec![
        (AttributeName("person.name".to_owned()), AttributeType::Text),
        (
            AttributeName("person.age".to_owned()),
            AttributeType::Integer,
        ),
        (
            AttributeName("employee.name".to_owned()),
            AttributeType::Text,
        ),
        (
            AttributeName("employee.age".to_owned()),
            AttributeType::Integer,
        ),
    ]);
    let projection_schema = schema_of(vec![
        (
            AttributeName("person.age".to_owned()),
            AttributeType::Integer,
        ),
        (
            AttributeName("employee.name".to_owned()),
            AttributeType::Text,
        ),
    ]);
    assert_eq!(
        Plan::Query(QueryPlan {
            result_schema: projection_schema.clone(),
            plan: QueryPlanNode::Project(ProjectNode {
                schema: projection_schema.clone(),
                record_schema: join_schema.clone(),
                attributes: vec![
                    AttributeName("person.age".to_owned()),
                    AttributeName("employee.name".to_owned())
                ],
                child: Box::new(QueryPlan {
                    result_schema: join_schema.clone(),
                    plan: QueryPlanNode::Join(JoinNode {
                        join_type: JoinType::InnerJoin,
                        predicate: Expr::Literal(LiteralExpr::Boolean(true)),
                        schema: join_schema.clone(),
                        left: Box::new(QueryPlan {
                            result_schema: schema.clone().with_alias("person"),
                            plan: QueryPlanNode::Scan(ScanNode {
                                schema: schema.clone(),
                                table_name: TableName("foo".to_owned())
                            })
                        }),
                        right: Box::new(QueryPlan {
                            result_schema: schema.clone().with_alias("employee"),
                            plan: QueryPlanNode::Filter(FilterNode {
                                predicate: Expr::Literal(LiteralExpr::Boolean(false)),
                                schema: schema.clone(),
                                child: Box::new(QueryPlan {
                                    result_schema: schema.clone(),
                                    plan: QueryPlanNode::Scan(ScanNode {
                                        schema: schema.clone(),
                                        table_name: TableName("foo".to_owned())
                                    })
                                })
                            })
                        }),
                    })
                })
            })
        }),
        plan
    );
}

#[test]
fn translate_inner_join_wrong_aliases() {
    // select * from foo as person inner join foo as person on true;
    let stmt = SelectStmt::Join(JoinStmt {
        join_type: JoinType::InnerJoin,
        properties: SelectProperties::Star,
        left: SingleSelectStmt {
            properties: SelectProperties::Star,
            from_clause: FromClause::Table("foo".to_owned()),
            where_clause: WhereClause::Absent,
            alias: Some("person".to_owned()),
        },
        right: SingleSelectStmt {
            properties: SelectProperties::Star,
            from_clause: FromClause::Table("foo".to_owned()),
            where_clause: WhereClause::Absent,
            alias: Some("person".to_owned()),
        },
        predicate: WhereClause::Expr(Expr::Literal(LiteralExpr::Boolean(true))),
    });

    let schema_attributes = vec![
        (AttributeName("name".to_owned()), AttributeType::Text),
        (AttributeName("age".to_owned()), AttributeType::Integer),
    ];

    let mut storage_manager = StorageManager::new();
    storage_manager
        .create_table(CreateTableRequest {
            table_name: TableName("foo".to_owned()),
            primary_key: AttributeName("name".to_owned()),
            schema_attributes: schema_attributes.clone(),
        })
        .unwrap();

    let t = Translator {
        storage_manager: &storage_manager,
    };

    let plan = t.translate_select(stmt);

    assert!(matches!(
        plan,
        Err(TranslateError::DuplicateAttributeName(_))
    ));
}

#[test]
fn translate_inner_join_wrong_predicate_type() {
    // select * from foo as first inner join foo as second on 3;
    let stmt = SelectStmt::Join(JoinStmt {
        join_type: JoinType::InnerJoin,
        properties: SelectProperties::Star,
        left: SingleSelectStmt {
            properties: SelectProperties::Star,
            from_clause: FromClause::Table("foo".to_owned()),
            where_clause: WhereClause::Absent,
            alias: Some("first".to_owned()),
        },
        right: SingleSelectStmt {
            properties: SelectProperties::Star,
            from_clause: FromClause::Table("foo".to_owned()),
            where_clause: WhereClause::Absent,
            alias: Some("second".to_owned()),
        },
        predicate: WhereClause::Expr(Expr::Literal(LiteralExpr::Integer(3))),
    });

    let schema_attributes = vec![
        (AttributeName("name".to_owned()), AttributeType::Text),
        (AttributeName("age".to_owned()), AttributeType::Integer),
    ];

    let mut storage_manager = StorageManager::new();
    storage_manager
        .create_table(CreateTableRequest {
            table_name: TableName("foo".to_owned()),
            primary_key: AttributeName("name".to_owned()),
            schema_attributes: schema_attributes.clone(),
        })
        .unwrap();

    let t = Translator {
        storage_manager: &storage_manager,
    };

    let plan = t.translate_select(stmt);

    assert!(matches!(plan, Err(TranslateError::TypeError(_))));
}

fn definition(name: &str, attribute_type: ParserAttributeType, key: bool) -> AttributeDefinition {
    AttributeDefinition {
        name: name.to_owned(),
        attribute_type,
        is_primary_key: key,
    }
}

#[test]
fn create_table_checks_in_order() {
    let storage_manager = catalog_with("person", person_name_age());
    let t = Translator {
        storage_manager: &storage_manager,
    };
    // the table exists: reported before anything else
    let r = t.translate_create_table(CreateTableStmt {
        table_name: "person".to_owned(),
        attribute_definitions: vec![],
    });
    match r {
        Err(TranslateError::StorageError(StorageError::AlreadyExists(what))) => {
            assert!(what.contains("person"))
        }
        other => panic!("unexpected {:?}", other),
    }
    // no key
    let r = t.translate_create_table(CreateTableStmt {
        table_name: "t".to_owned(),
        attribute_definitions: vec![
            definition("a", ParserAttributeType::Integer, false),
            definition("a", ParserAttributeType::Integer, false),
        ],
    });
    assert!(matches!(r, Err(TranslateError::PrimaryKeyRequired)));
    // several keys, in order, reported before duplicates
    let r = t.translate_create_table(CreateTableStmt {
        table_name: "t".to_owned(),
        attribute_definitions: vec![
            definition("a", ParserAttributeType::Integer, true),
            definition("b", ParserAttributeType::Integer, false),
            definition("a", ParserAttributeType::Text, true),
        ],
    });
    match r {
        Err(TranslateError::MultiplePrimaryKeys(keys)) => {
            assert_eq!(keys, vec!["a".to_owned(), "a".to_owned()])
        }
        other => panic!("unexpected {:?}", other),
    }
    // the first name that occurs again
    let r = t.translate_create_table(CreateTableStmt {
        table_name: "t".to_owned(),
        attribute_definitions: vec![
            definition("a", ParserAttributeType::Integer, true),
            definition("b", ParserAttributeType::Integer, false),
            definition("c", ParserAttributeType::Integer, false),
            definition("b", ParserAttributeType::Text, false),
            definition("a", ParserAttributeType::Text, false),
        ],
    });
    match r {
        Err(TranslateError::DuplicateAttributeName(n)) => assert_eq!(n, "b"),
        other => panic!("unexpected {:?}", other),
    }
}

fn insert_into_person(names: Vec<&str>, values: Vec<AttributeValue>) -> Result<Plan, TranslateError> {
    let storage_manager = catalog_with("person", person_name_age());
    let t = Translator {
        storage_manager: &storage_manager,
    };
    t.translate_insert(InsertStmt {
        table_name: "person".to_owned(),
        attribute_names: names.into_iter().map(|n| n.to_owned()).collect(),
        attribute_values: values,
    })
}

#[test]
fn insert_checks() {
    // no such table
    let storage_manager = StorageManager::new();
    let t = Translator {
        storage_manager: &storage_manager,
    };
    let r = t.translate_insert(InsertStmt {
        table_name: "person".to_owned(),
        attribute_names: vec!["name".to_owned()],
        attribute_values: vec![AttributeValue::String("a".to_owned())],
    });
    match r {
        Err(TranslateError::NoSuchTable(n)) => assert_eq!(n, "person"),
        other => panic!("unexpected {:?}", other),
    }
    // count mismatch
    assert!(matches!(
        insert_into_person(vec!["name", "age"], vec![AttributeValue::String("a".to_owned())]),
        Err(TranslateError::InvalidArguments(_))
    ));
    // nothing given
    assert!(matches!(
        insert_into_person(vec![], vec![]),
        Err(TranslateError::InvalidArguments(_))
    ));
    // identifiers have no value here
    assert!(matches!(
        insert_into_person(vec!["age"], vec![AttributeValue::Expr(identifier("age"))]),
        Err(TranslateError::InvalidArguments(_))
    ));
    // a wrong type
    assert!(matches!(
        insert_into_person(
            vec!["name", "age"],
            vec![
                AttributeValue::String("a".to_owned()),
                AttributeValue::String("b".to_owned())
            ]
        ),
        Err(TranslateError::TypeError(_))
    ));
    assert!(matches!(
        insert_into_person(
            vec!["age"],
            vec![AttributeValue::Expr(binary(integer(1), BinaryOperation::Equal, integer(1)))]
        ),
        Err(TranslateError::TypeError(_))
    ));
    // a name that is no column
    assert!(matches!(
        insert_into_person(vec!["size"], vec![AttributeValue::Expr(integer(1))]),
        Err(TranslateError::InvalidArguments(_))
    ));
}

#[test]
fn insert_folds_constants_and_keeps_the_given_order() {
    let plan = insert_into_person(
        vec!["age", "name"],
        vec![
            AttributeValue::Expr(binary(
                binary(integer(7), BinaryOperation::Multiplication, integer(6)),
                BinaryOperation::Subtraction,
                binary(integer(9), BinaryOperation::Division, integer(2)),
            )),
            AttributeValue::String("é".to_owned()),
        ],
    )
    .unwrap();
    assert_eq!(
        plan,
        Plan::InsertTuple(InsertTuplePlan {
            table_name: TableName("person".to_owned()),
            tuple: TupleRecord(vec![0, 0, 0, 38, 0, 0, 0, 2, 0xc3, 0xa9])
        })
    );
    // arithmetic that leaves the 32 bits, or divides by zero, is refused
    assert!(matches!(
        insert_into_person(
            vec!["age"],
            vec![AttributeValue::Expr(binary(
                integer(i32::MAX),
                BinaryOperation::Addition,
                integer(1)
            ))]
        ),
        Err(TranslateError::InvalidArguments(_))
    ));
    assert!(matches!(
        insert_into_person(
            vec!["age"],
            vec![AttributeValue::Expr(binary(integer(1), BinaryOperation::Division, integer(0)))]
        ),
        Err(TranslateError::InvalidArguments(_))
    ));
    // a negative number takes its two's complement
    let plan = insert_into_person(
        vec!["age"],
        vec![AttributeValue::Expr(binary(integer(0), BinaryOperation::Subtraction, integer(2)))],
    )
    .unwrap();
    assert_eq!(
        plan,
        Plan::InsertTuple(InsertTuplePlan {
            table_name: TableName("person".to_owned()),
            tuple: TupleRecord(vec![0xff, 0xff, 0xff, 0xfe])
        })
    );
}

#[test]
fn resolve_attribute_value_follows_the_type_matrix() {
    let text = |s: &str| Expr::Literal(LiteralExpr::String(s.to_owned()));
    assert_eq!(
        Translator::resolve_attribute_value(AttributeValue::Expr(binary(
            text("a"),
            BinaryOperation::Equal,
            text("a")
        )))
        .unwrap(),
        StorageTupleValue::Boolean(true)
    );
    assert_eq!(
        Translator::resolve_attribute_value(AttributeValue::Expr(binary(
            integer(3),
            BinaryOperation::LessThanOrEqual,
            integer(2)
        )))
        .unwrap(),
        StorageTupleValue::Boolean(false)
    );
    assert!(Translator::resolve_attribute_value(AttributeValue::Expr(binary(
        text("a"),
        BinaryOperation::LessThan,
        text("b")
    )))
    .is_err());
    assert!(Translator::resolve_attribute_value(AttributeValue::Expr(binary(
        integer(1),
        BinaryOperation::Equal,
        Expr::Literal(LiteralExpr::Boolean(true))
    )))
    .is_err());
    assert_eq!(
        Translator::translate_attribute_type(ParserAttributeType::Text),
        AttributeType::Text
    );
}

#[test]
fn an_alias_hides_the_plain_names() {
    let storage_manager = catalog_with("t", person_name_age());
    let t = Translator {
        storage_manager: &storage_manager,
    };
    // select name from t as x;
    let r = t.translate_select(SelectStmt::Select(SingleSelectStmt {
        properties: SelectProperties::Identifiers(vec!["name".to_owned()]),
        from_clause: FromClause::Table("t".to_owned()),
        where_clause: WhereClause::Absent,
        alias: Some("x".to_owned()),
    }));
    match r {
        Err(TranslateError::NoSuchAttribute(n)) => assert_eq!(n, "name"),
        other => panic!("unexpected {:?}", other),
    }
    // select * from t as x where age = 0;
    let r = t.translate_select(SelectStmt::Select(SingleSelectStmt {
        properties: SelectProperties::Star,
        from_clause: FromClause::Table("t".to_owned()),
        where_clause: WhereClause::Expr(binary(identifier("age"), BinaryOperation::Equal, integer(0))),
        alias: Some("x".to_owned()),
    }));
    match r {
        Err(TranslateError::NoSuchAttribute(n)) => assert_eq!(n, "age"),
        other => panic!("unexpected {:?}", other),
    }
    // select * from t as x where x.age = 0; the filter reads the aliased names
    let predicate = binary(identifier("x.age"), BinaryOperation::Equal, integer(0));
    let plan = t
        .translate_select(SelectStmt::Select(SingleSelectStmt {
            properties: SelectProperties::Star,
            from_clause: FromClause::Table("t".to_owned()),
            where_clause: WhereClause::Expr(predicate.clone()),
            alias: Some("x".to_owned()),
        }))
        .unwrap();
    let schema = schema_of(person_name_age());
    assert_eq!(
        plan,
        Plan::Query(QueryPlan {
            result_schema: schema.clone().with_alias("x"),
            plan: QueryPlanNode::Filter(FilterNode {
                predicate,
                schema: schema.clone().with_alias("x"),
                child: Box::new(QueryPlan {
                    result_schema: schema.clone(),
                    plan: QueryPlanNode::Scan(ScanNode {
                        schema: schema.clone(),
                        table_name: TableName("t".to_owned())
                    })
                })
            })
        })
    );
}

#[test]
fn a_where_must_be_a_boolean() {
    let storage_manager = catalog_with("t", person_name_age());
    let t = Translator {
        storage_manager: &storage_manager,
    };
    let r = t.translate_select(SelectStmt::Select(SingleSelectStmt {
        properties: SelectProperties::Star,
        from_clause: FromClause::Table("t".to_owned()),
        where_clause: WhereClause::Expr(binary(identifier("age"), BinaryOperation::Addition, integer(1))),
        alias: None,
    }));
    assert!(matches!(r, Err(TranslateError::TypeError(_))));
    let r = t.translate_select(SelectStmt::Select(select_all("missing", None)));
    match r {
        Err(TranslateError::NoSuchTable(n)) => assert_eq!(n, "missing"),
        other => panic!("unexpected {:?}", other),
    }
}

#[test]
fn a_join_needs_a_condition_and_disjoint_names() {
    let storage_manager = catalog_with("foo", person_name_age());
    let t = Translator {
        storage_manager: &storage_manager,
    };
    let r = t.translate_select(SelectStmt::Join(JoinStmt {
        join_type: JoinType::InnerJoin,
        properties: SelectProperties::Star,
        left: select_all("foo", Some("a")),
        right: select_all("foo", Some("b")),
        predicate: WhereClause::Absent,
    }));
    assert!(matches!(r, Err(TranslateError::InvalidArguments(_))));
    // the first name of the right side that the left side has too
    let r = t.translate_select(SelectStmt::Join(JoinStmt {
        join_type: JoinType::InnerJoin,
        properties: SelectProperties::Star,
        left: select_all("foo", None),
        right: select_all("foo", None),
        predicate: WhereClause::Expr(Expr::Literal(LiteralExpr::Boolean(true))),
    }));
    match r {
        Err(TranslateError::DuplicateAttributeName(n)) => assert_eq!(n, "name"),
        other => panic!("unexpected {:?}", other),
    }
    // a join of all attributes has the left ones, then the right ones
    let plan = t
        .translate(Stmt::Select(SelectStmt::Join(JoinStmt {
            join_type: JoinType::InnerJoin,
            properties: SelectProperties::Star,
            left: select_all("foo", Some("a")),
            right: select_all("foo", Some("b")),
            predicate: WhereClause::Expr(binary(
                identifier("a.age"),
                BinaryOperation::LessThan,
                identifier("b.age"),
            )),
        })))
        .unwrap();
    match plan {
        Plan::Query(plan) => assert_eq!(
            plan.result_schema,
            schema_of(vec![
                (name("a.name"), AttributeType::Text),
                (name("a.age"), AttributeType::Integer),
                (name("b.name"), AttributeType::Text),
                (name("b.age"), AttributeType::Integer),
            ])
        ),
        other => panic!("unexpected {:?}", other),
    }
}

#[test]
fn types_of_expressions() {
    let env = Attributes::new(person_with_membership());
    let check = |e: Expr| type_check_expr(&e, &env);
    let boolean = |b: bool| Expr::Literal(LiteralExpr::Boolean(b));
    let text = |s: &str| Expr::Literal(LiteralExpr::String(s.to_owned()));
    assert_eq!(check(integer(1)).unwrap(), AttributeType::Integer);
    assert_eq!(check(boolean(true)).unwrap(), AttributeType::Boolean);
    assert_eq!(check(text("a")).unwrap(), AttributeType::Text);
    assert_eq!(check(identifier("location")).unwrap(), AttributeType::Text);
    assert!(matches!(
        check(identifier("nope")),
        Err(TranslateError::NoSuchAttribute(_))
    ));
    for op in [
        BinaryOperation::Addition,
        BinaryOperation::Subtraction,
        BinaryOperation::Multiplication,
        BinaryOperation::Division,
    ] {
        assert_eq!(
            check(binary(identifier("age"), op, integer(1))).unwrap(),
            AttributeType::Integer
        );
        assert!(matches!(
            check(binary(text("a"), op, text("b"))),
            Err(TranslateError::TypeError(_))
        ));
        assert!(matches!(
            check(binary(boolean(true), op, boolean(false))),
            Err(TranslateError::TypeError(_))
        ));
    }
    for op in [
        BinaryOperation::LessThan,
        BinaryOperation::GreaterThan,
        BinaryOperation::LessThanOrEqual,
        BinaryOperation::GreaterThanOrEqual,
    ] {
        assert_eq!(
            check(binary(identifier("age"), op, integer(1))).unwrap(),
            AttributeType::Boolean
        );
        assert!(matches!(
            check(binary(identifier("name"), op, text("b"))),
            Err(TranslateError::TypeError(_))
        ));
        assert!(matches!(
            check(binary(identifier("is_member"), op, boolean(false))),
            Err(TranslateError::TypeError(_))
        ));
    }
    for op in [BinaryOperation::Equal, BinaryOperation::NotEqual] {
        assert_eq!(
            check(binary(identifier("age"), op, integer(1))).unwrap(),
            AttributeType::Boolean
        );
        assert_eq!(
            check(binary(identifier("name"), op, text("b"))).unwrap(),
            AttributeType::Boolean
        );
        assert_eq!(
            check(binary(identifier("is_member"), op, boolean(false))).unwrap(),
            AttributeType::Boolean
        );
        assert!(matches!(
            check(binary(identifier("age"), op, text("b"))),
            Err(TranslateError::TypeError(_))
        ));
    }
    // (a = b) < c
    assert!(matches!(
        check(binary(
            binary(integer(1), BinaryOperation::Equal, integer(2)),
            BinaryOperation::LessThan,
            integer(3)
        )),
        Err(TranslateError::TypeError(_))
    ));
    // the left operand is checked first
    assert!(matches!(
        check(binary(
            identifier("nope"),
            BinaryOperation::LessThan,
            binary(integer(1), BinaryOperation::Addition, text("a"))
        )),
        Err(TranslateError::NoSuchAttribute(_))
    ));
}

#[test]
fn projections_and_join_conditions() {
    let env = Attributes::new(person_with_membership());
    let projected =
        type_check_projection(&vec!["is_member".to_owned(), "name".to_owned()], &env).unwrap();
    assert_eq!(
        projected,
        Attributes::new(vec![
            (name("is_member"), AttributeType::Boolean),
            (name("name"), AttributeType::Text)
        ])
    );
    match type_check_projection(&vec!["name".to_owned(), "x".to_owned(), "y".to_owned()], &env) {
        Err(TranslateError::NoSuchAttribute(n)) => assert_eq!(n, "x"),
        other => panic!("unexpected {:?}", other),
    }
    assert_eq!(
        type_check_projection(&vec![], &env).unwrap(),
        Attributes::new(vec![])
    );
    let condition = binary(identifier("age"), BinaryOperation::Equal, integer(1));
    assert_eq!(
        type_check_join_predicate(WhereClause::Expr(condition.clone()), &env).unwrap(),
        condition
    );
    assert!(matches!(
        type_check_join_predicate(WhereClause::Absent, &env),
        Err(TranslateError::InvalidArguments(_))
    ));
    assert!(matches!(
        type_check_join_predicate(WhereClause::Expr(identifier("age")), &env),
        Err(TranslateError::TypeError(_))
    ));
}

#[test]
fn plans_carry_themselves_out() {
    use_plans();
}

fn use_plans() {
    let mut storage_manager = StorageManager::new();
    let create = CreateTablePlan {
        table_name: TableName("t".to_owned()),
        primary_key: name("a"),
        schema_attributes: vec![(name("a"), AttributeType::Integer)],
    };
    assert_eq!(create.execute(&mut storage_manager), Ok(vec![]));
    let again = CreateTablePlan {
        table_name: TableName("t".to_owned()),
        primary_key: name("a"),
        schema_attributes: vec![(name("a"), AttributeType::Integer)],
    };
    assert_eq!(
        again.execute(&mut storage_manager),
        Err(StorageError::AlreadyExists("table t".to_owned()))
    );
    let insert = InsertTuplePlan {
        table_name: TableName("t".to_owned()),
        tuple: TupleRecord(vec![0, 0, 0, 1]),
    };
    assert_eq!(insert.execute(&mut storage_manager), Ok(vec![]));
    assert_eq!(
        storage_manager
            .get_table_store(&TableName("t".to_owned()))
            .unwrap()
            .records(),
        vec![TupleRecord(vec![0, 0, 0, 1])]
    );
    assert_eq!(
        TranslateError::NoSuchTable("t".to_owned()).to_string(),
        "No such table [t]"
    );
    assert_eq!(
        TranslateError::from(StorageError::AlreadyExists("table t".to_owned())).to_string(),
        "resource [table t] already exists"
    );
}
