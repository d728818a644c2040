use sqlbgone::ast::{
    ColumnDef, Expr, FunctionArg, Query, Select, SelectItem, SqlType, Statement, TableFactor,
    TableWithJoins,
};
use sqlbgone::infer::{get_query, infer_expr, is_placeholder, resolve, Scope};
use sqlbgone::schema::{get_definition, to_datatype, Schema};
use sqlbgone::types::{DataType, Error};

fn s(x: &str) -> String {
    x.to_string()
}

fn col(name: &str, t: SqlType) -> ColumnDef {
    ColumnDef { name: s(name), data_type: t }
}

fn create(name: &str, columns: Vec<ColumnDef>) -> Statement {
    Statement::CreateTable { name: s(name), columns }
}

fn ident(n: &str) -> Expr {
    Expr::Identifier(s(n))
}

fn qualified(t: &str, c: &str) -> Expr {
    Expr::CompoundIdentifier(vec![s(t), s(c)])
}

fn binop(l: Expr, r: Expr) -> Expr {
    Expr::BinaryOp { left: Box::new(l), right: Box::new(r) }
}

fn from(t: &str, joins: &[&str]) -> Vec<TableWithJoins> {
    vec![TableWithJoins {
        relation: TableFactor::Table(s(t)),
        joins: joins.iter().map(|j| TableFactor::Table(s(j))).collect(),
    }]
}

fn select(items: Vec<Expr>, from: Vec<TableWithJoins>, selection: Option<Expr>) -> Select {
    Select {
        projection: items.into_iter().map(SelectItem::UnnamedExpr).collect(),
        from,
        selection,
    }
}

fn query(sel: Select) -> Statement {
    Statement::Query(Query::Select(sel))
}

fn package_table() -> Statement {
    create(
        "package",
        vec![
            col("u_id", SqlType::Text),
            col("sender", SqlType::Text),
            col("destination_id", SqlType::Text),
            col("size_id", SqlType::Integer),
        ],
    )
}

fn schema() -> Schema {
    let stmts = vec![
        package_table(),
        create("user", vec![col("id", SqlType::Integer), col("nickname", SqlType::Text)]),
        create(
            "recipient_package",
            vec![col("user_id", SqlType::Integer), col("package_uid", SqlType::Text)],
        ),
        create("blobs", vec![col("data", SqlType::Blob), col("size_id", SqlType::Real)]),
    ];
    get_definition(&stmts).unwrap()
}

fn insert(table: &str, columns: &[&str], row: Vec<Expr>) -> Statement {
    Statement::Insert {
        table_name: s(table),
        columns: columns.iter().map(|c| s(c)).collect(),
        source: Query::Values(vec![row]),
    }
}

#[test]
fn select_with_where_placeholder() {
    let q = query(select(
        vec![ident("u_id"), ident("size_id")],
        from("package", &[]),
        Some(binop(ident("sender"), Expr::Placeholder)),
    ));
    let (ins, outs) = get_query(&schema(), &q).unwrap();
    assert_eq!(ins, vec![DataType::Text]);
    assert_eq!(outs, vec![DataType::Text, DataType::Integer]);
}

#[test]
fn placeholder_on_the_left_takes_the_column_type() {
    let q = query(select(
        vec![ident("u_id")],
        from("package", &[]),
        Some(binop(Expr::Placeholder, ident("size_id"))),
    ));
    let (ins, outs) = get_query(&schema(), &q).unwrap();
    assert_eq!(ins, vec![DataType::Integer]);
    assert_eq!(outs, vec![DataType::Text]);
}

#[test]
fn insert_all_placeholders() {
    let q = insert(
        "package",
        &["u_id", "sender", "destination_id", "size_id"],
        vec![Expr::Placeholder, Expr::Placeholder, Expr::Placeholder, Expr::Placeholder],
    );
    let (ins, outs) = get_query(&schema(), &q).unwrap();
    assert_eq!(ins, vec![DataType::Text, DataType::Text, DataType::Text, DataType::Integer]);
    assert!(outs.is_empty());
}

#[test]
fn insert_follows_listed_column_order() {
    let q = insert(
        "package",
        &["size_id", "u_id"],
        vec![Expr::Placeholder, Expr::Placeholder],
    );
    let (ins, _) = get_query(&schema(), &q).unwrap();
    assert_eq!(ins, vec![DataType::Integer, DataType::Text]);
}

#[test]
fn insert_nested_placeholder_and_row_zero_only() {
    let sub = select(
        vec![ident("id")],
        from("user", &[]),
        Some(binop(ident("nickname"), Expr::Placeholder)),
    );
    let q = Statement::Insert {
        table_name: s("recipient_package"),
        columns: vec![s("user_id"), s("package_uid")],
        source: Query::Values(vec![
            vec![Expr::Subquery(Box::new(Query::Select(sub))), Expr::Placeholder],
            vec![Expr::Literal, Expr::Literal],
        ]),
    };
    let (ins, outs) = get_query(&schema(), &q).unwrap();
    assert_eq!(ins, vec![DataType::Text, DataType::Text]);
    assert!(outs.is_empty());
}

#[test]
fn insert_unknown_column_and_table() {
    let q = insert("package", &["weight"], vec![Expr::Placeholder]);
    assert_eq!(get_query(&schema(), &q), Err(Error::UnknownColumn));
    let q = insert("parcel", &["u_id"], vec![Expr::Placeholder]);
    assert_eq!(get_query(&schema(), &q), Err(Error::UnknownTable));
}

#[test]
fn insert_from_select_is_unsupported() {
    let q = Statement::Insert {
        table_name: s("package"),
        columns: vec![s("u_id")],
        source: Query::Select(select(vec![ident("u_id")], from("package", &[]), None)),
    };
    assert_eq!(get_query(&schema(), &q), Err(Error::UnsupportedStatement));
}

#[test]
fn scalar_subquery_projection() {
    let sub = select(
        vec![ident("size_id"), ident("u_id")],
        from("package", &[]),
        Some(binop(ident("u_id"), Expr::Placeholder)),
    );
    let q = query(select(
        vec![Expr::Subquery(Box::new(Query::Select(sub)))],
        from("user", &[]),
        Some(binop(ident("id"), Expr::Placeholder)),
    ));
    let (ins, outs) = get_query(&schema(), &q).unwrap();
    assert_eq!(ins, vec![DataType::Text, DataType::Integer]);
    assert_eq!(outs, vec![DataType::Integer]);
}

#[test]
fn empty_subquery_fails() {
    let sub = select(vec![], from("package", &[]), None);
    let q = query(select(
        vec![Expr::Subquery(Box::new(Query::Select(sub)))],
        from("user", &[]),
        None,
    ));
    assert_eq!(get_query(&schema(), &q), Err(Error::EmptySubqueryResult));
}

#[test]
fn max_and_min_keep_the_column_type() {
    for name in ["MAX", "MIN"] {
        let f = Expr::Function {
            name: s(name),
            args: vec![FunctionArg::Unnamed(ident("size_id"))],
        };
        let q = query(select(vec![f], from("package", &[]), None));
        let (ins, outs) = get_query(&schema(), &q).unwrap();
        assert!(ins.is_empty());
        assert_eq!(outs, vec![DataType::Integer]);
    }
}

#[test]
fn other_functions_and_arguments_are_unsupported() {
    let cases = vec![
        Expr::Function { name: s("max"), args: vec![FunctionArg::Unnamed(ident("size_id"))] },
        Expr::Function { name: s("COUNT"), args: vec![FunctionArg::Unnamed(ident("size_id"))] },
        Expr::Function { name: s("MAX"), args: vec![FunctionArg::Wildcard] },
        Expr::Function { name: s("MAX"), args: vec![FunctionArg::Named] },
        Expr::Function { name: s("MAX"), args: vec![] },
        Expr::Function {
            name: s("MAX"),
            args: vec![FunctionArg::Unnamed(ident("size_id")), FunctionArg::Unnamed(ident("u_id"))],
        },
    ];
    for f in cases {
        let q = query(select(vec![f], from("package", &[]), None));
        assert_eq!(get_query(&schema(), &q), Err(Error::UnsupportedExpression));
    }
}

#[test]
fn unsupported_shapes_fail() {
    let wildcard = query(Select {
        projection: vec![SelectItem::Wildcard],
        from: from("package", &[]),
        selection: None,
    });
    assert_eq!(get_query(&schema(), &wildcard), Err(Error::UnsupportedExpression));
    let aliased = query(Select {
        projection: vec![SelectItem::ExprWithAlias],
        from: from("package", &[]),
        selection: None,
    });
    assert_eq!(get_query(&schema(), &aliased), Err(Error::UnsupportedExpression));
    let qualified_wildcard = query(Select {
        projection: vec![SelectItem::QualifiedWildcard],
        from: from("package", &[]),
        selection: None,
    });
    assert_eq!(get_query(&schema(), &qualified_wildcard), Err(Error::UnsupportedExpression));
    assert_eq!(get_query(&schema(), &Statement::Other), Err(Error::UnsupportedStatement));
    assert_eq!(get_query(&schema(), &package_table()), Err(Error::UnsupportedStatement));
    assert_eq!(
        get_query(&schema(), &Statement::Query(Query::Other)),
        Err(Error::UnsupportedStatement)
    );
    let literal = query(select(vec![Expr::Literal], from("package", &[]), None));
    assert_eq!(get_query(&schema(), &literal), Err(Error::UnsupportedExpression));
    let other = query(select(vec![Expr::Other], from("package", &[]), None));
    assert_eq!(get_query(&schema(), &other), Err(Error::UnsupportedExpression));
}

#[test]
fn from_clause_shapes() {
    let none = query(select(vec![ident("u_id")], vec![], None));
    assert_eq!(get_query(&schema(), &none), Err(Error::UnsupportedStatement));
    let mut two = from("package", &[]);
    two.extend(from("user", &[]));
    let two = query(select(vec![ident("u_id")], two, None));
    assert_eq!(get_query(&schema(), &two), Err(Error::UnsupportedStatement));
    let derived = query(select(
        vec![ident("u_id")],
        vec![TableWithJoins { relation: TableFactor::Other, joins: vec![] }],
        None,
    ));
    assert_eq!(get_query(&schema(), &derived), Err(Error::UnsupportedStatement));
    let derived_join = query(select(
        vec![ident("u_id")],
        vec![TableWithJoins {
            relation: TableFactor::Table(s("package")),
            joins: vec![TableFactor::Other],
        }],
        None,
    ));
    assert_eq!(get_query(&schema(), &derived_join), Err(Error::UnsupportedStatement));
}

#[test]
fn joined_tables_are_searched_before_the_primary() {
    // `size_id` is Integer in package and Real in blobs.
    let q = query(select(vec![ident("size_id"), ident("u_id")], from("package", &["blobs"]), None));
    let (_, outs) = get_query(&schema(), &q).unwrap();
    assert_eq!(outs, vec![DataType::Real, DataType::Text]);
    let q = query(select(vec![ident("size_id")], from("blobs", &["package"]), None));
    let (_, outs) = get_query(&schema(), &q).unwrap();
    assert_eq!(outs, vec![DataType::Integer]);
}

#[test]
fn join_query_with_qualified_names() {
    let q = query(select(
        vec![qualified("package", "u_id"), ident("size_id"), ident("user_id")],
        from("package", &["recipient_package"]),
        Some(binop(ident("user_id"), Expr::Placeholder)),
    ));
    let (ins, outs) = get_query(&schema(), &q).unwrap();
    assert_eq!(ins, vec![DataType::Integer]);
    assert_eq!(outs, vec![DataType::Text, DataType::Integer, DataType::Integer]);
}

#[test]
fn qualified_names_ignore_the_scope() {
    let q = query(select(vec![qualified("user", "nickname")], from("package", &[]), None));
    let (_, outs) = get_query(&schema(), &q).unwrap();
    assert_eq!(outs, vec![DataType::Text]);
    let q = query(select(vec![qualified("ghost", "nickname")], from("package", &[]), None));
    assert_eq!(get_query(&schema(), &q), Err(Error::UnknownTable));
    let q = query(select(vec![qualified("user", "age")], from("package", &[]), None));
    assert_eq!(get_query(&schema(), &q), Err(Error::UnknownColumn));
    let three = Expr::CompoundIdentifier(vec![s("main"), s("user"), s("id")]);
    let q = query(select(vec![three], from("package", &[]), None));
    assert_eq!(get_query(&schema(), &q), Err(Error::UnsupportedExpression));
}

#[test]
fn unknown_names_in_select() {
    let q = query(select(vec![ident("weight")], from("package", &[]), None));
    assert_eq!(get_query(&schema(), &q), Err(Error::UnknownColumn));
    let q = query(select(vec![ident("u_id")], from("parcel", &[]), None));
    assert_eq!(get_query(&schema(), &q), Err(Error::UnknownTable));
}

#[test]
fn binary_operations_are_integer_and_collect_nested_inputs() {
    let sc = Scope::Named(s("package"));
    let both = binop(Expr::Placeholder, Expr::Placeholder);
    assert_eq!(
        infer_expr(&both, &sc, &schema()),
        Ok((vec![DataType::Null, DataType::Null], DataType::Integer))
    );
    let nested = binop(
        binop(ident("sender"), Expr::Placeholder),
        binop(Expr::Placeholder, ident("size_id")),
    );
    assert_eq!(
        infer_expr(&nested, &sc, &schema()),
        Ok((vec![DataType::Text, DataType::Integer], DataType::Integer))
    );
    let text_cmp = binop(ident("u_id"), ident("sender"));
    assert_eq!(infer_expr(&text_cmp, &sc, &schema()), Ok((vec![], DataType::Integer)));
    assert_eq!(infer_expr(&Expr::Placeholder, &sc, &schema()), Ok((vec![], DataType::Null)));
}

#[test]
fn resolve_in_named_and_relational_scopes() {
    let sch = schema();
    assert_eq!(resolve(&s("sender"), &Scope::Named(s("package")), &sch), Ok(DataType::Text));
    assert_eq!(resolve(&s("id"), &Scope::Named(s("package")), &sch), Err(Error::UnknownColumn));
    assert_eq!(resolve(&s("id"), &Scope::Named(s("nowhere")), &sch), Err(Error::UnknownTable));
    let rel = Scope::Relational { primary: s("package"), joined: vec![s("blobs"), s("user")] };
    assert_eq!(resolve(&s("size_id"), &rel, &sch), Ok(DataType::Real));
    assert_eq!(resolve(&s("id"), &rel, &sch), Ok(DataType::Integer));
    assert_eq!(resolve(&s("sender"), &rel, &sch), Ok(DataType::Text));
    assert_eq!(resolve(&s("weight"), &rel, &sch), Err(Error::UnknownColumn));
    let missing = Scope::Relational { primary: s("package"), joined: vec![s("nowhere")] };
    assert_eq!(resolve(&s("sender"), &missing, &sch), Err(Error::UnknownTable));
}

#[test]
fn placeholder_detection() {
    assert!(is_placeholder(&Expr::Placeholder));
    assert!(!is_placeholder(&Expr::Literal));
    assert!(!is_placeholder(&ident("u_id")));
}

#[test]
fn column_types_map_to_storage_classes() {
    assert_eq!(to_datatype(SqlType::Blob), Ok(DataType::Blob));
    assert_eq!(to_datatype(SqlType::Integer), Ok(DataType::Integer));
    assert_eq!(to_datatype(SqlType::Real), Ok(DataType::Real));
    assert_eq!(to_datatype(SqlType::Text), Ok(DataType::Text));
    assert_eq!(to_datatype(SqlType::Other), Err(Error::UnsupportedColumnType));
}

fn columns_of(sch: &Schema, t: &str) -> Option<Vec<(String, DataType)>> {
    sch.table_columns(&s(t))
        .map(|cs| cs.iter().map(|c| (c.name.clone(), c.data_type)).collect())
}

#[test]
fn schema_keeps_column_order_and_skips_other_statements() {
    let stmts = vec![Statement::Other, package_table(), Statement::Query(Query::Other)];
    let sch = get_definition(&stmts).unwrap();
    assert_eq!(
        columns_of(&sch, "package"),
        Some(vec![
            (s("u_id"), DataType::Text),
            (s("sender"), DataType::Text),
            (s("destination_id"), DataType::Text),
            (s("size_id"), DataType::Integer),
        ])
    );
    assert_eq!(columns_of(&sch, "user"), None);
    assert_eq!(sch.lookup(&s("package"), &s("size_id")), Ok(DataType::Integer));
    assert_eq!(sch.lookup(&s("package"), &s("weight")), Err(Error::UnknownColumn));
    assert_eq!(sch.lookup(&s("user"), &s("id")), Err(Error::UnknownTable));
}

#[test]
fn schema_redefinition_replaces_columns() {
    let stmts = vec![
        package_table(),
        create("package", vec![col("weight", SqlType::Real), col("u_id", SqlType::Blob)]),
    ];
    let sch = get_definition(&stmts).unwrap();
    assert_eq!(
        columns_of(&sch, "package"),
        Some(vec![(s("weight"), DataType::Real), (s("u_id"), DataType::Blob)])
    );
    assert_eq!(sch.lookup(&s("package"), &s("sender")), Err(Error::UnknownColumn));
}

#[test]
fn schema_is_idempotent() {
    let once = vec![package_table(), create("user", vec![col("id", SqlType::Integer)])];
    let twice = vec![
        package_table(),
        create("user", vec![col("id", SqlType::Integer)]),
        package_table(),
        create("user", vec![col("id", SqlType::Integer)]),
    ];
    let a = get_definition(&once).unwrap();
    let b = get_definition(&twice).unwrap();
    let c = get_definition(&once).unwrap();
    for t in ["package", "user", "size"] {
        assert_eq!(columns_of(&a, t), columns_of(&b, t));
        assert_eq!(columns_of(&a, t), columns_of(&c, t));
    }
}

#[test]
fn schema_rejects_unsupported_column_types() {
    let stmts = vec![
        package_table(),
        create("odd", vec![col("id", SqlType::Integer), col("when", SqlType::Other)]),
    ];
    assert_eq!(get_definition(&stmts).err(), Some(Error::UnsupportedColumnType));
}

#[test]
fn insert_checks_table_and_columns_whatever_the_values() {
    let empty = get_definition(&vec![]).unwrap();
    let q = insert("nosuch", &["a"], vec![binop(Expr::Placeholder, Expr::Placeholder)]);
    assert_eq!(get_query(&empty, &q), Err(Error::UnknownTable));
    let q = insert("package", &["weight"], vec![binop(Expr::Placeholder, Expr::Placeholder)]);
    assert_eq!(get_query(&schema(), &q), Err(Error::UnknownColumn));
    let q = insert("nosuch", &[], vec![]);
    assert_eq!(get_query(&schema(), &q), Err(Error::UnknownTable));
    let q = insert("package", &["u_id"], vec![binop(Expr::Placeholder, Expr::Placeholder)]);
    assert_eq!(
        get_query(&schema(), &q),
        Ok((vec![DataType::Null, DataType::Null], vec![]))
    );
}

#[test]
fn insert_needs_one_value_per_column() {
    let q = insert("package", &[], vec![Expr::Placeholder, Expr::Placeholder]);
    assert_eq!(get_query(&schema(), &q), Err(Error::UnsupportedStatement));
    let q = insert("package", &["u_id", "sender"], vec![Expr::Placeholder]);
    assert_eq!(get_query(&schema(), &q), Err(Error::UnsupportedStatement));
    let q = Statement::Insert {
        table_name: s("package"),
        columns: vec![s("u_id")],
        source: Query::Values(vec![]),
    };
    assert_eq!(get_query(&schema(), &q), Err(Error::UnsupportedStatement));
}

#[test]
fn subquery_among_columns_puts_its_inputs_first() {
    let sub = select(
        vec![ident("nickname")],
        from("user", &[]),
        Some(binop(ident("id"), Expr::Placeholder)),
    );
    let q = query(select(
        vec![ident("u_id"), Expr::Subquery(Box::new(Query::Select(sub))), ident("size_id")],
        from("package", &[]),
        Some(binop(Expr::Placeholder, ident("sender"))),
    ));
    let (ins, outs) = get_query(&schema(), &q).unwrap();
    assert_eq!(ins, vec![DataType::Integer, DataType::Text]);
    assert_eq!(outs, vec![DataType::Text, DataType::Text, DataType::Integer]);
}

#[test]
fn redefinition_followed_by_other_statements() {
    let stmts = vec![
        package_table(),
        create("package", vec![col("weight", SqlType::Real), col("u_id", SqlType::Blob)]),
        create("user", vec![col("id", SqlType::Integer)]),
        Statement::Other,
    ];
    let sch = get_definition(&stmts).unwrap();
    assert_eq!(
        columns_of(&sch, "package"),
        Some(vec![(s("weight"), DataType::Real), (s("u_id"), DataType::Blob)])
    );
    assert_eq!(columns_of(&sch, "user"), Some(vec![(s("id"), DataType::Integer)]));
}
