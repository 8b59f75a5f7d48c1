use diesel::expression::{Expr, TextExpressionMethods, TypeError, Value};
use diesel::query::{LockStrength, LockingClause, SelectStatement, WaitPolicy};
use diesel::render::{quote_identifier, render_expr, render_locking, render_select, Backend, GenerationError};
use diesel::sql_types::{BaseType, SqlType};
use diesel::table::{ExecError, Table};

fn text(s: &str) -> Value {
    Value::Text(s.to_string())
}

fn id_col() -> Expr {
    Expr::column(0, "id".to_string(), SqlType::not_null(BaseType::Integer))
}

fn name_col() -> Expr {
    Expr::column(1, "name".to_string(), SqlType::not_null(BaseType::Text))
}

fn hair_color_col() -> Expr {
    Expr::column(2, "hair_color".to_string(), SqlType::nullable(BaseType::Text))
}

/// The users table, with one row per name and no hair color.
fn users_with(names: &[&str]) -> Table {
    let mut t = Table::new();
    for (i, n) in names.iter().enumerate() {
        t.insert(vec![Value::Int(i as i64 + 1), text(n), Value::Null]);
    }
    t
}

fn new_user(name: &str, hair_color: Option<&str>) -> Vec<Value> {
    vec![text(name), hair_color.map(text).unwrap_or(Value::Null)]
}

fn name_is(n: &str) -> Expr {
    name_col().eq(Expr::text(n.to_string())).unwrap()
}

#[test]
fn selecting_basic_data() {
    let mut users = users_with(&["Sean", "Tess"]);
    let expected_data = vec![vec![text("Sean"), Value::Null], vec![text("Tess"), Value::Null]];
    let stmt = SelectStatement::all().select(vec![name_col(), hair_color_col()]);
    let actual_data = users.load(&stmt, 1).unwrap();
    assert_eq!(expected_data, actual_data);
}

#[test]
fn selecting_a_struct() {
    let mut users = users_with(&["Sean", "Tess"]);
    let expected_users = vec![new_user("Sean", None), new_user("Tess", None)];
    let stmt = SelectStatement::all().select(vec![name_col(), hair_color_col()]);
    let actual_users = users.load(&stmt, 1).unwrap();
    assert_eq!(expected_users, actual_users);
}

#[test]
fn with_safe_select() {
    let mut users = users_with(&["Sean", "Tess"]);
    let select_name = SelectStatement::all().select(vec![name_col()]);
    let names = users.load(&select_name, 1).unwrap();
    assert_eq!(vec![vec![text("Sean")], vec![text("Tess")]], names);
}

#[test]
fn selecting_nullable_followed_by_non_null() {
    let mut users = users_with(&["Sean"]);
    let source = SelectStatement::all().select(vec![hair_color_col(), name_col()]);
    let expected_data = vec![vec![Value::Null, text("Sean")]];
    let data = users.load(&source, 1).unwrap();
    assert_eq!(expected_data, data);
}

#[test]
fn selecting_expression_with_bind_param() {
    let mut users = users_with(&["Sean", "Tess"]);
    let source = SelectStatement::all().select(vec![name_is("Sean")]);
    let expected_data = vec![vec![Value::Bool(true)], vec![Value::Bool(false)]];
    let actual_data = users.load(&source, 1).unwrap();
    assert_eq!(expected_data, actual_data);
}

#[test]
fn selecting_columns_and_tables_with_reserved_names() {
    assert_eq!(quote_identifier("select", '"'), "\"select\"");
    assert_eq!(quote_identifier("join", '"'), "\"join\"");
    let mut select = Table::new();
    for j in 1..=3 {
        select.insert(vec![Value::Int(j), Value::Int(j)]);
    }
    let expected_data = vec![
        vec![Value::Int(1), Value::Int(1)],
        vec![Value::Int(2), Value::Int(2)],
        vec![Value::Int(3), Value::Int(3)],
    ];
    let actual_data = select.load(&SelectStatement::all(), 1).unwrap();
    assert_eq!(expected_data, actual_data);

    let join = Expr::column(1, "join".to_string(), SqlType::not_null(BaseType::Integer));
    let expected_data = vec![vec![Value::Int(1)], vec![Value::Int(2)], vec![Value::Int(3)]];
    let actual_data = select.load(&SelectStatement::all().select(vec![join]), 1).unwrap();
    assert_eq!(expected_data, actual_data);
}

#[test]
fn select_for_update_modifiers() {
    let mut users = users_with(&["Sean", "Tess"]);
    let (conn_1, conn_2, conn_3) = (1, 2, 3);

    // Lock the "Sean" row
    let sean = users.first(&SelectStatement::all().for_update(), conn_1).unwrap();
    assert_eq!(sean[1], text("Sean"));

    // NOWAIT fails at once
    let result = users.first(&SelectStatement::all().for_update().no_wait(), conn_2);
    assert!(result.is_err());
    assert_eq!(result, Err(ExecError::LockNotObtainable));

    // SKIP LOCKED passes over "Sean"
    let tess = users.first(&SelectStatement::all().for_update().skip_locked(), conn_3).unwrap();
    assert_eq!(tess[1], text("Tess"));
}

#[test]
fn select_for_no_key_update_modifiers() {
    let mut users = users_with(&["Sean", "Tess", "Will"]);
    let mut users_fk = Table::new();
    let (conn_1, conn_2, conn_3, conn_4) = (1, 2, 3, 4);

    // Lock the "Sean" row, except the key
    let sean = users.first(&SelectStatement::all().for_no_key_update(), conn_1).unwrap();
    assert_eq!(sean[1], text("Sean"));

    // A reference to the "Sean" row goes through
    let referenced = users
        .first(&SelectStatement::all().select(vec![id_col()]).filter(name_is("Sean")).for_key_share(), conn_2)
        .unwrap();
    users_fk.insert(vec![Value::Int(1), referenced[0].clone()]);
    let expected_data = vec![vec![Value::Int(1), Value::Int(1)]];
    assert_eq!(expected_data, users_fk.load(&SelectStatement::all(), conn_2).unwrap());

    let tess = users.first(&SelectStatement::all().for_no_key_update().skip_locked(), conn_3).unwrap();
    assert_eq!(tess[1], text("Tess"));

    // Lock the "Will" row completely
    let will = users.first(&SelectStatement::all().for_update().skip_locked(), conn_4).unwrap();
    assert_eq!(will[1], text("Will"));

    // A reference to the "Will" row now waits
    let result = users.first(&SelectStatement::all().select(vec![id_col()]).filter(name_is("Will")).for_key_share(), conn_2);
    assert!(result.is_err());
    assert_eq!(result, Err(ExecError::Blocked));
}

#[test]
fn selecting_multiple_aggregate_expressions_without_group_by() {
    let mut users = users_with(&["Sean", "Tess"]);
    let row = users
        .first(&SelectStatement::all().select(vec![Expr::count_star(), name_col().max()]), 1)
        .unwrap();
    assert_eq!(Value::Int(2), row[0]);
    assert_eq!(text("Tess"), row[1]);
}

#[test]
fn concat_keeps_nullability_of_operands() {
    let mut users = Table::new();
    users.insert(vec![Value::Int(1), text("Sean"), text("Green")]);
    users.insert(vec![Value::Int(2), text("Tess"), Value::Null]);

    let greatest = name_col().concat(Expr::text(" the Greatest".to_string())).unwrap();
    assert_eq!(greatest.sql_type(), Some(SqlType::not_null(BaseType::Text)));
    let names = users.load(&SelectStatement::all().select(vec![greatest]), 1).unwrap();
    assert_eq!(names, vec![vec![text("Sean the Greatest")], vec![text("Tess the Greatest")]]);

    let ish = hair_color_col().concat(Expr::text("ish".to_string())).unwrap();
    assert_eq!(ish.sql_type(), Some(SqlType::nullable(BaseType::Text)));
    let colors = users.load(&SelectStatement::all().select(vec![ish]), 1).unwrap();
    assert_eq!(colors, vec![vec![text("Greenish")], vec![Value::Null]]);
}

#[test]
fn text_operators_reject_non_text_operands() {
    assert!(matches!(id_col().concat(Expr::text("x".to_string())), Err(TypeError::Mismatch)));
    assert!(matches!(name_col().like(Expr::integer(1)), Err(TypeError::Mismatch)));
    assert!(matches!(id_col().not_like(Expr::text("%".to_string())), Err(TypeError::Mismatch)));
    assert!(matches!(name_col().eq(Expr::integer(1)), Err(TypeError::Mismatch)));
}

#[test]
fn like_and_not_like_split_the_rows() {
    let mut users = users_with(&["Sean", "Tess"]);
    let like = name_col().like(Expr::text("S%".to_string())).unwrap();
    let not_like = name_col().not_like(Expr::text("S%".to_string())).unwrap();
    let starts_with_s = users.load(&SelectStatement::all().select(vec![name_col()]).filter(like), 1).unwrap();
    let other = users.load(&SelectStatement::all().select(vec![name_col()]).filter(not_like), 1).unwrap();
    assert_eq!(starts_with_s, vec![vec![text("Sean")]]);
    assert_eq!(other, vec![vec![text("Tess")]]);
}

#[test]
fn like_patterns() {
    let mut users = users_with(&["Sean", "Tess", "sean"]);
    let count = |users: &mut Table, p: &str| {
        let f = name_col().like(Expr::text(p.to_string())).unwrap();
        users.load(&SelectStatement::all().filter(f), 1).unwrap().len()
    };
    assert_eq!(count(&mut users, "_ess"), 1);
    assert_eq!(count(&mut users, "%e%"), 3);
    assert_eq!(count(&mut users, "S%"), 1);
    assert_eq!(count(&mut users, "%"), 3);
    assert_eq!(count(&mut users, "Se"), 0);
    assert_eq!(count(&mut users, "Sean%n"), 0);
}

#[test]
fn with_select_sql() {
    let mut users = users_with(&["Sean", "Tess"]);
    let select_count = SelectStatement::all().select(vec![Expr::count_star()]);
    assert_eq!(users.first(&select_count, 1), Ok(vec![Value::Int(2)]));
    users.insert(vec![Value::Int(3), text("Jim"), Value::Null]);
    assert_eq!(users.first(&select_count, 1), Ok(vec![Value::Int(3)]));
}

#[test]
fn update_waits_for_lock_holder() {
    let mut users = users_with(&["Sean", "Tess"]);
    users.first(&SelectStatement::all().filter(name_is("Sean")).for_update(), 1).unwrap();

    // The update of "Tess" goes through, the one of "Sean" waits
    assert_eq!(users.update(&Some(name_is("Tess")), 1, &text("Bob"), 3), Ok(1));
    assert_eq!(users.update(&Some(name_is("Sean")), 1, &text("Jim"), 2), Err(ExecError::Blocked));

    // Ending the holder's transaction lets it through
    users.release(1);
    assert_eq!(users.update(&Some(name_is("Sean")), 1, &text("Jim"), 2), Ok(1));
    let names = users.load(&SelectStatement::all().select(vec![name_col()]), 4).unwrap();
    assert_eq!(names, vec![vec![text("Jim")], vec![text("Bob")]]);
}

#[test]
fn first_on_empty_result_is_not_found() {
    let mut users = users_with(&["Sean"]);
    assert_eq!(users.first(&SelectStatement::all().filter(name_is("Tess")), 1), Err(ExecError::NotFound));
    let row = users.first(&SelectStatement::all().select(vec![Expr::count_star(), name_col().max()]).filter(name_is("Tess")), 1);
    assert_eq!(row, Ok(vec![Value::Int(0), Value::Null]));
}

#[test]
fn quoting_doubles_embedded_quotes() {
    assert_eq!(quote_identifier("a\"b", '"'), "\"a\"\"b\"");
    assert_eq!(quote_identifier("", '"'), "\"\"");
    assert_eq!(quote_identifier("a`b", '`'), "`a``b`");
}

#[test]
fn selection_using_subselect() {
    let mut users = users_with(&["Sean", "Tess"]);
    let ids = users.load(&SelectStatement::all().select(vec![id_col()]), 1).unwrap();
    let mut posts = Table::new();
    posts.insert(vec![Value::Int(1), ids[0][0].clone(), text("Hello")]);
    posts.insert(vec![Value::Int(2), ids[1][0].clone(), text("World")]);

    let user_id = Expr::column(1, "user_id".to_string(), SqlType::not_null(BaseType::Integer));
    let title = Expr::column(2, "title".to_string(), SqlType::not_null(BaseType::Text));
    let sean_ids = users
        .single_column(&SelectStatement::all().filter(name_is("Sean")).select(vec![id_col()]), 1)
        .unwrap();
    let data = posts
        .load(&SelectStatement::all().select(vec![title]).filter(user_id.eq_any(sean_ids)), 1)
        .unwrap();
    assert_eq!(vec![vec![text("Hello")]], data);
}

#[test]
fn eq_any_over_empty_list_matches_nothing() {
    let mut users = users_with(&["Sean", "Tess"]);
    let data = users.load(&SelectStatement::all().filter(id_col().eq_any(vec![])), 1).unwrap();
    assert!(data.is_empty());
    let data = users.load(&SelectStatement::all().filter(id_col().eq_any(vec![Value::Int(2), Value::Null])), 1).unwrap();
    assert_eq!(data, vec![vec![Value::Int(2), text("Tess"), Value::Null]]);
}

#[test]
fn locking_clauses_follow_backend_capabilities() {
    let skip = LockingClause { strength: LockStrength::Update, wait: WaitPolicy::SkipLocked };
    let no_key = LockingClause { strength: LockStrength::NoKeyUpdate, wait: WaitPolicy::NoWait };
    let plain = LockingClause { strength: LockStrength::Update, wait: WaitPolicy::Wait };
    assert_eq!(render_locking(Backend::postgres(), skip), Ok(" FOR UPDATE SKIP LOCKED".to_string()));
    assert_eq!(render_locking(Backend::postgres(), no_key), Ok(" FOR NO KEY UPDATE NOWAIT".to_string()));
    assert_eq!(render_locking(Backend::mysql(), plain), Ok(" FOR UPDATE".to_string()));
    assert_eq!(render_locking(Backend::mysql(), no_key), Err(GenerationError::UnsupportedClause));
    assert_eq!(render_locking(Backend::sqlite(), plain), Err(GenerationError::UnsupportedClause));
}

#[test]
fn expressions_render_with_backend_placeholders() {
    let like = name_col().like(Expr::text("S%".to_string())).unwrap();
    let (sql, binds) = render_expr(&like, Backend::postgres());
    assert_eq!(sql, "(\"name\" LIKE $1)");
    assert_eq!(binds, vec![text("S%")]);
    let (sql, _) = render_expr(&like, Backend::mysql());
    assert_eq!(sql, "(`name` LIKE ?)");

    let nested = name_col().concat(Expr::text("x".to_string())).unwrap().eq(Expr::text("y".to_string())).unwrap();
    let (sql, binds) = render_expr(&nested, Backend::postgres());
    assert_eq!(sql, "((\"name\" || $1) = $2)");
    assert_eq!(binds, vec![text("x"), text("y")]);

    let ids: Vec<Value> = (1..=11).map(Value::Int).collect();
    let (sql, binds) = render_expr(&id_col().eq_any(ids.clone()), Backend::postgres());
    assert_eq!(sql, "(\"id\" IN ($1, $2, $3, $4, $5, $6, $7, $8, $9, $10, $11))");
    assert_eq!(binds, ids);

    let (sql, binds) = render_expr(&Expr::count_star(), Backend::sqlite());
    assert_eq!((sql.as_str(), binds.len()), ("COUNT(*)", 0));
    let (sql, _) = render_expr(&name_col().max(), Backend::sqlite());
    assert_eq!(sql, "MAX(\"name\")");
    let (sql, _) = render_expr(&Expr::column(0, "select".to_string(), SqlType::not_null(BaseType::Integer)), Backend::postgres());
    assert_eq!(sql, "\"select\"");
}

#[test]
fn statements_render_in_binding_order() {
    let stmt = SelectStatement::all()
        .select(vec![name_col().concat(Expr::text("!".to_string())).unwrap()])
        .filter(name_col().like(Expr::text("S%".to_string())).unwrap())
        .for_update()
        .skip_locked();
    let (sql, binds) = render_select(&stmt, "users", Backend::postgres()).unwrap();
    assert_eq!(sql, "SELECT (\"name\" || $1) FROM \"users\" WHERE (\"name\" LIKE $2) FOR UPDATE SKIP LOCKED");
    assert_eq!(binds, vec![text("!"), text("S%")]);

    let (sql, binds) = render_select(&SelectStatement::all(), "select", Backend::sqlite()).unwrap();
    assert_eq!(sql, "SELECT * FROM \"select\"");
    assert!(binds.is_empty());

    let two = SelectStatement::all().select(vec![id_col(), name_col()]);
    let (sql, _) = render_select(&two, "users", Backend::mysql()).unwrap();
    assert_eq!(sql, "SELECT `id`, `name` FROM `users`");

    assert!(matches!(render_select(&stmt, "users", Backend::sqlite()), Err(GenerationError::UnsupportedClause)));
}

#[test]
fn filters_combine_with_and() {
    let mut users = users_with(&["Sean", "Tess", "Jim"]);
    let e_inside = name_col().like(Expr::text("%e%".to_string())).unwrap();
    let s_first = name_col().like(Expr::text("S%".to_string())).unwrap();
    let stmt = SelectStatement::all().select(vec![name_col()]).filter(e_inside).filter(s_first);
    assert_eq!(users.load(&stmt, 1).unwrap(), vec![vec![text("Sean")]]);

    let either = name_is("Jim").or(name_is("Tess"));
    let data = users.load(&SelectStatement::all().select(vec![name_col()]).filter(either), 1).unwrap();
    assert_eq!(data, vec![vec![text("Tess")], vec![text("Jim")]]);

    // A null operand of AND does not let a row through
    let null_and_true = hair_color_col().like(Expr::text("%".to_string())).unwrap().and(name_is("Sean"));
    let data = users.load(&SelectStatement::all().filter(null_and_true), 1).unwrap();
    assert!(data.is_empty());
    let (sql, binds) = render_expr(&name_is("Jim").or(name_is("Tess")), Backend::postgres());
    assert_eq!(sql, "((\"name\" = $1) OR (\"name\" = $2))");
    assert_eq!(binds, vec![text("Jim"), text("Tess")]);
}
