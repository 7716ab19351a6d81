//! Column handles: composing expressions and decoding their results.

use advent_of_wasm::query::TableSchema;
use advent_of_wasm::{AliasGen, MyAlias, QueryRef, Row};
use rusqlite::Connection;

#[test]
fn aliases_are_fresh_and_increasing() {
    let mut g = AliasGen::new();
    let a = MyAlias::new(&mut g);
    let b = MyAlias::new(&mut g);
    let c = MyAlias::new(&mut g);
    assert!(a.id < b.id && b.id < c.id);
}

#[test]
fn composed_expressions_evaluate() {
    let conn = Connection::open_in_memory().unwrap();
    conn.execute_batch(
        "CREATE TABLE t (x INTEGER, y INTEGER);
         INSERT INTO t VALUES (1, 1), (1, 2), (2, 5);",
    )
    .unwrap();
    let schema = TableSchema {
        name: "t".to_owned(),
        columns: vec!["x".to_owned(), "y".to_owned()],
    };
    let mut g = AliasGen::new();
    let mut q = QueryRef::new(&mut g);
    let row = q.join_table(&mut g, &schema);
    let x = row.get(0);
    let y = row.get(1);
    let differ = x.eq(&y).not();
    q.filter(&differ);
    let sum = x.add(&y);
    let small = x.lt(2);
    let c = q.reify(Row { vals: vec![sum, small] });
    let mut stmt = conn.prepare(&c.sql).unwrap();
    let mut rows: Vec<(i64, i64)> = stmt
        .query_map(rusqlite::params_from_iter(c.params.iter()), |r| {
            Ok((r.get(0).unwrap(), r.get(1).unwrap()))
        })
        .unwrap()
        .map(|r| r.unwrap())
        .collect();
    rows.sort();
    // rows with x = y are filtered out; x + y and the truth of x < 2 remain
    assert_eq!(rows, vec![(3, 1), (7, 0)]);
}
