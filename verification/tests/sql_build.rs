//! Building and printing the compiled SQL of the example queries.

use advent_of_wasm::queries::bench_instances;
use advent_of_wasm::queries::bench_queue;
use advent_of_wasm::{AliasGen, QueryRef, Row};

#[test]
fn orm_example_print_sql() {
    let mut g = AliasGen::new();
    let mut q = QueryRef::new(&mut g);
    let instance = bench_instances(&mut q, &mut g);
    let row = Row {
        vals: vec![instance.id, instance.timestamp, instance.problem, instance.seed],
    };
    let sub = q.into_sub(row);
    let (sql, params) = sub.print();
    println!("{}", sql);
    assert!(sql.starts_with("SELECT "));
    assert!(sql.contains("ROW_NUMBER() OVER"));
    assert!(sql.contains("\"instance\""));
    // the rank bound is a parameter, never inlined
    assert_eq!(params, vec![5]);
    assert!(sql.contains('?'));
}

#[test]
fn bench_queue_print_sql() {
    let c = bench_queue();
    println!("{}", c.sql);
    assert_eq!(c.width, 3);
    assert!(c.sql.contains(" IN (SELECT "));
    assert!(c.sql.contains("NOT "));
    assert!(c.sql.contains("\"submission\""));
    assert!(c.sql.contains("\"execution\""));
}
