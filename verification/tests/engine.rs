//! The compiled SQL against a real SQL engine: validity, push-down and
//! containment semantics, the bench-queue scenario, and the rank
//! boundary.

use advent_of_wasm::queries::{
    bench_instances, bench_queue, sol_prob, Problem, Solution,
};
use advent_of_wasm::{AliasGen, CompiledSelect, MyAlias, QueryRef, Row, SubQuery};
use rusqlite::Connection;

fn setup(conn: &Connection) {
    conn.execute_batch(
        "CREATE TABLE instance (id INTEGER, timestamp INTEGER, problem INTEGER, seed INTEGER);
         CREATE TABLE solution (id INTEGER, file_hash INTEGER);
         CREATE TABLE problem (id INTEGER, file_hash INTEGER);
         CREATE TABLE submission (solution INTEGER, problem INTEGER);
         CREATE TABLE execution (solution INTEGER, instance INTEGER);",
    )
    .unwrap();
}

/// The fixture: problems P1 (5 instances, ts 1..5) and P2 (2 instances);
/// solutions S1, S2 for P1; S1 submitted to P1; S1 already executed on
/// the newest P1 instance.
fn fixture(conn: &Connection) {
    conn.execute_batch(
        "INSERT INTO instance VALUES (1, 1, 1, 11), (2, 2, 1, 12), (3, 3, 1, 13),
                                     (4, 4, 1, 14), (5, 5, 1, 15),
                                     (6, 1, 2, 21), (7, 2, 2, 22);
         INSERT INTO problem VALUES (1, 101), (2, 102);
         INSERT INTO solution VALUES (1, 201), (2, 202);
         INSERT INTO submission VALUES (1, 1);
         INSERT INTO execution VALUES (1, 5);",
    )
    .unwrap();
}

fn run(conn: &Connection, c: &CompiledSelect) -> Vec<Vec<i64>> {
    run_sql(conn, &c.sql, &c.params)
}

fn run_sql(conn: &Connection, sql: &str, params: &[i64]) -> Vec<Vec<i64>> {
    let mut stmt = conn.prepare(sql).unwrap();
    let ncols = stmt.column_count();
    let rows = stmt
        .query_map(rusqlite::params_from_iter(params.iter()), |row| {
            let mut out = Vec::new();
            for i in 0..ncols {
                out.push(row.get::<usize, i64>(i).unwrap());
            }
            Ok(out)
        })
        .unwrap();
    rows.map(|r| r.unwrap()).collect()
}

/// The query of recent instances, projecting (problem, seed).
fn recent_instances_query() -> CompiledSelect {
    let mut g = AliasGen::new();
    let mut q = QueryRef::new(&mut g);
    let instance = bench_instances(&mut q, &mut g);
    let out = Row { vals: vec![instance.problem, instance.seed] };
    q.reify(out)
}

/// Submitted (solution, problem) pairs via the containment probe. The
/// allocator can be advanced first, to shift every alias number.
fn submitted_pairs_query(burn: u64) -> CompiledSelect {
    let mut g = AliasGen::new();
    let mut i = 0;
    while i < burn {
        let _ = MyAlias::new(&mut g);
        i += 1;
    }
    let mut q = QueryRef::new(&mut g);
    let solution = Solution::join(&mut q, &mut g);
    let problem = Problem::join(&mut q, &mut g);
    let sub = sol_prob(&mut g);
    let probe = SubQuery::new(sub);
    let tup = Row::pair(solution.id.deep_clone(), problem.id.deep_clone());
    let cond = probe.contains(&tup);
    q.filter(&cond);
    let out = Row { vals: vec![solution.id, problem.id] };
    q.reify(out)
}

fn sorted(mut rows: Vec<Vec<i64>>) -> Vec<Vec<i64>> {
    rows.sort();
    rows
}

#[test]
fn compiled_sql_prepares_without_error() {
    let conn = Connection::open_in_memory().unwrap();
    setup(&conn);
    conn.prepare(&bench_queue().sql).unwrap();
    conn.prepare(&recent_instances_query().sql).unwrap();
    conn.prepare(&submitted_pairs_query(0).sql).unwrap();
}

#[test]
fn bench_queue_scenario() {
    let conn = Connection::open_in_memory().unwrap();
    setup(&conn);
    fixture(&conn);
    let c = bench_queue();
    let rows = sorted(run(&conn, &c));
    // S1 paired with the four not-yet-executed recent P1 instances;
    // S2 and all of P2 excluded
    assert_eq!(
        rows,
        vec![
            vec![11, 201, 101],
            vec![12, 201, 101],
            vec![13, 201, 101],
            vec![14, 201, 101],
        ]
    );
}

#[test]
fn rank_boundary_five_and_six_row_groups() {
    let conn = Connection::open_in_memory().unwrap();
    setup(&conn);
    // problem 1: exactly five instances; problem 2: six
    conn.execute_batch(
        "INSERT INTO instance VALUES (1, 1, 1, 11), (2, 2, 1, 12), (3, 3, 1, 13),
                                     (4, 4, 1, 14), (5, 5, 1, 15),
                                     (6, 1, 2, 21), (7, 2, 2, 22), (8, 3, 2, 23),
                                     (9, 4, 2, 24), (10, 5, 2, 25), (11, 6, 2, 26);",
    )
    .unwrap();
    let rows = sorted(run(&conn, &recent_instances_query()));
    // the five-row group survives whole; the six-row group loses exactly
    // its single oldest row
    assert_eq!(
        rows,
        vec![
            vec![1, 11],
            vec![1, 12],
            vec![1, 13],
            vec![1, 14],
            vec![1, 15],
            vec![2, 22],
            vec![2, 23],
            vec![2, 24],
            vec![2, 25],
            vec![2, 26],
        ]
    );
}

#[test]
fn rank_with_tied_timestamps_still_keeps_five() {
    let conn = Connection::open_in_memory().unwrap();
    setup(&conn);
    // six instances of one problem, two of them sharing a timestamp:
    // which of the tied rows ranks higher is the engine's choice, but
    // exactly five survive either way
    conn.execute_batch(
        "INSERT INTO instance VALUES (1, 1, 1, 11), (2, 2, 1, 12), (3, 3, 1, 13),
                                     (4, 3, 1, 14), (5, 4, 1, 15), (6, 5, 1, 16);",
    )
    .unwrap();
    let rows = run(&conn, &recent_instances_query());
    assert_eq!(rows.len(), 5);
}

#[test]
fn push_down_matches_hand_written_nesting() {
    let conn = Connection::open_in_memory().unwrap();
    setup(&conn);
    fixture(&conn);
    let ours = sorted(run(&conn, &recent_instances_query()));
    let by_hand = sorted(run_sql(
        &conn,
        "SELECT problem, seed FROM (
             SELECT i.*, (ROW_NUMBER() OVER (PARTITION BY problem ORDER BY timestamp DESC) - 1)
                 AS rk FROM instance i
         ) WHERE rk < 5 ORDER BY timestamp ASC",
        &[],
    ));
    assert_eq!(ours, by_hand);
}

#[test]
fn containment_matches_hand_written_exists() {
    let conn = Connection::open_in_memory().unwrap();
    setup(&conn);
    fixture(&conn);
    let ours = sorted(run(&conn, &submitted_pairs_query(0)));
    let by_hand = sorted(run_sql(
        &conn,
        "SELECT s.id, p.id FROM solution s, problem p
         WHERE EXISTS (SELECT 1 FROM submission b
                       WHERE b.solution = s.id AND b.problem = p.id)",
        &[],
    ));
    assert_eq!(ours, by_hand);
    // positive and negative membership on the fixture
    assert_eq!(ours, vec![vec![1, 1]]);
}

#[test]
fn recompiling_is_idempotent() {
    let a = bench_queue();
    let b = bench_queue();
    assert_eq!(a.sql, b.sql);
    assert_eq!(a.params, b.params);
    assert_eq!(a.width, b.width);
}

#[test]
fn alias_numbering_is_immaterial_to_results() {
    let conn = Connection::open_in_memory().unwrap();
    setup(&conn);
    fixture(&conn);
    let plain = submitted_pairs_query(0);
    let shifted = submitted_pairs_query(17);
    // different synthetic identifiers, logically equivalent SQL
    assert_ne!(plain.sql, shifted.sql);
    assert_eq!(sorted(run(&conn, &plain)), sorted(run(&conn, &shifted)));
}
