use budget_chat::means::{self, InsertInput, Message, QueryInput};

fn be(v: i32) -> [u8; 4] {
    v.to_be_bytes()
}

fn msg(tag: u8, a: i32, b: i32) -> [u8; 9] {
    let x = be(a);
    let y = be(b);
    [tag, x[0], x[1], x[2], x[3], y[0], y[1], y[2], y[3]]
}

#[test]
fn parse_insert() {
    let m = means::parse_message(&msg(b'I', 12345, 101)).expect("an I message parses");
    match m {
        Message::Insert(inp) => {
            assert_eq!(inp.timestamp, 12345);
            assert_eq!(inp.price, 101);
        }
        _ => panic!("expected an insert"),
    }
}

#[test]
fn parse_query_negative_bounds() {
    let m = means::parse_message(&msg(b'Q', -5, i32::MAX)).expect("a Q message parses");
    match m {
        Message::Query(q) => {
            assert_eq!(q.min_time, -5);
            assert_eq!(q.max_time, i32::MAX);
        }
        _ => panic!("expected a query"),
    }
}

#[test]
fn parse_unknown_tag() {
    assert!(means::parse_message(&msg(b'X', 0, 0)).is_err());
    assert!(means::parse_message(&msg(0, 0, 0)).is_err());
}

#[test]
fn query_means() {
    let mut db: means::Db = Vec::new();
    means::insert(&mut db, InsertInput { timestamp: 10, price: 100 });
    means::insert(&mut db, InsertInput { timestamp: 20, price: 101 });
    means::insert(&mut db, InsertInput { timestamp: 30, price: 5 });
    let out = means::query(&db, QueryInput { min_time: 5, max_time: 25 });
    assert_eq!(out.mean, 100);
    let out = means::query(&db, QueryInput { min_time: 0, max_time: 100 });
    assert_eq!(out.mean, 68);
}

#[test]
fn query_empty_window_is_zero() {
    let mut db: means::Db = Vec::new();
    means::insert(&mut db, InsertInput { timestamp: 10, price: 100 });
    let out = means::query(&db, QueryInput { min_time: 11, max_time: 20 });
    assert_eq!(out.mean, 0);
    let out = means::query(&db, QueryInput { min_time: 20, max_time: 11 });
    assert_eq!(out.mean, 0);
    let out = means::query(&Vec::new(), QueryInput { min_time: i32::MIN, max_time: i32::MAX });
    assert_eq!(out.mean, 0);
}

#[test]
fn query_negative_mean_rounds_toward_zero() {
    let mut db: means::Db = Vec::new();
    means::insert(&mut db, InsertInput { timestamp: 1, price: 3 });
    means::insert(&mut db, InsertInput { timestamp: 2, price: -4 });
    let out = means::query(&db, QueryInput { min_time: 0, max_time: 10 });
    assert_eq!(out.mean, 0);
    means::insert(&mut db, InsertInput { timestamp: 3, price: -4 });
    let out = means::query(&db, QueryInput { min_time: 0, max_time: 10 });
    assert_eq!(out.mean, -1);
}

#[test]
fn query_extreme_prices() {
    let mut db: means::Db = Vec::new();
    means::insert(&mut db, InsertInput { timestamp: 1, price: i32::MIN });
    means::insert(&mut db, InsertInput { timestamp: 2, price: i32::MIN });
    let out = means::query(&db, QueryInput { min_time: 0, max_time: 10 });
    assert_eq!(out.mean, i32::MIN);
    means::insert(&mut db, InsertInput { timestamp: 3, price: i32::MAX });
    let out = means::query(&db, QueryInput { min_time: 3, max_time: 3 });
    assert_eq!(out.mean, i32::MAX);
}

#[test]
fn step_runs_a_connection() {
    let mut db: means::Db = Vec::new();
    assert_eq!(means::step(&mut db, &msg(b'I', 10, 7)), Ok(None));
    assert_eq!(means::step(&mut db, &msg(b'I', 20, -10)), Ok(None));
    let out = means::step(&mut db, &msg(b'Q', 0, 30)).expect("a query succeeds");
    assert_eq!(out, Some((-1i32).to_be_bytes()));
    let out = means::step(&mut db, &msg(b'Q', 10, 10)).expect("a query succeeds");
    assert_eq!(out, Some(7i32.to_be_bytes()));
    assert!(means::step(&mut db, &msg(b'Z', 0, 0)).is_err());
    assert_eq!(db.len(), 2);
}
