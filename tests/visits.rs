use std::collections::BTreeMap;
use visit_stats::cell::Cell;
use visit_stats::page::{add_user_statement, error_body, locate_text, render_page};
use visit_stats::visit::{Action, Statement, StatementKind, Visit, VisitRecorder};

/// A stand-in for the store: applies each change atomically, as the SQL asks.
#[derive(Default)]
struct Tables {
    counter: BTreeMap<(String, String), i64>,
    coordinates: BTreeMap<(String, String), String>,
}

fn text_param(c: &Cell) -> String {
    match c {
        Cell::Text(t) => t.clone(),
        _ => panic!("expected a text parameter"),
    }
}

fn real_param(c: &Cell) -> String {
    match c {
        Cell::Real(t) => t.clone(),
        _ => panic!("expected a real parameter"),
    }
}

impl Tables {
    fn run(&mut self, s: &Statement) {
        let p = s.params();
        match s.sql() {
            "INSERT OR IGNORE INTO counter VALUES (?, ?, 0)" => {
                self.counter.entry((text_param(&p[0]), text_param(&p[1]))).or_insert(0);
            }
            "UPDATE counter SET value = value + 1 WHERE country = ? AND city = ?" => {
                if let Some(v) = self.counter.get_mut(&(text_param(&p[0]), text_param(&p[1]))) {
                    *v += 1;
                }
            }
            "INSERT OR IGNORE INTO coordinates VALUES (?, ?, ?)" => {
                self.coordinates
                    .entry((real_param(&p[0]), real_param(&p[1])))
                    .or_insert(text_param(&p[2]));
            }
            _ => assert!(s.sql().contains("CREATE TABLE IF NOT EXISTS")),
        }
    }
}

fn visit(airport: &str, country: &str, city: &str, coordinates: (f32, f32)) -> Visit {
    Visit {
        airport: airport.to_string(),
        country: country.to_string(),
        city: city.to_string(),
        lat: coordinates.0.to_string(),
        long: coordinates.1.to_string(),
    }
}

fn record(tables: &mut Tables, v: Visit) {
    let mut rec = VisitRecorder::new(v);
    loop {
        match rec.next_action() {
            Action::Run(s) => {
                tables.run(&s);
                rec.report(Ok(()));
            }
            Action::Done => break,
            Action::Fail(e) => panic!("{}", e),
        }
    }
}

#[test]
fn test_counter_updated() {
    let mut db = Tables::default();
    let payloads = [
        ("waw", "PL", "Warsaw", (52.1672, 20.9679)),
        ("waw", "PL", "Warsaw", (52.1672, 20.9679)),
        ("waw", "PL", "Warsaw", (52.1672, 20.9679)),
        ("hel", "FI", "Helsinki", (60.3183, 24.9497)),
        ("hel", "FI", "Helsinki", (60.3183, 24.9497)),
    ];
    for p in payloads {
        record(&mut db, visit(p.0, p.1, p.2, p.3));
    }
    assert_eq!(db.counter.len(), 2);
    for ((_, city), value) in &db.counter {
        match city.as_str() {
            "Warsaw" => assert_eq!(*value, 3),
            "Helsinki" => assert_eq!(*value, 2),
            other => panic!("Unknown city: {:?}", other),
        }
    }
    assert_eq!(db.coordinates.len(), 2);
}

#[test]
fn recorder_sends_the_plan_in_order() {
    let mut rec = VisitRecorder::new(visit("waw", "PL", "Warsaw", (52.1672, 20.9679)));
    let mut kinds = Vec::new();
    let mut sqls = Vec::new();
    while let Action::Run(s) = rec.next_action() {
        kinds.push(s.kind());
        sqls.push(s.sql());
        if let Statement::SeedCoordinate { lat, long, airport } = &s {
            assert_eq!(lat, "52.1672");
            assert_eq!(long, "20.9679");
            assert_eq!(airport, "waw");
        }
        rec.report(Ok(()));
    }
    assert_eq!(rec.completed, 4);
    assert_eq!(
        kinds,
        vec![StatementKind::Batch, StatementKind::Change, StatementKind::Change, StatementKind::Change]
    );
    assert!(sqls[0].contains("CREATE TABLE IF NOT EXISTS counter"));
    assert_eq!(sqls[1], "INSERT OR IGNORE INTO counter VALUES (?, ?, 0)");
    assert_eq!(sqls[2], "UPDATE counter SET value = value + 1 WHERE country = ? AND city = ?");
    assert_eq!(sqls[3], "INSERT OR IGNORE INTO coordinates VALUES (?, ?, ?)");
}

#[test]
fn recorder_stops_at_first_failure() {
    let mut rec = VisitRecorder::new(visit("waw", "PL", "Warsaw", (1.0, 2.0)));
    assert!(matches!(rec.next_action(), Action::Run(Statement::CreateTables)));
    rec.report(Ok(()));
    assert!(matches!(rec.next_action(), Action::Run(Statement::SeedCounter { .. })));
    rec.report(Err("disk I/O error".to_string()));
    match rec.next_action() {
        Action::Fail(e) => assert_eq!(e, "disk I/O error"),
        _ => panic!("expected the failure"),
    }
    assert_eq!(rec.completed, 1);
}

#[test]
fn seeding_twice_keeps_one_row() {
    let mut db = Tables::default();
    let seed = Statement::SeedCounter { country: "PL".to_string(), city: "Warsaw".to_string() };
    let inc = Statement::IncrementCounter { country: "PL".to_string(), city: "Warsaw".to_string() };
    db.run(&seed);
    db.run(&inc);
    db.run(&seed);
    assert_eq!(db.counter.len(), 1);
    assert_eq!(db.counter[&("PL".to_string(), "Warsaw".to_string())], 1);
}

#[test]
fn interleaved_recordings_lose_no_increment() {
    let mut db = Tables::default();
    let v = visit("waw", "PL", "Warsaw", (52.1672, 20.9679));
    let seed = Statement::SeedCounter { country: v.country.clone(), city: v.city.clone() };
    let inc = Statement::IncrementCounter { country: v.country.clone(), city: v.city.clone() };
    // three recordings: all seeds first, then all increments
    for _ in 0..3 {
        db.run(&seed);
    }
    for _ in 0..3 {
        db.run(&inc);
    }
    assert_eq!(db.counter.len(), 1);
    assert_eq!(db.counter[&("PL".to_string(), "Warsaw".to_string())], 3);
}

#[test]
fn same_coordinate_keeps_first_label() {
    let mut db = Tables::default();
    record(&mut db, visit("waw", "PL", "Warsaw", (52.1672, 20.9679)));
    record(&mut db, visit("wmi", "PL", "Warsaw", (52.1672, 20.9679)));
    assert_eq!(db.coordinates.len(), 1);
    assert_eq!(db.coordinates.values().next().unwrap(), "waw");
}

#[test]
fn statement_params_follow_placeholders() {
    let s = Statement::SeedCoordinate {
        lat: "60.3183".to_string(),
        long: "24.9497".to_string(),
        airport: "hel".to_string(),
    };
    let p = s.params();
    assert_eq!(p.len(), 3);
    assert_eq!(real_param(&p[0]), "60.3183");
    assert_eq!(real_param(&p[1]), "24.9497");
    assert_eq!(text_param(&p[2]), "hel");
    assert_eq!(Statement::ReadCounter.sql(), "SELECT * FROM counter");
    assert_eq!(Statement::ReadCoordinates.sql(), "SELECT airport, lat, long FROM coordinates");
    assert_eq!(Statement::ReadCounter.kind(), StatementKind::Query);
    assert!(Statement::ListUsers.params().is_empty());
}

#[test]
fn add_user_without_email_is_rejected() {
    let q = vec![("name".to_string(), "x".to_string())];
    match add_user_statement(&q) {
        Err(r) => {
            assert_eq!(r.status, 400);
            assert_eq!(r.message, "No email");
        }
        Ok(_) => panic!("expected a rejection"),
    }
    assert!(add_user_statement(&vec![]).is_err());
}

#[test]
fn add_user_takes_last_email() {
    let q = vec![
        ("email".to_string(), "a@x.io".to_string()),
        ("other".to_string(), "1".to_string()),
        ("email".to_string(), "b@x.io".to_string()),
    ];
    match add_user_statement(&q) {
        Ok(Statement::AddUser { email }) => assert_eq!(email, "b@x.io"),
        _ => panic!("expected an insert"),
    }
    let s = add_user_statement(&q).ok().unwrap();
    assert_eq!(s.sql(), "insert into example_users values (?)");
    assert_eq!(text_param(&s.params()[0]), "b@x.io");
}

#[test]
fn page_and_error_bodies() {
    let page = render_page("CANVAS", "TABLE");
    assert!(page.starts_with("\n        <body>\n        CANVAS Database powered by"));
    assert!(page.contains("<br /> Scoreboard: <br /> TABLE\n        <footer>"));
    assert!(page.ends_with("</body>\n        "));
    assert_eq!(error_body("boom"), "Error: boom");
}

#[test]
fn locate_joins_fields() {
    assert_eq!(locate_text("waw", "PL", "Warsaw", "52.1672", "20.9679"), "waw;PL;Warsaw;52.1672;20.9679");
    assert_eq!(locate_text("", "", "", "0", "0"), ";;;0;0");
}
