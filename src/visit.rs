use vstd::prelude::*;
use crate::cell::Cell;

verus! {

/// The geolocation facts of one request. Coordinates are held as the canonical
/// decimal text of their floating-point values.
pub struct Visit {
    pub airport: String,
    pub country: String,
    pub city: String,
    pub lat: String,
    pub long: String,
}

/// The fixed statements that this system sends to the store.
pub enum Statement {
    /// Creates both tables if absent, in one atomic batch.
    CreateTables,
    /// Inserts `(country, city, 0)` unless that key exists.
    SeedCounter { country: String, city: String },
    /// Adds one to the counter of `(country, city)`.
    IncrementCounter { country: String, city: String },
    /// Inserts `(lat, long, airport)` unless that coordinate exists.
    SeedCoordinate { lat: String, long: String, airport: String },
    /// Reads the whole counter table.
    ReadCounter,
    /// Reads the coordinates as (airport, lat, long).
    ReadCoordinates,
    /// Reads the user table.
    ListUsers,
    /// Inserts one user.
    AddUser { email: String },
}

/// How a statement is sent: as a script, as a change, or as a query with rows.
#[derive(PartialEq, Eq, Structural, Clone, Copy, Debug)]
pub enum StatementKind {
    Batch,
    Change,
    Query,
}

pub const CREATE_TABLES_SQL: &'static str = r#"
    BEGIN;
        CREATE TABLE IF NOT EXISTS counter(country TEXT, city TEXT, value, PRIMARY KEY(country, city)) WITHOUT ROWID;
        CREATE TABLE IF NOT EXISTS coordinates(lat INT, long INT, airport TEXT, PRIMARY KEY (lat, long));
    END;
    "#;
pub const SEED_COUNTER_SQL: &'static str = "INSERT OR IGNORE INTO counter VALUES (?, ?, 0)";
pub const INCREMENT_COUNTER_SQL: &'static str =
    "UPDATE counter SET value = value + 1 WHERE country = ? AND city = ?";
pub const SEED_COORDINATE_SQL: &'static str = "INSERT OR IGNORE INTO coordinates VALUES (?, ?, ?)";
pub const READ_COUNTER_SQL: &'static str = "SELECT * FROM counter";
pub const READ_COORDINATES_SQL: &'static str = "SELECT airport, lat, long FROM coordinates";
pub const LIST_USERS_SQL: &'static str = "select * from example_users";
pub const ADD_USER_SQL: &'static str = "insert into example_users values (?)";

/// The SQL text of a statement.
pub open spec fn sql_of(s: Statement) -> Seq<char> {
    match s {
        Statement::CreateTables => CREATE_TABLES_SQL@,
        Statement::SeedCounter { .. } => SEED_COUNTER_SQL@,
        Statement::IncrementCounter { .. } => INCREMENT_COUNTER_SQL@,
        Statement::SeedCoordinate { .. } => SEED_COORDINATE_SQL@,
        Statement::ReadCounter => READ_COUNTER_SQL@,
        Statement::ReadCoordinates => READ_COORDINATES_SQL@,
        Statement::ListUsers => LIST_USERS_SQL@,
        Statement::AddUser { .. } => ADD_USER_SQL@,
    }
}

/// How a statement is sent.
pub open spec fn kind_of(s: Statement) -> StatementKind {
    match s {
        Statement::CreateTables => StatementKind::Batch,
        Statement::ReadCounter | Statement::ReadCoordinates | Statement::ListUsers => StatementKind::Query,
        _ => StatementKind::Change,
    }
}

/// `c` is a text parameter holding `t`.
pub open spec fn is_text(c: Cell, t: Seq<char>) -> bool {
    c matches Cell::Text(u) && u@ == t
}

/// `c` is a real parameter written as `t`.
pub open spec fn is_real(c: Cell, t: Seq<char>) -> bool {
    c matches Cell::Real(u) && u@ == t
}

/// The positional parameters of a statement, in order.
pub open spec fn params_match(p: Seq<Cell>, s: Statement) -> bool {
    match s {
        Statement::SeedCounter { country, city } | Statement::IncrementCounter { country, city } =>
            p.len() == 2 && is_text(p[0], country@) && is_text(p[1], city@),
        Statement::SeedCoordinate { lat, long, airport } =>
            p.len() == 3 && is_real(p[0], lat@) && is_real(p[1], long@) && is_text(p[2], airport@),
        Statement::AddUser { email } => p.len() == 1 && is_text(p[0], email@),
        _ => p.len() == 0,
    }
}

impl Statement {
    /// The statement's SQL text.
    pub fn sql(&self) -> (r: &'static str)
        ensures
            r@ == sql_of(*self),
    {
        match self {
            Statement::CreateTables => CREATE_TABLES_SQL,
            Statement::SeedCounter { .. } => SEED_COUNTER_SQL,
            Statement::IncrementCounter { .. } => INCREMENT_COUNTER_SQL,
            Statement::SeedCoordinate { .. } => SEED_COORDINATE_SQL,
            Statement::ReadCounter => READ_COUNTER_SQL,
            Statement::ReadCoordinates => READ_COORDINATES_SQL,
            Statement::ListUsers => LIST_USERS_SQL,
            Statement::AddUser { .. } => ADD_USER_SQL,
        }
    }

    /// How the statement is sent.
    pub fn kind(&self) -> (r: StatementKind)
        ensures
            r == kind_of(*self),
    {
        match self {
            Statement::CreateTables => StatementKind::Batch,
            Statement::ReadCounter | Statement::ReadCoordinates | Statement::ListUsers => StatementKind::Query,
            _ => StatementKind::Change,
        }
    }

    /// The statement's positional parameters.
    pub fn params(&self) -> (r: Vec<Cell>)
        ensures
            params_match(r@, *self),
    {
        match self {
            Statement::SeedCounter { country, city } | Statement::IncrementCounter { country, city } =>
                vec![Cell::Text(country.clone()), Cell::Text(city.clone())],
            Statement::SeedCoordinate { lat, long, airport } =>
                vec![Cell::Real(lat.clone()), Cell::Real(long.clone()), Cell::Text(airport.clone())],
            Statement::AddUser { email } => vec![Cell::Text(email.clone())],
            _ => Vec::new(),
        }
    }
}

/// The statements that record one visit, in order: create the tables, seed the
/// counter, increment it, seed the coordinate.
pub open spec fn visit_plan(v: Visit) -> Seq<Statement> {
    seq![
        Statement::CreateTables,
        Statement::SeedCounter { country: v.country, city: v.city },
        Statement::IncrementCounter { country: v.country, city: v.city },
        Statement::SeedCoordinate { lat: v.lat, long: v.long, airport: v.airport },
    ]
}

/// The number of statements that record one visit.
pub const RECORDING_STEPS: usize = 4;

/// What the recorder asks for next.
pub enum Action {
    /// Send this statement and report its outcome.
    Run(Statement),
    /// Every statement succeeded.
    Done,
    /// A statement failed with this message; nothing more is sent.
    Fail(String),
}

/// Records one visit, one statement at a time: each statement is sent only after
/// the one before it succeeded, and the first failure ends the recording.
pub struct VisitRecorder {
    pub visit: Visit,
    /// How many statements of the plan succeeded.
    pub completed: usize,
    /// The failure that ended the recording, if any.
    pub failure: Option<String>,
}

impl VisitRecorder {
    pub open spec fn wf(&self) -> bool {
        self.completed <= RECORDING_STEPS
    }

    /// A recorder that has sent nothing yet.
    pub fn new(visit: Visit) -> (r: VisitRecorder)
        ensures
            r.wf(),
            r.visit == visit,
            r.completed == 0,
            r.failure is None,
    {
        VisitRecorder { visit, completed: 0, failure: None }
    }

    /// The next step: the failure if one came, else the next statement of the
    /// plan, else done.
    pub fn next_action(&self) -> (a: Action)
        requires
            self.wf(),
        ensures
            match self.failure {
                Some(e) => a matches Action::Fail(m) && m@ == e@,
                None => if self.completed < RECORDING_STEPS {
                    a == Action::Run(visit_plan(self.visit)[self.completed as int])
                } else {
                    a is Done
                },
            },
    {
        match &self.failure {
            Some(e) => Action::Fail(e.clone()),
            None => {
                let v = &self.visit;
                if self.completed == 0 {
                    Action::Run(Statement::CreateTables)
                } else if self.completed == 1 {
                    Action::Run(Statement::SeedCounter { country: v.country.clone(), city: v.city.clone() })
                } else if self.completed == 2 {
                    Action::Run(Statement::IncrementCounter { country: v.country.clone(), city: v.city.clone() })
                } else if self.completed == 3 {
                    Action::Run(Statement::SeedCoordinate {
                        lat: v.lat.clone(),
                        long: v.long.clone(),
                        airport: v.airport.clone(),
                    })
                } else {
                    Action::Done
                }
            },
        }
    }

    /// Takes the outcome of the statement that `next_action` asked for.
    pub fn report(&mut self, outcome: Result<(), String>)
        requires
            old(self).wf(),
            old(self).failure is None,
            old(self).completed < RECORDING_STEPS,
        ensures
            final(self).wf(),
            final(self).visit == old(self).visit,
            outcome is Ok ==> final(self).completed == old(self).completed + 1 && final(self).failure is None,
            outcome matches Err(e) ==> final(self).completed == old(self).completed && final(self).failure == Some(e),
    {
        match outcome {
            Ok(()) => {
                self.completed = self.completed + 1;
            },
            Err(e) => {
                self.failure = Some(e);
            },
        }
    }
}

} // verus!
