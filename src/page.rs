use vstd::prelude::*;
use crate::visit::Statement;

verus! {

pub const PAGE_HEAD: &'static str = "\n        <body>\n        ";
pub const PAGE_MID: &'static str =
    " Database powered by <a href=\"https://chiselstrike.com/\">Turso</a>.\n        <br /> Scoreboard: <br /> ";
pub const PAGE_TAIL: &'static str =
    "\n        <footer>Map data from OpenStreetMap (https://tile.osm.org/)</footer>\n        </body>\n        ";
pub const ERROR_PREFIX: &'static str = "Error: ";
pub const FIELD_SEP: &'static str = ";";
pub const EMAIL_KEY: &'static str = "email";
pub const NO_EMAIL: &'static str = "No email";
pub const BAD_REQUEST: u16 = 400;

/// The page body: the map script, then the scoreboard table.
pub open spec fn page(canvas: Seq<char>, scoreboard: Seq<char>) -> Seq<char> {
    PAGE_HEAD@ + canvas + PAGE_MID@ + scoreboard + PAGE_TAIL@
}

/// Assembles the page body from the rendered map script and scoreboard.
pub fn render_page(canvas: &str, scoreboard: &str) -> (r: String)
    ensures
        r@ == page(canvas@, scoreboard@),
{
    let mut r = String::from_str(PAGE_HEAD);
    r.append(canvas);
    r.append(PAGE_MID);
    r.append(scoreboard);
    r.append(PAGE_TAIL);
    r
}

/// The body that reports a failed recording.
pub fn error_body(message: &str) -> (r: String)
    ensures
        r@ == ERROR_PREFIX@ + message@,
{
    let mut r = String::from_str(ERROR_PREFIX);
    r.append(message);
    r
}

/// The fields joined by `;`.
pub open spec fn joined(fields: Seq<Seq<char>>) -> Seq<char>
    decreases fields.len(),
{
    if fields.len() == 0 {
        Seq::empty()
    } else if fields.len() == 1 {
        fields[0]
    } else {
        joined(fields.drop_last()) + FIELD_SEP@ + fields.last()
    }
}

/// The location line `airport;country;city;lat;long`.
pub fn locate_text(airport: &str, country: &str, city: &str, lat: &str, long: &str) -> (r: String)
    ensures
        r@ == joined(seq![airport@, country@, city@, lat@, long@]),
{
    let mut r = String::from_str(airport);
    r.append(FIELD_SEP);
    r.append(country);
    r.append(FIELD_SEP);
    r.append(city);
    r.append(FIELD_SEP);
    r.append(lat);
    r.append(FIELD_SEP);
    r.append(long);
    let ghost f = seq![airport@, country@, city@, lat@, long@];
    assert(f.drop_last().drop_last().drop_last().drop_last() =~= seq![airport@]);
    assert(f.drop_last().drop_last().drop_last() =~= seq![airport@, country@]);
    assert(f.drop_last().drop_last() =~= seq![airport@, country@, city@]);
    assert(f.drop_last() =~= seq![airport@, country@, city@, lat@]);
    assert(joined(seq![airport@]) == airport@);
    assert(joined(seq![airport@, country@]) == airport@ + FIELD_SEP@ + country@);
    assert(joined(seq![airport@, country@, city@]) == airport@ + FIELD_SEP@ + country@ + FIELD_SEP@ + city@);
    assert(joined(f.drop_last()) == airport@ + FIELD_SEP@ + country@ + FIELD_SEP@ + city@ + FIELD_SEP@ + lat@);
    assert(r@ =~= joined(f));
    r
}

/// A request refused before any statement: its status and message.
pub struct Rejection {
    pub status: u16,
    pub message: String,
}

/// The value of the last pair whose key is `key`, if any.
pub open spec fn last_value(pairs: Seq<(String, String)>, key: Seq<char>) -> Option<Seq<char>>
    decreases pairs.len(),
{
    if pairs.len() == 0 {
        None
    } else if pairs.last().0@ == key {
        Some(pairs.last().1@)
    } else {
        last_value(pairs.drop_last(), key)
    }
}

/// The insert that a request to add a user asks for, from its query pairs: the
/// last `email` value. Without an `email` pair the request is refused with status
/// 400 and no statement.
pub fn add_user_statement(query: &Vec<(String, String)>) -> (r: Result<Statement, Rejection>)
    ensures
        match last_value(query@, EMAIL_KEY@) {
            Some(e) => r matches Ok(Statement::AddUser { email }) && email@ == e,
            None => r matches Err(rej) && rej.status == BAD_REQUEST && rej.message@ == NO_EMAIL@,
        },
{
    let key = String::from_str(EMAIL_KEY);
    let mut found: Option<String> = None;
    let mut i: usize = 0;
    while i < query.len()
        invariant
            i <= query@.len(),
            key@ == EMAIL_KEY@,
            match last_value(query@.subrange(0, i as int), EMAIL_KEY@) {
                Some(e) => found matches Some(f) && f@ == e,
                None => found is None,
            },
        decreases query@.len() - i,
    {
        if query[i].0 == key {
            found = Some(query[i].1.clone());
        }
        assert(query@.subrange(0, i + 1).drop_last() =~= query@.subrange(0, i as int));
        i = i + 1;
    }
    assert(query@.subrange(0, query@.len() as int) =~= query@);
    match found {
        Some(email) => Ok(Statement::AddUser { email }),
        None => Err(Rejection { status: BAD_REQUEST, message: String::from_str(NO_EMAIL) }),
    }
}

} // verus!
