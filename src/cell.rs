use vstd::prelude::*;

verus! {

/// One value of a query result: a closed five-way sum.
pub enum Cell {
    Null,
    Integer(i64),
    /// A floating-point value, held as its canonical (shortest round-trip) decimal text.
    Real(String),
    Text(String),
    Binary(Vec<u8>),
}

/// A byte count whose base64 text length fits in a `usize`.
pub open spec fn encodable_len(n: nat) -> bool {
    n / 3 * 4 + 3 <= usize::MAX
}

/// Un-padded standard base64 text of a byte sequence.
pub uninterp spec fn base64_no_pad(bytes: Seq<u8>) -> Seq<char>;

/// Relies on simple_base64's `Engine::encode` with `BASE64_STANDARD_NO_PAD`: the
/// standard alphabet without `=` padding. It panics only when the output length
/// overflows `usize`, which the bound on the input excludes.
#[verifier::external_body]
fn encode_base64(bytes: &Vec<u8>) -> (r: String)
    requires
        encodable_len(bytes@.len()),
    ensures
        r@ == base64_no_pad(bytes@),
{
    simple_base64::Engine::encode(&simple_base64::prelude::BASE64_STANDARD_NO_PAD, bytes)
}

/// The character of a decimal digit.
pub open spec fn digit_char(d: int) -> char {
    if d == 0 { '0' }
    else if d == 1 { '1' }
    else if d == 2 { '2' }
    else if d == 3 { '3' }
    else if d == 4 { '4' }
    else if d == 5 { '5' }
    else if d == 6 { '6' }
    else if d == 7 { '7' }
    else if d == 8 { '8' }
    else { '9' }
}

/// The digit that a decimal digit character stands for (-1 for any other character).
pub open spec fn digit_value(c: char) -> int {
    if c == '0' { 0 }
    else if c == '1' { 1 }
    else if c == '2' { 2 }
    else if c == '3' { 3 }
    else if c == '4' { 4 }
    else if c == '5' { 5 }
    else if c == '6' { 6 }
    else if c == '7' { 7 }
    else if c == '8' { 8 }
    else if c == '9' { 9 }
    else { -1 }
}

/// Decimal digits of a natural number, most significant first, without leading zeros.
pub open spec fn nat_digits(n: nat) -> Seq<char>
    decreases n,
{
    if n < 10 {
        seq![digit_char(n as int)]
    } else {
        nat_digits(n / 10).push(digit_char((n % 10) as int))
    }
}

/// Canonical decimal text of an integer: a leading `-` for negatives.
pub open spec fn dec_text(i: int) -> Seq<char> {
    if i < 0 {
        seq!['-'] + nat_digits((-i) as nat)
    } else {
        nat_digits(i as nat)
    }
}

/// The number a sequence of decimal digits stands for.
pub open spec fn digits_value(s: Seq<char>) -> int
    decreases s.len(),
{
    if s.len() == 0 {
        0
    } else {
        digits_value(s.drop_last()) * 10 + digit_value(s.last())
    }
}

/// The integer that a decimal text stands for, with an optional leading `-`.
pub open spec fn parse_dec(s: Seq<char>) -> int {
    if s.len() > 0 && s[0] == '-' {
        -digits_value(s.drop_first())
    } else {
        digits_value(s)
    }
}

/// Display text of a cell in a table: empty for null, decimal text for numbers,
/// the text itself, or un-padded base64 for bytes.
pub open spec fn display(c: Cell) -> Seq<char> {
    match c {
        Cell::Null => Seq::empty(),
        Cell::Integer(i) => dec_text(i as int),
        Cell::Real(t) => t@,
        Cell::Text(t) => t@,
        Cell::Binary(b) => base64_no_pad(b@),
    }
}

/// A cell that can be rendered: its bytes, if any, are within the encoder's bound.
pub open spec fn encodable(c: Cell) -> bool {
    c matches Cell::Binary(b) ==> encodable_len(b@.len())
}

proof fn lemma_digits_round_trip(n: nat)
    ensures
        digits_value(nat_digits(n)) == n,
        nat_digits(n).len() > 0,
        nat_digits(n)[0] != '-',
    decreases n,
{
    if n < 10 {
        assert(nat_digits(n).drop_last() =~= Seq::<char>::empty());
        assert(digits_value(nat_digits(n).drop_last()) == 0);
        assert(digit_value(nat_digits(n).last()) == n);
    } else {
        lemma_digits_round_trip(n / 10);
        let d = (n % 10) as int;
        assert(nat_digits(n).drop_last() =~= nat_digits(n / 10));
        assert(nat_digits(n).last() == digit_char(d));
        assert(digit_value(digit_char(d)) == d);
        vstd::arithmetic::div_mod::lemma_fundamental_div_mod(n as int, 10);
        assert(digits_value(nat_digits(n)) == digits_value(nat_digits(n / 10)) * 10 + d);
    }
}

/// Decimal text loses nothing: reading `dec_text(i)` back gives `i`.
pub proof fn lemma_dec_text_round_trip(i: int)
    ensures
        parse_dec(dec_text(i)) == i,
{
    if i < 0 {
        lemma_digits_round_trip((-i) as nat);
        assert(dec_text(i).drop_first() =~= nat_digits((-i) as nat));
    } else {
        lemma_digits_round_trip(i as nat);
    }
}

fn digit_str(d: u64) -> (r: &'static str)
    requires
        d < 10,
    ensures
        r@ == seq![digit_char(d as int)],
{
    proof {
        reveal_strlit("0");
        reveal_strlit("1");
        reveal_strlit("2");
        reveal_strlit("3");
        reveal_strlit("4");
        reveal_strlit("5");
        reveal_strlit("6");
        reveal_strlit("7");
        reveal_strlit("8");
        reveal_strlit("9");
    }
    match d {
        0 => "0",
        1 => "1",
        2 => "2",
        3 => "3",
        4 => "4",
        5 => "5",
        6 => "6",
        7 => "7",
        8 => "8",
        _ => "9",
    }
}

fn append_digits(s: &mut String, n: u64)
    ensures
        final(s)@ == old(s)@ + nat_digits(n as nat),
    decreases n,
{
    if n >= 10 {
        append_digits(s, n / 10);
    }
    s.append(digit_str(n % 10));
    assert(final(s)@ =~= old(s)@ + nat_digits(n as nat));
}

/// Canonical decimal text of a 64-bit integer.
pub fn integer_text(i: i64) -> (r: String)
    ensures
        r@ == dec_text(i as int),
{
    let mut s = String::new();
    if i < 0 {
        s.append("-");
        proof { reveal_strlit("-"); }
        let magnitude: u64 = if i == i64::MIN {
            0x8000_0000_0000_0000u64
        } else {
            (-i) as u64
        };
        append_digits(&mut s, magnitude);
    } else {
        append_digits(&mut s, i as u64);
    }
    s
}

/// Display text of a cell for tabular rendering.
pub fn display_text(cell: &Cell) -> (r: String)
    requires
        encodable(*cell),
    ensures
        r@ == display(*cell),
{
    match cell {
        Cell::Null => String::new(),
        Cell::Integer(v) => integer_text(*v),
        Cell::Real(v) => v.clone(),
        Cell::Text(v) => v.clone(),
        Cell::Binary(v) => encode_base64(v),
    }
}

/// One cell of a JSON document: null, a number, a string, or an object with the
/// single key `base64` holding un-padded base64 text.
pub enum JsonCell {
    Null,
    Integer(i64),
    /// A JSON number written as the decimal text of a floating-point value.
    Real(String),
    Text(String),
    Base64Object(String),
}

/// `j` is the JSON encoding of `c`.
pub open spec fn json_encodes(j: JsonCell, c: Cell) -> bool {
    match (j, c) {
        (JsonCell::Null, Cell::Null) => true,
        (JsonCell::Integer(a), Cell::Integer(b)) => a == b,
        (JsonCell::Real(a), Cell::Real(b)) => a@ == b@,
        (JsonCell::Text(a), Cell::Text(b)) => a@ == b@,
        (JsonCell::Base64Object(a), Cell::Binary(b)) => a@ == base64_no_pad(b@),
        _ => false,
    }
}

/// JSON encoding of a cell.
pub fn cell_to_json(cell: &Cell) -> (r: JsonCell)
    requires
        encodable(*cell),
    ensures
        json_encodes(r, *cell),
{
    match cell {
        Cell::Null => JsonCell::Null,
        Cell::Integer(v) => JsonCell::Integer(*v),
        Cell::Real(v) => JsonCell::Real(v.clone()),
        Cell::Text(v) => JsonCell::Text(v.clone()),
        Cell::Binary(v) => JsonCell::Base64Object(encode_base64(v)),
    }
}

/// Rendering a cell loses nothing but the bytes' encoding: an integer reads back
/// from its text, a real and a text are shown verbatim, bytes become their base64
/// text; and the JSON encoding carries the same value.
pub proof fn lemma_cell_lossless(c: Cell, j: JsonCell)
    requires
        json_encodes(j, c),
    ensures
        c matches Cell::Integer(i) ==> parse_dec(display(c)) == i && j == JsonCell::Integer(i),
        c matches Cell::Real(t) ==> display(c) == t@ && (j matches JsonCell::Real(u) && u@ == t@),
        c matches Cell::Text(t) ==> display(c) == t@ && (j matches JsonCell::Text(u) && u@ == t@),
        c matches Cell::Binary(b) ==> display(c) == base64_no_pad(b@)
            && (j matches JsonCell::Base64Object(u) && u@ == display(c)),
        c is Null <==> j is Null,
        c is Null ==> display(c).len() == 0,
{
    if let Cell::Integer(i) = c {
        lemma_dec_text_round_trip(i as int);
    }
}

} // verus!
