use vstd::prelude::*;
use crate::cell::{Cell, JsonCell, display, encodable, json_encodes, display_text, cell_to_json};

verus! {

/// A query result: ordered column names (empty for an unnamed column) and the rows,
/// each an ordered sequence of cells aligned with the columns.
pub struct ResultSet {
    pub columns: Vec<String>,
    pub rows: Vec<Vec<Cell>>,
}

impl ResultSet {
    /// Every cell can be rendered.
    pub open spec fn wf(&self) -> bool {
        forall|i: int, j: int|
            0 <= i < self.rows@.len() && 0 <= j < self.rows@[i]@.len()
                ==> encodable(#[trigger] self.rows@[i]@[j])
    }
}

pub const TABLE_OPEN: &'static str = "<table style=\"border: 1px solid\">";
pub const TABLE_CLOSE: &'static str = "</table>";
pub const TH_OPEN: &'static str = "<th style=\"border: 1px solid\">";
pub const TH_CLOSE: &'static str = "</th>";
pub const TR_OPEN: &'static str = "<tr style=\"border: 1px solid\">";
pub const TR_CLOSE: &'static str = "</tr>";
pub const TD_OPEN: &'static str = "<td>";
pub const TD_CLOSE: &'static str = "</td>";

/// Header cells of an HTML table, one per column name, in order.
pub open spec fn header_html(columns: Seq<String>) -> Seq<char>
    decreases columns.len(),
{
    if columns.len() == 0 {
        Seq::empty()
    } else {
        header_html(columns.drop_last()) + TH_OPEN@ + columns.last()@ + TH_CLOSE@
    }
}

/// Data cells of one HTML table row, one per cell, in order.
pub open spec fn cells_html(row: Seq<Cell>) -> Seq<char>
    decreases row.len(),
{
    if row.len() == 0 {
        Seq::empty()
    } else {
        cells_html(row.drop_last()) + TD_OPEN@ + display(row.last()) + TD_CLOSE@
    }
}

/// HTML table rows, one per row, in order.
pub open spec fn rows_html(rows: Seq<Vec<Cell>>) -> Seq<char>
    decreases rows.len(),
{
    if rows.len() == 0 {
        Seq::empty()
    } else {
        rows_html(rows.drop_last()) + TR_OPEN@ + cells_html(rows.last()@) + TR_CLOSE@
    }
}

/// The whole HTML table of a result.
pub open spec fn html_table(columns: Seq<String>, rows: Seq<Vec<Cell>>) -> Seq<char> {
    TABLE_OPEN@ + header_html(columns) + rows_html(rows) + TABLE_CLOSE@
}

fn append_cells(html: &mut String, row: &Vec<Cell>)
    requires
        forall|j: int| 0 <= j < row@.len() ==> encodable(#[trigger] row@[j]),
    ensures
        final(html)@ == old(html)@ + cells_html(row@),
{
    let mut j: usize = 0;
    while j < row.len()
        invariant
            j <= row@.len(),
            forall|k: int| 0 <= k < row@.len() ==> encodable(#[trigger] row@[k]),
            html@ == old(html)@ + cells_html(row@.subrange(0, j as int)),
        decreases row@.len() - j,
    {
        html.append(TD_OPEN);
        let text = display_text(&row[j]);
        html.append(text.as_str());
        html.append(TD_CLOSE);
        assert(row@.subrange(0, j + 1).drop_last() =~= row@.subrange(0, j as int));
        j = j + 1;
        assert(html@ =~= old(html)@ + cells_html(row@.subrange(0, j as int)));
    }
    assert(row@.subrange(0, row@.len() as int) =~= row@);
}

/// Renders a result as an HTML table: a header cell per column, then a table row
/// per result row with a data cell per cell's display text, in the given order.
pub fn result_to_html_table(result: ResultSet) -> (html: String)
    requires
        result.wf(),
    ensures
        html@ == html_table(result.columns@, result.rows@),
{
    let mut html = String::from_str(TABLE_OPEN);
    let columns = &result.columns;
    let mut c: usize = 0;
    while c < columns.len()
        invariant
            c <= columns@.len(),
            html@ == TABLE_OPEN@ + header_html(columns@.subrange(0, c as int)),
        decreases columns@.len() - c,
    {
        html.append(TH_OPEN);
        html.append(columns[c].as_str());
        html.append(TH_CLOSE);
        assert(columns@.subrange(0, c + 1).drop_last() =~= columns@.subrange(0, c as int));
        c = c + 1;
        assert(html@ =~= TABLE_OPEN@ + header_html(columns@.subrange(0, c as int)));
    }
    assert(columns@.subrange(0, columns@.len() as int) =~= columns@);
    let rows = &result.rows;
    let ghost head = html@;
    let mut r: usize = 0;
    while r < rows.len()
        invariant
            r <= rows@.len(),
            result.wf(),
            rows == &result.rows,
            html@ == head + rows_html(rows@.subrange(0, r as int)),
        decreases rows@.len() - r,
    {
        html.append(TR_OPEN);
        assert forall|j: int| 0 <= j < rows@[r as int]@.len() implies encodable(#[trigger] rows@[r as int]@[j]) by {
            assert(encodable(result.rows@[r as int]@[j]));
        }
        append_cells(&mut html, &rows[r]);
        html.append(TR_CLOSE);
        assert(rows@.subrange(0, r + 1).drop_last() =~= rows@.subrange(0, r as int));
        r = r + 1;
        assert(html@ =~= head + rows_html(rows@.subrange(0, r as int)));
    }
    assert(rows@.subrange(0, rows@.len() as int) =~= rows@);
    html.append(TABLE_CLOSE);
    html
}

/// The map script up to the first marker: loads the map libraries and opens the
/// drawing function.
pub const MAP_PREAMBLE: &'static str = r#"
  <script src="https://cdnjs.cloudflare.com/ajax/libs/p5.js/0.5.16/p5.min.js" type="text/javascript"></script>
  <script src="https://unpkg.com/mappa-mundi/dist/mappa.js" type="text/javascript"></script>
    <script>
    let myMap;
    let canvas;
    const mappa = new Mappa('Leaflet');
    const options = {
      lat: 0,
      lng: 0,
      zoom: 2,
      style: "http://{s}.tile.osm.org/{z}/{x}/{y}.png"
    }

    function setup(){
      canvas = createCanvas(640,480);
      myMap = mappa.tileMap(options); 
      myMap.overlay(canvas) 
    
      fill(200, 100, 100);
      myMap.onChange(drawPoint);
    }

    function draw(){
    }

    function drawPoint(){
      clear();
      let point;"#;
pub const MAP_CLOSE: &'static str = "}</script>";
pub const MARKER_AT: &'static str = "point = myMap.latLngToPixel(";
pub const MARKER_SEP: &'static str = ", ";
pub const MARKER_LABEL: &'static str = ");\nellipse(point.x, point.y, 10, 10);\ntext(";
pub const MARKER_END: &'static str = ", point.x, point.y);\n";

/// Display text of the cell at position `i` of a row, empty where the row is shorter.
pub open spec fn cell_text(row: Seq<Cell>, i: int) -> Seq<char> {
    if 0 <= i < row.len() {
        display(row[i])
    } else {
        Seq::empty()
    }
}

/// The marker statement for one (label, latitude, longitude) row.
pub open spec fn marker(row: Seq<Cell>) -> Seq<char> {
    MARKER_AT@ + cell_text(row, 1) + MARKER_SEP@ + cell_text(row, 2) + MARKER_LABEL@
        + cell_text(row, 0) + MARKER_END@
}

/// The marker statements of the rows, in order.
pub open spec fn markers(rows: Seq<Vec<Cell>>) -> Seq<char>
    decreases rows.len(),
{
    if rows.len() == 0 {
        Seq::empty()
    } else {
        markers(rows.drop_last()) + marker(rows.last()@)
    }
}

/// The whole map script of a result.
pub open spec fn map_canvas(rows: Seq<Vec<Cell>>) -> Seq<char> {
    MAP_PREAMBLE@ + markers(rows) + MAP_CLOSE@
}

fn append_cell_at(out: &mut String, row: &Vec<Cell>, i: usize)
    requires
        forall|j: int| 0 <= j < row@.len() ==> encodable(#[trigger] row@[j]),
    ensures
        final(out)@ == old(out)@ + cell_text(row@, i as int),
{
    if i < row.len() {
        let text = display_text(&row[i]);
        out.append(text.as_str());
    } else {
        assert(old(out)@ + cell_text(row@, i as int) =~= old(out)@);
    }
}

/// Renders a result of (label, latitude, longitude) rows as a map script: the
/// preamble once, one marker statement per row, then the closing. Rows of another
/// shape give meaningless markers, not an error.
pub fn create_map_canvas(result: ResultSet) -> (canvas: String)
    requires
        result.wf(),
    ensures
        canvas@ == map_canvas(result.rows@),
{
    let mut canvas = String::from_str(MAP_PREAMBLE);
    let rows = &result.rows;
    let mut r: usize = 0;
    while r < rows.len()
        invariant
            r <= rows@.len(),
            result.wf(),
            rows == &result.rows,
            canvas@ == MAP_PREAMBLE@ + markers(rows@.subrange(0, r as int)),
        decreases rows@.len() - r,
    {
        let row = &rows[r];
        assert forall|j: int| 0 <= j < row@.len() implies encodable(#[trigger] row@[j]) by {
            assert(encodable(result.rows@[r as int]@[j]));
        }
        canvas.append(MARKER_AT);
        append_cell_at(&mut canvas, row, 1);
        canvas.append(MARKER_SEP);
        append_cell_at(&mut canvas, row, 2);
        canvas.append(MARKER_LABEL);
        append_cell_at(&mut canvas, row, 0);
        canvas.append(MARKER_END);
        assert(rows@.subrange(0, r + 1).drop_last() =~= rows@.subrange(0, r as int));
        r = r + 1;
        assert(canvas@ =~= MAP_PREAMBLE@ + markers(rows@.subrange(0, r as int)));
    }
    assert(rows@.subrange(0, rows@.len() as int) =~= rows@);
    canvas.append(MAP_CLOSE);
    canvas
}

/// A map script with no rows is still complete: the preamble, then the closing.
pub proof fn lemma_empty_canvas_complete(rows: Seq<Vec<Cell>>)
    requires
        rows.len() == 0,
    ensures
        map_canvas(rows) == MAP_PREAMBLE@ + MAP_CLOSE@,
{
    assert(map_canvas(rows) =~= MAP_PREAMBLE@ + MAP_CLOSE@);
}

/// A result as a JSON document `{columns, rows}`.
pub struct JsonTable {
    pub columns: Vec<String>,
    pub rows: Vec<Vec<JsonCell>>,
}

/// `out` holds, row by row and cell by cell, the JSON encodings of `rows`.
pub open spec fn json_rows_encode(out: Seq<Vec<JsonCell>>, rows: Seq<Vec<Cell>>) -> bool {
    &&& out.len() == rows.len()
    &&& forall|i: int| 0 <= i < rows.len() ==> (#[trigger] out[i])@.len() == rows[i]@.len()
    &&& forall|i: int, j: int| 0 <= i < rows.len() && 0 <= j < rows[i]@.len()
        ==> json_encodes(#[trigger] out[i]@[j], rows[i]@[j])
}

/// Renders a result as a JSON document: the column names in order, and each row
/// as the ordered JSON encodings of its cells.
pub fn into_json(result: ResultSet) -> (doc: JsonTable)
    requires
        result.wf(),
    ensures
        doc.columns == result.columns,
        json_rows_encode(doc.rows@, result.rows@),
{
    let ResultSet { columns, rows } = result;
    let mut out: Vec<Vec<JsonCell>> = Vec::new();
    let mut r: usize = 0;
    while r < rows.len()
        invariant
            r <= rows@.len(),
            forall|i: int, j: int|
                0 <= i < rows@.len() && 0 <= j < rows@[i]@.len()
                    ==> encodable(#[trigger] rows@[i]@[j]),
            json_rows_encode(out@, rows@.subrange(0, r as int)),
        decreases rows@.len() - r,
    {
        let row = &rows[r];
        let mut cells: Vec<JsonCell> = Vec::new();
        let mut c: usize = 0;
        while c < row.len()
            invariant
                c <= row@.len(),
                row == &rows@[r as int],
                r < rows@.len(),
                forall|i: int, j: int|
                    0 <= i < rows@.len() && 0 <= j < rows@[i]@.len()
                        ==> encodable(#[trigger] rows@[i]@[j]),
                cells@.len() == c,
                forall|j: int| 0 <= j < c ==> json_encodes(#[trigger] cells@[j], row@[j]),
            decreases row@.len() - c,
        {
            assert(encodable(rows@[r as int]@[c as int]));
            let j = cell_to_json(&row[c]);
            cells.push(j);
            c = c + 1;
        }
        out.push(cells);
        r = r + 1;
        assert(json_rows_encode(out@, rows@.subrange(0, r as int)));
    }
    assert(rows@.subrange(0, rows@.len() as int) =~= rows@);
    JsonTable { columns, rows: out }
}

} // verus!
