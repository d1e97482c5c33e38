//! Parsing of the balance-sheet tables on a company's page.
//!
//! A table has a header row whose cells after the first are the years, and body
//! rows of three kinds: `dep1` rows open a top-level account group, `dep2` rows
//! open a sub-group, and rows without a class are single accounts. Each row has
//! a `th` cell with the account name and one `td` cell per year.
use vstd::prelude::*;
use crate::error::{
    ConversionError, HtmlParseError, InvariantError, ParseIntError, SmesError, TypeConversionError,
};
use crate::text::{
    chars_without, parse_usize, parse_usize_spec, remove_char, string_of_chars, trim,
    trim_whitespace,
};

verus! {

// region: helpers

/// Whether two strings hold the same characters.
pub fn str_eq(a: &str, b: &str) -> (res: bool)
    ensures
        res == (a@ == b@),
{
    let n = a.unicode_len();
    let m = b.unicode_len();
    if n != m {
        return false;
    }
    let mut i: usize = 0;
    while i < n
        invariant
            n == a@.len(),
            m == b@.len(),
            n == m,
            i <= n,
            forall|j: int| 0 <= j < i ==> a@[j] == b@[j],
        decreases n - i,
    {
        if a.get_char(i) != b.get_char(i) {
            return false;
        }
        i = i + 1;
    }
    assert(a@ =~= b@);
    true
}

/// What `parse_comma_sep_digit` reads `s` as: `None` where it is no number.
pub open spec fn comma_sep_digit_spec(s: Seq<char>) -> Option<usize> {
    let t = trim(s);
    if t.len() == 0 {
        Some(0)
    } else {
        parse_usize_spec(remove_char(t, ','))
    }
}

/// Parses a number written with thousands separators, such as `"543,858,000"`.
///
/// Surrounding whitespace is ignored, every comma is dropped, and what is left must
/// be an optional `+` and decimal digits that fit in a `usize`. An empty or blank
/// text reads as 0. On failure the error holds the text without its commas.
pub fn parse_comma_sep_digit(s: &str) -> (res: Result<usize, SmesError>)
    ensures
        match comma_sep_digit_spec(s@) {
            Some(v) => res == Ok::<usize, SmesError>(v),
            None => res matches Err(SmesError::ParseInt(e)) && e.value@ == remove_char(
                trim(s@),
                ',',
            ),
        },
{
    let t = trim_whitespace(s);
    if t.as_str().unicode_len() == 0 {
        return Ok(0);
    }
    let digits = chars_without(t.as_str(), ',');
    match parse_usize(digits.as_slice()) {
        Some(v) => Ok(v),
        None => Err(SmesError::ParseInt(ParseIntError { value: string_of_chars(digits.as_slice()) })),
    }
}

/// Removing a character twice removes nothing more.
proof fn lemma_remove_char_twice(s: Seq<char>, c: char)
    ensures
        remove_char(remove_char(s, c), c) == remove_char(s, c),
    decreases s.len(),
{
    if s.len() > 0 {
        lemma_remove_char_twice(s.drop_last(), c);
        if s.last() != c {
            let r = remove_char(s.drop_last(), c);
            assert(r.push(s.last()).drop_last() =~= r);
        }
    }
}

/// Commas are ignored: a number written without surrounding whitespace reads the
/// same with its commas as without them, as long as something other than commas
/// is left.
pub proof fn lemma_commas_ignored(s: Seq<char>)
    requires
        trim(s) == s,
        remove_char(s, ',').len() > 0,
        trim(remove_char(s, ',')) == remove_char(s, ','),
    ensures
        comma_sep_digit_spec(s) == comma_sep_digit_spec(remove_char(s, ',')),
{
    lemma_remove_char_twice(s, ',');
    if s.len() == 0 {
        assert(remove_char(s, ',') == s);
    }
}

/// The one element of `items`: an invariant error where there is none, an HTML
/// error where there are more.
pub fn single_element<T>(items: Vec<T>) -> (res: Result<T, SmesError>)
    ensures
        items@.len() == 1 ==> res == Ok::<T, SmesError>(items@[0]),
        items@.len() == 0 ==> (res matches Err(SmesError::Invariant(e)) && e.message@
            == "Expected at least one element"@),
        items@.len() > 1 ==> (res matches Err(SmesError::HtmlParse(e)) && e.message@
            == "Only single element was expected"@),
{
    let mut items = items;
    let n = items.len();
    if n == 0 {
        Err(SmesError::Invariant(InvariantError { message: "Expected at least one element".to_owned() }))
    } else if n > 1 {
        Err(SmesError::HtmlParse(HtmlParseError { message: "Only single element was expected" }))
    } else {
        Ok(items.remove(0))
    }
}

/// The text of a node: its text pieces joined in document order.
pub fn join_text_nodes(pieces: &[String]) -> (res: String)
    ensures
        res@ == joined(pieces@.map_values(|p: String| p@)),
{
    let mut out = String::new();
    let mut i: usize = 0;
    let ghost views = pieces@.map_values(|p: String| p@);
    while i < pieces.len()
        invariant
            i <= pieces@.len(),
            views == pieces@.map_values(|p: String| p@),
            out@ == joined(views.take(i as int)),
        decreases pieces@.len() - i,
    {
        out.append(pieces[i].as_str());
        proof {
            assert(views.take(i + 1).drop_last() =~= views.take(i as int));
        }
        i = i + 1;
    }
    proof {
        assert(views.take(pieces@.len() as int) =~= views);
    }
    out
}

/// The concatenation of `parts`.
pub open spec fn joined(parts: Seq<Seq<char>>) -> Seq<char>
    decreases parts.len(),
{
    if parts.len() == 0 {
        Seq::empty()
    } else {
        joined(parts.drop_last()) + parts.last()
    }
}

// endregion

// region: the table model

/// A cell of a table row: the element's name (`th`, `td`) and its text.
#[derive(Debug, Clone)]
pub struct CellElement {
    pub name: String,
    pub text: String,
}

/// A body row of a table: its `class` attribute and its child elements.
#[derive(Debug, Clone)]
pub struct RowElement {
    pub class: Option<String>,
    pub cells: Vec<CellElement>,
}

/// A table as the parser reads it: the texts of the header cells and the body rows.
#[derive(Debug, Clone)]
pub struct TableElement {
    pub head: Vec<String>,
    pub rows: Vec<RowElement>,
}

/// A row as a mathematical value.
pub struct RowView {
    pub class: Option<Seq<char>>,
    pub cells: Seq<(Seq<char>, Seq<char>)>,
}

/// A table as a mathematical value.
pub struct TableView {
    pub head: Seq<Seq<char>>,
    pub rows: Seq<RowView>,
}

pub open spec fn opt_view(o: Option<String>) -> Option<Seq<char>> {
    match o {
        Some(s) => Some(s@),
        None => None,
    }
}

impl View for CellElement {
    type V = (Seq<char>, Seq<char>);

    open spec fn view(&self) -> (Seq<char>, Seq<char>) {
        (self.name@, self.text@)
    }
}

impl View for RowElement {
    type V = RowView;

    open spec fn view(&self) -> RowView {
        RowView { class: opt_view(self.class), cells: self.cells@.map_values(|c: CellElement| c@) }
    }
}

impl View for TableElement {
    type V = TableView;

    open spec fn view(&self) -> TableView {
        TableView {
            head: self.head@.map_values(|s: String| s@),
            rows: self.rows@.map_values(|r: RowElement| r@),
        }
    }
}

/// Whether a cell is an account group or an account.
#[derive(Debug, Clone, Copy, PartialEq, Eq)]
pub enum Level {
    /// An account itself.
    Actual,
    /// A group of accounts (a `dep1` or `dep2` row).
    Group,
}

/// One value of the table: the account it belongs to, its groups, and its year.
#[derive(Debug, Clone, PartialEq)]
pub struct Cell {
    pub level: Level,
    pub dep1: Option<String>,
    pub dep2: Option<String>,
    pub account: String,
    pub year: String,
    pub value: i64,
}

/// A cell as a mathematical value.
pub struct CellView {
    pub level: Level,
    pub dep1: Option<Seq<char>>,
    pub dep2: Option<Seq<char>>,
    pub account: Seq<char>,
    pub year: Seq<char>,
    pub value: i64,
}

impl View for Cell {
    type V = CellView;

    open spec fn view(&self) -> CellView {
        CellView {
            level: self.level,
            dep1: opt_view(self.dep1),
            dep2: opt_view(self.dep2),
            account: self.account@,
            year: self.year@,
            value: self.value,
        }
    }
}

// endregion

// region: the meaning of a table

/// The kind of a body row, by its `class`.
#[derive(Clone, Copy)]
pub enum RowKind {
    Dep1,
    Dep2,
    Plain,
}

pub open spec fn dep1_class() -> Seq<char> {
    seq!['d', 'e', 'p', '1']
}

pub open spec fn dep2_class() -> Seq<char> {
    seq!['d', 'e', 'p', '2']
}

/// The kind of a row with this class; `None` for a class the parser does not know.
pub open spec fn row_kind(class: Option<Seq<char>>) -> Option<RowKind> {
    match class {
        None => Some(RowKind::Plain),
        Some(c) => if c == dep1_class() {
            Some(RowKind::Dep1)
        } else if c == dep2_class() {
            Some(RowKind::Dep2)
        } else {
            None
        },
    }
}

/// Why a table could not be read.
pub enum ParseFailure {
    /// The header has no cells.
    NoHeader,
    /// A value cell's text is not a number; the text without commas.
    BadNumber(Seq<char>),
    /// A value cell's number does not fit in an `i64`.
    TooLarge(usize),
}

/// Where reading a table leads: on, to a failure, or to a state that the
/// parser does not expect (a missing year, group or account, an unknown row
/// class or cell element).
pub enum Step<S> {
    Continue(S),
    Fail(ParseFailure),
    Unexpected,
}

/// What the parser carries from cell to cell.
pub struct ParseState {
    pub dep1: Option<Seq<char>>,
    pub dep2: Option<Seq<char>>,
    /// The account of the current row, once its `th` cell has been read.
    pub account: Option<Seq<char>>,
    /// The index of the year of the next value cell.
    pub year_index: nat,
    pub cells: Seq<CellView>,
}

pub open spec fn th_name() -> Seq<char> {
    seq!['t', 'h']
}

pub open spec fn td_name() -> Seq<char> {
    seq!['t', 'd']
}

/// The years of a table: the header cells after the first.
pub open spec fn years_spec(head: Seq<Seq<char>>) -> Option<Seq<Seq<char>>> {
    if head.len() == 0 {
        None
    } else {
        Some(head.drop_first())
    }
}

/// Reading one cell of a row of kind `kind`.
///
/// A `th` cell names the row's account, and in a `dep1` (`dep2`) row it also
/// opens a group (sub-group); a new group closes the sub-group. A `td` cell is
/// the value of the next year, taking the years in turn and starting over after
/// the last; its cell belongs to the current group (and sub-group, except in a
/// `dep1` row) and is a group cell unless the row is a plain one.
pub open spec fn cell_step(
    st: ParseState,
    years: Seq<Seq<char>>,
    kind: RowKind,
    cell: (Seq<char>, Seq<char>),
) -> Step<ParseState> {
    let (name, text) = cell;
    if name == th_name() {
        match kind {
            RowKind::Dep1 => Step::Continue(
                ParseState { account: Some(text), dep1: Some(text), dep2: None, ..st },
            ),
            RowKind::Dep2 => Step::Continue(
                ParseState { account: Some(text), dep2: Some(text), ..st },
            ),
            RowKind::Plain => Step::Continue(ParseState { account: Some(text), ..st }),
        }
    } else if name == td_name() {
        if years.len() == 0 || st.dep1 is None || st.account is None || (!(kind is Dep1)
            && st.dep2 is None) {
            Step::Unexpected
        } else {
            match comma_sep_digit_spec(text) {
                None => Step::Fail(ParseFailure::BadNumber(remove_char(trim(text), ','))),
                Some(v) => if v > i64::MAX {
                    Step::Fail(ParseFailure::TooLarge(v))
                } else {
                    let cell = CellView {
                        level: if kind is Plain {
                            Level::Actual
                        } else {
                            Level::Group
                        },
                        dep1: st.dep1,
                        dep2: if kind is Dep1 {
                            None
                        } else {
                            st.dep2
                        },
                        account: st.account.unwrap(),
                        year: years[(st.year_index % years.len()) as int],
                        value: v as i64,
                    };
                    Step::Continue(
                        ParseState {
                            year_index: (st.year_index + 1) % years.len(),
                            cells: st.cells.push(cell),
                            ..st
                        },
                    )
                },
            }
        }
    } else {
        Step::Unexpected
    }
}

/// Reading the cells of a row, one after the other.
pub open spec fn cells_step(
    st: ParseState,
    years: Seq<Seq<char>>,
    kind: RowKind,
    cells: Seq<(Seq<char>, Seq<char>)>,
) -> Step<ParseState>
    decreases cells.len(),
{
    if cells.len() == 0 {
        Step::Continue(st)
    } else {
        match cells_step(st, years, kind, cells.drop_last()) {
            Step::Continue(s) => cell_step(s, years, kind, cells.last()),
            other => other,
        }
    }
}

/// Reading one row: its kind must be known; the account starts out unknown.
pub open spec fn row_step(st: ParseState, years: Seq<Seq<char>>, row: RowView) -> Step<ParseState> {
    match row_kind(row.class) {
        None => Step::Unexpected,
        Some(kind) => cells_step(ParseState { account: None, ..st }, years, kind, row.cells),
    }
}

/// Reading rows, one after the other.
pub open spec fn rows_step(st: ParseState, years: Seq<Seq<char>>, rows: Seq<RowView>) -> Step<
    ParseState,
>
    decreases rows.len(),
{
    if rows.len() == 0 {
        Step::Continue(st)
    } else {
        match rows_step(st, years, rows.drop_last()) {
            Step::Continue(s) => row_step(s, years, rows.last()),
            other => other,
        }
    }
}

pub open spec fn initial_state() -> ParseState {
    ParseState { dep1: None, dep2: None, account: None, year_index: 0, cells: Seq::empty() }
}

/// What reading a whole table gives: the cells, a failure, or an unexpected state.
pub open spec fn table_spec(t: TableView) -> Step<Seq<CellView>> {
    match years_spec(t.head) {
        None => Step::Fail(ParseFailure::NoHeader),
        Some(years) => match rows_step(initial_state(), years, t.rows) {
            Step::Continue(st) => Step::Continue(st.cells),
            Step::Fail(f) => Step::Fail(f),
            Step::Unexpected => Step::Unexpected,
        },
    }
}

/// Whether `e` is the error that the library reports for `f`.
pub open spec fn reports(e: SmesError, f: ParseFailure) -> bool {
    match f {
        ParseFailure::NoHeader => e matches SmesError::HtmlParse(h) && h.message@
            == "No header found"@,
        ParseFailure::BadNumber(t) => e matches SmesError::ParseInt(p) && p.value@ == t,
        ParseFailure::TooLarge(_) => e matches SmesError::Conversion(
            ConversionError::TypeConversion(_),
        ),
    }
}

// endregion

/// Once reading the cells of a row has stopped, the later cells change nothing.
proof fn lemma_cells_stopped(
    st: ParseState,
    years: Seq<Seq<char>>,
    kind: RowKind,
    cells: Seq<(Seq<char>, Seq<char>)>,
    j: int,
)
    requires
        0 <= j <= cells.len(),
        !(cells_step(st, years, kind, cells.take(j)) is Continue),
    ensures
        cells_step(st, years, kind, cells) == cells_step(st, years, kind, cells.take(j)),
    decreases cells.len() - j,
{
    if j < cells.len() {
        assert(cells.drop_last().take(j) =~= cells.take(j));
        lemma_cells_stopped(st, years, kind, cells.drop_last(), j);
    } else {
        assert(cells.take(j) =~= cells);
    }
}

/// Once reading the rows has stopped, the later rows change nothing.
proof fn lemma_rows_stopped(st: ParseState, years: Seq<Seq<char>>, rows: Seq<RowView>, i: int)
    requires
        0 <= i <= rows.len(),
        !(rows_step(st, years, rows.take(i)) is Continue),
    ensures
        rows_step(st, years, rows) == rows_step(st, years, rows.take(i)),
    decreases rows.len() - i,
{
    if i < rows.len() {
        assert(rows.drop_last().take(i) =~= rows.take(i));
        lemma_rows_stopped(st, years, rows.drop_last(), i);
    } else {
        assert(rows.take(i) =~= rows);
    }
}

/// Where row `i` stops the reading, the table's outcome is that of the row.
proof fn lemma_row_stops(t: TableView, ys: Seq<Seq<char>>, i: int, before: ParseState)
    requires
        years_spec(t.head) == Some(ys),
        0 <= i < t.rows.len(),
        rows_step(initial_state(), ys, t.rows.take(i)) == Step::Continue(before),
        !(row_step(before, ys, t.rows[i]) is Continue),
    ensures
        row_step(before, ys, t.rows[i]) is Unexpected ==> table_spec(t) is Unexpected,
        row_step(before, ys, t.rows[i]) matches Step::Fail(f) ==> table_spec(t) == Step::<
            Seq<CellView>,
        >::Fail(f),
{
    assert(t.rows.take(i + 1).drop_last() =~= t.rows.take(i));
    assert(t.rows.take(i + 1).last() == t.rows[i]);
    lemma_rows_stopped(initial_state(), ys, t.rows, i + 1);
}

/// Where cell `j` of row `i` stops the reading, the table's outcome is that of the cell.
proof fn lemma_cell_stops(
    t: TableView,
    ys: Seq<Seq<char>>,
    i: int,
    before: ParseState,
    kind: RowKind,
    j: int,
    st: ParseState,
)
    requires
        years_spec(t.head) == Some(ys),
        0 <= i < t.rows.len(),
        rows_step(initial_state(), ys, t.rows.take(i)) == Step::Continue(before),
        row_kind(t.rows[i].class) == Some(kind),
        0 <= j < t.rows[i].cells.len(),
        cells_step(ParseState { account: None, ..before }, ys, kind, t.rows[i].cells.take(j))
            == Step::Continue(st),
        !(cell_step(st, ys, kind, t.rows[i].cells[j]) is Continue),
    ensures
        cell_step(st, ys, kind, t.rows[i].cells[j]) is Unexpected ==> table_spec(t) is Unexpected,
        cell_step(st, ys, kind, t.rows[i].cells[j]) matches Step::Fail(f) ==> table_spec(t)
            == Step::<Seq<CellView>>::Fail(f),
{
    let cells = t.rows[i].cells;
    let start = ParseState { account: None, ..before };
    assert(cells.take(j + 1).drop_last() =~= cells.take(j));
    assert(cells.take(j + 1).last() == cells[j]);
    lemma_cells_stopped(start, ys, kind, cells, j + 1);
    lemma_row_stops(t, ys, i, before);
}

// region: the parser

/// The outcome of reading a table's body: the cells, an error, or a shape of the
/// table that the parser does not expect (with what it found wrong).
#[derive(Debug)]
pub enum BodyParse {
    Cells(Vec<Cell>),
    Failed(SmesError),
    Unexpected(&'static str),
}

pub open spec fn cells_view(cells: Seq<Cell>) -> Seq<CellView> {
    cells.map_values(|c: Cell| c@)
}

/// Whether a parse outcome is what `table_spec` says for the table.
pub open spec fn body_parse_matches(res: BodyParse, expected: Step<Seq<CellView>>) -> bool {
    match (res, expected) {
        (BodyParse::Cells(cs), Step::Continue(v)) => cells_view(cs@) == v,
        (BodyParse::Failed(e), Step::Fail(f)) => reports(e, f),
        (BodyParse::Unexpected(_), Step::Unexpected) => true,
        _ => false,
    }
}

/// A balance-sheet table.
pub struct Table {
    root: TableElement,
}

impl View for Table {
    type V = TableView;

    open spec fn view(&self) -> TableView {
        self.root()@
    }
}

fn clone_opt(o: &Option<String>) -> (res: Option<String>)
    ensures
        opt_view(res) == opt_view(*o),
{
    match o {
        Some(s) => Some(s.clone()),
        None => None,
    }
}

impl Table {
    pub closed spec fn root(&self) -> TableElement {
        self.root
    }

    /// The table with this content.
    pub fn new(table: TableElement) -> (res: Self)
        ensures
            res@ == table@,
    {
        Table { root: table }
    }

    /// The years of the table: the texts of the header cells after the first.
    pub fn years(&self) -> (res: Result<Vec<String>, SmesError>)
        ensures
            match years_spec(self@.head) {
                Some(ys) => res matches Ok(v) && v@.map_values(|s: String| s@) == ys,
                None => res matches Err(e) && reports(e, ParseFailure::NoHeader),
            },
    {
        let head = &self.root.head;
        if head.len() == 0 {
            return Err(SmesError::HtmlParse(HtmlParseError { message: "No header found" }));
        }
        let mut out: Vec<String> = Vec::new();
        let mut i: usize = 1;
        let ghost hv = head@.map_values(|s: String| s@);
        while i < head.len()
            invariant
                1 <= i <= head@.len(),
                hv == head@.map_values(|s: String| s@),
                hv == self@.head,
                out@.map_values(|s: String| s@) == hv.drop_first().take(i - 1),
            decreases head@.len() - i,
        {
            let ghost old_out = out@;
            out.push(head[i].clone());
            proof {
                assert(out@.map_values(|s: String| s@) =~= old_out.map_values(|s: String| s@).push(
                    head@[i as int]@,
                ));
                assert(hv.drop_first().take(i as int) =~= hv.drop_first().take(i - 1).push(
                    hv[i as int],
                ));
            }
            i = i + 1;
        }
        proof {
            assert(hv.drop_first().take(head@.len() - 1) =~= hv.drop_first());
        }
        Ok(out)
    }

    /// Reads the body of the table into cells, as `table_spec` describes it.
    ///
    /// Where the table has a shape that the parser does not expect, the outcome
    /// says so in place of cells.
    pub fn try_parse_body(&self) -> (res: BodyParse)
        ensures
            body_parse_matches(res, table_spec(self@)),
    {
        let years = match self.years() {
            Ok(y) => y,
            Err(e) => return BodyParse::Failed(e),
        };
        let ghost ys = years@.map_values(|s: String| s@);
        let ghost t = self@;
        let nyears = years.len();
        let rows = &self.root.rows;
        let ghost rv = rows@.map_values(|r: RowElement| r@);
        assert(rv == t.rows);
        assert(years_spec(t.head) == Some(ys));

        let mut dep1: Option<String> = None;
        let mut dep2: Option<String> = None;
        let mut year_index: usize = 0;
        let mut cells: Vec<Cell> = Vec::new();

        let ghost mut st = initial_state();
        let mut i: usize = 0;
        while i < rows.len()
            invariant
                i <= rows@.len(),
                t == self@,
                years_spec(t.head) == Some(ys),
                nyears == ys.len(),
                ys == years@.map_values(|s: String| s@),
                rv == rows@.map_values(|r: RowElement| r@),
                rv == t.rows,
                year_index < nyears || nyears == 0 && year_index == 0,
                rows_step(initial_state(), ys, rv.take(i as int)) == Step::Continue(st),
                st.dep1 == opt_view(dep1),
                st.dep2 == opt_view(dep2),
                st.year_index == year_index as nat,
                st.cells == cells_view(cells@),
            decreases rows@.len() - i,
        {
            let row = &rows[i];
            let ghost before = st;
            proof {
                assert(rv.take(i + 1).drop_last() =~= rv.take(i as int));
                assert(rv.take(i + 1).last() == row@);
                reveal_strlit("dep1");
                reveal_strlit("dep2");
                assert("dep1"@ =~= dep1_class());
                assert("dep2"@ =~= dep2_class());
            }
            let kind = match &row.class {
                None => RowKind::Plain,
                Some(c) => {
                    if str_eq(c.as_str(), "dep1") {
                        RowKind::Dep1
                    } else if str_eq(c.as_str(), "dep2") {
                        RowKind::Dep2
                    } else {
                        proof {
                            lemma_row_stops(t, ys, i as int, before);
                        }
                        return BodyParse::Unexpected("Unexpected row class");
                    }
                },
            };
            assert(row_kind(row@.class) == Some(kind));
            let mut account: Option<String> = None;
            let ghost cv = row.cells@.map_values(|c: CellElement| c@);
            let ghost start = ParseState { account: None, ..st };
            proof {
                st = start;
            }
            let mut j: usize = 0;
            while j < row.cells.len()
                invariant
                    j <= row.cells@.len(),
                    i < rows@.len(),
                    t == self@,
                    row == &rows@[i as int],
                    years_spec(t.head) == Some(ys),
                    rv == t.rows,
                    rv == rows@.map_values(|r: RowElement| r@),
                    rv[i as int] == row@,
                    rows_step(initial_state(), ys, rv.take(i as int)) == Step::Continue(before),
                    row_kind(row@.class) == Some(kind),
                    start == (ParseState { account: None, ..before }),
                    nyears == ys.len(),
                    ys == years@.map_values(|s: String| s@),
                    cv == row.cells@.map_values(|c: CellElement| c@),
                    cv == row@.cells,
                    year_index < nyears || nyears == 0 && year_index == 0,
                    cells_step(start, ys, kind, cv.take(j as int)) == Step::Continue(st),
                    st.dep1 == opt_view(dep1),
                    st.dep2 == opt_view(dep2),
                    st.account == opt_view(account),
                    st.year_index == year_index as nat,
                    st.cells == cells_view(cells@),
                decreases row.cells@.len() - j,
            {
                let cell = &row.cells[j];
                proof {
                    assert(cv.take(j + 1).drop_last() =~= cv.take(j as int));
                    assert(cv.take(j + 1).last() == cell@);
                    assert(cv[j as int] == cell@);
                    reveal_strlit("th");
                    reveal_strlit("td");
                    assert("th"@ =~= th_name());
                    assert("td"@ =~= td_name());
                }
                if str_eq(cell.name.as_str(), "th") {
                    let text = cell.text.clone();
                    match kind {
                        RowKind::Dep1 => {
                            account = Some(text.clone());
                            dep1 = Some(text);
                            dep2 = None;
                        },
                        RowKind::Dep2 => {
                            account = Some(text.clone());
                            dep2 = Some(text);
                        },
                        RowKind::Plain => {
                            account = Some(text);
                        },
                    }
                    proof {
                        st = cell_step(st, ys, kind, cell@)->Continue_0;
                    }
                } else if str_eq(cell.name.as_str(), "td") {
                    if nyears == 0 {
                        proof {
                            lemma_cell_stops(t, ys, i as int, before, kind, j as int, st);
                        }
                        return BodyParse::Unexpected("Year not found");
                    }
                    let d1 = match &dep1 {
                        Some(d) => d.clone(),
                        None => {
                            proof {
                                lemma_cell_stops(t, ys, i as int, before, kind, j as int, st);
                            }
                            return BodyParse::Unexpected("dep1 not found");
                        },
                    };
                    let d2 = match kind {
                        RowKind::Dep1 => None,
                        _ => match &dep2 {
                            Some(d) => Some(d.clone()),
                            None => {
                                proof {
                                    lemma_cell_stops(t, ys, i as int, before, kind, j as int, st);
                                }
                                return BodyParse::Unexpected("dep2 not found");
                            },
                        },
                    };
                    let acc = match &account {
                        Some(a) => a.clone(),
                        None => {
                            proof {
                                lemma_cell_stops(t, ys, i as int, before, kind, j as int, st);
                            }
                            return BodyParse::Unexpected("Account not found");
                        },
                    };
                    let v = match parse_comma_sep_digit(cell.text.as_str()) {
                        Ok(v) => v,
                        Err(e) => {
                            proof {
                                lemma_cell_stops(t, ys, i as int, before, kind, j as int, st);
                            }
                            return BodyParse::Failed(e);
                        },
                    };
                    let v64 = v as u64;
                    if v64 > 9223372036854775807u64 {
                        proof {
                            lemma_cell_stops(t, ys, i as int, before, kind, j as int, st);
                        }
                        return BodyParse::Failed(
                            SmesError::Conversion(
                                ConversionError::TypeConversion(
                                    TypeConversionError::new("number too large for i64".to_owned()),
                                ),
                            ),
                        );
                    }
                    let level = match kind {
                        RowKind::Plain => Level::Actual,
                        _ => Level::Group,
                    };
                    let new_cell = Cell {
                        level,
                        dep1: Some(d1),
                        dep2: d2,
                        account: acc,
                        year: years[year_index].clone(),
                        value: v64 as i64,
                    };
                    let ghost old_cells = cells@;
                    cells.push(new_cell);
                    year_index = if year_index + 1 == nyears {
                        0
                    } else {
                        year_index + 1
                    };
                    proof {
                        assert(cells_view(cells@) =~= cells_view(old_cells).push(new_cell@));
                        assert(comma_sep_digit_spec(cell@.1) == Some(v));
                        vstd::arithmetic::div_mod::lemma_small_mod(st.year_index, ys.len());
                        if st.year_index + 1 == ys.len() {
                            vstd::arithmetic::div_mod::lemma_mod_self_0(ys.len() as int);
                        } else {
                            vstd::arithmetic::div_mod::lemma_small_mod(
                                (st.year_index + 1) as nat,
                                ys.len(),
                            );
                        }
                        assert(ys[st.year_index as int] == new_cell@.year);
                        assert(new_cell@.value == v as i64);
                        assert(new_cell@.account == st.account.unwrap());
                        assert(new_cell@.dep1 == st.dep1);
                        let expected = cell_step(st, ys, kind, cell@);
                        assert(expected is Continue);
                        assert(expected->Continue_0.cells == cells_view(cells@));
                        assert(expected->Continue_0.year_index == year_index as nat);
                        st = cell_step(st, ys, kind, cell@)->Continue_0;
                    }
                } else {
                    proof {
                        lemma_cell_stops(t, ys, i as int, before, kind, j as int, st);
                    }
                    return BodyParse::Unexpected("Unexpected element");
                }
                j = j + 1;
            }
            proof {
                assert(cv.take(cv.len() as int) =~= cv);
            }
            i = i + 1;
        }
        proof {
            assert(rv.take(rv.len() as int) =~= rv);
        }
        BodyParse::Cells(cells)
    }

    /// Reads the body of the table into cells: one cell per value cell of a body
    /// row, in document order, as `table_spec` describes it.
    pub fn parse_body(&self) -> (res: Result<Vec<Cell>, SmesError>)
        requires
            !(table_spec(self@) is Unexpected),
        ensures
            match table_spec(self@) {
                Step::Continue(v) => res matches Ok(cs) && cells_view(cs@) == v,
                Step::Fail(f) => res matches Err(e) && reports(e, f),
                Step::Unexpected => false,
            },
    {
        match self.try_parse_body() {
            BodyParse::Cells(cs) => Ok(cs),
            BodyParse::Failed(e) => Err(e),
            BodyParse::Unexpected(_) => Err(
                SmesError::Invariant(InvariantError { message: "Unexpected table shape".to_owned() }),
            ),
        }
    }
}

// endregion

// region: laws of the parser

/// The number of value (`td`) cells among `cells`.
pub open spec fn value_cell_count(cells: Seq<(Seq<char>, Seq<char>)>) -> nat
    decreases cells.len(),
{
    if cells.len() == 0 {
        0
    } else {
        value_cell_count(cells.drop_last()) + if cells.last().0 == td_name() {
            1nat
        } else {
            0nat
        }
    }
}

/// The number of value (`td`) cells in the body rows.
pub open spec fn body_value_cell_count(rows: Seq<RowView>) -> nat
    decreases rows.len(),
{
    if rows.len() == 0 {
        0
    } else {
        body_value_cell_count(rows.drop_last()) + value_cell_count(rows.last().cells)
    }
}

/// What holds of every parsed cell: it has a group; an account cell also has a
/// sub-group; and the `k`-th cell has the `k`-th year, counting the years round.
pub open spec fn well_placed(cells: Seq<CellView>, years: Seq<Seq<char>>) -> bool {
    forall|k: int|
        #![trigger cells[k]]
        0 <= k < cells.len() ==> {
            &&& cells[k].dep1 is Some
            &&& cells[k].level is Actual ==> cells[k].dep2 is Some
            &&& cells[k].year == years[k % years.len() as int]
        }
}

spec fn state_ok(st: ParseState, years: Seq<Seq<char>>) -> bool {
    &&& years.len() > 0 ==> st.year_index == st.cells.len() % years.len()
    &&& years.len() == 0 ==> st.cells.len() == 0
    &&& well_placed(st.cells, years)
}

proof fn lemma_cell_step_ok(
    st: ParseState,
    years: Seq<Seq<char>>,
    kind: RowKind,
    cell: (Seq<char>, Seq<char>),
)
    requires
        state_ok(st, years),
    ensures
        cell_step(st, years, kind, cell) matches Step::Continue(s) ==> state_ok(s, years)
            && s.cells.len() == st.cells.len() + (if cell.0 == td_name() {
            1nat
        } else {
            0nat
        }),
{
    if cell_step(st, years, kind, cell) is Continue && cell.0 != th_name() && years.len() > 0 {
        let s = cell_step(st, years, kind, cell)->Continue_0;
        let n = st.cells.len() as int;
        let m = years.len() as int;
        vstd::arithmetic::div_mod::lemma_add_mod_noop(n, 1, m);
        if m > 1 {
            vstd::arithmetic::div_mod::lemma_small_mod(1, m as nat);
        } else {
            vstd::arithmetic::div_mod::lemma_mod_self_0(1);
        }
        vstd::arithmetic::div_mod::lemma_mod_bound(n, m);
        if st.year_index + 1 == m {
            vstd::arithmetic::div_mod::lemma_mod_self_0(m);
        } else {
            vstd::arithmetic::div_mod::lemma_small_mod((st.year_index + 1) as nat, m as nat);
        }
        vstd::arithmetic::div_mod::lemma_small_mod(st.year_index, m as nat);
        assert forall|k: int| 0 <= k < s.cells.len() implies {
            &&& #[trigger] s.cells[k].dep1 is Some
            &&& s.cells[k].level is Actual ==> s.cells[k].dep2 is Some
            &&& s.cells[k].year == years[k % m]
        } by {
            if k < n {
                assert(s.cells[k] == st.cells[k]);
            }
        }
    }
}

proof fn lemma_cells_step_ok(
    st: ParseState,
    years: Seq<Seq<char>>,
    kind: RowKind,
    cells: Seq<(Seq<char>, Seq<char>)>,
)
    requires
        state_ok(st, years),
    ensures
        cells_step(st, years, kind, cells) matches Step::Continue(s) ==> state_ok(s, years)
            && s.cells.len() == st.cells.len() + value_cell_count(cells),
    decreases cells.len(),
{
    if cells.len() > 0 {
        lemma_cells_step_ok(st, years, kind, cells.drop_last());
        if let Step::Continue(s) = cells_step(st, years, kind, cells.drop_last()) {
            lemma_cell_step_ok(s, years, kind, cells.last());
        }
    }
}

proof fn lemma_rows_step_ok(st: ParseState, years: Seq<Seq<char>>, rows: Seq<RowView>)
    requires
        state_ok(st, years),
    ensures
        rows_step(st, years, rows) matches Step::Continue(s) ==> state_ok(s, years)
            && s.cells.len() == st.cells.len() + body_value_cell_count(rows),
    decreases rows.len(),
{
    if rows.len() > 0 {
        lemma_rows_step_ok(st, years, rows.drop_last());
        if let Step::Continue(s) = rows_step(st, years, rows.drop_last()) {
            if let Some(kind) = row_kind(rows.last().class) {
                lemma_cells_step_ok(ParseState { account: None, ..s }, years, kind, rows.last().cells);
            }
        }
    }
}

/// A table that parses gives one cell per value cell of its body; every cell has
/// a group, an account cell also a sub-group, and the values of a row take the
/// years in turn, starting over after the last year.
pub proof fn lemma_parsed_table(t: TableView)
    ensures
        table_spec(t) matches Step::Continue(cells) ==> {
            &&& cells.len() == body_value_cell_count(t.rows)
            &&& well_placed(cells, t.head.drop_first())
        },
{
    if let Some(ys) = years_spec(t.head) {
        assert(state_ok(initial_state(), ys));
        lemma_rows_step_ok(initial_state(), ys, t.rows);
    }
}

// endregion

// region: which group a value belongs to

/// A cell of the body as the rows give it, in document order: its row, whether
/// the row is a group (`dep1`) or a sub-group (`dep2`) row, and the cell's
/// element name and text.
pub struct BodyEntry {
    pub row: nat,
    pub group: bool,
    pub sub: bool,
    pub name: Seq<char>,
    pub text: Seq<char>,
}

/// Whether a row's class makes it a group (`dep1`) row.
pub open spec fn is_group_class(class: Option<Seq<char>>) -> bool {
    class == Some(seq!['d', 'e', 'p', '1'])
}

/// Whether a row's class makes it a sub-group (`dep2`) row.
pub open spec fn is_sub_class(class: Option<Seq<char>>) -> bool {
    class == Some(seq!['d', 'e', 'p', '2'])
}

/// The entries of the cells `cells` of row `row`.
pub open spec fn row_entries(
    row: nat,
    group: bool,
    sub: bool,
    cells: Seq<(Seq<char>, Seq<char>)>,
) -> Seq<BodyEntry> {
    cells.map_values(
        |c: (Seq<char>, Seq<char>)| BodyEntry { row, group, sub, name: c.0, text: c.1 },
    )
}

/// The entries of every cell of the body rows, row after row.
pub open spec fn body_entries(rows: Seq<RowView>) -> Seq<BodyEntry>
    decreases rows.len(),
{
    if rows.len() == 0 {
        Seq::empty()
    } else {
        body_entries(rows.drop_last()) + row_entries(
            (rows.len() - 1) as nat,
            is_group_class(rows.last().class),
            is_sub_class(rows.last().class),
            rows.last().cells,
        )
    }
}

/// The text of the last group heading (the `th` of a group row) among `es`.
pub open spec fn last_group(es: Seq<BodyEntry>) -> Option<Seq<char>>
    decreases es.len(),
{
    if es.len() == 0 {
        None
    } else if es.last().group && es.last().name == seq!['t', 'h'] {
        Some(es.last().text)
    } else {
        last_group(es.drop_last())
    }
}

/// The text of the last sub-group heading (the `th` of a sub-group row) among
/// `es` after the last group heading; `None` where there is none since.
pub open spec fn last_subgroup(es: Seq<BodyEntry>) -> Option<Seq<char>>
    decreases es.len(),
{
    if es.len() == 0 {
        None
    } else if es.last().group && es.last().name == seq!['t', 'h'] {
        None
    } else if es.last().sub && es.last().name == seq!['t', 'h'] {
        Some(es.last().text)
    } else {
        last_subgroup(es.drop_last())
    }
}

/// The text of the last heading (`th`) of row `r` among `es`.
pub open spec fn last_heading(es: Seq<BodyEntry>, r: nat) -> Option<Seq<char>>
    decreases es.len(),
{
    if es.len() == 0 {
        None
    } else if es.last().row == r && es.last().name == seq!['t', 'h'] {
        Some(es.last().text)
    } else {
        last_heading(es.drop_last(), r)
    }
}

/// The number of value (`td`) entries among `es`.
pub open spec fn value_entries(es: Seq<BodyEntry>) -> nat
    decreases es.len(),
{
    if es.len() == 0 {
        0
    } else {
        value_entries(es.drop_last()) + if es.last().name == seq!['t', 'd'] {
            1nat
        } else {
            0nat
        }
    }
}

/// What holds of the cells read from the entries `es`: the value entry at `p`
/// gives cell number `value_entries(es.take(p))`. Its group is the last group
/// heading before it; its sub-group the last sub-group heading since that group,
/// except in a group row, which has none; its account the last heading of its own
/// row before it (in a group row, the group itself); it is a group cell exactly
/// in group and sub-group rows; and its value is the number its text reads as.
pub open spec fn grouped(cells: Seq<CellView>, es: Seq<BodyEntry>) -> bool {
    forall|p: int|
        #![trigger es[p]]
        0 <= p < es.len() && es[p].name == seq!['t', 'd'] ==> {
            let k = value_entries(es.take(p)) as int;
            &&& 0 <= k < cells.len()
            &&& cells[k].dep1 == last_group(es.take(p))
            &&& cells[k].dep2 == (if es[p].group {
                None
            } else {
                last_subgroup(es.take(p))
            })
            &&& Some(cells[k].account) == last_heading(es.take(p), es[p].row)
            &&& es[p].group ==> cells[k].dep1 == Some(cells[k].account)
            &&& (cells[k].level is Group <==> (es[p].group || es[p].sub))
            &&& comma_sep_digit_spec(es[p].text) == Some(cells[k].value as usize)
        }
}

proof fn lemma_value_entries_prefix(es: Seq<BodyEntry>, p: int)
    requires
        0 <= p < es.len(),
        es[p].name == seq!['t', 'd'],
    ensures
        value_entries(es.take(p)) < value_entries(es),
    decreases es.len(),
{
    if p == es.len() - 1 {
        assert(es.drop_last() =~= es.take(p));
    } else {
        assert(es.drop_last().take(p) =~= es.take(p));
        lemma_value_entries_prefix(es.drop_last(), p);
    }
}

proof fn lemma_no_heading(es: Seq<BodyEntry>, r: nat)
    requires
        forall|i: int| 0 <= i < es.len() ==> #[trigger] es[i].row < r,
    ensures
        last_heading(es, r) is None,
    decreases es.len(),
{
    if es.len() > 0 {
        lemma_no_heading(es.drop_last(), r);
    }
}

/// What the parser state says of the entries `es` read so far, within row `r`
/// of kind `kind`.
spec fn state_grouped(st: ParseState, es: Seq<BodyEntry>, r: nat, kind: RowKind) -> bool {
    &&& st.dep1 == last_group(es)
    &&& st.dep2 == last_subgroup(es)
    &&& st.account == last_heading(es, r)
    &&& st.cells.len() == value_entries(es)
    &&& grouped(st.cells, es)
    &&& forall|i: int| 0 <= i < es.len() ==> #[trigger] es[i].row <= r
    &&& (kind is Dep1 && st.account is Some) ==> st.dep1 == st.account
}

proof fn lemma_cell_grouped(
    st: ParseState,
    es: Seq<BodyEntry>,
    r: nat,
    years: Seq<Seq<char>>,
    kind: RowKind,
    cell: (Seq<char>, Seq<char>),
)
    requires
        state_grouped(st, es, r, kind),
    ensures
        cell_step(st, years, kind, cell) matches Step::Continue(s) ==> state_grouped(
            s,
            es.push(
                BodyEntry {
                    row: r,
                    group: kind is Dep1,
                    sub: kind is Dep2,
                    name: cell.0,
                    text: cell.1,
                },
            ),
            r,
            kind,
        ),
{
    let e = BodyEntry { row: r, group: kind is Dep1, sub: kind is Dep2, name: cell.0, text: cell.1 };
    let es2 = es.push(e);
    assert(es2.drop_last() =~= es);
    assert(th_name() == seq!['t', 'h']);
    assert(td_name() == seq!['t', 'd']);
    assert(seq!['t', 'h'][1] != seq!['t', 'd'][1]);
    if let Step::Continue(s) = cell_step(st, years, kind, cell) {
        assert forall|i: int| 0 <= i < es2.len() implies #[trigger] es2[i].row <= r by {
            if i < es.len() {
                assert(es2[i] == es[i]);
            }
        }
        assert forall|p: int|
            #![trigger es2[p]]
            0 <= p < es2.len() && es2[p].name == seq!['t', 'd'] implies {
            let k = value_entries(es2.take(p)) as int;
            &&& 0 <= k < s.cells.len()
            &&& s.cells[k].dep1 == last_group(es2.take(p))
            &&& s.cells[k].dep2 == (if es2[p].group {
                None
            } else {
                last_subgroup(es2.take(p))
            })
            &&& Some(s.cells[k].account) == last_heading(es2.take(p), es2[p].row)
            &&& es2[p].group ==> s.cells[k].dep1 == Some(s.cells[k].account)
            &&& (s.cells[k].level is Group <==> (es2[p].group || es2[p].sub))
            &&& comma_sep_digit_spec(es2[p].text) == Some(s.cells[k].value as usize)
        } by {
            if p < es.len() {
                assert(es2.take(p) =~= es.take(p));
                assert(es2[p] == es[p]);
                lemma_value_entries_prefix(es, p);
                let k = value_entries(es.take(p)) as int;
                assert(s.cells[k] == st.cells[k]);
            } else {
                assert(es2.take(p) =~= es);
            }
        }
    }
}

proof fn lemma_cells_grouped(
    st: ParseState,
    es: Seq<BodyEntry>,
    r: nat,
    years: Seq<Seq<char>>,
    kind: RowKind,
    cells: Seq<(Seq<char>, Seq<char>)>,
)
    requires
        state_grouped(st, es, r, kind),
    ensures
        cells_step(st, years, kind, cells) matches Step::Continue(s) ==> state_grouped(
            s,
            es + row_entries(r, kind is Dep1, kind is Dep2, cells),
            r,
            kind,
        ),
    decreases cells.len(),
{
    if cells.len() == 0 {
        assert(es + row_entries(r, kind is Dep1, kind is Dep2, cells) =~= es);
    } else {
        lemma_cells_grouped(st, es, r, years, kind, cells.drop_last());
        if let Step::Continue(s0) = cells_step(st, years, kind, cells.drop_last()) {
            let es0 = es + row_entries(r, kind is Dep1, kind is Dep2, cells.drop_last());
            lemma_cell_grouped(s0, es0, r, years, kind, cells.last());
            assert(es0.push(
                BodyEntry {
                    row: r,
                    group: kind is Dep1,
                    sub: kind is Dep2,
                    name: cells.last().0,
                    text: cells.last().1,
                },
            ) =~= es + row_entries(r, kind is Dep1, kind is Dep2, cells));
        }
    }
}

proof fn lemma_rows_grouped(years: Seq<Seq<char>>, rows: Seq<RowView>)
    ensures
        rows_step(initial_state(), years, rows) matches Step::Continue(s) ==> {
            &&& s.dep1 == last_group(body_entries(rows))
            &&& s.dep2 == last_subgroup(body_entries(rows))
            &&& s.cells.len() == value_entries(body_entries(rows))
            &&& grouped(s.cells, body_entries(rows))
            &&& forall|i: int|
                0 <= i < body_entries(rows).len() ==> #[trigger] body_entries(rows)[i].row
                    < rows.len()
        },
    decreases rows.len(),
{
    if rows.len() > 0 {
        lemma_rows_grouped(years, rows.drop_last());
        if let Step::Continue(s0) = rows_step(initial_state(), years, rows.drop_last()) {
            let es = body_entries(rows.drop_last());
            let r = (rows.len() - 1) as nat;
            if let Some(kind) = row_kind(rows.last().class) {
                let st = ParseState { account: None, ..s0 };
                lemma_no_heading(es, r);
                assert(is_group_class(rows.last().class) == kind is Dep1 && is_sub_class(
                    rows.last().class,
                ) == kind is Dep2) by {
                    assert(dep1_class() == seq!['d', 'e', 'p', '1']);
                    assert(dep2_class() == seq!['d', 'e', 'p', '2']);
                    assert(seq!['d', 'e', 'p', '1'][3] != seq!['d', 'e', 'p', '2'][3]);
                }
                assert(state_grouped(st, es, r, kind));
                lemma_cells_grouped(st, es, r, years, kind, rows.last().cells);
                assert(body_entries(rows) == es + row_entries(
                    r,
                    kind is Dep1,
                    kind is Dep2,
                    rows.last().cells,
                ));
            }
        }
    } else {
        assert(body_entries(rows) =~= Seq::<BodyEntry>::empty());
    }
}

/// Every value of a table that parses belongs to the group opened by the nearest
/// group (`dep1`) heading above it and to the sub-group (`dep2`) opened since
/// (none in a group row), to the account named by the last heading of its own
/// row (in a group row, the group itself); it is a group cell exactly in group
/// and sub-group rows, and its value is what its text reads as. Value entry `p` of
/// the body gives cell number `value_entries(es.take(p))`.
pub proof fn lemma_parsed_groups(t: TableView)
    ensures
        table_spec(t) matches Step::Continue(cells) ==> grouped(cells, body_entries(t.rows)),
{
    if let Some(ys) = years_spec(t.head) {
        lemma_rows_grouped(ys, t.rows);
    }
}

// endregion

} // verus!
