//! Reading HTML with `scraper` and `minify_html`: the company page's contents
//! and the tables in it.
use vstd::prelude::*;
use vstd::utf8::{decode_utf8, valid_utf8};
use crate::error::{ConversionError, InvariantError, SelectorError, SmesError};
use crate::parser::{join_text_nodes, joined, CellElement, RowElement, TableElement};

verus! {

// region: trusted calls

/// An element selected in a fragment: the value of one of its attributes, its
/// text pieces, and the name and text pieces of each child element.
pub struct SelectedElement {
    pub attr: Option<String>,
    pub text: Vec<String>,
    pub children: Vec<(String, Vec<String>)>,
}

/// A selected element as a mathematical value.
pub struct SelectedView {
    pub attr: Option<Seq<char>>,
    pub text: Seq<Seq<char>>,
    pub children: Seq<(Seq<char>, Seq<Seq<char>>)>,
}

pub open spec fn texts_view(v: Seq<String>) -> Seq<Seq<char>> {
    v.map_values(|s: String| s@)
}

impl View for SelectedElement {
    type V = SelectedView;

    open spec fn view(&self) -> SelectedView {
        SelectedView {
            attr: match self.attr {
                Some(a) => Some(a@),
                None => None,
            },
            text: texts_view(self.text@),
            children: self.children@.map_values(
                |c: (String, Vec<String>)| (c.0@, texts_view(c.1@)),
            ),
        }
    }
}

/// What `scraper` selects with `selector` in the fragment `fragment`
/// (`Html::parse_fragment`, `Selector::parse`, `Html::select`), reading the
/// attribute `attr`; or the selector's error message.
pub uninterp spec fn fragment_selection(
    fragment: Seq<char>,
    selector: Seq<char>,
    attr: Seq<char>,
) -> Result<Seq<SelectedView>, Seq<char>>;

/// What `scraper` selects with `selector` in the document `document`
/// (`Html::parse_document`, `Selector::parse`, `Html::select`): for each element,
/// in document order, its outer HTML and its `Debug` form (the start tag); or the
/// selector's error message.
pub uninterp spec fn document_selection(document: Seq<char>, selector: Seq<char>) -> Result<
    Seq<(Seq<char>, Seq<char>)>,
    Seq<char>,
>;

/// Pairs of strings as mathematical values.
pub open spec fn pairs_view(v: Seq<(String, String)>) -> Seq<(Seq<char>, Seq<char>)> {
    v.map_values(|p: (String, String)| (p.0@, p.1@))
}

/// What `minify_html::minify` makes of `html` with the default (spec-compliant)
/// configuration.
pub uninterp spec fn minified_html(html: Seq<u8>) -> Seq<u8>;

/// Selects with `scraper` in a fragment and reads each match.
///
/// Trusted: the result is `fragment_selection(fragment, selector, attr)`.
#[verifier::external_body]
fn select_in_fragment(fragment: &str, selector: &str, attr: &str) -> (res: Result<
    Vec<SelectedElement>,
    SelectorError,
>)
    ensures
        match fragment_selection(fragment@, selector@, attr@) {
            Ok(v) => res matches Ok(r) && r@.map_values(|e: SelectedElement| e@) == v,
            Err(m) => res matches Err(e) && e.message@ == m,
        },
{
    let selector = match scraper::Selector::parse(selector) {
        Ok(s) => s,
        Err(e) => return Err(SelectorError { message: e.to_string() }),
    };
    let html = scraper::Html::parse_fragment(fragment);
    Ok(html.select(&selector).map(|el| SelectedElement {
        attr: el.attr(attr).map(str::to_owned),
        text: el.text().map(str::to_owned).collect(),
        children: el.child_elements().map(|c| (c.value().name().to_owned(), c.text().map(str::to_owned).collect())).collect(),
    }).collect())
}

/// Selects with `scraper` in a document and gives each match's outer HTML and
/// `Debug` form.
///
/// Trusted: the result is `document_selection(document, selector)`.
#[verifier::external_body]
fn select_in_document(document: &str, selector: &str) -> (res: Result<
    Vec<(String, String)>,
    SelectorError,
>)
    ensures
        match document_selection(document@, selector@) {
            Ok(v) => res matches Ok(r) && pairs_view(r@) == v,
            Err(m) => res matches Err(e) && e.message@ == m,
        },
{
    let selector = match scraper::Selector::parse(selector) {
        Ok(s) => s,
        Err(e) => return Err(SelectorError { message: e.to_string() }),
    };
    let html = scraper::Html::parse_document(document);
    Ok(html.select(&selector).map(|el| (el.html(), format!("{:?}", el))).collect())
}

/// `minify_html::minify(html, &Cfg::new())`.
///
/// Trusted: the result is `minified_html(html)`.
#[verifier::external_body]
fn minify(html: &[u8]) -> (res: Vec<u8>)
    ensures
        res@ == minified_html(html@),
{
    minify_html::minify(html, &minify_html::Cfg::new())
}

/// `std::str::from_utf8`: the text of valid UTF-8 bytes.
#[verifier::external_body]
pub(crate) fn str_from_utf8(bytes: &[u8]) -> (res: Result<&str, std::str::Utf8Error>)
    ensures
        res is Ok <==> valid_utf8(bytes@),
        res matches Ok(s) ==> s@ == decode_utf8(bytes@),
{
    std::str::from_utf8(bytes)
}

// endregion

// region: selecting texts

/// Whether `e` is the error that the library reports for a selector error `m`.
pub open spec fn selector_error(e: SmesError, m: Seq<char>) -> bool {
    e matches SmesError::Scraper(s) && s.message@ == m
}

/// The text of each element that `selector` selects in the fragment `html`.
pub fn select_texts(html: &str, selector: &str) -> (res: Result<Vec<String>, SmesError>)
    ensures
        match fragment_selection(html@, selector@, seq!['c', 'l', 'a', 's', 's']) {
            Ok(v) => res matches Ok(r) && r@.len() == v.len() && forall|i: int|
                0 <= i < v.len() ==> #[trigger] r@[i]@ == joined(v[i].text),
            Err(m) => res matches Err(e) && selector_error(e, m),
        },
{
    proof {
        reveal_strlit("class");
        assert("class"@ =~= seq!['c', 'l', 'a', 's', 's']);
    }
    let selected = match select_in_fragment(html, selector, "class") {
        Ok(v) => v,
        Err(e) => return Err(SmesError::Scraper(e)),
    };
    let ghost sv = selected@.map_values(|e: SelectedElement| e@);
    let mut out: Vec<String> = Vec::new();
    let mut i: usize = 0;
    while i < selected.len()
        invariant
            i <= selected@.len(),
            sv == selected@.map_values(|e: SelectedElement| e@),
            out@.len() == i,
            forall|k: int| 0 <= k < i ==> #[trigger] out@[k]@ == joined(sv[k].text),
        decreases selected@.len() - i,
    {
        out.push(join_text_nodes(selected[i].text.as_slice()));
        i = i + 1;
    }
    Ok(out)
}

// endregion

// region: tables

/// The name of the attribute that classifies rows.
pub open spec fn class_attr() -> Seq<char> {
    seq!['c', 'l', 'a', 's', 's']
}

/// The header cell selector, `thead>tr>th`.
pub open spec fn head_selector() -> Seq<char> {
    seq!['t', 'h', 'e', 'a', 'd', '>', 't', 'r', '>', 't', 'h']
}

/// The body row selector, `tbody>tr`.
pub open spec fn row_selector() -> Seq<char> {
    seq!['t', 'b', 'o', 'd', 'y', '>', 't', 'r']
}

/// A row as the parser reads it, from a selected row element: its class and the
/// name and joined text of each child element.
pub open spec fn row_of(e: SelectedView) -> crate::parser::RowView {
    crate::parser::RowView {
        class: e.attr,
        cells: e.children.map_values(
            |c: (Seq<char>, Seq<Seq<char>>)| (c.0, joined(c.1)),
        ),
    }
}

/// The table that the selected header cells and body rows make.
pub open spec fn table_of(head: Seq<SelectedView>, rows: Seq<SelectedView>) -> crate::parser::TableView {
    crate::parser::TableView {
        head: head.map_values(|e: SelectedView| joined(e.text)),
        rows: rows.map_values(|e: SelectedView| row_of(e)),
    }
}

impl TableElement {
    /// The table that selected header cells and body rows make: the joined text of
    /// each header cell, and for each row its class and the name and joined text of
    /// each child element.
    pub fn from_selected(head: &Vec<SelectedElement>, rows: &Vec<SelectedElement>) -> (res: Self)
        ensures
            res@ == table_of(
                head@.map_values(|e: SelectedElement| e@),
                rows@.map_values(|e: SelectedElement| e@),
            ),
    {
        let ghost hv = head@.map_values(|e: SelectedElement| e@);
        let ghost rv = rows@.map_values(|e: SelectedElement| e@);
        let mut head_texts: Vec<String> = Vec::new();
        let mut i: usize = 0;
        while i < head.len()
            invariant
                i <= head@.len(),
                hv == head@.map_values(|e: SelectedElement| e@),
                head_texts@.len() == i,
                forall|k: int| 0 <= k < i ==> #[trigger] head_texts@[k]@ == joined(hv[k].text),
            decreases head@.len() - i,
        {
            head_texts.push(join_text_nodes(head[i].text.as_slice()));
            i = i + 1;
        }
        let mut out_rows: Vec<RowElement> = Vec::new();
        let mut r: usize = 0;
        while r < rows.len()
            invariant
                r <= rows@.len(),
                rv == rows@.map_values(|e: SelectedElement| e@),
                out_rows@.len() == r,
                forall|k: int| 0 <= k < r ==> #[trigger] out_rows@[k]@ == row_of(rv[k]),
            decreases rows@.len() - r,
        {
            let row = &rows[r];
            let ghost cv = rv[r as int].children;
            let mut cells: Vec<CellElement> = Vec::new();
            let mut c: usize = 0;
            while c < row.children.len()
                invariant
                    c <= row.children@.len(),
                    r < rows@.len(),
                    row == &rows@[r as int],
                    rv == rows@.map_values(|e: SelectedElement| e@),
                    cv == rv[r as int].children,
                    cv.len() == row.children@.len(),
                    cells@.len() == c,
                    forall|k: int|
                        0 <= k < c ==> #[trigger] cells@[k]@ == (cv[k].0, joined(cv[k].1)),
                decreases row.children@.len() - c,
            {
                let child = &row.children[c];
                cells.push(
                    CellElement { name: child.0.clone(), text: join_text_nodes(child.1.as_slice()) },
                );
                c = c + 1;
            }
            let class = match &row.attr {
                Some(a) => Some(a.clone()),
                None => None,
            };
            let new_row = RowElement { class, cells };
            proof {
                assert(new_row@.cells =~= cv.map_values(
                    |c: (Seq<char>, Seq<Seq<char>>)| (c.0, joined(c.1)),
                ));
                assert(new_row@ == row_of(rv[r as int]));
            }
            out_rows.push(new_row);
            r = r + 1;
        }
        let res = TableElement { head: head_texts, rows: out_rows };
        proof {
            assert(res@.head =~= hv.map_values(|e: SelectedView| joined(e.text)));
            assert(res@.rows =~= rv.map_values(|e: SelectedView| row_of(e)));
        }
        res
    }

    /// The table in the HTML fragment `html`: its `thead>tr>th` cells and its
    /// `tbody>tr` rows, as `scraper` selects them.
    pub fn from_html(html: &str) -> (res: Result<Self, SmesError>)
        ensures
            match (
                fragment_selection(html@, head_selector(), class_attr()),
                fragment_selection(html@, row_selector(), class_attr()),
            ) {
                (Ok(h), Ok(r)) => res matches Ok(t) && t@ == table_of(h, r),
                (Err(m), _) => res matches Err(e) && selector_error(e, m),
                (Ok(_), Err(m)) => res matches Err(e) && selector_error(e, m),
            },
    {
        proof {
            reveal_strlit("class");
            reveal_strlit("thead>tr>th");
            reveal_strlit("tbody>tr");
            assert("class"@ =~= class_attr());
            assert("thead>tr>th"@ =~= head_selector());
            assert("tbody>tr"@ =~= row_selector());
        }
        let head = match select_in_fragment(html, "thead>tr>th", "class") {
            Ok(v) => v,
            Err(e) => return Err(SmesError::Scraper(e)),
        };
        let rows = match select_in_fragment(html, "tbody>tr", "class") {
            Ok(v) => v,
            Err(e) => return Err(SmesError::Scraper(e)),
        };
        Ok(TableElement::from_selected(&head, &rows))
    }
}

// endregion

// region: the company page

/// The selector of the page's contents, `#real_contents`.
pub open spec fn real_contents_selector() -> Seq<char> {
    seq!['#', 'r', 'e', 'a', 'l', '_', 'c', 'o', 'n', 't', 'e', 'n', 't', 's']
}

/// The one `#real_contents` element of a page, given the outer HTML and the
/// `Debug` form of every element that the selector matched: an invariant error
/// where there is none, or where there is more than one, naming the second.
pub fn single_real_contents(selected: Vec<(String, String)>) -> (res: Result<String, SmesError>)
    ensures
        selected@.len() == 1 ==> res == Ok::<String, SmesError>(selected@[0].0),
        selected@.len() == 0 ==> (res matches Err(SmesError::Invariant(e)) && e.message@
            == "Expected at least one element with id 'real_contents'"@),
        selected@.len() > 1 ==> (res matches Err(SmesError::Invariant(e)) && e.message@
            == "Expected only one element with id 'real_contents', but received another "@
            + selected@[1].1@),
{
    let mut selected = selected;
    if selected.len() == 0 {
        Err(
            SmesError::Invariant(
                InvariantError {
                    message: "Expected at least one element with id 'real_contents'".to_owned(),
                },
            ),
        )
    } else if selected.len() > 1 {
        let mut message = "Expected only one element with id 'real_contents', but received another ".to_owned();
        message.append(selected[1].1.as_str());
        Err(SmesError::Invariant(InvariantError { message }))
    } else {
        Ok(selected.remove(0).0)
    }
}

/// The contents of a company page: the page is minified, then cut down to its one
/// `#real_contents` element, whose HTML is the result.
pub fn minify_and_trim_html(html: &[u8]) -> (res: Result<String, SmesError>)
    ensures
        !valid_utf8(minified_html(html@)) ==> (res matches Err(SmesError::Conversion(
            ConversionError::Utf8(_),
        ))),
        valid_utf8(minified_html(html@)) ==> match document_selection(
            decode_utf8(minified_html(html@)),
            real_contents_selector(),
        ) {
            Err(m) => res matches Err(e) && selector_error(e, m),
            Ok(v) => if v.len() == 1 {
                res matches Ok(s) && s@ == v[0].0
            } else if v.len() == 0 {
                res matches Err(SmesError::Invariant(e)) && e.message@
                    == "Expected at least one element with id 'real_contents'"@
            } else {
                res matches Err(SmesError::Invariant(e)) && e.message@
                    == "Expected only one element with id 'real_contents', but received another "@
                    + v[1].1
            },
        },
{
    let minified = minify(html);
    let text = match str_from_utf8(minified.as_slice()) {
        Ok(t) => t,
        Err(e) => return Err(SmesError::Conversion(ConversionError::Utf8(e))),
    };
    proof {
        reveal_strlit("#real_contents");
        assert("#real_contents"@ =~= real_contents_selector());
    }
    let selected = match select_in_document(text, "#real_contents") {
        Ok(v) => v,
        Err(e) => return Err(SmesError::Scraper(e)),
    };
    single_real_contents(selected)
}

// endregion

} // verus!
