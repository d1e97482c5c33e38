use smes::parser::{BodyParse, join_text_nodes, Cell, CellElement, Level, RowElement, Table, TableElement};
use smes::scrape::select_texts;
use smes::SmesError;

fn format_table(rows: Vec<&str>) -> String {
    let rows: String = rows.into_iter().map(|row| row.to_string()).collect();

    format!(
        r#"<table>
    <thead>
    <tr>
        <th scope="col">년도</th>
        <th scope="col">2023</th>
        <th scope="col">2022</th>
        <th scope="col">2021</th>
    </tr>
    </thead>
    <tbody>
    {}
    </tbody>
</table>"#,
        rows
    )
}

const ROW_DEP1: &str = r#"<tr class="dep1">
            <th scope="row">Ⅰ. 유동자산</th>
            <td>543,858,000</td>
            <td>504,274,000</td>
            <td>217,228,000</td>
        </tr>"#;

const ROW_DEP2: &str = r#"<tr class="dep2">
        <th scope="row">1. 당좌자산</th>
        <td>472,608,000</td>
        <td>386,033,000</td>
        <td>217,228,000</td>
    </tr>"#;

const ROW: &str = r#"<tr>
        <th scope="row">(1) 현금 및 현금성자산</th>
        <td>308,131,000</td>
        <td>330,783,000</td>
        <td>163,202,000</td>
    </tr>"#;

const TABLE: &str = r#"<table class="board_write sofp">
    <caption>년도에 따른 유동자산</caption>
    <colgroup>
        <col style="width: auto;">
        <col style="width: 19%;">
        <col style="width: 19%;">
        <col style="width: 19%;">
    </colgroup>
    <thead>
    <tr>
        <th scope="col">년도</th>
        <th scope="col">2023</th>
        <th scope="col">2022</th>
        <th scope="col">2021</th>
    </tr>
    </thead>
    <tbody>
    <tr class="dep1">
        <th scope="row">Ⅰ. 유동자산</th>
        <td>543,858,000</td>
        <td>504,274,000</td>
        <td>217,228,000</td>
    </tr>
    <tr class="dep2">
        <th scope="row">1. 당좌자산</th>
        <td>472,608,000</td>
        <td>386,033,000</td>
        <td>217,228,000</td>
    </tr>
    <tr>
        <th scope="row">(1) 현금 및 현금성자산</th>
        <td>308,131,000</td>
        <td>330,783,000</td>
        <td>163,202,000</td>
    </tr>
    <tr>
        <th scope="row">(2) 단기금융상품</th>
        <td>0</td>
        <td>0</td>
        <td>0</td>
    </tr>
    </tbody>
</table>"#;

fn table_of(html: &str) -> Table {
    Table::new(TableElement::from_html(html).expect("Failed to read table"))
}

fn cell(level: Level, dep1: &str, dep2: Option<&str>, account: &str, year: &str, value: i64) -> Cell {
    Cell {
        level,
        dep1: Some(dep1.to_string()),
        dep2: dep2.map(|d| d.to_string()),
        account: account.to_string(),
        year: year.to_string(),
        value,
    }
}

#[test]
fn dep1_should_parse_as_expected() {
    let table = table_of(&format_table(vec![ROW_DEP1]));

    let cells = table.parse_body().unwrap();

    let expected_dep1_and_account = "Ⅰ. 유동자산".to_string();

    assert_eq!(
        cells,
        vec![
            Cell {
                level: Level::Group,
                dep1: Some(expected_dep1_and_account.clone()),
                dep2: None,
                account: expected_dep1_and_account.clone(),
                year: "2023".to_string(),
                value: 543_858_000
            },
            Cell {
                level: Level::Group,
                dep1: Some(expected_dep1_and_account.clone()),
                dep2: None,
                account: expected_dep1_and_account.clone(),
                year: "2022".to_string(),
                value: 504_274_000
            },
            Cell {
                level: Level::Group,
                dep1: Some(expected_dep1_and_account.clone()),
                dep2: None,
                account: expected_dep1_and_account.clone(),
                year: "2021".to_string(),
                value: 217_228_000
            }
        ]
    );
}

#[test]
fn dep2_should_parse_as_expected() {
    let table = table_of(&format_table(vec![ROW_DEP1, ROW_DEP2]));

    let cells = table.parse_body().unwrap();
    assert_eq!(cells.len(), 6);

    let dep2_cells = cells
        .into_iter()
        .filter(|cell| cell.dep2.is_some())
        .collect::<Vec<_>>();

    let expected_dep1 = "Ⅰ. 유동자산";
    let expected_dep2_and_account = "1. 당좌자산";

    assert_eq!(
        dep2_cells,
        vec![
            cell(Level::Group, expected_dep1, Some(expected_dep2_and_account), expected_dep2_and_account, "2023", 472_608_000),
            cell(Level::Group, expected_dep1, Some(expected_dep2_and_account), expected_dep2_and_account, "2022", 386_033_000),
            cell(Level::Group, expected_dep1, Some(expected_dep2_and_account), expected_dep2_and_account, "2021", 217_228_000),
        ]
    );
}

#[test]
fn no_dep_should_parse_as_expected() {
    let table = table_of(&format_table(vec![ROW_DEP1, ROW_DEP2, ROW]));

    let cells = table.parse_body().unwrap();
    assert_eq!(cells.len(), 9);

    let row_cells = cells
        .into_iter()
        .filter(|cell| matches!(cell.level, Level::Actual))
        .collect::<Vec<_>>();

    let expected_dep1 = "Ⅰ. 유동자산";
    let expected_dep2 = "1. 당좌자산";
    let expected_account = "(1) 현금 및 현금성자산";

    assert_eq!(
        row_cells,
        vec![
            cell(Level::Actual, expected_dep1, Some(expected_dep2), expected_account, "2023", 308_131_000),
            cell(Level::Actual, expected_dep1, Some(expected_dep2), expected_account, "2022", 330_783_000),
            cell(Level::Actual, expected_dep1, Some(expected_dep2), expected_account, "2021", 163_202_000),
        ]
    );
}

#[test]
fn years_should_work_as_expected() {
    let table = table_of(TABLE);
    let years = table.years().unwrap();

    assert_eq!(years, vec!["2023", "2022", "2021"]);
}

#[test]
fn join_text_nodes_should_work() {
    let text_nodes = select_texts("<p>This is <strong>important</strong> text.</p>", "p").unwrap();
    assert_eq!(text_nodes, vec!["This is important text."]);
}

#[test]
fn join_text_nodes_joins_in_order() {
    let pieces = vec!["a".to_string(), "".to_string(), "bc".to_string()];
    assert_eq!(join_text_nodes(&pieces), "abc");
    assert_eq!(join_text_nodes(&[]), "");
}

#[test]
fn whole_table_gives_one_cell_per_value() {
    let cells = table_of(TABLE).parse_body().unwrap();
    assert_eq!(cells.len(), 12);
    let last = cells.last().unwrap();
    assert_eq!(last.account, "(2) 단기금융상품");
    assert_eq!(last.dep2.as_deref(), Some("1. 당좌자산"));
    assert_eq!(last.year, "2021");
    assert_eq!(last.value, 0);
}

fn row(class: Option<&str>, cells: &[(&str, &str)]) -> RowElement {
    RowElement {
        class: class.map(|c| c.to_string()),
        cells: cells
            .iter()
            .map(|(name, text)| CellElement { name: name.to_string(), text: text.to_string() })
            .collect(),
    }
}

fn head(texts: &[&str]) -> Vec<String> {
    texts.iter().map(|t| t.to_string()).collect()
}

#[test]
fn years_take_turns_across_rows() {
    // Two years, three values per row: the years go round.
    let table = Table::new(TableElement {
        head: head(&["년도", "2023", "2022"]),
        rows: vec![row(Some("dep1"), &[("th", "A"), ("td", "1"), ("td", "2"), ("td", "3")])],
    });
    let years: Vec<String> = table.parse_body().unwrap().into_iter().map(|c| c.year).collect();
    assert_eq!(years, vec!["2023", "2022", "2023"]);
}

#[test]
fn no_header_is_an_error() {
    let table = Table::new(TableElement { head: vec![], rows: vec![] });
    assert!(matches!(table.years(), Err(SmesError::HtmlParse(_))));
    assert!(matches!(table.parse_body(), Err(SmesError::HtmlParse(_))));
}

#[test]
fn a_value_that_is_no_number_is_an_error() {
    let table = Table::new(TableElement {
        head: head(&["년도", "2023"]),
        rows: vec![row(Some("dep1"), &[("th", "A"), ("td", "1,2x")])],
    });
    match table.parse_body() {
        Err(SmesError::ParseInt(e)) => assert_eq!(e.value, "12x"),
        other => panic!("unexpected {:?}", other),
    }
}

#[test]
fn a_value_too_large_for_i64_is_an_error() {
    let table = Table::new(TableElement {
        head: head(&["년도", "2023"]),
        rows: vec![row(Some("dep1"), &[("th", "A"), ("td", "9,223,372,036,854,775,808")])],
    });
    assert!(matches!(table.parse_body(), Err(SmesError::Conversion(_))));
}

#[test]
fn unexpected_shapes_are_reported() {
    // A plain row before any group.
    let table = Table::new(TableElement {
        head: head(&["년도", "2023"]),
        rows: vec![row(None, &[("th", "A"), ("td", "1")])],
    });
    assert!(matches!(table.try_parse_body(), BodyParse::Unexpected(_)));
    // An unknown row class.
    let table = Table::new(TableElement {
        head: head(&["년도", "2023"]),
        rows: vec![row(Some("dep3"), &[])],
    });
    assert!(matches!(table.try_parse_body(), BodyParse::Unexpected(_)));
    // A value before the account.
    let table = Table::new(TableElement {
        head: head(&["년도", "2023"]),
        rows: vec![row(Some("dep1"), &[("th", "A")]), row(Some("dep2"), &[("td", "1")])],
    });
    assert!(matches!(table.try_parse_body(), BodyParse::Unexpected(_)));
    // No years.
    let table = Table::new(TableElement {
        head: head(&["년도"]),
        rows: vec![row(Some("dep1"), &[("th", "A"), ("td", "1")])],
    });
    assert!(matches!(table.try_parse_body(), BodyParse::Unexpected(_)));
}
