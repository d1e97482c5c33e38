use smes::scrape::{minify_and_trim_html, single_real_contents};
use smes::SmesError;

#[test]
fn minify_and_trim_html_should_work_as_expected() {
    let html = r#"
            <!DOCTYPE html>
            <sript> var a = 1; </script>
            <html>
            <head>
                <title>Test</title>
            </head>
            <body>
                <div id="real_contents">
                    <a href="https://www.smes.go.kr">Link</a>
                    <p>Some text</p>
                </div>
            </body>
            </html>
        "#;

    let minified = minify_and_trim_html(html.as_bytes()).expect("Failed to minify and trim");

    assert_eq!(
        minified,
        r#"<div id="real_contents"><a href="https://www.smes.go.kr">Link</a><p>Some text</p></div>"#
    );
}

#[test]
fn minify_and_trim_html_should_error_when_no_id_real_contents() {
    let html = r#"
            <!DOCTYPE html>
            <sript> var a = 1; </script>
            <sript>
            <html>
            <head>
                <title>Test</title>
            </head>
            <body>
                <div id="real_content">
                    <a href="https://www.smes.go.kr">Link</a>
                    <p>Some text</p>
                </div>
            </body>
            </html>
        "#;

    let minified = minify_and_trim_html(html.as_bytes());

    assert!(minified.is_err());
}

#[test]
fn minify_and_trim_html_should_fix_minor_invalid_html() {
    let html = r#"
            <!DOCTYPE html>
            <sript> var a = 1; </script>
            <html>
            <head>
                <title>Test</title>
            </head>
            <body>
                <div id="real_contents">
                    <a href="https://www.smes.go.kr">Link</a>
                    <p>Some text
                </div>
            </body>
            </html>
        "#;

    let minified = minify_and_trim_html(html.as_bytes()).expect("Failed to minify and trim");

    assert_eq!(
        minified,
        r#"<div id="real_contents"><a href="https://www.smes.go.kr">Link</a><p>Some text</p></div>"#
    );
}

#[test]
fn a_page_without_real_contents_is_an_invariant_error() {
    let html = "<html><body><div id=\"other\">x</div></body></html>";
    let res = minify_and_trim_html(html.as_bytes());
    assert!(matches!(res, Err(SmesError::Invariant(_))));
}

#[test]
fn a_page_that_is_not_utf8_is_refused() {
    let bytes: Vec<u8> = vec![0xff, 0xfe, 0x00];
    assert!(minify_and_trim_html(&bytes).is_err());
}

#[test]
fn exactly_one_real_contents_element_is_taken() {
    let one = single_real_contents(vec![(
        "<div id=\"real_contents\"></div>".to_string(),
        "<div id=\"real_contents\">".to_string(),
    )]);
    assert_eq!(one.unwrap(), "<div id=\"real_contents\"></div>");
    assert!(matches!(single_real_contents(vec![]), Err(SmesError::Invariant(_))));
    let two = single_real_contents(vec![
        ("a".to_string(), "<a>".to_string()),
        ("b".to_string(), "<b>".to_string()),
    ]);
    match two {
        Err(SmesError::Invariant(e)) => assert_eq!(
            e.message,
            "Expected only one element with id 'real_contents', but received another <b>"
        ),
        other => panic!("unexpected {:?}", other),
    }
}

#[test]
fn missing_and_repeated_real_contents_have_their_messages() {
    match minify_and_trim_html(b"<html><body><p>x</p></body></html>") {
        Err(SmesError::Invariant(e)) => {
            assert_eq!(e.message, "Expected at least one element with id 'real_contents'")
        }
        other => panic!("unexpected {:?}", other),
    }
    let twice = b"<html><body><div id=\"real_contents\">a</div><div id=\"real_contents\">b</div></body></html>";
    match minify_and_trim_html(twice) {
        Err(SmesError::Invariant(e)) => {
            assert_eq!(
                e.message,
                "Expected only one element with id 'real_contents', but received another <div id=\"real_contents\">"
            )
        }
        other => panic!("unexpected {:?}", other),
    }
}
