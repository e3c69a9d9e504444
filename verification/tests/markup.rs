use proxyrs::provider::ListError;
use proxyrs::providers::markup::{cells_of, inner_html_of};
use proxyrs::providers::pattern::capture;

#[test]
fn inner_html_is_selected_in_document_order() {
    let page = "<html><body><p>a<b>c</b></p><div><p class=\"x\">d &amp; e</p></div><p></p></body></html>";
    assert_eq!(
        inner_html_of(page, "p"),
        Ok(vec!["a<b>c</b>".to_string(), "d &amp; e".to_string(), String::new()])
    );
    assert_eq!(inner_html_of(page, "p.x"), Ok(vec!["d &amp; e".to_string()]));
    assert_eq!(inner_html_of(page, "div p, b"), Ok(vec!["c".to_string(), "d &amp; e".to_string()]));
    assert_eq!(inner_html_of(page, "table"), Ok(Vec::new()));
    assert_eq!(inner_html_of("", "p"), Ok(Vec::new()));
}

#[test]
fn broken_selector_is_a_markup_error() {
    assert_eq!(inner_html_of("<p>a</p>", "p["), Err(ListError::Markup));
    assert_eq!(inner_html_of("<p>a</p>", ""), Err(ListError::Markup));
    assert_eq!(cells_of("<p>a</p>", "tr", "td:nth-child(", "id"), Err(ListError::Markup));
    assert_eq!(cells_of("<p>a</p>", ">>", "td", "id"), Err(ListError::Markup));
}

#[test]
fn cells_are_grouped_by_row() {
    let page = "<table>\
<tr><td id=\"n1\">a</td><td class=\"k\"> b <i>c</i></td></tr>\
<tr><th>h</th></tr>\
<tr><td id=\"\">d</td></tr>\
</table>";
    assert_eq!(
        cells_of(page, "tr", "td", "id"),
        Ok(vec![
            vec![(Some("n1".to_string()), "a".to_string()), (None, " b c".to_string())],
            vec![],
            vec![(Some(String::new()), "d".to_string())],
        ])
    );
    assert_eq!(
        cells_of(page, "tr", "td", "class"),
        Ok(vec![
            vec![(None, "a".to_string()), (Some("k".to_string()), " b c".to_string())],
            vec![],
            vec![(None, "d".to_string())],
        ])
    );
    assert_eq!(cells_of("", "tr", "td", "id"), Ok(Vec::new()));
}

#[test]
fn first_group_of_leftmost_match_is_captured() {
    assert_eq!(capture("a(b+)c", "xabbbcabc"), Ok(Some("bbb".to_string())));
    assert_eq!(capture("a(b+)c", "xyz"), Ok(None));
    assert_eq!(capture("a(x)?c", "ac"), Ok(None));
    assert_eq!(capture("a()c", "ac"), Ok(Some(String::new())));
    assert_eq!(capture("\"(.*?[^\\\\])\"", "f(\"one\", \"two\")"), Ok(Some("one".to_string())));
    assert_eq!(capture("abc", "abc"), Ok(None));
}

#[test]
fn broken_pattern_is_a_pattern_error() {
    assert_eq!(capture("(", "abc"), Err(ListError::Pattern));
    assert_eq!(capture("a{2,1}", "abc"), Err(ListError::Pattern));
    assert_eq!(capture("[", ""), Err(ListError::Pattern));
}
