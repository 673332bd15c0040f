use sandbox_startup::markdown::markdown_to_html;
use sandbox_startup::spelling::{dictionary_words, judge, report, Verdict};

#[test]
fn markdown_heading_and_list_render_as_html() {
    let html = markdown_to_html("\nhello\n=====\n\n* alpha\n* beta\n");
    assert_eq!(html, "<h1>hello</h1>\n<ul>\n<li>alpha</li>\n<li>beta</li>\n</ul>\n");
}

#[test]
fn markdown_text_is_escaped() {
    assert_eq!(markdown_to_html("a < b"), "<p>a &lt; b</p>\n");
    assert_eq!(markdown_to_html(""), "");
}

#[test]
fn known_word_is_not_reported() {
    let verdict = judge(true, &vec!["function".to_string()]);
    assert_eq!(verdict, Verdict::Known);
    assert_eq!(report("function", &verdict), None);
}

#[test]
fn unknown_word_without_corrections() {
    let verdict = judge(false, &vec![]);
    assert_eq!(verdict, Verdict::Misspelled);
    assert_eq!(report("xqzy", &verdict), Some("xqzy is misspelled".to_string()));
}

#[test]
fn unknown_word_with_corrections_suggests_the_first() {
    let verdict = judge(false, &vec!["function".to_string(), "fiction".to_string()]);
    assert_eq!(verdict, Verdict::MisspelledWithSuggestion("function".to_string()));
    assert_eq!(
        report("funciton", &verdict),
        Some("funciton is misspelled, did you mean function?".to_string())
    );
}

#[test]
fn dictionary_is_split_into_lines_with_their_line_feeds() {
    let words = dictionary_words(&b"alpha\nbeta\n\ngamma".to_vec());
    assert_eq!(
        words,
        vec![b"alpha\n".to_vec(), b"beta\n".to_vec(), b"\n".to_vec(), b"gamma".to_vec()]
    );
    assert_eq!(dictionary_words(&b"one\n".to_vec()), vec![b"one\n".to_vec()]);
    assert_eq!(dictionary_words(&Vec::new()), Vec::<Vec<u8>>::new());
    assert_eq!(dictionary_words(&b"\n".to_vec()), vec![b"\n".to_vec()]);
}

#[test]
fn same_dictionary_gives_the_same_words() {
    let contents = b"function\nfiction\nfraction\n".to_vec();
    assert_eq!(dictionary_words(&contents), dictionary_words(&contents.clone()));
    assert_eq!(dictionary_words(&contents).len(), 3);
}
