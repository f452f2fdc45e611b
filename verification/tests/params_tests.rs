use pastebin::params::{split_paste_key, wants_plaintext, IsPlaintextRequest};
use pastebin::highlight::LinesWithEndings;

#[test]
fn plaintext_for_text_plain_content_type() {
    assert!(wants_plaintext("text/plain", Some("Mozilla/5.0 (X11; Linux)")));
}

#[test]
fn plaintext_for_console_agents() {
    assert!(wants_plaintext("", Some("curl/8.5.0")));
    assert!(wants_plaintext("", Some("Wget/1.21.4")));
    assert!(wants_plaintext("", Some("HTTPie/3.2.2")));
    assert!(wants_plaintext("", Some("curl")));
}

#[test]
fn plaintext_when_agent_unknown_or_absent() {
    assert!(wants_plaintext("", None));
    assert!(!wants_plaintext("", Some("Mozilla/5.0 (X11; Linux)")));
    assert!(!wants_plaintext("text/html", Some("Opera/9.80")));
    assert!(!wants_plaintext("", Some("curlx/1.0")));
}

#[test]
fn plaintext_request_holds_its_flag() {
    assert!(IsPlaintextRequest(true).0);
    assert!(!IsPlaintextRequest(false).0);
}

#[test]
fn split_key_with_extension() {
    assert_eq!(split_paste_key("abc.rs"), ("abc", Some("rs")));
    assert_eq!(split_paste_key("a.b.c"), ("a", Some("b.c")));
    assert_eq!(split_paste_key("a."), ("a", Some("")));
    assert_eq!(split_paste_key(".rs"), ("", Some("rs")));
}

#[test]
fn split_key_without_extension() {
    assert_eq!(split_paste_key("abcdef"), ("abcdef", None));
    assert_eq!(split_paste_key(""), ("", None));
}

#[test]
fn lines_keep_their_endings() {
    let mut it = LinesWithEndings("foo\nbar\nbaz");
    assert_eq!(it.next(), Some("foo\n"));
    assert_eq!(it.next(), Some("bar\n"));
    assert_eq!(it.next(), Some("baz"));
    assert_eq!(it.next(), None);
}

#[test]
fn lines_of_empty_and_blank_text() {
    let mut empty = LinesWithEndings("");
    assert_eq!(empty.next(), None);

    let mut blanks = LinesWithEndings("a\n\nb");
    assert_eq!(blanks.next(), Some("a\n"));
    assert_eq!(blanks.next(), Some("\n"));
    assert_eq!(blanks.next(), Some("b"));
    assert_eq!(blanks.next(), None);
}

#[test]
fn lines_with_trailing_newline() {
    let mut it = LinesWithEndings("x\n");
    assert_eq!(it.next(), Some("x\n"));
    assert_eq!(it.next(), None);
}

#[test]
fn split_key_with_multibyte_characters() {
    assert_eq!(split_paste_key("héllo.rs"), ("héllo", Some("rs")));
    assert_eq!(split_paste_key("名前"), ("名前", None));
}
