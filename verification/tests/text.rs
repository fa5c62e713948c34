use grub_bootimage::text::{holds_text, lines_of};

fn lines(list: &[&str]) -> Vec<String> {
    list.iter().map(|s| (*s).to_owned()).collect()
}

#[test]
fn text_is_held_only_by_the_same_string() {
    assert!(holds_text(&"run-args".to_owned(), "run-args"));
    assert!(holds_text(&String::new(), ""));
    assert!(!holds_text(&"run-args".to_owned(), "run-arg"));
    assert!(!holds_text(&"run-arg".to_owned(), "run-args"));
    assert!(!holds_text(&"Run-args".to_owned(), "run-args"));
    assert!(!holds_text(&"e\u{301}".to_owned(), "\u{e9}"));
}

#[test]
fn lines_end_at_line_feeds() {
    assert_eq!(lines_of(""), Vec::<String>::new());
    assert_eq!(lines_of("a"), lines(&["a"]));
    assert_eq!(lines_of("a\n"), lines(&["a"]));
    assert_eq!(lines_of("a\nb"), lines(&["a", "b"]));
    assert_eq!(lines_of("a\nb\n"), lines(&["a", "b"]));
    assert_eq!(lines_of("\n"), lines(&[""]));
    assert_eq!(lines_of("\n\n"), lines(&["", ""]));
    assert_eq!(lines_of("a\n\nb"), lines(&["a", "", "b"]));
}

#[test]
fn carriage_return_before_a_line_feed_is_dropped() {
    assert_eq!(lines_of("a\r\nb\r\n"), lines(&["a", "b"]));
    assert_eq!(lines_of("\r\n"), lines(&[""]));
    assert_eq!(lines_of("a\r\r\nb"), lines(&["a\r", "b"]));
    assert_eq!(lines_of("foo\nbar\n\r\nbaz\r"), lines(&["foo", "bar", "", "baz\r"]));
}

#[test]
fn carriage_return_elsewhere_is_kept() {
    assert_eq!(lines_of("a\rb"), lines(&["a\rb"]));
    assert_eq!(lines_of("\r"), lines(&["\r"]));
    assert_eq!(lines_of("\ra\n"), lines(&["\ra"]));
    assert_eq!(lines_of("a\r"), lines(&["a\r"]));
    assert_eq!(lines_of("\r\r"), lines(&["\r\r"]));
}

#[test]
fn lines_keep_characters_of_any_width() {
    assert_eq!(lines_of("é\n日本語\r\n🦀"), lines(&["é", "日本語", "🦀"]));
}

#[test]
fn lines_agree_with_the_standard_library() {
    // Every text of up to six characters over an alphabet that holds both
    // line-ending characters.
    let alphabet = ['a', '\n', '\r', 'é'];
    let mut texts = vec![String::new()];
    let mut last = vec![String::new()];
    for _ in 0..6 {
        let mut next = Vec::new();
        for text in &last {
            for ch in alphabet {
                let mut longer = text.clone();
                longer.push(ch);
                next.push(longer);
            }
        }
        texts.extend(next.iter().cloned());
        last = next;
    }
    assert_eq!(texts.len(), 1 + 4 + 16 + 64 + 256 + 1024 + 4096);
    for text in &texts {
        let expected: Vec<String> = text.lines().map(|line| line.to_owned()).collect();
        assert_eq!(lines_of(text), expected, "lines of {:?}", text);
    }
}

