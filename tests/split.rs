use chatbot_lib::split::{rfind_index_plus_one, CommandArguments};

#[test]
fn test_rfind_index_plus_one() {
    assert_eq!(rfind_index_plus_one("_____abc", |c| c == 'c'), 8);
    assert_eq!(rfind_index_plus_one("_____abc", |c| c == 'b'), 7);
    assert_eq!(rfind_index_plus_one("_____abc", |c| c == 'a'), 6);
    assert_eq!(rfind_index_plus_one("_____abc", |c| c == '_'), 5);
    assert_eq!(rfind_index_plus_one("_____abc", |_| false), 0);
    assert_eq!(rfind_index_plus_one("", |_| false), 0);
    assert_eq!(rfind_index_plus_one("", |_| true), 0);
    assert_eq!(rfind_index_plus_one(" ", |_| false), 0);
    assert_eq!(rfind_index_plus_one(" ", |_| true), 1);

    let value = "abc def";
    assert_eq!(
        value.split_at(rfind_index_plus_one(value, char::is_whitespace)),
        ("abc ", "def")
    );
    let value = "abcdef";
    assert_eq!(
        value.split_at(rfind_index_plus_one(value, char::is_whitespace)),
        ("", "abcdef")
    );
    let value = "abcdef ";
    assert_eq!(
        value.split_at(rfind_index_plus_one(value, char::is_whitespace)),
        ("abcdef ", "")
    );
    let value = " abcdef";
    assert_eq!(
        value.split_at(rfind_index_plus_one(value, char::is_whitespace)),
        (" ", "abcdef")
    );
}

#[test]
fn test() {
    let test = "Hello World!";
    let mut iter = CommandArguments::from_str(test);
    assert_eq!(iter.next(), Some("Hello"));
    assert_eq!(iter.consumed_begin().as_str(), "Hello");
    assert_eq!(iter.next(), Some("World!"));
    assert_eq!(iter.consumed_begin().as_str(), "Hello World!");
    assert_eq!(iter.next(), None);
}

#[test]
fn test_more_spaces() {
    let test = "   Hello    World!   ";
    let mut iter = CommandArguments::from_str(test);
    assert_eq!(iter.next(), Some("Hello"));
    assert_eq!(iter.consumed_begin().as_str(), "Hello");
    assert_eq!(iter.next(), Some("World!"));
    assert_eq!(iter.consumed_begin().as_str(), "Hello    World!");
    assert_eq!(iter.next(), None);
}

#[test]
fn test_back() {
    let test = "Hello World!";
    let mut iter = CommandArguments::from_str(test);
    assert_eq!(iter.next_back(), Some("World!"));
    assert_eq!(iter.consumed_end().as_str(), "World!");
    assert_eq!(iter.next_back(), Some("Hello"));
    assert_eq!(iter.consumed_end().as_str(), "Hello World!");
    assert_eq!(iter.next_back(), None);
}

#[test]
fn test_back_more_spaces() {
    let test = "   Hello    World!   ";
    let mut iter = CommandArguments::from_str(test);
    assert_eq!(iter.next_back(), Some("World!"));
    assert_eq!(iter.consumed_end().as_str(), "World!");
    assert_eq!(iter.next_back(), Some("Hello"));
    assert_eq!(iter.consumed_end().as_str(), "Hello    World!");
    assert_eq!(iter.next_back(), None);
}

#[test]
fn test_as_str() {
    let test = "   This \t\n is \n   a text to test this.  ";
    let mut iter = CommandArguments::from_str(test);
    assert_eq!(iter.consumed_begin().as_str(), "");
    assert_eq!(iter.consumed_end().as_str(), "");
    assert_eq!(iter.next(), Some("This"));
    assert_eq!(iter.consumed_begin().as_str(), "This");
    assert_eq!(iter.next(), Some("is"));
    assert_eq!(iter.consumed_begin().as_str(), "This \t\n is");
    assert_eq!(iter.as_str(), "a text to test this.");
    assert_eq!(iter.next(), Some("a"));
    assert_eq!(iter.consumed_begin().as_str(), "This \t\n is \n   a");
    assert_eq!(iter.as_str(), "text to test this.");
}

#[test]
fn test_as_str_empty() {
    let test = "";
    let mut iter = CommandArguments::from_str(test);
    assert_eq!(iter.as_str(), "");
    assert_eq!(iter.consumed_begin().as_str(), "");
    assert_eq!(iter.consumed_end().as_str(), "");
    assert_eq!(iter.next(), None);
    assert_eq!(iter.as_str(), "");
    assert_eq!(iter.consumed_begin().as_str(), "");
    assert_eq!(iter.consumed_end().as_str(), "");
}

#[test]
fn test_as_str_whitespaces() {
    let test = " \t\n ";
    let mut iter = CommandArguments::from_str(test);
    assert_eq!(iter.as_str(), "");
    assert_eq!(iter.consumed_begin().as_str(), "");
    assert_eq!(iter.consumed_end().as_str(), "");
    assert_eq!(iter.next(), None);
    assert_eq!(iter.as_str(), "");
    assert_eq!(iter.consumed_begin().as_str(), "");
    assert_eq!(iter.consumed_end().as_str(), "");
}

#[test]
fn test_next_rest() {
    let test = "   This \t\n is \n   a text to test this.  ";
    let mut iter = CommandArguments::from_str(test);
    assert_eq!(iter.next(), Some("This"));
    assert_eq!(iter.next(), Some("is"));
    assert_eq!(iter.next_rest(), Some("a text to test this."));
    assert_eq!(iter.as_str(), "");
    assert_eq!(iter.next_rest(), None);
    assert_eq!(iter.next(), None);
    assert_eq!(iter.as_str(), "");
}

#[test]
fn test_next_rest_empty() {
    let test = "";
    let mut iter = CommandArguments::from_str(test);
    assert_eq!(iter.as_str(), "");
    assert_eq!(iter.next_rest(), None);
    assert_eq!(iter.as_str(), "");
    assert_eq!(iter.next(), None);
    assert_eq!(iter.as_str(), "");
}

#[test]
fn test_next_rest_whitespaces() {
    let test = " \t\n ";
    let mut iter = CommandArguments::from_str(test);
    assert_eq!(iter.as_str(), "");
    assert_eq!(iter.next_rest(), None);
    assert_eq!(iter.as_str(), "");
    assert_eq!(iter.next(), None);
    assert_eq!(iter.as_str(), "");
}

fn count_words(mut iter: CommandArguments) -> usize {
    let mut count = 0;
    while iter.next().is_some() {
        count += 1;
    }
    count
}

#[test]
fn test_size_hint() {
    let tests = [
        "",
        " ",
        "   ",
        "hello",
        " a",
        "a ",
        "a b",
        "a b c",
        " a b c",
        "a b c ",
        "  hello     world  ",
        "ß",
        "öäüß",
        " ö ä ü ß ",
    ];
    for test in &tests {
        let iter = CommandArguments::from_str(*test);
        let (min, max) = iter.size_hint();
        let count = count_words(iter);
        println!("{:?}: {:?} <= {:?} <= {:?}", test, min, count, max);
        assert!(min <= count, "{} <= {}", min, count);
        if let Some(max) = max {
            assert!(count <= max, "{} <= {}", count, max);
        }
    }
}

#[test]
fn split_back_then_front_meet_in_the_middle() {
    let mut iter = CommandArguments::from_str("  a  b  c  ");
    assert_eq!(iter.next(), Some("a"));
    assert_eq!(iter.next_back(), Some("c"));
    assert_eq!(iter.as_str(), "b");
    assert_eq!(iter.next(), Some("b"));
    assert_eq!(iter.next_back(), None);
    assert_eq!(iter.next(), None);
}

#[test]
fn split_reproduces_trimmed_text_both_ways() {
    let text = " \t one  two\nthree  ";
    let mut front = CommandArguments::from_str(text);
    while front.next().is_some() {}
    assert_eq!(front.consumed_begin().as_str(), "one  two\nthree");
    let mut back = CommandArguments::from_str(text);
    while back.next_back().is_some() {}
    assert_eq!(back.consumed_end().as_str(), "one  two\nthree");
}

#[test]
fn split_unicode_whitespace() {
    let mut iter = CommandArguments::from_str("a\u{3000}b\u{a0}c");
    assert_eq!(iter.next(), Some("a"));
    assert_eq!(iter.next(), Some("b"));
    assert_eq!(iter.next(), Some("c"));
    assert_eq!(iter.next(), None);
}
