use picker::query::{parse_query, Query};

fn columns() -> Vec<String> {
    vec!["primary".to_string(), "field1".to_string(), "field2".to_string()]
}

fn get<'a>(q: &'a Query, name: &str) -> Option<&'a String> {
    q.get(name)
}

#[test]
fn parse_query_test() {
    let columns = columns();
    let primary_column = 0;

    // Basic field splitting
    let q = parse_query(&columns, primary_column, "hello world");
    assert_eq!(get(&q, "primary"), Some(&"hello world".to_string()));
    assert_eq!(get(&q, "field1"), None);
    assert_eq!(get(&q, "field2"), None);

    let q = parse_query(&columns, primary_column, "hello %field1:world %field2:!");
    assert_eq!(get(&q, "primary"), Some(&"hello".to_string()));
    assert_eq!(get(&q, "field1"), Some(&"world".to_string()));
    assert_eq!(get(&q, "field2"), Some(&"!".to_string()));

    let q = parse_query(&columns, primary_column, "%field1:abc %field2:def xyz");
    assert_eq!(get(&q, "primary"), Some(&"xyz".to_string()));
    assert_eq!(get(&q, "field1"), Some(&"abc".to_string()));
    assert_eq!(get(&q, "field2"), Some(&"def".to_string()));

    // Trailing space is trimmed
    let q = parse_query(&columns, primary_column, "hello ");
    assert_eq!(get(&q, "primary"), Some(&"hello".to_string()));
    assert_eq!(get(&q, "field1"), None);
    assert_eq!(get(&q, "field2"), None);

    // Trailing fields are trimmed.
    let q = parse_query(&columns, primary_column, "hello %foo");
    assert_eq!(get(&q, "primary"), Some(&"hello".to_string()));
    assert_eq!(get(&q, "field1"), None);
    assert_eq!(get(&q, "field2"), None);

    // Quoting
    let q = parse_query(&columns, primary_column, "hello %field1:\"a b c\"");
    assert_eq!(get(&q, "primary"), Some(&"hello".to_string()));
    assert_eq!(get(&q, "field1"), Some(&"a\\ b\\ c".to_string()));
    assert_eq!(get(&q, "field2"), None);

    // Escaping
    let q = parse_query(&columns, primary_column, "hello \\%field1:world");
    assert_eq!(get(&q, "primary"), Some(&"hello %field1:world".to_string()));
    assert_eq!(get(&q, "field1"), None);
    assert_eq!(get(&q, "field2"), None);

    let q = parse_query(&columns, primary_column, "foo\\(");
    assert_eq!(get(&q, "primary"), Some(&"foo\\(".to_string()));
    assert_eq!(get(&q, "field1"), None);
    assert_eq!(get(&q, "field2"), None);

    // hello %field1:"a\"b"
    let q = parse_query(&columns, primary_column, "hello %field1:\"a\\\"b\"");
    assert_eq!(get(&q, "primary"), Some(&"hello".to_string()));
    assert_eq!(get(&q, "field1"), Some(&"a\"b".to_string()));
    assert_eq!(get(&q, "field2"), None);
}

#[test]
fn parse_query_empty_input() {
    let columns = columns();
    let q = parse_query(&columns, 0, "");
    assert_eq!(get(&q, "primary"), None);
    assert_eq!(get(&q, "field1"), None);
    assert_eq!(get(&q, "field2"), None);
}

#[test]
fn parse_query_repeated_field_concatenates() {
    let columns = columns();
    let q = parse_query(&columns, 0, "%field1:a %field1:b");
    assert_eq!(get(&q, "field1"), Some(&"a b".to_string()));
}

#[test]
fn parse_query_dangling_escape_flushes() {
    // An escape right before end of input: the pending text is still
    // flushed into the primary field.
    let columns = columns();
    let q = parse_query(&columns, 0, "abc\\");
    assert_eq!(get(&q, "primary"), Some(&"abc".to_string()));
}

#[test]
fn parse_query_unmatched_quote_flushes() {
    let columns = columns();
    let q = parse_query(&columns, 0, "\"a b");
    assert_eq!(get(&q, "primary"), Some(&"a\\ b".to_string()));
}

#[test]
fn parse_query_idempotent_on_normalized_output() {
    // Re-parsing the serialized `%name:value ` tokens of a parsed query
    // reproduces the same mapping.
    let columns = columns();
    let q = parse_query(&columns, 0, "hello %field1:world %field2:abc");
    let normalized = "%primary:hello %field1:world %field2:abc ";
    let q2 = parse_query(&columns, 0, normalized);
    assert_eq!(get(&q, "primary"), get(&q2, "primary"));
    assert_eq!(get(&q, "field1"), get(&q2, "field1"));
    assert_eq!(get(&q, "field2"), get(&q2, "field2"));
}
