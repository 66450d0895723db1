use nostr_wallet_connect::config::{
    read_from_bytes, read_from_config, write_to_config, NotText,
};

#[test]
fn test_write_to_config() {
    let config = write_to_config("ONE", "Hello", "");
    let config = write_to_config("TWO", "World", &config);

    let one = read_from_config("ONE", &config);
    assert_eq!(one.unwrap(), "Hello");

    let two = read_from_config("TWO", &config);
    assert_eq!(two.unwrap(), "World");
}

#[test]
fn an_empty_config_gets_its_first_line() {
    assert_eq!(write_to_config("ONE", "Hello", ""), "ONE=Hello\n");
}

#[test]
fn a_new_key_goes_to_the_end() {
    assert_eq!(write_to_config("TWO", "b", "ONE=a\n"), "ONE=a\nTWO=b\n");
    assert_eq!(write_to_config("TWO", "b", "ONE=a"), "ONE=a\nTWO=b\n");
}

#[test]
fn every_line_for_the_key_is_replaced() {
    let config = "a=1\n# note\nb=2\n\na=3\nab=4\n";
    assert_eq!(write_to_config("a", "9", config), "a=9\n# note\nb=2\n\na=9\nab=4\n");
}

#[test]
fn a_longer_key_is_another_key() {
    assert_eq!(read_from_config("a", "ab=4\n"), None);
    assert_eq!(read_from_config("a", "a\n"), None);
    assert_eq!(read_from_config("a", " a=1\n"), None);
}

#[test]
fn the_first_line_for_the_key_counts() {
    assert_eq!(read_from_config("a", "b=0\na=1\na=2\n").unwrap(), "1");
}

#[test]
fn a_value_ends_at_a_second_equals_sign() {
    assert_eq!(read_from_config("a", "a=1=2\n").unwrap(), "1");
    assert_eq!(read_from_config("a", "a==2\n").unwrap(), "");
    assert_eq!(read_from_config("a", "a=").unwrap(), "");
    assert_eq!(read_from_config("a=b", "a=b=c\n").unwrap(), "b");
}

#[test]
fn carriage_returns_belong_to_the_end_of_a_line() {
    assert_eq!(read_from_config("a", "a=1\r\nb=2\r\n").unwrap(), "1");
    assert_eq!(read_from_config("a", "a=1\r\r\n").unwrap(), "1\r");
    assert_eq!(read_from_config("a", "a=1\r").unwrap(), "1\r");
    assert_eq!(write_to_config("b", "3", "a=1\r\nb=2\r\n"), "a=1\nb=3\n");
    assert_eq!(write_to_config("b", "3", "\r\n\r"), "\n\r\nb=3\n");
}

#[test]
fn a_missing_key_has_no_value() {
    assert_eq!(read_from_config("a", ""), None);
    assert_eq!(read_from_config("a", "\n\n"), None);
}

#[test]
fn keys_and_values_need_not_be_ascii() {
    let config = write_to_config("Schlüssel", "größer", "été=chaud\n");
    assert_eq!(config, "été=chaud\nSchlüssel=größer\n");
    assert_eq!(read_from_config("Schlüssel", &config).unwrap(), "größer");
    assert_eq!(read_from_config("été", &config).unwrap(), "chaud");
}

#[test]
fn read_gives_back_what_was_written() {
    let texts = ["", "a=0\n", "a=0", "b=1\r\na=0\r", "\n\na=0\na=1\n", "x\r"];
    for text in texts {
        let config = write_to_config("a", "new value", text);
        assert_eq!(read_from_config("a", &config).unwrap(), "new value");
    }
}

#[test]
fn write_keeps_other_keys() {
    let config = "a=1\nb=2=3\nc=\n";
    for (key, kept) in [("a", "1"), ("b", "2"), ("c", "")] {
        let after = write_to_config("d", "4", config);
        assert_eq!(read_from_config(key, &after).unwrap(), kept);
    }
    assert_eq!(read_from_config("e", &write_to_config("d", "4", config)), None);
}

#[test]
fn bytes_that_are_text_read_as_text() {
    let texts = ["", "a=1", "a=1\r\nb=2\n", "b=2\na=1=3\r", "été=x\n\na=größer\n", "a\n", "\r\n\r"];
    for text in texts {
        for key in ["a", "b", "été", ""] {
            let value = read_from_bytes(key, text.as_bytes()).unwrap();
            assert_eq!(value, read_from_config(key, text));
        }
    }
    assert_eq!(read_from_bytes("a", b"b=2\r\na=1\r\n").unwrap().unwrap(), "1");
}

#[test]
fn a_line_that_is_no_text_is_an_error_unless_the_value_comes_first() {
    assert_eq!(read_from_bytes("a", b"a=1\nb=\xff\n").unwrap().unwrap(), "1");
    assert_eq!(read_from_bytes("a", b"b=\xff\na=1\n"), Err(NotText));
    assert_eq!(read_from_bytes("b", b"a=1\nb=\xff"), Err(NotText));
    assert_eq!(read_from_bytes("c", b"a=1\n\xc3\n\xa9\n"), Err(NotText));
    assert_eq!(read_from_bytes("c", b"a=1\nb=2\n"), Ok(None));
}

#[test]
fn the_last_write_stands() {
    for text in ["", "a=1\nb=2\n", "b=2", "a=0\na=1\r\n", "a=1\r"] {
        let twice = write_to_config("a", "new", &write_to_config("a", "old\r", text));
        assert_eq!(twice, write_to_config("a", "new", text));
    }
}
