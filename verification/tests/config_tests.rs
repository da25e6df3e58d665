use minihttp::config::parse_usize;
use minihttp::config::port_in_range;
use minihttp::config::valid_pool_size;

#[test]
fn pool_size_accepts_positive_integers() {
    assert_eq!(valid_pool_size("1"), Ok(1));
    assert_eq!(valid_pool_size("4"), Ok(4));
    assert_eq!(valid_pool_size("+12"), Ok(12));
}

#[test]
fn pool_size_rejects_zero_with_its_own_message() {
    assert_eq!(
        valid_pool_size("0"),
        Err(String::from("Pool size can not be less than 1"))
    );
}

#[test]
fn pool_size_rejects_unreadable_text() {
    assert_eq!(
        valid_pool_size("abc"),
        Err(String::from("abc is not a valid pool size"))
    );
    assert_eq!(
        valid_pool_size(""),
        Err(String::from(" is not a valid pool size"))
    );
    assert_eq!(
        valid_pool_size("-3"),
        Err(String::from("-3 is not a valid pool size"))
    );
    assert_eq!(
        valid_pool_size("99999999999999999999999999"),
        Err(String::from(
            "99999999999999999999999999 is not a valid pool size"
        ))
    );
}

#[test]
fn port_accepts_the_full_range() {
    assert_eq!(port_in_range("1"), Ok(1));
    assert_eq!(port_in_range("8080"), Ok(8080));
    assert_eq!(port_in_range("65535"), Ok(65535));
}

#[test]
fn port_rejects_zero_with_the_range_message() {
    assert_eq!(
        port_in_range("0"),
        Err(String::from("port is not range [1 - 65535]"))
    );
}

#[test]
fn port_rejects_unreadable_or_oversized_text() {
    assert_eq!(
        port_in_range("x"),
        Err(String::from("x is not a valid port number"))
    );
    assert_eq!(
        port_in_range("70000"),
        Err(String::from("70000 is not a valid port number"))
    );
}

#[test]
fn unsigned_parsing_matches_the_standard_reader() {
    for text in ["0", "10", "+7", "", "+", "1a", "a1", "4294967295"] {
        assert_eq!(
            parse_usize(text),
            text.parse::<usize>().ok(),
            "parse_usize must agree with str::parse::<usize> on {:?}",
            text
        );
    }
}
