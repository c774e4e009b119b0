use tinybox::proxy::{header_step, parse_connect, validate_destination, HeaderStep, ProxyError};

#[test]
fn validates_connect_destinations() {
    assert!(validate_destination("example.com:443").is_ok());
    assert!(validate_destination("EXAMPLE.com:443").is_err());
    assert!(validate_destination("user@example.com:443").is_err());
}

#[test]
fn destinations_need_a_port_and_a_plain_host() {
    assert_eq!(validate_destination("example.com"), Err(ProxyError::NoPort));
    assert_eq!(validate_destination(":443"), Err(ProxyError::InvalidDestination));
    assert_eq!(validate_destination("example.com:70000"), Err(ProxyError::InvalidDestination));
    assert_eq!(validate_destination("[::1]:443"), Err(ProxyError::InvalidDestination));
    assert!(validate_destination("a:b:443").is_ok());
}

#[test]
fn connect_header_names_the_destination() {
    assert_eq!(parse_connect("CONNECT example.com:443 HTTP/1.1\r\nHost: x\r\n\r\n").unwrap(), "example.com:443");
    assert_eq!(parse_connect("GET / HTTP/1.1\r\n\r\n"), Err(ProxyError::NotConnect));
    assert_eq!(parse_connect("CONNECT\r\n\r\n"), Err(ProxyError::MissingDestination));
    assert_eq!(parse_connect(""), Err(ProxyError::EmptyRequest));
}

#[test]
fn header_reading_stops_at_blank_line_or_limit() {
    assert_eq!(header_step(&b"CONNECT x:1 HTTP/1.1\r\n\r\n".to_vec()), HeaderStep::Complete);
    assert_eq!(header_step(&b"CONNECT".to_vec()), HeaderStep::More);
    assert_eq!(header_step(&vec![b'a'; 8192]), HeaderStep::TooLarge);
}
