use devconcurrent::PortMap;

#[test]
fn from_number() {
    let pm = PortMap::from_number(3000);
    assert_eq!(
        pm,
        PortMap {
            host: 3000,
            container: 3000
        }
    );
}

#[test]
fn from_string_plain() {
    let pm = PortMap::parse("3000").unwrap();
    assert_eq!(
        pm,
        PortMap {
            host: 3000,
            container: 3000
        }
    );
}

#[test]
fn from_string_mapping() {
    let pm = PortMap::parse("3000:3001").unwrap();
    assert_eq!(
        pm,
        PortMap {
            host: 3000,
            container: 3001
        }
    );
}

#[test]
fn serialize_mapping() {
    let pm = PortMap {
        host: 3000,
        container: 3001,
    };
    assert_eq!(pm.to_port_string(), "3000:3001");
}

#[test]
fn invalid_string() {
    assert!(PortMap::parse("abc").is_err());
}

#[test]
fn invalid_mapping() {
    assert!(PortMap::parse("abc:3000").is_err());
    assert!(PortMap::parse("3000:abc").is_err());
}

#[test]
fn port_out_of_range_is_rejected() {
    assert!(PortMap::parse("65536").is_err());
    assert!(PortMap::parse("").is_err());
    let pm = PortMap::parse("65535").unwrap();
    assert_eq!(pm.host, 65535);
}

#[test]
fn parse_failure_is_a_parse_failure_error() {
    let err = PortMap::parse("abc").unwrap_err();
    assert!(matches!(err, devconcurrent::Error::ParseFailure(_)));
}
