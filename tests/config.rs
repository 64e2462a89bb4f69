use executor::{Args, Event};

#[test]
fn default_address() {
    let a = Args::new_default();
    assert_eq!(a.ip, "127.0.0.1");
    assert_eq!(a.port, 8080);
    assert_eq!(a.address(), "127.0.0.1:8080");
}

#[test]
fn address_edge_ports() {
    let a = Args { ip: "0.0.0.0".to_string(), port: 0 };
    assert_eq!(a.address(), "0.0.0.0:0");
    let b = Args { ip: "::1".to_string(), port: 65535 };
    assert_eq!(b.address(), "::1:65535");
    let c = Args { ip: String::new(), port: 443 };
    assert_eq!(c.address(), ":443");
}

#[test]
fn event_is_copyable() {
    let e = Event::Connected;
    let f = e;
    assert_eq!(e, f);
}
