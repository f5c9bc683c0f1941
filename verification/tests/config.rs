use sound_direction::config::{Config, Server};

fn config(host: &str, port: u16, buffer_size: usize) -> Config {
    Config { server: Server { buffer_size, host: host.to_string(), port } }
}

#[test]
fn addr_joins_host_and_port() {
    assert_eq!(config("127.0.0.1", 8080, 0).addr(), "127.0.0.1:8080");
    assert_eq!(config("0.0.0.0", 0, 0).addr(), "0.0.0.0:0");
    assert_eq!(config("localhost", 65535, 0).addr(), "localhost:65535");
    assert_eq!(config("", 9, 0).addr(), ":9");
    assert_eq!(config("h", 10, 0).addr(), "h:10");
}

#[test]
fn addr_matches_format() {
    for port in [1u16, 42, 100, 999, 1000, 4096, 30000, 65534] {
        let c = config("example.org", port, 1);
        assert_eq!(c.addr(), format!("{}:{}", c.server.host, c.server.port));
    }
}

#[test]
fn buf_is_zeroed_with_configured_size() {
    assert_eq!(config("a", 1, 4).buf(), vec![0u8; 4]);
    assert_eq!(config("a", 1, 0).buf(), Vec::<u8>::new());
    let big = config("a", 1, 65536).buf();
    assert_eq!(big.len(), 65536);
    assert!(big.iter().all(|b| *b == 0));
}
