use fesghel::model::URL;
use fesghel::setting::{Database, Server, Settings};

#[test]
fn settings_carry_their_sections() {
    let server = Server::new("127.0.0.1", 8080);
    let database = Database::new("mongodb://localhost:27017", "fesghel");
    let settings = Settings::new(server, database);
    assert_eq!(settings.server().host(), "127.0.0.1");
    assert_eq!(settings.server().port(), 8080);
    assert_eq!(settings.database().address(), "mongodb://localhost:27017");
    assert_eq!(settings.database().name(), "fesghel");
}

#[test]
fn url_pair_is_constructible() {
    let pair = URL::new("https://a.example", "abc123");
    let shown = format!("{:?}", pair);
    assert!(shown.contains("https://a.example"));
    assert!(shown.contains("abc123"));
}
