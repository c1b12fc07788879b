use postgres_browser_proxy::Args;

fn sample() -> Args {
    Args::new(
        "example.org".to_string(),
        "8080".to_string(),
        "db.local".to_string(),
        "6543".to_string(),
        "alice".to_string(),
        "s3cret".to_string(),
    )
}

#[test]
fn defaults_match_the_readme() {
    let a = Args::default();
    assert_eq!(a.host(), "localhost");
    assert_eq!(a.port(), "3000");
    assert_eq!(a.pg_host(), "localhost");
    assert_eq!(a.pg_port(), "5432");
    assert_eq!(a.user, "postgres");
    assert_eq!(a.password, "mysecretpassword");
}

#[test]
fn getters_return_fields() {
    let a = sample();
    assert_eq!(a.host(), "example.org");
    assert_eq!(a.port(), "8080");
    assert_eq!(a.pg_host(), "db.local");
    assert_eq!(a.pg_port(), "6543");
}

#[test]
fn set_host_then_read_back() {
    let mut a = sample();
    a.set_host("0.0.0.0".to_string());
    assert_eq!(a.host(), "0.0.0.0");
    assert_eq!(a.pg_host(), "db.local");
    assert_eq!(a.port(), "8080");
}

#[test]
fn set_pg_host_then_read_back() {
    let mut a = sample();
    a.set_pg_host("pg.internal".to_string());
    assert_eq!(a.pg_host(), "pg.internal");
    assert_eq!(a.host(), "example.org");
}

#[test]
fn db_string_format() {
    assert_eq!(
        Args::default().to_db_string(),
        "host=localhost port=5432 user=postgres password=mysecretpassword"
    );
    assert_eq!(sample().to_db_string(), "host=db.local port=6543 user=alice password=s3cret");
}

#[test]
fn environment_overrides() {
    let mut a = sample();
    a.apply_env_var("HOST", "h1".to_string());
    assert_eq!(a.host(), "h1");
    a.apply_env_var("PG_HOST", "h2".to_string());
    assert_eq!(a.pg_host(), "h2");
    assert_eq!(a.host(), "h1");
    a.apply_env_var("PORT", "1".to_string());
    a.apply_env_var("host", "h3".to_string());
    assert_eq!(a.host(), "h1");
    assert_eq!(a.port(), "8080");
}

#[test]
fn bind_address_choice() {
    let mut a = sample();
    assert_eq!(a.bind_address(), "127.0.0.1");
    a.set_host("0.0.0.0".to_string());
    assert_eq!(a.bind_address(), "0.0.0.0");
    assert_eq!(Args::default().bind_address(), "127.0.0.1");
}
