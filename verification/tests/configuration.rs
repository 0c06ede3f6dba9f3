use rex::config::{select_backend, Backend, ConfigError};

#[test]
fn the_store_in_memory_is_the_default() {
    assert_eq!(select_backend(None, None), Ok(Backend::Memory));
    assert_eq!(select_backend(Some("memory"), None), Ok(Backend::Memory));
    assert_eq!(select_backend(None, Some("unused".to_string())), Ok(Backend::Memory));
}

#[test]
fn the_remote_table_needs_a_connection_string() {
    assert_eq!(
        select_backend(Some("table"), Some("AccountName=a;AccountKey=b".to_string())),
        Ok(Backend::Table { connection_string: "AccountName=a;AccountKey=b".to_string() })
    );
    assert_eq!(select_backend(Some("table"), None), Err(ConfigError::MissingConnectionString));
}

#[test]
fn any_other_backend_is_refused() {
    assert_eq!(select_backend(Some(""), None), Err(ConfigError::UnknownBackend));
    assert_eq!(select_backend(Some("Memory"), None), Err(ConfigError::UnknownBackend));
    assert_eq!(select_backend(Some("sql"), Some("x".to_string())), Err(ConfigError::UnknownBackend));
}
