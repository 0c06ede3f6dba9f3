use vstd::prelude::*;

verus! {

/// The store that a service runs on, for as long as it runs.
#[derive(Debug, PartialEq, Eq)]
pub enum Backend {
    /// The store in memory.
    Memory,
    /// The remote table that the connection string leads to.
    Table { connection_string: String },
}

/// Why a configuration names no store.
#[derive(Clone, Copy, Debug, PartialEq, Eq, Structural)]
pub enum ConfigError {
    /// The backend is neither `memory` nor `table`.
    UnknownBackend,
    /// The backend is `table`, and no connection string is given.
    MissingConnectionString,
}

/// The store that a configuration names: the store in memory where no backend is
/// named or the name is `memory`; the remote table where the name is `table` and
/// a connection string is given.
pub open spec fn backend_named(
    backend: Option<Seq<char>>,
    connection_string: Option<String>,
) -> Result<Backend, ConfigError> {
    match backend {
        None => Ok(Backend::Memory),
        Some(name) => if name == "memory"@ {
            Ok(Backend::Memory)
        } else if name == "table"@ {
            match connection_string {
                Some(text) => Ok(Backend::Table { connection_string: text }),
                None => Err(ConfigError::MissingConnectionString),
            }
        } else {
            Err(ConfigError::UnknownBackend)
        },
    }
}

/// Reads which store to run on. A connection string that is given for the store
/// in memory is not used.
pub fn select_backend(
    backend: Option<&str>,
    connection_string: Option<String>,
) -> (chosen: Result<Backend, ConfigError>)
    ensures
        chosen == backend_named(
            match backend {
                Some(name) => Some(name@),
                None => None,
            },
            connection_string,
        ),
{
    match backend {
        None => Ok(Backend::Memory),
        Some(name) => {
            let name = name.to_owned();
            if name == "memory".to_owned() {
                Ok(Backend::Memory)
            } else if name == "table".to_owned() {
                match connection_string {
                    Some(text) => Ok(Backend::Table { connection_string: text }),
                    None => Err(ConfigError::MissingConnectionString),
                }
            } else {
                Err(ConfigError::UnknownBackend)
            }
        },
    }
}

} // verus!
