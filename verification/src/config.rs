use vstd::prelude::*;

verus! {

use crate::entity::str_eq;

/// Connection settings for one database.
pub struct DatabaseConfig {
    pub db_user: String,
    pub db_pass: String,
    pub db_host: String,
    pub db_port: u16,
    pub db_name: String,
}

/// One named database configuration held by [`Config`].
pub struct DatabaseClient {
    pub name: String,
    pub config: DatabaseConfig,
}

/// The service's explicit configuration, injected into each component at
/// construction: never read from ambient state inside the core.
pub struct Config {
    pub database_clients: Vec<DatabaseClient>,
    pub server_port: u16,
    pub jwt_secret: String,
    pub dev_mode: bool,
}

/// The first configuration registered under this name, if any.
pub open spec fn spec_config_in(entries: Seq<DatabaseClient>, name: Seq<char>) -> Option<
    DatabaseConfig,
>
    decreases entries.len(),
{
    if entries.len() == 0 {
        Option::None
    } else if entries[0].name@ == name {
        Option::Some(entries[0].config)
    } else {
        spec_config_in(entries.drop_first(), name)
    }
}

impl Config {
    /// The configuration registered under this name, if any.
    pub open spec fn spec_database_config(self, name: Seq<char>) -> Option<DatabaseConfig> {
        spec_config_in(self.database_clients@, name)
    }

    /// Fetches the database configuration registered under a name. The
    /// name must be one of the configured ones: a missing name is the
    /// caller's programming error, ruled out up front.
    pub fn get_database_config(&self, name: &str) -> (r: &DatabaseConfig)
        requires
            self.spec_database_config(name@) is Some,
        ensures
            Some(*r) == self.spec_database_config(name@),
    {
        proof {
            assert(self.database_clients@.skip(0) =~= self.database_clients@);
        }
        let n = self.database_clients.len();
        let mut i: usize = 0;
        while i < n
            invariant
                i <= n,
                n == self.database_clients@.len(),
                spec_config_in(self.database_clients@, name@) is Some,
                spec_config_in(self.database_clients@, name@) == spec_config_in(
                    self.database_clients@.skip(i as int),
                    name@,
                ),
            decreases n - i,
        {
            proof {
                assert(self.database_clients@.skip(i as int).drop_first()
                    =~= self.database_clients@.skip(i + 1));
                assert(self.database_clients@.skip(i as int)[0] == self.database_clients@[i as int]);
            }
            let entry = &self.database_clients[i];
            if str_eq(entry.name.as_str(), name) {
                return &entry.config;
            }
            i += 1;
        }
        proof {
            // dead: the precondition promises the name is configured
            assert(self.database_clients@.skip(n as int) =~= Seq::<DatabaseClient>::empty());
            assert(false);
        }
        &self.database_clients[0].config
    }
}

/// The name of an environment variable a database setting is read from,
/// with the value used when the variable is unset.
pub struct PresetField {
    pub field: String,
    pub default: String,
}

impl PresetField {
    /// Builds a preset field from a variable name and its fallback value.
    pub fn new(field: &str, default: &str) -> (r: PresetField)
        ensures
            r.field@ == field@,
            r.default@ == default@,
    {
        PresetField { field: field.to_owned(), default: default.to_owned() }
    }
}

/// The preset a named database configuration is created from: one preset
/// field per setting. Reading the environment and building the
/// [`DatabaseConfig`] happens outside the core.
pub struct DatabasePreset {
    pub name: String,
    pub db_user: PresetField,
    pub db_pass: PresetField,
    pub db_host: PresetField,
    pub db_port: PresetField,
    pub db_name: PresetField,
}

} // verus!
