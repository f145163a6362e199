//! Configuration model of the pipeline: which step runs, and where the
//! broker, the object storage and the database are. Reading the TOML file
//! happens outside; these types carry the values and their defaults.

use vstd::prelude::*;
use vstd::string::*;

verus! {

/// Top-level configuration.
pub struct Config {
    pub steps: StepsConfig,
    pub infra: Option<InfraConfig>,
}

/// Which pipeline steps are enabled.
pub struct StepsConfig {
    pub update_checker: UpdateCheckerStepConfig,
    pub file_downloader: Option<FileDownloaderStepConfig>,
    pub chunk_splitter: Option<ChunkSplitterStepConfig>,
    pub game_parser: GameParserStepConfig,
    pub postgres_import: PostgresImportStepConfig,
    pub storage_import: StorageImportStepConfig,
    pub hdfs_import: HdfsImportStepConfig,
}

/// The update checker's switch.
pub struct UpdateCheckerStepConfig {
    pub enabled: bool,
}

/// The file downloader's switch.
pub struct FileDownloaderStepConfig {
    pub enabled: bool,
}

/// The chunk splitter's switch.
pub struct ChunkSplitterStepConfig {
    pub enabled: bool,
}

/// The game parser's switch.
pub struct GameParserStepConfig {
    pub enabled: bool,
}

/// The relational import's switch.
pub struct PostgresImportStepConfig {
    pub enabled: bool,
}

/// The CSV storage import's switch.
pub struct StorageImportStepConfig {
    pub enabled: bool,
}

/// The filesystem import's switch and per-kind sync caps.
pub struct HdfsImportStepConfig {
    pub enabled: bool,
    pub synced_games_files_limit: Option<u32>,
    pub synced_game_moves_files_limit: Option<u32>,
}

/// Endpoints and credentials of the shared services.
pub struct InfraConfig {
    pub queue: Option<QueueConfig>,
    pub storage: Option<StorageConfig>,
    pub database: DatabaseConfig,
}

/// The broker's endpoint.
pub struct QueueConfig {
    pub endpoint: String,
}

/// The object storage's endpoint and keys.
pub struct StorageConfig {
    pub endpoint: Option<String>,
    pub access_key: Option<String>,
    pub secret_key: Option<String>,
    pub remote_api_key: Option<String>,
}

/// The database's connection string.
pub struct DatabaseConfig {
    pub connection_string: Option<String>,
}

impl Default for UpdateCheckerStepConfig {
    /// Disabled by default.
    fn default() -> (r: Self)
        ensures
            !r.enabled,
    {
        UpdateCheckerStepConfig { enabled: false }
    }
}

impl Default for ChunkSplitterStepConfig {
    /// Disabled by default.
    fn default() -> (r: Self)
        ensures
            !r.enabled,
    {
        ChunkSplitterStepConfig { enabled: false }
    }
}

impl Default for GameParserStepConfig {
    /// Disabled by default.
    fn default() -> (r: Self)
        ensures
            !r.enabled,
    {
        GameParserStepConfig { enabled: false }
    }
}

impl Default for PostgresImportStepConfig {
    /// Disabled by default.
    fn default() -> (r: Self)
        ensures
            !r.enabled,
    {
        PostgresImportStepConfig { enabled: false }
    }
}

impl Default for StorageImportStepConfig {
    /// Disabled by default.
    fn default() -> (r: Self)
        ensures
            !r.enabled,
    {
        StorageImportStepConfig { enabled: false }
    }
}

impl Default for HdfsImportStepConfig {
    /// Disabled by default, with no sync caps.
    fn default() -> (r: Self)
        ensures
            !r.enabled,
            r.synced_games_files_limit is None,
            r.synced_game_moves_files_limit is None,
    {
        HdfsImportStepConfig {
            enabled: false,
            synced_games_files_limit: None,
            synced_game_moves_files_limit: None,
        }
    }
}

impl Default for StepsConfig {
    /// Every step disabled.
    fn default() -> (r: Self)
        ensures
            !r.update_checker.enabled,
            r.file_downloader is None,
            r.chunk_splitter is None,
            !r.game_parser.enabled,
            !r.postgres_import.enabled,
            !r.storage_import.enabled,
            !r.hdfs_import.enabled,
    {
        StepsConfig {
            update_checker: UpdateCheckerStepConfig { enabled: false },
            file_downloader: None,
            chunk_splitter: None,
            game_parser: GameParserStepConfig { enabled: false },
            postgres_import: PostgresImportStepConfig { enabled: false },
            storage_import: StorageImportStepConfig { enabled: false },
            hdfs_import: HdfsImportStepConfig {
                enabled: false,
                synced_games_files_limit: None,
                synced_game_moves_files_limit: None,
            },
        }
    }
}

impl Default for Config {
    /// No step enabled and no infrastructure given.
    fn default() -> (r: Self)
        ensures
            r.infra is None,
            !r.steps.update_checker.enabled,
    {
        Config { steps: StepsConfig::default(), infra: None }
    }
}

impl Default for QueueConfig {
    /// The in-cluster broker endpoint.
    fn default() -> (r: Self)
        ensures
            r.endpoint@ == "redpanda.default.svc.cluster.local:9092"@,
    {
        QueueConfig { endpoint: String::from_str("redpanda.default.svc.cluster.local:9092") }
    }
}

impl Default for StorageConfig {
    /// No endpoint and no keys.
    fn default() -> (r: Self)
        ensures
            r.endpoint is None,
            r.access_key is None,
            r.secret_key is None,
            r.remote_api_key is None,
    {
        StorageConfig { endpoint: None, access_key: None, secret_key: None, remote_api_key: None }
    }
}

impl Default for DatabaseConfig {
    /// No connection string.
    fn default() -> (r: Self)
        ensures
            r.connection_string is None,
    {
        DatabaseConfig { connection_string: None }
    }
}

impl Default for InfraConfig {
    /// Default broker and storage sections, no database.
    fn default() -> (r: Self)
        ensures
            r.queue is Some,
            r.storage is Some,
            r.database.connection_string is None,
    {
        InfraConfig {
            queue: Some(QueueConfig::default()),
            storage: Some(StorageConfig::default()),
            database: DatabaseConfig::default(),
        }
    }
}

impl HdfsImportStepConfig {
    /// Cap on game files synced per pass.
    pub fn synced_games_files_limit(&self) -> (r: Option<&u32>)
        ensures
            r == match self.synced_games_files_limit {
                Some(ref v) => Some(v),
                None => None::<&u32>,
            },
    {
        self.synced_games_files_limit.as_ref()
    }

    /// Cap on move files synced per pass.
    pub fn synced_game_moves_files_limit(&self) -> (r: Option<&u32>)
        ensures
            r == match self.synced_game_moves_files_limit {
                Some(ref v) => Some(v),
                None => None::<&u32>,
            },
    {
        self.synced_game_moves_files_limit.as_ref()
    }
}

impl Config {
    /// The infrastructure section, or its default when absent.
    pub fn infra(&self) -> (r: InfraConfig)
        ensures
            self.infra matches Some(ref i) ==> infra_like(&r, i),
            self.infra is None ==> r.queue is Some && r.storage is Some,
    {
        match self.infra {
            Some(ref i) => clone_infra(i),
            None => InfraConfig::default(),
        }
    }
}

/// Field-wise sameness of two infrastructure sections, up to views: the
/// same sections present, with the same endpoint, keys and connection
/// string.
pub open spec fn infra_like(a: &InfraConfig, b: &InfraConfig) -> bool {
    &&& (a.queue is Some <==> b.queue is Some)
    &&& (a.queue matches Some(aq) ==> b.queue matches Some(bq) && aq.endpoint@ == bq.endpoint@)
    &&& (a.storage is Some <==> b.storage is Some)
    &&& (a.storage matches Some(astor) ==> b.storage matches Some(bstor) && storage_like(
        &astor,
        &bstor,
    ))
    &&& opt_string_like(&a.database.connection_string, &b.database.connection_string)
}

/// Two storage sections with the same endpoint and keys.
pub open spec fn storage_like(a: &StorageConfig, b: &StorageConfig) -> bool {
    &&& opt_string_like(&a.endpoint, &b.endpoint)
    &&& opt_string_like(&a.access_key, &b.access_key)
    &&& opt_string_like(&a.secret_key, &b.secret_key)
    &&& opt_string_like(&a.remote_api_key, &b.remote_api_key)
}

/// Two optional strings with the same content.
pub open spec fn opt_string_like(a: &Option<String>, b: &Option<String>) -> bool {
    match (a, b) {
        (Some(x), Some(y)) => x@ == y@,
        (None, None) => true,
        _ => false,
    }
}

/// A field-wise copy of an infrastructure section.
fn clone_infra(i: &InfraConfig) -> (r: InfraConfig)
    ensures
        infra_like(&r, i),
{
    InfraConfig {
        queue: match i.queue {
            Some(ref q) => Some(QueueConfig { endpoint: q.endpoint.clone() }),
            None => None,
        },
        storage: match i.storage {
            Some(ref s) => Some(
                StorageConfig {
                    endpoint: clone_opt_string(&s.endpoint),
                    access_key: clone_opt_string(&s.access_key),
                    secret_key: clone_opt_string(&s.secret_key),
                    remote_api_key: clone_opt_string(&s.remote_api_key),
                },
            ),
            None => None,
        },
        database: DatabaseConfig {
            connection_string: clone_opt_string(&i.database.connection_string),
        },
    }
}

/// A copy of an optional string.
fn clone_opt_string(s: &Option<String>) -> (r: Option<String>)
    ensures
        opt_string_like(&r, s),
{
    match s {
        Some(x) => Some(x.clone()),
        None => None,
    }
}

impl StepsConfig {
    /// The splitter section, or its default when absent.
    pub fn chunk_splitter(&self) -> (r: ChunkSplitterStepConfig)
        ensures
            self.chunk_splitter matches Some(c) ==> r.enabled == c.enabled,
            self.chunk_splitter is None ==> !r.enabled,
    {
        match self.chunk_splitter {
            Some(ref c) => ChunkSplitterStepConfig { enabled: c.enabled },
            None => ChunkSplitterStepConfig::default(),
        }
    }

    /// The filesystem-import section.
    pub fn hdfs_import(&self) -> (r: &HdfsImportStepConfig)
        ensures
            r == &self.hdfs_import,
    {
        &self.hdfs_import
    }
}

impl InfraConfig {
    /// The broker section, or its default when absent.
    pub fn queue(&self) -> (r: QueueConfig)
        ensures
            self.queue matches Some(ref q) ==> r.endpoint@ == q.endpoint@,
            self.queue is None ==> r.endpoint@ == "redpanda.default.svc.cluster.local:9092"@,
    {
        match self.queue {
            Some(ref q) => QueueConfig { endpoint: q.endpoint.clone() },
            None => QueueConfig::default(),
        }
    }

    /// The storage section, or its default when absent.
    pub fn storage(&self) -> (r: StorageConfig)
        ensures
            self.storage matches Some(s) ==> storage_like(&r, &s),
            self.storage is None ==> r.endpoint is None && r.access_key is None
                && r.secret_key is None && r.remote_api_key is None,
    {
        match self.storage {
            Some(ref s) => StorageConfig {
                endpoint: clone_opt_string(&s.endpoint),
                access_key: clone_opt_string(&s.access_key),
                secret_key: clone_opt_string(&s.secret_key),
                remote_api_key: clone_opt_string(&s.remote_api_key),
            },
            None => StorageConfig::default(),
        }
    }

    /// The database section.
    pub fn database(&self) -> (r: &DatabaseConfig)
        ensures
            r == &self.database,
    {
        &self.database
    }
}

impl StorageConfig {
    /// The storage endpoint, or the in-cluster default.
    pub fn endpoint(&self) -> (r: String)
        ensures
            self.endpoint matches Some(ref e) ==> r@ == e@,
            self.endpoint is None ==> r@ == "http://garage.default.svc.cluster.local:3900"@,
    {
        match self.endpoint {
            Some(ref e) => e.clone(),
            None => String::from_str("http://garage.default.svc.cluster.local:3900"),
        }
    }

    /// The access key, when given.
    pub fn access_key(&self) -> (r: Option<&String>)
        ensures
            r matches Some(k) <==> self.access_key is Some,
            r matches Some(k) ==> k == &self.access_key.unwrap(),
    {
        self.access_key.as_ref()
    }

    /// The secret key, when given.
    pub fn secret_key(&self) -> (r: Option<&String>)
        ensures
            r matches Some(k) <==> self.secret_key is Some,
            r matches Some(k) ==> k == &self.secret_key.unwrap(),
    {
        self.secret_key.as_ref()
    }

    /// The remote catalog's bearer token, when given.
    pub fn remote_api_key(&self) -> (r: Option<&String>)
        ensures
            r matches Some(k) <==> self.remote_api_key is Some,
            r matches Some(k) ==> k == &self.remote_api_key.unwrap(),
    {
        self.remote_api_key.as_ref()
    }
}

impl DatabaseConfig {
    /// The connection string, when given.
    pub fn connection_string(&self) -> (r: Option<&String>)
        ensures
            r matches Some(k) <==> self.connection_string is Some,
            r matches Some(k) ==> k == &self.connection_string.unwrap(),
    {
        self.connection_string.as_ref()
    }
}

} // verus!
