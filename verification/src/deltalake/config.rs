//! The configuration of Delta tables.

use std::sync::Arc;

use vstd::hash_map::StringHashMap;
use vstd::prelude::*;
use vstd::std_specs::convert::FromSpecImpl;

verus! {

/// The number of commits after which a table is compacted, unless it is configured otherwise.
pub const DEFAULT_COMPACT_AFTER_COMMITS: u64 = 100;

/// The version of the Parquet format.
#[derive(Debug, Clone, Copy, PartialEq, Eq, Structural)]
pub enum WriterVersion {
    /// Version 1.0.
    Parquet1,
    /// Version 2.0.
    Parquet2,
}

/// How Parquet files are compressed.
#[derive(Debug, Clone, Copy, PartialEq, Eq, Structural)]
pub enum Compression {
    /// Not at all.
    Uncompressed,
    /// With Snappy.
    Snappy,
    /// With gzip, at a level.
    Gzip(u32),
    /// With LZO.
    Lzo,
    /// With Brotli, at a level.
    Brotli(u32),
    /// With LZ4 and the framing of Hadoop.
    Lz4,
    /// With Zstandard, at a level.
    Zstd(i32),
    /// With LZ4 and no framing.
    Lz4Raw,
}

/// A number of commits, of which there is at least one.
#[derive(Debug, Clone, Copy, PartialEq, Eq)]
pub struct CommitCount {
    commits: u64,
}

impl CommitCount {
    #[verifier::type_invariant]
    spec fn is_positive(&self) -> bool {
        self.commits > 0
    }

    /// The number of commits.
    pub closed spec fn number(&self) -> u64 {
        self.commits
    }

    /// So many commits, unless there are none.
    pub fn new(commits: u64) -> (count: Option<CommitCount>)
        ensures
            count is Some <==> commits > 0,
            count matches Some(c) ==> c.number() == commits,
    {
        if commits > 0 {
            Some(CommitCount { commits })
        } else {
            None
        }
    }

    /// The number of commits.
    pub fn get(&self) -> (commits: u64)
        ensures
            commits == self.number(),
            commits > 0,
    {
        proof {
            use_type_invariant(self);
        }
        self.commits
    }
}

/// The configuration of a Delta table.
#[derive(Debug, Clone)]
pub struct DeltaTableConfig {
    /// Whether rows are only ever added to the table, so that there are no updates and no
    /// deletions.
    pub append_only: bool,
    /// The version of the Parquet format for the table.
    pub parquet_version: WriterVersion,
    /// How the files of the table are compressed.
    pub compression: Compression,
    /// The columns to order the table by.
    pub z_order_columns: Option<Vec<String>>,
    /// After how many commits the table is compacted.
    pub compact_after_commits: Option<CommitCount>,
    /// After how many commits the table is ordered.
    pub z_order_after_commits: Option<CommitCount>,
}

impl DeltaTableConfig {
    /// Whether this is the configuration of a table for which there is none: rows can be changed,
    /// files of the first version are compressed with Snappy and compacted after so many
    /// commits, and the table is not ordered.
    pub open spec fn is_default(&self) -> bool {
        &&& !self.append_only
        &&& self.parquet_version == WriterVersion::Parquet1
        &&& self.compression == Compression::Snappy
        &&& self.z_order_columns is None
        &&& self.compact_after_commits is Some
        &&& self.compact_after_commits->0.number() == DEFAULT_COMPACT_AFTER_COMMITS
        &&& self.z_order_after_commits is None
    }
}

impl Default for DeltaTableConfig {
    fn default() -> (config: Self)
        ensures
            config.is_default(),
    {
        DeltaTableConfig {
            append_only: false,
            parquet_version: WriterVersion::Parquet1,
            compression: Compression::Snappy,
            z_order_columns: None,
            compact_after_commits: CommitCount::new(DEFAULT_COMPACT_AFTER_COMMITS),
            z_order_after_commits: None,
        }
    }
}

/// How Parquet files are written.
#[derive(Debug, Clone, Copy, PartialEq, Eq, Structural)]
pub struct WriterProperties {
    /// The version of the format.
    pub writer_version: WriterVersion,
    /// How the files are compressed.
    pub compression: Compression,
}

/// How the files of a table are written.
pub open spec fn writer_properties(config: DeltaTableConfig) -> WriterProperties {
    WriterProperties { writer_version: config.parquet_version, compression: config.compression }
}

impl From<&DeltaTableConfig> for WriterProperties {
    fn from(config: &DeltaTableConfig) -> (properties: Self) {
        WriterProperties { writer_version: config.parquet_version, compression: config.compression }
    }
}

impl FromSpecImpl<&DeltaTableConfig> for WriterProperties {
    open spec fn obeys_from_spec() -> bool {
        true
    }

    open spec fn from_spec(config: &DeltaTableConfig) -> Self {
        writer_properties(*config)
    }
}

impl From<DeltaTableConfig> for WriterProperties {
    fn from(config: DeltaTableConfig) -> (properties: Self) {
        WriterProperties { writer_version: config.parquet_version, compression: config.compression }
    }
}

impl FromSpecImpl<DeltaTableConfig> for WriterProperties {
    open spec fn obeys_from_spec() -> bool {
        true
    }

    open spec fn from_spec(config: DeltaTableConfig) -> Self {
        writer_properties(config)
    }
}

/// The configurations of tables, by the names of the tables.
pub struct TableConfigs {
    by_name: StringHashMap<Arc<DeltaTableConfig>>,
}

impl View for TableConfigs {
    type V = Map<Seq<char>, Arc<DeltaTableConfig>>;

    closed spec fn view(&self) -> Map<Seq<char>, Arc<DeltaTableConfig>> {
        self.by_name@
    }
}

impl TableConfigs {
    /// No configurations.
    pub fn new() -> (configs: Self)
        ensures
            configs@ == Map::<Seq<char>, Arc<DeltaTableConfig>>::empty(),
    {
        TableConfigs { by_name: StringHashMap::new() }
    }

    /// Sets the configuration of a table.
    pub fn insert(&mut self, table_name: String, config: Arc<DeltaTableConfig>)
        ensures
            final(self)@ == old(self)@.insert(table_name@, config),
    {
        self.by_name.insert(table_name, config);
    }

    /// The configuration of a table, or the default configuration if the table has none.
    pub fn config_for_table_name(&self, table_name: &str) -> (config: Arc<DeltaTableConfig>)
        ensures
            if self@.contains_key(table_name@) {
                config == self@[table_name@]
            } else {
                config.is_default()
            },
    {
        match self.by_name.get(table_name) {
            Some(config) => Arc::clone(config),
            None => Arc::new(DeltaTableConfig::default()),
        }
    }
}

} // verus!
