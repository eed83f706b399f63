use vstd::prelude::*;
use vstd::string::StringExecFns;

verus! {

/// Configuration of the row store: where the collaborator persists, how many
/// cache entries are kept, and how many encryption layers are applied to every
/// stored value. Absent fields fall back to documented defaults.
pub struct VibraConfig {
    pub path: Option<String>,
    pub cache_size: Option<usize>,
    pub encryption_layers: Option<usize>,
}

/// The default capacity of the cache.
pub const DEFAULT_CACHE_SIZE: usize = 1024;

/// The default number of encryption layers.
pub const DEFAULT_ENCRYPTION_LAYERS: usize = 10;

impl VibraConfig {
    /// Fills every absent field with its default: storage at `vibra.db`, a
    /// cache of 1024 entries, and 10 encryption layers.
    pub fn with_defaults(self) -> (r: VibraConfig)
        ensures
            r.path is Some,
            self.path is Some ==> r.path == self.path,
            self.path is None ==> r.path.unwrap()@ == "vibra.db"@,
            r.cache_size is Some,
            self.cache_size is Some ==> r.cache_size == self.cache_size,
            self.cache_size is None ==> r.cache_size.unwrap() == DEFAULT_CACHE_SIZE,
            r.encryption_layers is Some,
            self.encryption_layers is Some ==> r.encryption_layers == self.encryption_layers,
            self.encryption_layers is None ==> r.encryption_layers.unwrap()
                == DEFAULT_ENCRYPTION_LAYERS,
    {
        let path = match self.path {
            Some(p) => Some(p),
            None => Some(String::from_str("vibra.db")),
        };
        let cache_size = match self.cache_size {
            Some(c) => Some(c),
            None => Some(DEFAULT_CACHE_SIZE),
        };
        let encryption_layers = match self.encryption_layers {
            Some(l) => Some(l),
            None => Some(DEFAULT_ENCRYPTION_LAYERS),
        };
        VibraConfig { path, cache_size, encryption_layers }
    }
}

} // verus!
