//! Descriptions of where a parameter bundle lives.
//!
//! A resource only names a location; fetching a remote resource is I/O and is
//! done by the embedding application, which hands the tokenizer the loaded
//! bundle.

use vstd::prelude::*;

verus! {

/// A parameter bundle on the local file system.
pub struct LocalResource {
    pub local_path: String,
}

/// A parameter bundle behind a URL, cached under a subdirectory.
pub struct RemoteResource {
    pub url: String,
    pub cache_subdir: String,
}

/// A local or remote parameter bundle.
pub enum Resource {
    Local(LocalResource),
    Remote(RemoteResource),
}

impl RemoteResource {
    /// Describes a remote bundle by its URL and cache subdirectory.
    pub fn new(url: &str, cache_subdir: &str) -> (r: RemoteResource)
        ensures
            r.url@ == url@,
            r.cache_subdir@ == cache_subdir@,
    {
        RemoteResource { url: String::from_str(url), cache_subdir: String::from_str(cache_subdir) }
    }
}

impl Clone for LocalResource {
    fn clone(&self) -> (r: Self)
        ensures
            r.local_path@ == self.local_path@,
    {
        LocalResource { local_path: self.local_path.clone() }
    }
}

impl Clone for RemoteResource {
    fn clone(&self) -> (r: Self)
        ensures
            r.url@ == self.url@,
            r.cache_subdir@ == self.cache_subdir@,
    {
        RemoteResource { url: self.url.clone(), cache_subdir: self.cache_subdir.clone() }
    }
}

impl Clone for Resource {
    fn clone(&self) -> (r: Self)
        ensures
            match (self, &r) {
                (Resource::Local(a), Resource::Local(b)) => a.local_path@ == b.local_path@,
                (Resource::Remote(a), Resource::Remote(b)) => a.url@ == b.url@ && a.cache_subdir@
                    == b.cache_subdir@,
                _ => false,
            },
    {
        match self {
            Resource::Local(l) => Resource::Local(l.clone()),
            Resource::Remote(r) => Resource::Remote(r.clone()),
        }
    }
}

} // verus!
