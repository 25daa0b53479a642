//! The registry port.
use vstd::prelude::*;

verus! {

/// HTTP access to a package registry. An implementation answers each address
/// the same way for every call of one run.
///
/// The library reaches an implementation only through a type parameter, so
/// there `probe` stands for that implementation's answers, whatever they
/// are; its body here is only what an implementation that states none of its
/// own inherits (every request failing).
pub trait HttpClient {
    /// Whether a GET of the address succeeds with a 2xx status; `None` where
    /// the request itself fails.
    open spec fn probe(&self, url: Seq<char>) -> Option<bool> {
        None
    }

    /// Whether a GET of `url` succeeds with a 2xx status, or why the request failed.
    fn request_if_success(&self, url: &str) -> (r: Result<bool, String>)
        ensures
            match r {
                Ok(b) => self.probe(url@) == Some(b),
                Err(_) => self.probe(url@) is None,
            },
    ;
}

} // verus!
