//! Sources of block bytes outside the store.

use crate::block::Block;
use crate::error::{Error, Failure};
use vstd::prelude::*;
use vstd::string::StringExecFns;

verus! {

/// Reads or downloads the bytes of a block from somewhere else.
///
/// Nothing is promised of what comes back: check it with
/// [`Block::validate`], or hand it to a store, which checks it, before it is
/// taken for the block's bytes.
pub trait Acquirer {
    /// The bytes offered for `block`.
    fn get_block(&self, block: &Block) -> Result<Vec<u8>, Error>;
}

/// Whether `text` begins with `prefix`.
pub fn starts_with(text: &str, prefix: &str) -> (found: bool)
    ensures
        found == prefix@.is_prefix_of(text@),
{
    let n = prefix.unicode_len();
    if text.unicode_len() < n {
        return false;
    }
    let mut i: usize = 0;
    while i < n
        invariant
            n == prefix@.len(),
            n <= text@.len(),
            i <= n,
            forall|k: int| 0 <= k < i ==> text@[k] == prefix@[k],
        decreases n - i,
    {
        if text.get_char(i) != prefix.get_char(i) {
            assert(text@.subrange(0, n as int)[i as int] != prefix@[i as int]);
            return false;
        }
        i += 1;
    }
    assert(text@.subrange(0, n as int) =~= prefix@);
    true
}

/// Whether the last character of `text` is `last`.
pub fn ends_with_char(text: &str, last: char) -> (found: bool)
    ensures
        found == (text@.len() > 0 && text@.last() == last),
{
    let n = text.unicode_len();
    n > 0 && text.get_char(n - 1) == last
}

/// Whether `url` can be the base of block addresses: it names its scheme,
/// `http://` or `https://`, and does not end in `/`.
pub open spec fn is_base_url(url: Seq<char>) -> bool {
    &&& "http://"@.is_prefix_of(url) || "https://"@.is_prefix_of(url)
    &&& !(url.len() > 0 && url.last() == '/')
}

/// Fetches blocks over HTTP, each from the base address followed by `/` and
/// the hash of the block.
#[derive(Clone, Debug)]
pub struct GetAcquirer {
    pub url: String,
}

impl GetAcquirer {
    /// An acquirer for the base address `url`; [`Error::Config`] where `url`
    /// does not begin with `http://` or `https://`, or ends in `/`.
    pub fn new(url: String) -> (made: Result<GetAcquirer, Error>)
        ensures
            match made {
                Ok(acquirer) => is_base_url(url@) && acquirer.url == url,
                Err(e) => !is_base_url(url@) && e@ == Failure::Config,
            },
    {
        if !starts_with(url.as_str(), "http://") && !starts_with(url.as_str(), "https://") {
            return Err(Error::Config);
        }
        if ends_with_char(url.as_str(), '/') {
            return Err(Error::Config);
        }
        Ok(GetAcquirer { url })
    }

    /// The address from which the bytes of `block` are fetched.
    pub fn block_url(&self, block: &Block) -> (address: String)
        ensures
            address@ == self.url@ + "/"@ + block@.hash,
    {
        self.url.clone().concat("/").concat(block.hash.as_str())
    }
}

} // verus!
