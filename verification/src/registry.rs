//! The upload session registry: a table mapping each file identifier to
//! the bytes assembled for it so far.
//!
//! A session exists exactly while its file is being assembled: it is
//! created when chunk zero arrives, grown by every later chunk, and
//! removed when the final chunk is processed, which hands the assembled
//! content back to the caller for persisting. The registry's view is the
//! map from file identifier to assembled content.

use vstd::prelude::*;
use vstd::hash_map::StringHashMap;

use crate::bytes::copy_range;
use crate::chunk::check_path;
use crate::chunk::path_ok;
use crate::errors::UploadError;

verus! {

/// The process-wide table of in-progress uploads.
pub struct UploadState {
    sessions: StringHashMap<Vec<u8>>,
}

impl View for UploadState {
    type V = Map<Seq<char>, Seq<u8>>;

    closed spec fn view(&self) -> Map<Seq<char>, Seq<u8>> {
        self.sessions@.map_values(|v: Vec<u8>| v@)
    }
}

impl UploadState {
    /// Creates an empty registry: no file has a session.
    pub fn new() -> (r: Self)
        ensures
            r@ == Map::<Seq<char>, Seq<u8>>::empty(),
    {
        let r = UploadState { sessions: StringHashMap::new() };
        proof {
            assert(r@ =~= Map::<Seq<char>, Seq<u8>>::empty());
        }
        r
    }

    /// Decides whether `file_id` has an open session.
    pub fn contains(&self, file_id: &String) -> (r: bool)
        ensures
            r == self@.contains_key(file_id@),
    {
        self.sessions.contains_key(file_id.as_str())
    }

    /// The number of open sessions.
    pub fn session_count(&self) -> (r: usize)
        ensures
            r == self@.dom().len(),
    {
        proof {
            vstd::hash_map::axiom_string_hash_map_spec_len(&self.sessions);
            assert(self@.dom() =~= self.sessions@.dom());
        }
        self.sessions.len()
    }

    /// Opens (or restarts) the session for `file_id` with empty content.
    ///
    /// A fresh chunk zero always restarts the upload: any previously
    /// assembled content for `file_id` is discarded. Fails with
    /// [`UploadError::StorageError`], changing nothing, exactly when the
    /// identifier does not name a file inside the upload directory.
    pub fn begin(&mut self, file_id: &String) -> (r: Result<(), UploadError>)
        ensures
            path_ok(file_id@) ==> r is Ok && final(self)@ == old(self)@.insert(
                file_id@,
                Seq::<u8>::empty(),
            ),
            !path_ok(file_id@) ==> r == Err::<(), UploadError>(UploadError::StorageError)
                && final(self)@ == old(self)@,
    {
        if !check_path(file_id.as_str()) {
            return Err(UploadError::StorageError);
        }
        let empty: Vec<u8> = Vec::new();
        self.sessions.insert(file_id.clone(), empty);
        proof {
            assert(self@ =~= old(self)@.insert(file_id@, Seq::<u8>::empty()));
        }
        Ok(())
    }

    /// Appends `data` to the session of `file_id`.
    ///
    /// Fails with [`UploadError::SessionNotFound`], changing nothing,
    /// exactly when `file_id` has no open session: its chunk zero was
    /// never received, or the session was already finalized.
    pub fn append(&mut self, file_id: &String, data: &Vec<u8>) -> (r: Result<(), UploadError>)
        ensures
            old(self)@.contains_key(file_id@) ==> r is Ok && final(self)@ == old(self)@.insert(
                file_id@,
                old(self)@[file_id@] + data@,
            ),
            !old(self)@.contains_key(file_id@) ==> r == Err::<(), UploadError>(
                UploadError::SessionNotFound,
            ) && final(self)@ == old(self)@,
    {
        let grown = match self.sessions.get(file_id.as_str()) {
            None => {
                return Err(UploadError::SessionNotFound);
            },
            Some(cur) => {
                let mut grown = copy_range(cur, 0, cur.len());
                proof {
                    assert(grown@ =~= cur@);
                }
                let mut j: usize = 0;
                while j < data.len()
                    invariant
                        j <= data@.len(),
                        grown@ =~= cur@ + data@.subrange(0, j as int),
                    decreases data@.len() - j,
                {
                    grown.push(data[j]);
                    j += 1;
                }
                proof {
                    assert(grown@ =~= cur@ + data@);
                }
                grown
            },
        };
        self.sessions.insert(file_id.clone(), grown);
        proof {
            assert(self@ =~= old(self)@.insert(file_id@, old(self)@[file_id@] + data@));
        }
        Ok(())
    }

    /// Closes the session of `file_id`, removing it from the registry and
    /// returning the bytes assembled for it, in arrival order.
    ///
    /// Returns `None`, changing nothing, when `file_id` has no open
    /// session.
    pub fn finalize(&mut self, file_id: &String) -> (r: Option<Vec<u8>>)
        ensures
            old(self)@.contains_key(file_id@) ==> (r matches Some(content)
                && content@ == old(self)@[file_id@]) && final(self)@ == old(self)@.remove(file_id@),
            !old(self)@.contains_key(file_id@) ==> r is None && final(self)@ == old(self)@,
    {
        let content = match self.sessions.get(file_id.as_str()) {
            None => {
                return None;
            },
            Some(cur) => copy_range(cur, 0, cur.len()),
        };
        proof {
            assert(content@ =~= old(self)@[file_id@]);
        }
        self.sessions.remove(file_id.as_str());
        proof {
            assert(self@ =~= old(self)@.remove(file_id@));
        }
        Some(content)
    }
}

} // verus!
