use vstd::prelude::*;

use crate::errors::TuffError;
use crate::util::copy_bytes;

verus! {

/// The index directory as the store sees it: the current chunk at
/// `index_chunk.bin` and the one-generation backup at `index_chunk.prev`.
pub ghost struct StoreModel {
    pub current: Option<Seq<u8>>,
    pub prev: Option<Seq<u8>>,
}

/// What `load_latest_index_chunk` returns for a given directory state.
pub open spec fn spec_load(m: StoreModel) -> Option<Seq<u8>> {
    m.current
}

/// The directory state after `write_latest_index_chunk(data)`: the new
/// bytes become current, and the old current chunk, if any, rotates to
/// the backup slot.
pub open spec fn spec_write(m: StoreModel, data: Seq<u8>) -> StoreModel {
    StoreModel {
        current: Option::Some(data),
        prev: if m.current is Some {
            m.current
        } else {
            m.prev
        },
    }
}

/// After any successful write of `data`, a load returns exactly `data`.
pub proof fn lemma_write_then_load(m: StoreModel, data: Seq<u8>)
    ensures
        spec_load(spec_write(m, data)) == Option::Some(data),
{
}

/// After a write, the previous current chunk is kept as the backup.
pub proof fn lemma_write_keeps_backup(m: StoreModel, data: Seq<u8>)
    ensures
        m.current is Some ==> spec_write(m, data).prev == m.current,
        m.current is None ==> spec_write(m, data).prev == m.prev,
{
}

/// The index-chunk store. The binaries restore it from the index
/// directory, drive it through `load_latest_index_chunk` and
/// `write_latest_index_chunk`, and persist its state back with the
/// atomic-rename protocol (temporary sibling, rotate current to `.prev`,
/// rename over current).
pub struct FsManager {
    current: Option<Vec<u8>>,
    prev: Option<Vec<u8>>,
}

impl View for FsManager {
    type V = StoreModel;

    closed spec fn view(&self) -> StoreModel {
        StoreModel {
            current: match self.current {
                Option::None => Option::None,
                Option::Some(ref v) => Option::Some(v@),
            },
            prev: match self.prev {
                Option::None => Option::None,
                Option::Some(ref v) => Option::Some(v@),
            },
        }
    }
}

impl FsManager {
    /// A store over an empty index directory.
    pub fn new() -> (s: Self)
        ensures
            s@.current is None,
            s@.prev is None,
    {
        FsManager { current: Option::None, prev: Option::None }
    }

    /// A store restored from the bytes found on disk.
    pub fn restore(current: Option<Vec<u8>>, prev: Option<Vec<u8>>) -> (s: Self)
        ensures
            current is None ==> s@.current is None,
            current matches Some(v) ==> s@.current == Some(v@),
            prev is None ==> s@.prev is None,
            prev matches Some(v) ==> s@.prev == Some(v@),
    {
        FsManager { current, prev }
    }

    /// The bytes of the current chunk, or `None` if no current chunk
    /// exists.
    pub fn load_latest_index_chunk(&self) -> (r: Option<Vec<u8>>)
        ensures
            r is None <==> spec_load(self@) is None,
            r matches Some(v) ==> spec_load(self@) == Some(v@),
    {
        match self.current {
            Option::None => Option::None,
            Option::Some(ref v) => Option::Some(copy_bytes(v.as_slice())),
        }
    }

    /// Make `data` the current chunk, rotating the old current chunk, if
    /// any, to the backup slot.
    pub fn write_latest_index_chunk(&mut self, data: &[u8]) -> (r: Result<(), TuffError>)
        ensures
            r is Ok,
            final(self)@ == spec_write(old(self)@, data@),
    {
        if self.current.is_some() {
            self.prev = self.current.take();
        }
        self.current = Option::Some(copy_bytes(data));
        Result::Ok(())
    }

    /// The backup chunk's bytes, if any; operator-visible only, never
    /// read back automatically.
    pub fn backup(&self) -> (r: &Option<Vec<u8>>)
        ensures
            r is None <==> self@.prev is None,
            r matches Some(v) ==> self@.prev == Some(v@),
    {
        &self.prev
    }
}

} // verus!
