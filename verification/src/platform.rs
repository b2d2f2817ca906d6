//! What the service needs from the device: random bytes and two stores.
//!
//! The device supplies them by implementing `EntropySource` and `Store`.
//! The service reaches them only through `Entropy` and `Volume`, which keep
//! a ghost record of every call made and of how it ended, so that contracts
//! can say how often the device was asked, for what, and with what outcome.

use vstd::prelude::*;

verus! {

/// The entropy source could not supply bytes.
#[derive(Clone, Copy, Debug, PartialEq, Eq)]
pub struct EntropyFault;

/// A store could not carry out an operation.
#[derive(Clone, Copy, Debug, PartialEq, Eq)]
pub struct StoreFault;

/// A source of cryptographically secure random bytes.
pub trait EntropySource {
    /// Fills the whole buffer with random bytes, or fails.
    fn read(&mut self, buffer: &mut [u8]) -> Result<(), EntropyFault>;
}

/// A store of byte blobs addressed by path.
pub trait Store {
    /// Creates the file at `path`, or empties it where it exists.
    fn create(&mut self, path: &[u8]) -> Result<(), StoreFault>;

    /// Writes all of `data` to the file at `path`.
    fn write(&mut self, path: &[u8], data: &[u8]) -> Result<(), StoreFault>;

    /// Forces what was written to the file at `path` onto the medium.
    fn sync(&mut self, path: &[u8]) -> Result<(), StoreFault>;
}

/// One request for random bytes: how many were asked for, and the bytes
/// that came, or `None` where the source failed.
pub struct Draw {
    pub len: nat,
    pub bytes: Option<Seq<u8>>,
}

/// One operation asked of a store, and whether the store carried it out.
pub enum StoreOp {
    Create { path: Seq<u8>, done: bool },
    Write { path: Seq<u8>, data: Seq<u8>, done: bool },
    Sync { path: Seq<u8>, done: bool },
}

/// An entropy source together with the record of the draws made from it.
pub struct Entropy<R: EntropySource> {
    source: R,
    drawn: Ghost<Seq<Draw>>,
}

impl<R: EntropySource> Entropy<R> {
    /// The draws made so far, oldest first.
    pub closed spec fn log(&self) -> Seq<Draw> {
        self.drawn@
    }

    /// Takes charge of a source from which nothing was drawn yet.
    pub fn new(source: R) -> (entropy: Self)
        ensures
            entropy.log() == Seq::<Draw>::empty(),
    {
        Entropy { source, drawn: Ghost(Seq::empty()) }
    }

    /// Asks the source to fill `buffer`, and records the draw.
    pub fn read(&mut self, buffer: &mut [u8]) -> (result: Result<(), EntropyFault>)
        ensures
            final(self).log() == old(self).log().push(
                Draw {
                    len: old(buffer)@.len(),
                    bytes: if result is Ok {
                        Some(final(buffer)@)
                    } else {
                        None
                    },
                },
            ),
    {
        let ghost len = buffer@.len();
        let result = self.source.read(buffer);
        proof {
            let bytes = if result is Ok {
                Some(buffer@)
            } else {
                None
            };
            self.drawn@ = self.drawn@.push(Draw { len, bytes });
        }
        result
    }
}

/// A store together with the record of the operations asked of it.
pub struct Volume<S: Store> {
    store: S,
    asked: Ghost<Seq<StoreOp>>,
}

impl<S: Store> Volume<S> {
    /// The operations asked so far, oldest first.
    pub closed spec fn log(&self) -> Seq<StoreOp> {
        self.asked@
    }

    /// Takes charge of a store of which nothing was asked yet.
    pub fn new(store: S) -> (volume: Self)
        ensures
            volume.log() == Seq::<StoreOp>::empty(),
    {
        Volume { store, asked: Ghost(Seq::empty()) }
    }

    /// Asks the store to create the file at `path`, and records it.
    pub fn create(&mut self, path: &[u8]) -> (result: Result<(), StoreFault>)
        ensures
            final(self).log() == old(self).log().push(
                StoreOp::Create { path: path@, done: result is Ok },
            ),
    {
        let result = self.store.create(path);
        proof {
            self.asked@ = self.asked@.push(StoreOp::Create { path: path@, done: result is Ok });
        }
        result
    }

    /// Asks the store to write `data` to the file at `path`, and records it.
    pub fn write(&mut self, path: &[u8], data: &[u8]) -> (result: Result<(), StoreFault>)
        ensures
            final(self).log() == old(self).log().push(
                StoreOp::Write { path: path@, data: data@, done: result is Ok },
            ),
    {
        let result = self.store.write(path, data);
        proof {
            self.asked@ = self.asked@.push(
                StoreOp::Write { path: path@, data: data@, done: result is Ok },
            );
        }
        result
    }

    /// Asks the store to sync the file at `path`, and records it.
    pub fn sync(&mut self, path: &[u8]) -> (result: Result<(), StoreFault>)
        ensures
            final(self).log() == old(self).log().push(
                StoreOp::Sync { path: path@, done: result is Ok },
            ),
    {
        let result = self.store.sync(path);
        proof {
            self.asked@ = self.asked@.push(StoreOp::Sync { path: path@, done: result is Ok });
        }
        result
    }
}

} // verus!
