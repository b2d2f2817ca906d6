//! The crypto resource manager and the dispatch loop that serves the clients.

use vstd::prelude::*;
use crate::aead::{
    chacha8poly1305_opened, chacha8poly1305_sealed, lemma_nonce_injective, nonce_for, nonce_of,
    open_in_place, seal_in_place, MAX_TEXT_LEN,
};
use crate::api::{reply, request, Reply, Request};
use crate::config::{
    ED25519_SEED_LEN, KEY_PATH_LEN, MAX_SERVICE_CLIENTS, PATH_SEPARATOR, UNIQUE_ID_LEN,
};
use crate::error::Error;
use crate::pipe::{EndpointView, ServiceEndpoint};
use crate::platform::{Draw, Entropy, EntropySource, Store, StoreOp, Volume};
use crate::types::{
    hex_of, lemma_hex_injective, AeadKey, AeadNonce, AeadTag, KeyHandle, Mechanism,
    StorageLocation, UniqueId,
};

verus! {

/// The key under which the service encrypts until a root secret is kept in
/// the durable store: 32 bytes of value 37.
pub open spec fn static_aead_key() -> Seq<u8> {
    Seq::new(32, |i: int| 37u8)
}

/// The storage path of the key with the given identifier: the separator,
/// then the identifier in lowercase hexadecimal.
pub open spec fn key_path(id: Seq<u8>) -> Seq<u8> {
    seq![PATH_SEPARATOR] + hex_of(id)
}

/// The ciphertext and tag of a plaintext, where the text is short enough
/// for the cipher.
pub open spec fn aead_sealed(
    key: Seq<u8>,
    nonce: Seq<u8>,
    associated_data: Seq<u8>,
    plaintext: Seq<u8>,
) -> Option<(Seq<u8>, Seq<u8>)> {
    if plaintext.len() <= MAX_TEXT_LEN {
        Some(chacha8poly1305_sealed(key, nonce, associated_data, plaintext))
    } else {
        None
    }
}

/// The plaintext of a ciphertext, where the text is short enough for the
/// cipher and `tag` authenticates it.
pub open spec fn aead_opened(
    key: Seq<u8>,
    nonce: Seq<u8>,
    associated_data: Seq<u8>,
    ciphertext: Seq<u8>,
    tag: Seq<u8>,
) -> Option<Seq<u8>> {
    if ciphertext.len() <= MAX_TEXT_LEN {
        chacha8poly1305_opened(key, nonce, associated_data, ciphertext, tag)
    } else {
        None
    }
}

/// The step of storing a key at which a store gave up.
#[derive(Clone, Copy, Debug, PartialEq, Eq)]
pub enum StoreStep {
    Create,
    Write,
    Sync,
}

/// The operations that storing `data` at `path` asks of a store: create,
/// write, sync, up to and including the step that failed, if one did.
pub open spec fn store_ops(path: Seq<u8>, data: Seq<u8>, failure: Option<StoreStep>) -> Seq<
    StoreOp,
> {
    match failure {
        Some(StoreStep::Create) => seq![StoreOp::Create { path, done: false }],
        Some(StoreStep::Write) => seq![
            StoreOp::Create { path, done: true },
            StoreOp::Write { path, data, done: false },
        ],
        Some(StoreStep::Sync) => seq![
            StoreOp::Create { path, done: true },
            StoreOp::Write { path, data, done: true },
            StoreOp::Sync { path, done: false },
        ],
        None => seq![
            StoreOp::Create { path, done: true },
            StoreOp::Write { path, data, done: true },
            StoreOp::Sync { path, done: true },
        ],
    }
}

/// What storing a key returns: success where no step failed.
pub open spec fn store_result(failure: Option<StoreStep>) -> Result<(), Error> {
    match failure {
        None => Ok(()),
        Some(_) => Err(Error::FilesystemWriteFailure),
    }
}

/// The store that keys of a mechanism are written to.
pub open spec fn spec_key_location(mechanism: Mechanism) -> StorageLocation {
    StorageLocation::Durable
}

/// The store that keys of a mechanism are written to: keys of every
/// mechanism served so far outlive the session.
#[verifier::when_used_as_spec(spec_key_location)]
pub fn key_location(mechanism: Mechanism) -> (location: StorageLocation)
    ensures
        location == spec_key_location(mechanism),
{
    StorageLocation::Durable
}

/// Builds the storage path of the key with the given identifier.
pub fn storage_path(id: &UniqueId) -> (path: [u8; KEY_PATH_LEN])
    ensures
        path@ == key_path(id@),
{
    let hex = id.hex();
    let mut path: [u8; KEY_PATH_LEN] = [0u8; KEY_PATH_LEN];
    path[0] = PATH_SEPARATOR;
    let mut i: usize = 0;
    while i < 32
        invariant
            i <= 32,
            hex@ == hex_of(id@),
            path@[0] == PATH_SEPARATOR,
            forall|j: int| 0 <= j < i ==> path@[j + 1] == hex@[j],
        decreases 32 - i,
    {
        path[i + 1] = hex[i];
        i += 1;
    }
    assert(path@ =~= key_path(id@));
    path
}

/// The path of a key leads back to one identifier only.
pub proof fn lemma_key_path_injective(a: Seq<u8>, b: Seq<u8>)
    requires
        key_path(a) == key_path(b),
    ensures
        a == b,
{
    assert(key_path(a).subrange(1, key_path(a).len() as int) =~= hex_of(a));
    assert(key_path(b).subrange(1, key_path(b).len() as int) =~= hex_of(b));
    lemma_hex_injective(a, b);
}

/// The resource manager as plain values: what it has asked of the device so
/// far, and its cipher state.
pub struct ResourcesView {
    /// Every draw from the entropy source, oldest first.
    pub draws: Seq<Draw>,
    /// Every operation asked of the durable store, oldest first.
    pub durable: Seq<StoreOp>,
    /// Every operation asked of the volatile store, oldest first.
    pub volatile: Seq<StoreOp>,
    /// The key of the cipher.
    pub aead_key: Seq<u8>,
    /// The number of encryptions made, which numbers the next nonce.
    pub sealed: nat,
}

impl ResourcesView {
    /// After one more draw of `len` bytes that gave `bytes`.
    pub open spec fn drew(self, len: nat, bytes: Option<Seq<u8>>) -> ResourcesView {
        ResourcesView { draws: self.draws.push(Draw { len, bytes }), ..self }
    }

    /// After `ops` were asked of the store at `location`.
    pub open spec fn asked(self, location: StorageLocation, ops: Seq<StoreOp>) -> ResourcesView {
        match location {
            StorageLocation::Durable => ResourcesView { durable: self.durable + ops, ..self },
            StorageLocation::Volatile => ResourcesView { volatile: self.volatile + ops, ..self },
        }
    }

    /// After one more encryption.
    pub open spec fn sealed_once(self) -> ResourcesView {
        ResourcesView { sealed: self.sealed + 1, ..self }
    }

    /// Whether a nonce is left for one more encryption.
    pub open spec fn has_nonce(self) -> bool {
        self.sealed < u64::MAX
    }
}

/// How the device answered while one key pair was generated: the seed and
/// the identifier that the entropy source gave, `None` where it failed, and
/// the step at which the store gave up, `None` where it did not.
pub struct Answers {
    pub seed: Option<Seq<u8>>,
    pub id: Option<UniqueId>,
    pub failure: Option<StoreStep>,
}

/// Generating an Ed25519 key pair: the state of the resources afterwards and
/// the result, given how the device answered.
///
/// A seed of 32 bytes is drawn, then an identifier of 16 bytes; the
/// identifier is encrypted, which spends a nonce; the seed is stored under
/// the path of the identifier in clear. The first step that fails ends the
/// operation with its error.
pub open spec fn ed25519_generated(pre: ResourcesView, answers: Answers) -> (
    ResourcesView,
    Result<Reply, Error>,
) {
    match answers.seed {
        None => (pre.drew(ED25519_SEED_LEN as nat, None), Err(Error::EntropyMalfunction)),
        Some(seed) => {
            let seeded = pre.drew(ED25519_SEED_LEN as nat, Some(seed));
            match answers.id {
                None => (seeded.drew(UNIQUE_ID_LEN as nat, None), Err(Error::EntropyMalfunction)),
                Some(id) => {
                    let named = seeded.drew(UNIQUE_ID_LEN as nat, Some(id@));
                    if !named.has_nonce() {
                        (named, Err(Error::AeadError))
                    } else {
                        let stored = named.sealed_once().asked(
                            spec_key_location(Mechanism::Ed25519),
                            store_ops(key_path(id@), seed, answers.failure),
                        );
                        match answers.failure {
                            Some(_) => (stored, Err(Error::FilesystemWriteFailure)),
                            None => (
                                stored,
                                Ok(
                                    Reply::GenerateKey(
                                        reply::GenerateKey {
                                            key_handle: KeyHandle { key_id: id },
                                        },
                                    ),
                                ),
                            ),
                        }
                    }
                },
            }
        },
    }
}

/// Generating a key pair of a mechanism: the state of the resources
/// afterwards and the result, given how the device answered.
///
/// A mechanism that is not served is refused before anything is asked of
/// the device.
pub open spec fn keypair_generated(pre: ResourcesView, mechanism: Mechanism, answers: Answers) -> (
    ResourcesView,
    Result<Reply, Error>,
) {
    match mechanism {
        Mechanism::Ed25519 => ed25519_generated(pre, answers),
        _ => (pre, Err(Error::MechanismNotAvailable)),
    }
}

/// Serving one request: the state of the resources afterwards and the
/// result, given how the device answered.
pub open spec fn replied(pre: ResourcesView, request: Request, answers: Answers) -> (
    ResourcesView,
    Result<Reply, Error>,
) {
    match request {
        Request::DummyRequest => (pre, Ok(Reply::DummyReply)),
        Request::GenerateKeypair(generate) => keypair_generated(pre, generate.mechanism, answers),
        _ => (pre, Err(Error::RequestNotAvailable)),
    }
}

/// A key pair of a mechanism that is not served is refused with
/// `MechanismNotAvailable`, whatever the device would have answered, and
/// nothing is asked of the device: no draw, no store operation, no nonce.
pub proof fn lemma_unserved_mechanism_refused(
    pre: ResourcesView,
    mechanism: Mechanism,
    answers: Answers,
)
    requires
        !(mechanism is Ed25519),
    ensures
        replied(
            pre,
            Request::GenerateKeypair(request::GenerateKeypair { mechanism }),
            answers,
        ) == (pre, Err::<Reply, Error>(Error::MechanismNotAvailable)),
{
}

/// A request that is not served yet is refused with `RequestNotAvailable`,
/// and nothing is asked of the device.
pub proof fn lemma_unserved_request_refused(pre: ResourcesView, request: Request, answers: Answers)
    requires
        !(request is DummyRequest),
        !(request is GenerateKeypair),
    ensures
        replied(pre, request, answers) == (pre, Err::<Reply, Error>(Error::RequestNotAvailable)),
{
}

/// Serving a request never asks anything of the volatile store, and a
/// handle is returned only for a key whose seed the durable store has
/// created, written and synced at the path of the handle's identifier.
pub proof fn lemma_handle_means_stored(pre: ResourcesView, request: Request, answers: Answers)
    ensures
        replied(pre, request, answers).0.volatile == pre.volatile,
        pre.durable.is_prefix_of(replied(pre, request, answers).0.durable),
        replied(pre, request, answers).1 matches Ok(Reply::GenerateKey(generated)) ==> {
            let path = key_path(generated.key_handle.key_id@);
            let asked = replied(pre, request, answers).0.durable.skip(pre.durable.len() as int);
            &&& answers.seed is Some
            &&& asked == seq![
                StoreOp::Create { path, done: true },
                StoreOp::Write { path, data: answers.seed.unwrap(), done: true },
                StoreOp::Sync { path, done: true },
            ]
        },
{
    let after = replied(pre, request, answers).0;
    assert(after.durable.skip(pre.durable.len() as int) =~= if after.durable.len()
        == pre.durable.len() {
        Seq::<StoreOp>::empty()
    } else {
        store_ops(key_path(answers.id.unwrap()@), answers.seed.unwrap(), answers.failure)
    });
}

/// Encryptions with different numbers use different nonces: while nonces
/// are left, one manager uses none twice. The law speaks of two states of
/// one manager; a manager built anew counts from zero again.
pub proof fn lemma_nonces_never_repeat(earlier: ResourcesView, later: ResourcesView)
    requires
        earlier.sealed < later.sealed,
        later.has_nonce(),
    ensures
        nonce_of(earlier.sealed as u64) != nonce_of(later.sealed as u64),
{
    if nonce_of(earlier.sealed as u64) == nonce_of(later.sealed as u64) {
        lemma_nonce_injective(earlier.sealed as u64, later.sealed as u64);
    }
}

/// The owner of the entropy source, of both stores and of the cipher's key
/// and nonce counter; the only place where key material is made or written.
pub struct ServiceResources<R: EntropySource, P: Store, V: Store> {
    rng: Entropy<R>,
    pfs: Volume<P>,
    vfs: Volume<V>,
    aead_key: AeadKey,
    sealed: u64,
}

impl<R: EntropySource, P: Store, V: Store> View for ServiceResources<R, P, V> {
    type V = ResourcesView;

    closed spec fn view(&self) -> ResourcesView {
        ResourcesView {
            draws: self.rng.log(),
            durable: self.pfs.log(),
            volatile: self.vfs.log(),
            aead_key: self.aead_key@,
            sealed: self.sealed as nat,
        }
    }
}

impl<R: EntropySource, P: Store, V: Store> ServiceResources<R, P, V> {
    /// Takes charge of the device's entropy source and stores. Nothing has
    /// been asked of them yet, and no nonce has been spent.
    ///
    /// The count of encryptions starts at zero here and is kept in memory
    /// only. Under the static key, two managers made one after the other,
    /// as after a restart of the device, therefore use the same nonces
    /// again: nonces are unique within the life of one manager, not beyond
    /// it. What was encrypted by an earlier manager must not be kept beside
    /// what a later one encrypts until the count is held in the durable
    /// store.
    pub fn new(rng: R, persistent_storage: P, volatile_storage: V) -> (resources: Self)
        ensures
            resources@ == (ResourcesView {
                draws: Seq::empty(),
                durable: Seq::empty(),
                volatile: Seq::empty(),
                aead_key: static_aead_key(),
                sealed: 0,
            }),
    {
        let aead_key: AeadKey = [37u8; 32];
        assert(aead_key@ =~= static_aead_key());
        ServiceResources {
            rng: Entropy::new(rng),
            pfs: Volume::new(persistent_storage),
            vfs: Volume::new(volatile_storage),
            aead_key,
            sealed: 0,
        }
    }

    /// The key of the cipher.
    pub fn get_aead_key(&self) -> (key: Result<AeadKey, Error>)
        ensures
            key is Ok,
            key.unwrap()@ == self@.aead_key,
    {
        Ok(self.aead_key)
    }

    /// The nonce that the next encryption will use, or `AeadError` where
    /// every nonce has been spent.
    ///
    /// The nonce is the number of encryptions that this manager has made
    /// since it was built, so it differs from every nonce that this manager
    /// used before, and from no more than those.
    pub fn get_aead_nonce(&self) -> (nonce: Result<AeadNonce, Error>)
        ensures
            self@.has_nonce() ==> nonce is Ok && nonce.unwrap()@ == nonce_of(self@.sealed as u64),
            !self@.has_nonce() ==> nonce == Err::<AeadNonce, Error>(Error::AeadError),
    {
        if self.sealed < u64::MAX {
            Ok(nonce_for(self.sealed))
        } else {
            Err(Error::AeadError)
        }
    }

    /// Encrypts `buf` in place under the next nonce and returns that nonce
    /// and the tag. The ciphertext has the length of the plaintext.
    ///
    /// Succeeds where a nonce is left and the text is within
    /// `MAX_TEXT_LEN`: the nonce is then spent, and decrypting the
    /// ciphertext with the returned nonce and tag and the same associated
    /// data gives the plaintext back. Fails otherwise with `AeadError`,
    /// changing nothing.
    pub fn aead_in_place(&mut self, ad: &[u8], buf: &mut [u8]) -> (result: Result<
        (AeadNonce, AeadTag),
        Error,
    >)
        ensures
            final(buf)@.len() == old(buf)@.len(),
            old(self)@.has_nonce() && old(buf)@.len() <= MAX_TEXT_LEN ==> {
                &&& result is Ok
                &&& result.unwrap().0@ == nonce_of(old(self)@.sealed as u64)
                &&& Some((final(buf)@, result.unwrap().1@)) == aead_sealed(
                    old(self)@.aead_key,
                    result.unwrap().0@,
                    ad@,
                    old(buf)@,
                )
                &&& aead_opened(
                    old(self)@.aead_key,
                    result.unwrap().0@,
                    ad@,
                    final(buf)@,
                    result.unwrap().1@,
                ) == Some(old(buf)@)
                &&& final(self)@ == old(self)@.sealed_once()
            },
            !(old(self)@.has_nonce() && old(buf)@.len() <= MAX_TEXT_LEN) ==> {
                &&& result == Err::<(AeadNonce, AeadTag), Error>(Error::AeadError)
                &&& final(buf)@ == old(buf)@
                &&& final(self)@ == old(self)@
            },
    {
        if buf.len() as u64 > MAX_TEXT_LEN {
            return Err(Error::AeadError);
        }
        let nonce = match self.get_aead_nonce() {
            Ok(nonce) => nonce,
            Err(e) => {
                return Err(e);
            },
        };
        match seal_in_place(&self.aead_key, &nonce, ad, buf) {
            Some(tag) => {
                self.sealed = self.sealed + 1;
                Ok((nonce, tag))
            },
            None => Err(Error::AeadError),
        }
    }

    /// Verifies `tag` and decrypts `buf` in place.
    ///
    /// Succeeds exactly where the text is within `MAX_TEXT_LEN` and the tag
    /// authenticates the ciphertext under the nonce and the associated
    /// data; `buf` then holds the plaintext, and no other tag would have
    /// been accepted. Fails otherwise with `AeadError`; what `buf` then
    /// holds is not to be used.
    pub fn adad_in_place(
        &mut self,
        nonce: &AeadNonce,
        ad: &[u8],
        buf: &mut [u8],
        tag: &AeadTag,
    ) -> (result: Result<(), Error>)
        ensures
            final(self)@ == old(self)@,
            final(buf)@.len() == old(buf)@.len(),
            result is Ok <==> aead_opened(old(self)@.aead_key, nonce@, ad@, old(buf)@, tag@)
                is Some,
            result is Ok ==> Some(final(buf)@) == aead_opened(
                old(self)@.aead_key,
                nonce@,
                ad@,
                old(buf)@,
                tag@,
            ),
            result is Ok ==> forall|other: Seq<u8>|
                other.len() == 16 && other != tag@ ==> #[trigger] aead_opened(
                    old(self)@.aead_key,
                    nonce@,
                    ad@,
                    old(buf)@,
                    other,
                ) is None,
            result is Err ==> result == Err::<(), Error>(Error::AeadError),
    {
        if buf.len() as u64 > MAX_TEXT_LEN {
            return Err(Error::AeadError);
        }
        if open_in_place(&self.aead_key, nonce, ad, buf, tag) {
            Ok(())
        } else {
            Err(Error::AeadError)
        }
    }

    /// Serves one request.
    ///
    /// The diagnostic request is answered without touching the device. A
    /// key pair is generated for the Ed25519 mechanism; any other mechanism
    /// is refused with `MechanismNotAvailable`, and any other request with
    /// `RequestNotAvailable`, before anything is asked of the device.
    pub fn reply_to(&mut self, request: Request) -> (result: Result<Reply, Error>)
        ensures
            exists|answers: Answers|
                (final(self)@, result) == #[trigger] replied(old(self)@, request, answers),
    {
        let ghost pre = self@;
        let ghost nothing = Answers { seed: None, id: None, failure: None };
        match request {
            Request::DummyRequest => {
                assert((self@, Ok::<Reply, Error>(Reply::DummyReply)) == replied(
                    pre,
                    request,
                    nothing,
                ));
                Ok(Reply::DummyReply)
            },
            Request::GenerateKeypair(generate) => {
                match generate.mechanism {
                    Mechanism::Ed25519 => {
                        let result = self.generate_ed25519_keypair(generate);
                        proof {
                            let answers = choose|answers: Answers|
                                (self@, result) == #[trigger] ed25519_generated(pre, answers);
                            assert((self@, result) == replied(pre, request, answers));
                        }
                        result
                    },
                    _ => {
                        assert((self@, Err::<Reply, Error>(Error::MechanismNotAvailable))
                            == replied(pre, request, nothing));
                        Err(Error::MechanismNotAvailable)
                    },
                }
            },
            _ => {
                assert((self@, Err::<Reply, Error>(Error::RequestNotAvailable)) == replied(
                    pre,
                    request,
                    nothing,
                ));
                Err(Error::RequestNotAvailable)
            },
        }
    }

    /// Generates an Ed25519 key pair, stores its seed and returns its handle.
    ///
    /// A request that names another mechanism is refused with
    /// `MechanismNotAvailable` before anything is asked of the device: no
    /// key of another kind is made in its place.
    ///
    /// A seed of 32 bytes and an identifier of 16 bytes are drawn. The
    /// identifier is encrypted under the next nonce; the storage path is
    /// made of the identifier in clear, so that a handle alone leads back to
    /// the key. The seed is written to the durable store at that path. The
    /// first step that fails ends the operation with its error, and no
    /// handle is returned for a key that was not stored.
    pub fn generate_ed25519_keypair(&mut self, request: request::GenerateKeypair) -> (result:
        Result<Reply, Error>)
        ensures
            !(request.mechanism is Ed25519) ==> result == Err::<Reply, Error>(
                Error::MechanismNotAvailable,
            ) && final(self)@ == old(self)@,
            request.mechanism is Ed25519 ==> exists|answers: Answers|
                (final(self)@, result) == #[trigger] ed25519_generated(old(self)@, answers),
    {
        let ghost pre = self@;
        match request.mechanism {
            Mechanism::Ed25519 => {},
            _ => {
                return Err(Error::MechanismNotAvailable);
            },
        }
        let mut seed: [u8; ED25519_SEED_LEN] = [0u8; ED25519_SEED_LEN];
        if self.rng.read(&mut seed).is_err() {
            assert((self@, Err::<Reply, Error>(Error::EntropyMalfunction)) == ed25519_generated(
                pre,
                Answers { seed: None, id: None, failure: None },
            ));
            return Err(Error::EntropyMalfunction);
        }
        let unique_id = match self.generate_unique_id() {
            Ok(unique_id) => unique_id,
            Err(e) => {
                assert((self@, Err::<Reply, Error>(e)) == ed25519_generated(
                    pre,
                    Answers { seed: Some(seed@), id: None, failure: None },
                ));
                return Err(e);
            },
        };
        let mut sealed_id: [u8; UNIQUE_ID_LEN] = unique_id.0;
        let no_associated_data: [u8; 0] = [];
        if let Err(e) = self.aead_in_place(&no_associated_data, &mut sealed_id) {
            assert((self@, Err::<Reply, Error>(e)) == ed25519_generated(
                pre,
                Answers { seed: Some(seed@), id: Some(unique_id), failure: None },
            ));
            return Err(e);
        }
        let ghost named = self@;
        let path = storage_path(&unique_id);
        let stored = self.store_serialized_key(key_location(Mechanism::Ed25519), &path, &seed);
        proof {
            let failure = choose|failure: Option<StoreStep>|
                {
                    &&& self@ == named.asked(
                        spec_key_location(Mechanism::Ed25519),
                        #[trigger] store_ops(path@, seed@, failure),
                    )
                    &&& stored == store_result(failure)
                };
            let answers = Answers { seed: Some(seed@), id: Some(unique_id), failure };
            let reply = match stored {
                Ok(()) => Ok(
                    Reply::GenerateKey(
                        reply::GenerateKey { key_handle: KeyHandle { key_id: unique_id } },
                    ),
                ),
                Err(e) => Err(e),
            };
            assert((self@, reply) == ed25519_generated(pre, answers));
        }
        match stored {
            Ok(()) => Ok(
                Reply::GenerateKey(
                    reply::GenerateKey { key_handle: KeyHandle { key_id: unique_id } },
                ),
            ),
            Err(e) => Err(e),
        }
    }

    /// Draws a fresh identifier of 16 bytes from the entropy source.
    ///
    /// Exactly one draw is made. The result is the identifier made of the
    /// bytes that came, or `EntropyMalfunction` where the source failed.
    pub fn generate_unique_id(&mut self) -> (result: Result<UniqueId, Error>)
        ensures
            final(self)@ == old(self)@.drew(
                UNIQUE_ID_LEN as nat,
                match result {
                    Ok(id) => Some(id@),
                    Err(_) => None,
                },
            ),
            result is Err ==> result == Err::<UniqueId, Error>(Error::EntropyMalfunction),
    {
        let mut unique_id: [u8; UNIQUE_ID_LEN] = [0u8; UNIQUE_ID_LEN];
        match self.rng.read(&mut unique_id) {
            Ok(()) => Ok(UniqueId(unique_id)),
            Err(_) => Err(Error::EntropyMalfunction),
        }
    }

    /// Writes a key to the store at `location`: creates the file at `path`,
    /// writes all of `serialized_key` and syncs it.
    ///
    /// The three steps are asked of that store in this order, and nothing
    /// is asked after a step that failed. The result is `Ok` where all
    /// three were carried out, else `FilesystemWriteFailure`. A file left
    /// behind by a failed attempt is not removed.
    pub fn store_serialized_key(
        &mut self,
        location: StorageLocation,
        path: &[u8],
        serialized_key: &[u8],
    ) -> (result: Result<(), Error>)
        ensures
            exists|failure: Option<StoreStep>|
                {
                    &&& final(self)@ == old(self)@.asked(
                        location,
                        #[trigger] store_ops(path@, serialized_key@, failure),
                    )
                    &&& result == store_result(failure)
                },
    {
        let ghost pre = self@;
        let failure = match location {
            StorageLocation::Durable => store_key_in(&mut self.pfs, path, serialized_key),
            StorageLocation::Volatile => store_key_in(&mut self.vfs, path, serialized_key),
        };
        assert(self@ == pre.asked(location, store_ops(path@, serialized_key@, failure)));
        match failure {
            None => Ok(()),
            Some(_) => Err(Error::FilesystemWriteFailure),
        }
    }
}

/// Creates, writes and syncs the file in one store, and returns the step
/// that failed, if one did.
fn store_key_in<S: Store>(volume: &mut Volume<S>, path: &[u8], data: &[u8]) -> (failure: Option<
    StoreStep,
>)
    ensures
        final(volume).log() == old(volume).log() + store_ops(path@, data@, failure),
{
    let ghost before = volume.log();
    if volume.create(path).is_err() {
        assert(volume.log() =~= before + store_ops(path@, data@, Some(StoreStep::Create)));
        return Some(StoreStep::Create);
    }
    if volume.write(path, data).is_err() {
        assert(volume.log() =~= before + store_ops(path@, data@, Some(StoreStep::Write)));
        return Some(StoreStep::Write);
    }
    if volume.sync(path).is_err() {
        assert(volume.log() =~= before + store_ops(path@, data@, Some(StoreStep::Sync)));
        return Some(StoreStep::Sync);
    }
    assert(volume.log() =~= before + store_ops(path@, data@, None));
    None
}

/// The views of a row of endpoints.
spec fn views(endpoints: Seq<ServiceEndpoint>) -> Seq<EndpointView> {
    endpoints.map_values(|endpoint: ServiceEndpoint| endpoint@)
}

/// The endpoints registered with a service, in the order of registration;
/// never more than `MAX_SERVICE_CLIENTS`.
struct Registry {
    items: Vec<ServiceEndpoint>,
}

impl View for Registry {
    type V = Seq<EndpointView>;

    closed spec fn view(&self) -> Seq<EndpointView> {
        views(self.items@)
    }
}

impl Registry {
    #[verifier::type_invariant]
    spec fn bounded(&self) -> bool {
        self.items@.len() <= MAX_SERVICE_CLIENTS
    }

    fn new() -> (registry: Self)
        ensures
            registry@ == Seq::<EndpointView>::empty(),
    {
        let registry = Registry { items: Vec::new() };
        assert(registry@ =~= Seq::<EndpointView>::empty());
        registry
    }

    fn len(&self) -> (len: usize)
        ensures
            len == self@.len(),
            len <= MAX_SERVICE_CLIENTS,
    {
        proof {
            use_type_invariant(self);
        }
        self.items.len()
    }

    fn get(&self, index: usize) -> (endpoint: Option<&ServiceEndpoint>)
        ensures
            index < self@.len() ==> endpoint is Some && endpoint.unwrap()@ == self@[index as int],
            index >= self@.len() ==> endpoint is None,
    {
        if index < self.items.len() {
            Some(&self.items[index])
        } else {
            None
        }
    }

    /// Hands the endpoints out and leaves the registry empty, until they
    /// are put back with `restore`.
    fn take(&mut self) -> (items: Vec<ServiceEndpoint>)
        ensures
            views(items@) == old(self)@,
            items@.len() <= MAX_SERVICE_CLIENTS,
            final(self)@ == Seq::<EndpointView>::empty(),
    {
        proof {
            use_type_invariant(&*self);
        }
        let mut items: Vec<ServiceEndpoint> = Vec::new();
        std::mem::swap(&mut self.items, &mut items);
        assert(self@ =~= Seq::<EndpointView>::empty());
        items
    }

    fn restore(&mut self, items: Vec<ServiceEndpoint>)
        requires
            items@.len() <= MAX_SERVICE_CLIENTS,
        ensures
            final(self)@ == views(items@),
    {
        self.items = items;
    }
}

/// A service as plain values: its endpoints in the order of registration,
/// and its resources.
pub struct ServiceView {
    pub endpoints: Seq<EndpointView>,
    pub resources: ResourcesView,
}

/// One endpoint's turn in a pass: where an answer can be queued and a
/// request waits, the oldest request is served and its result queued;
/// otherwise nothing happens.
pub open spec fn turn(endpoint: EndpointView, resources: ResourcesView, answers: Answers) -> (
    EndpointView,
    ResourcesView,
) {
    if endpoint.due() {
        let (after, answer) = replied(resources, endpoint.inbound[0], answers);
        (endpoint.answered(answer), after)
    } else {
        (endpoint, resources)
    }
}

/// One pass over the endpoints in the order of registration, given for
/// each endpoint how the device answered during its turn.
pub open spec fn pass(endpoints: Seq<EndpointView>, resources: ResourcesView, answers: Seq<
    Answers,
>) -> (Seq<EndpointView>, ResourcesView)
    decreases endpoints.len(),
{
    if endpoints.len() == 0 {
        (endpoints, resources)
    } else {
        let (served, between) = pass(endpoints.drop_last(), resources, answers.drop_last());
        let (last, after) = turn(endpoints.last(), between, answers.last());
        (served.push(last), after)
    }
}

/// A pass takes at most one request from each endpoint: from an endpoint
/// that can take an answer and has a request waiting it takes the oldest
/// request and queues exactly one answer, and it leaves every other
/// endpoint as it was.
pub proof fn lemma_pass_one_request_each(
    endpoints: Seq<EndpointView>,
    resources: ResourcesView,
    answers: Seq<Answers>,
    index: int,
)
    requires
        0 <= index < endpoints.len(),
    ensures
        pass(endpoints, resources, answers).0.len() == endpoints.len(),
        endpoints[index].due() ==> {
            let after = pass(endpoints, resources, answers).0[index];
            &&& after.inbound == endpoints[index].inbound.drop_first()
            &&& after.inbound.len() == endpoints[index].inbound.len() - 1
            &&& after.outbound.len() == endpoints[index].outbound.len() + 1
            &&& after.outbound.drop_last() == endpoints[index].outbound
            &&& after.inbound_capacity == endpoints[index].inbound_capacity
            &&& after.outbound_capacity == endpoints[index].outbound_capacity
        },
        !endpoints[index].due() ==> pass(endpoints, resources, answers).0[index]
            == endpoints[index],
    decreases endpoints.len(),
{
    lemma_pass_len(endpoints, resources, answers);
    if index < endpoints.len() - 1 {
        lemma_pass_len(endpoints.drop_last(), resources, answers.drop_last());
        lemma_pass_one_request_each(endpoints.drop_last(), resources, answers.drop_last(), index);
    } else {
        lemma_pass_len(endpoints.drop_last(), resources, answers.drop_last());
        let endpoint = endpoints[index];
        if endpoint.due() {
            let between = pass(endpoints.drop_last(), resources, answers.drop_last()).1;
            let answer = replied(between, endpoint.inbound[0], answers.last()).1;
            assert(endpoint.answered(answer).outbound.drop_last() =~= endpoint.outbound);
        }
    }
}

/// A pass skips an endpoint whose outbound queue is full: its queues are
/// afterwards what they were.
pub proof fn lemma_pass_skips_full(
    endpoints: Seq<EndpointView>,
    resources: ResourcesView,
    answers: Seq<Answers>,
    index: int,
)
    requires
        0 <= index < endpoints.len(),
        endpoints[index].outbound.len() >= endpoints[index].outbound_capacity,
    ensures
        pass(endpoints, resources, answers).0[index] == endpoints[index],
{
    lemma_pass_one_request_each(endpoints, resources, answers, index);
}

/// A pass in which no endpoint is due asks nothing of the device: the
/// endpoints and the resources are afterwards what they were.
pub proof fn lemma_pass_idle(
    endpoints: Seq<EndpointView>,
    resources: ResourcesView,
    answers: Seq<Answers>,
)
    requires
        forall|i: int| 0 <= i < endpoints.len() ==> !(#[trigger] endpoints[i]).due(),
    ensures
        pass(endpoints, resources, answers) == (endpoints, resources),
    decreases endpoints.len(),
{
    if endpoints.len() > 0 {
        let rest = endpoints.drop_last();
        assert forall|i: int| 0 <= i < rest.len() implies !(#[trigger] rest[i]).due() by {
            assert(rest[i] == endpoints[i]);
        }
        lemma_pass_idle(rest, resources, answers.drop_last());
        assert(!endpoints[endpoints.len() - 1].due());
        assert(rest.push(endpoints.last()) =~= endpoints);
    }
}

/// The answer that a pass queues for an endpoint is the result of serving
/// its oldest request, on the resources as the turns of the endpoints
/// before it left them.
pub proof fn lemma_pass_queues_the_reply(
    endpoints: Seq<EndpointView>,
    resources: ResourcesView,
    answers: Seq<Answers>,
    index: int,
)
    requires
        0 <= index < endpoints.len(),
        answers.len() == endpoints.len(),
        endpoints[index].due(),
    ensures
        ({
            let between = pass(endpoints.take(index), resources, answers.take(index)).1;
            let served = replied(between, endpoints[index].inbound[0], answers[index]);
            pass(endpoints, resources, answers).0[index] == endpoints[index].answered(served.1)
        }),
    decreases endpoints.len(),
{
    let rest = endpoints.drop_last();
    let rest_answers = answers.drop_last();
    lemma_pass_len(rest, resources, rest_answers);
    if index == endpoints.len() - 1 {
        assert(endpoints.take(index) =~= rest);
        assert(answers.take(index) =~= rest_answers);
    } else {
        lemma_pass_queues_the_reply(rest, resources, rest_answers, index);
        assert(rest.take(index) =~= endpoints.take(index));
        assert(rest_answers.take(index) =~= answers.take(index));
    }
}

/// A pass keeps the number of endpoints.
pub proof fn lemma_pass_len(
    endpoints: Seq<EndpointView>,
    resources: ResourcesView,
    answers: Seq<Answers>,
)
    ensures
        pass(endpoints, resources, answers).0.len() == endpoints.len(),
    decreases endpoints.len(),
{
    if endpoints.len() > 0 {
        lemma_pass_len(endpoints.drop_last(), resources, answers.drop_last());
    }
}

/// The dispatch loop: the registered endpoints and the resource manager
/// that serves them.
pub struct Service<R: EntropySource, P: Store, V: Store> {
    eps: Registry,
    resources: ServiceResources<R, P, V>,
}

impl<R: EntropySource, P: Store, V: Store> View for Service<R, P, V> {
    type V = ServiceView;

    closed spec fn view(&self) -> ServiceView {
        ServiceView { endpoints: self.eps@, resources: self.resources@ }
    }
}

impl<R: EntropySource, P: Store, V: Store> Service<R, P, V> {
    /// A service without endpoints, in charge of the device's entropy
    /// source and stores.
    pub fn new(rng: R, persistent_storage: P, volatile_storage: V) -> (service: Self)
        ensures
            service@.endpoints == Seq::<EndpointView>::empty(),
            service@.resources == (ResourcesView {
                draws: Seq::empty(),
                durable: Seq::empty(),
                volatile: Seq::empty(),
                aead_key: static_aead_key(),
                sealed: 0,
            }),
    {
        Service {
            eps: Registry::new(),
            resources: ServiceResources::new(rng, persistent_storage, volatile_storage),
        }
    }

    /// Registers an endpoint behind those already registered, or hands it
    /// back unchanged where `MAX_SERVICE_CLIENTS` are registered already.
    pub fn add_endpoint(&mut self, ep: ServiceEndpoint) -> (result: Result<(), ServiceEndpoint>)
        ensures
            old(self)@.endpoints.len() < MAX_SERVICE_CLIENTS ==> result is Ok && final(self)@ == (
            ServiceView { endpoints: old(self)@.endpoints.push(ep@), ..old(self)@ }),
            old(self)@.endpoints.len() >= MAX_SERVICE_CLIENTS ==> result == Err::<
                (),
                ServiceEndpoint,
            >(ep) && final(self)@ == old(self)@,
    {
        let mut eps = self.eps.take();
        if eps.len() < MAX_SERVICE_CLIENTS {
            let ghost before = eps@;
            eps.push(ep);
            assert(views(eps@) =~= views(before).push(ep@));
            self.eps.restore(eps);
            Ok(())
        } else {
            self.eps.restore(eps);
            Err(ep)
        }
    }

    /// The number of registered endpoints.
    pub fn endpoint_count(&self) -> (count: usize)
        ensures
            count == self@.endpoints.len(),
            count <= MAX_SERVICE_CLIENTS,
    {
        self.eps.len()
    }

    /// The endpoint that was registered as number `client`, counting from
    /// zero.
    pub fn endpoint(&self, client: usize) -> (endpoint: Option<&ServiceEndpoint>)
        ensures
            client < self@.endpoints.len() ==> endpoint is Some && endpoint.unwrap()@
                == self@.endpoints[client as int],
            client >= self@.endpoints.len() ==> endpoint is None,
    {
        self.eps.get(client)
    }

    /// Queues a request of client number `client`, or hands it back where
    /// there is no such client or its inbound queue is full.
    pub fn submit(&mut self, client: usize, request: Request) -> (result: Result<(), Request>)
        ensures
            final(self)@.resources == old(self)@.resources,
            client < old(self)@.endpoints.len() && old(self)@.endpoints[client as int].inbound.len()
                < old(self)@.endpoints[client as int].inbound_capacity ==> {
                let before = old(self)@.endpoints[client as int];
                &&& result is Ok
                &&& final(self)@.endpoints == old(self)@.endpoints.update(
                    client as int,
                    EndpointView { inbound: before.inbound.push(request), ..before },
                )
            },
            !(client < old(self)@.endpoints.len() && old(
                self,
            )@.endpoints[client as int].inbound.len() < old(
                self,
            )@.endpoints[client as int].inbound_capacity) ==> {
                &&& result == Err::<(), Request>(request)
                &&& final(self)@ == old(self)@
            },
    {
        let mut eps = self.eps.take();
        let ghost before = views(eps@);
        let result = if client < eps.len() {
            eps[client].recv.enqueue(request)
        } else {
            Err(request)
        };
        proof {
            if result is Ok {
                assert(views(eps@) =~= before.update(
                    client as int,
                    EndpointView {
                        inbound: before[client as int].inbound.push(request),
                        ..before[client as int]
                    },
                ));
            } else {
                assert(views(eps@) =~= before);
            }
        }
        self.eps.restore(eps);
        result
    }

    /// Takes the oldest answer that waits for client number `client`, if
    /// there is such a client and an answer waits.
    pub fn collect(&mut self, client: usize) -> (answer: Option<Result<Reply, Error>>)
        ensures
            final(self)@.resources == old(self)@.resources,
            client < old(self)@.endpoints.len() && old(
                self,
            )@.endpoints[client as int].outbound.len() > 0 ==> {
                let before = old(self)@.endpoints[client as int];
                &&& answer == Some(before.outbound[0])
                &&& final(self)@.endpoints == old(self)@.endpoints.update(
                    client as int,
                    EndpointView { outbound: before.outbound.drop_first(), ..before },
                )
            },
            !(client < old(self)@.endpoints.len() && old(
                self,
            )@.endpoints[client as int].outbound.len() > 0) ==> {
                &&& answer is None
                &&& final(self)@ == old(self)@
            },
    {
        let mut eps = self.eps.take();
        let ghost before = views(eps@);
        let answer = if client < eps.len() {
            eps[client].send.dequeue()
        } else {
            None
        };
        proof {
            if answer is Some {
                assert(views(eps@) =~= before.update(
                    client as int,
                    EndpointView {
                        outbound: before[client as int].outbound.drop_first(),
                        ..before[client as int]
                    },
                ));
            } else {
                assert(views(eps@) =~= before);
            }
        }
        self.eps.restore(eps);
        answer
    }

    /// Serves at most one request of each endpoint, in the order of
    /// registration.
    ///
    /// An endpoint whose outbound queue is full is skipped. From any other
    /// endpoint with a request waiting, the oldest request is taken and
    /// served, and its result, success or error, is queued as the answer.
    pub fn process(&mut self)
        ensures
            exists|answers: Seq<Answers>|
                {
                    &&& answers.len() == old(self)@.endpoints.len()
                    &&& (final(self)@.endpoints, final(self)@.resources) == #[trigger] pass(
                        old(self)@.endpoints,
                        old(self)@.resources,
                        answers,
                    )
                },
            final(self)@.endpoints.len() == old(self)@.endpoints.len(),
            forall|i: int|
                0 <= i < old(self)@.endpoints.len() && !old(self)@.endpoints[i].due() ==> (
                #[trigger] final(self)@.endpoints[i]) == old(self)@.endpoints[i],
            forall|i: int|
                0 <= i < old(self)@.endpoints.len() && old(self)@.endpoints[i].due() ==> {
                    let before = old(self)@.endpoints[i];
                    let after = #[trigger] final(self)@.endpoints[i];
                    &&& after.inbound == before.inbound.drop_first()
                    &&& after.outbound.len() == before.outbound.len() + 1
                    &&& after.outbound.drop_last() == before.outbound
                },
    {
        let ghost before = self@;
        let mut eps = self.eps.take();
        let count = eps.len();
        let ghost answers: Seq<Answers> = Seq::empty();
        let mut i: usize = 0;
        assert(views(eps@).take(0) =~= before.endpoints.take(0));
        while i < count
            invariant
                i <= count,
                count == eps@.len(),
                count == before.endpoints.len(),
                count <= MAX_SERVICE_CLIENTS,
                answers.len() == i,
                views(eps@).skip(i as int) == before.endpoints.skip(i as int),
                (views(eps@).take(i as int), self.resources@) == pass(
                    before.endpoints.take(i as int),
                    before.resources,
                    answers,
                ),
            decreases count - i,
        {
            let ghost row = views(eps@);
            let ghost between = self.resources@;
            let ghost mut answer = Answers { seed: None, id: None, failure: None };
            assert(row[i as int] == before.endpoints.skip(i as int)[0]);
            if eps[i].send.ready() {
                if let Some(request) = eps[i].recv.dequeue() {
                    let reply_result = self.resources.reply_to(request);
                    proof {
                        answer = choose|a: Answers|
                            (self.resources@, reply_result) == #[trigger] replied(
                                between,
                                request,
                                a,
                            );
                    }
                    let _ = eps[i].send.enqueue(reply_result);
                }
            }
            proof {
                let now = views(eps@);
                assert(now[i as int] == turn(before.endpoints[i as int], between, answer).0);
                assert(self.resources@ == turn(before.endpoints[i as int], between, answer).1);
                assert(now.skip(i + 1) =~= before.endpoints.skip(i + 1)) by {
                    assert forall|j: int| 0 <= j < now.len() - (i + 1) implies #[trigger] now.skip(
                        i + 1,
                    )[j] == before.endpoints.skip(i + 1)[j] by {
                        assert(now[i + 1 + j] == row[i + 1 + j]);
                        assert(row[i + 1 + j] == before.endpoints.skip(i as int)[j + 1]);
                    }
                }
                assert(now.take(i as int) =~= row.take(i as int));
                assert(now.take(i + 1) =~= row.take(i as int).push(now[i as int]));
                assert(before.endpoints.take(i + 1).drop_last() =~= before.endpoints.take(
                    i as int,
                ));
                assert(answers.push(answer).drop_last() =~= answers);
                answers = answers.push(answer);
            }
            i += 1;
        }
        proof {
            assert(views(eps@).take(count as int) =~= views(eps@));
            assert(before.endpoints.take(count as int) =~= before.endpoints);
            assert forall|i: int| 0 <= i < before.endpoints.len() implies {
                &&& !before.endpoints[i].due() ==> views(eps@)[i] == before.endpoints[i]
                &&& before.endpoints[i].due() ==> {
                    &&& views(eps@)[i].inbound == before.endpoints[i].inbound.drop_first()
                    &&& views(eps@)[i].outbound.len() == before.endpoints[i].outbound.len() + 1
                    &&& views(eps@)[i].outbound.drop_last() == before.endpoints[i].outbound
                }
            } by {
                lemma_pass_one_request_each(before.endpoints, before.resources, answers, i);
            }
        }
        self.eps.restore(eps);
    }
}

} // verus!
