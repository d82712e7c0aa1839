//! The client facade: aggregates identity material, the resolved contact
//! configuration, the connection manager and the bounded block cache
//! behind a single capability surface.
//!
//! Two construction protocols exist, with an intentional asymmetry that
//! is preserved here on purpose and flagged for upstream review rather
//! than "fixed": the anonymous path (`unregistered`) aborts construction
//! when bootstrap fails, because an ephemeral identity has no value
//! without connectivity; the owned-keys path (`from_keys`) discards a
//! bootstrap failure and returns a usable context whose connectivity
//! problem is discovered lazily, on the first connection-dependent call.
//!
//! Sharing note: the original shared one context among several handles
//! through reference-counted interior mutability serialized by a
//! single-threaded cooperative scheduler. Here the context is a single
//! owner passed by reference within one cooperative task, so no two
//! independently mutable aliases ever exist; identity accessors return
//! copies and are pure, so every reader of the same context observes
//! bit-identical key material and the same cache state.

use vstd::prelude::*;
use crate::cache::{ImmutableBlockCache, IMMUTABLE_BLOCK_CACHE_SIZE};
use crate::contacts::{Contact, resolve, spec_resolve};
use crate::errors::{AppError, BootstrapFailure};
use crate::keys::{ClientKeys, NetworkPublicKey, FullIdentity, AppPublicIdentity};
use crate::manager::{ConnectionManager, ConnectionStatus, BootstrapEvent, bootstrap_outcome};
use crate::lru::{has_key, lookup, promote, insert_model};

verus! {

/// Default bound, in seconds, on each request issued against an
/// established connection. An explicit configuration default rather than
/// a literal baked into the request path.
pub const REQUEST_TIMEOUT_SECS: u64 = 180;

/// Every contact of the set can be dialed.
pub open spec fn all_valid(cs: Seq<Contact>) -> bool {
    forall|i: int| 0 <= i < cs.len() ==> cs[i].spec_valid()
}

/// The view of an optional caller-supplied contact set.
pub open spec fn opt_contacts_view(o: Option<Vec<Contact>>) -> Option<Seq<Contact>> {
    match o {
        Some(v) => Some(v@),
        None => None,
    }
}

/// The contact set an optional supplied set contributes to resolution.
pub open spec fn supplied_view(o: Option<Vec<Contact>>) -> Seq<Contact> {
    match o {
        Some(v) => v@,
        None => Seq::empty(),
    }
}

/// The manager standing that recording a bootstrap outcome leaves behind.
pub open spec fn status_of_outcome(outcome: Result<Contact, BootstrapFailure>) -> ConnectionStatus {
    match outcome {
        Ok(c) => ConnectionStatus::Connected(c),
        Err(f) => ConnectionStatus::BootstrapFailed(f),
    }
}

/// Copies a contact list.
fn copy_contacts(v: &Vec<Contact>) -> (r: Vec<Contact>)
    ensures
        r@ == v@,
{
    let mut out: Vec<Contact> = Vec::new();
    let mut i: usize = 0;
    while i < v.len()
        invariant
            0 <= i <= v@.len(),
            out@ == v@.take(i as int),
        decreases v@.len() - i,
    {
        out.push(v[i]);
        proof {
            assert(v@.take(i + 1) =~= v@.take(i as int).push(v@[i as int]));
        }
        i += 1;
    }
    proof {
        assert(v@.take(v@.len() as int) =~= v@);
    }
    out
}

/// The client context: identity, contact configuration, connection
/// manager, block cache and request timeout, behind one capability
/// surface. Either fully constructed or never returned.
pub struct AppClient {
    keys: ClientKeys,
    owner_key: NetworkPublicKey,
    config: Option<Vec<Contact>>,
    manager: ConnectionManager,
    cache: ImmutableBlockCache,
    timeout_secs: u64,
}

impl AppClient {
    /// The client's own key material.
    pub closed spec fn spec_keys(&self) -> ClientKeys {
        self.keys
    }

    /// The owner's public key.
    pub closed spec fn spec_owner_key(&self) -> NetworkPublicKey {
        self.owner_key
    }

    /// The caller-supplied contact set, as stored.
    pub closed spec fn spec_config(&self) -> Option<Seq<Contact>> {
        opt_contacts_view(self.config)
    }

    /// The resolved contact set the connection manager was built over.
    pub closed spec fn spec_contacts(&self) -> Seq<Contact> {
        self.manager.contacts@
    }

    /// Where the connection stands.
    pub closed spec fn spec_status(&self) -> ConnectionStatus {
        self.manager.status
    }

    /// The connection manager itself.
    pub closed spec fn spec_manager(&self) -> ConnectionManager {
        self.manager
    }

    /// The cached `(hash, block)` pairs in recency order.
    pub closed spec fn cache_view(&self) -> Seq<(Seq<u8>, Seq<u8>)> {
        self.cache.entries()
    }

    /// The cache capacity.
    pub closed spec fn spec_cache_capacity(&self) -> nat {
        self.cache.spec_capacity()
    }

    /// The fixed request timeout, in seconds.
    pub closed spec fn spec_timeout(&self) -> u64 {
        self.timeout_secs
    }

    /// Well-formedness carried by every constructed context.
    pub closed spec fn wf(&self) -> bool {
        self.cache.wf()
    }

    /// Anonymous construction from already drawn key material: resolves
    /// the contact set, bootstraps, and aborts with the typed error if
    /// the configuration is invalid or bootstrap fails — this path is
    /// strict. The owner key of an ephemeral identity is its own BLS
    /// public key.
    pub fn unregistered_with_keys(
        keys: ClientKeys,
        defaults: &Vec<Contact>,
        supplied: Option<Vec<Contact>>,
        events: &Vec<BootstrapEvent>,
    ) -> (r: Result<AppClient, AppError>)
        ensures
            ({
                let resolved = spec_resolve(defaults@, supplied_view(supplied));
                let outcome = bootstrap_outcome(resolved, events@, false);
                &&& (r is Ok <==> all_valid(resolved) && outcome is Ok)
                &&& (r matches Err(e) ==> (!all_valid(resolved) && e == AppError::ConnectionSetup)
                    || (all_valid(resolved) && (outcome matches Err(f) && e
                    == AppError::Bootstrap(f))))
                &&& (r matches Ok(c) ==> {
                    &&& c.wf()
                    &&& c.spec_keys() == keys
                    &&& c.spec_owner_key().bytes == keys.bls_pk
                    &&& c.spec_config() == opt_contacts_view(supplied)
                    &&& c.spec_contacts() == resolved
                    &&& c.spec_status() == status_of_outcome(outcome)
                    &&& c.cache_view() == Seq::<(Seq<u8>, Seq<u8>)>::empty()
                    &&& c.spec_cache_capacity() == IMMUTABLE_BLOCK_CACHE_SIZE as nat
                    &&& c.spec_timeout() == REQUEST_TIMEOUT_SECS
                })
            }),
    {
        let owner_key = keys.network_public_key();
        let resolved = match &supplied {
            Some(s) => resolve(defaults, s),
            None => {
                let empty: Vec<Contact> = Vec::new();
                resolve(defaults, &empty)
            },
        };
        let mut manager = match ConnectionManager::construct(resolved) {
            Ok(m) => m,
            Err(e) => {
                return Err(e);
            },
        };
        match manager.bootstrap(events) {
            Ok(_) => {},
            Err(e) => {
                return Err(e);
            },
        }
        Ok(AppClient {
            keys,
            owner_key,
            config: supplied,
            manager,
            cache: ImmutableBlockCache::new(),
            timeout_secs: REQUEST_TIMEOUT_SECS,
        })
    }

    /// Anonymous construction: draws an ephemeral random identity, then
    /// proceeds as `unregistered_with_keys`. Bootstrap failure aborts
    /// construction — an anonymous identity has no fallback value
    /// without connectivity.
    pub fn unregistered(
        defaults: &Vec<Contact>,
        supplied: Option<Vec<Contact>>,
        events: &Vec<BootstrapEvent>,
    ) -> (r: Result<AppClient, AppError>)
        ensures
            ({
                let resolved = spec_resolve(defaults@, supplied_view(supplied));
                let outcome = bootstrap_outcome(resolved, events@, false);
                &&& (!(all_valid(resolved) && outcome is Ok) ==> r is Err)
                &&& (r matches Err(e) ==> e == AppError::KeyGeneration || (!all_valid(resolved)
                    && e == AppError::ConnectionSetup) || (all_valid(resolved) && (
                outcome matches Err(f) && e == AppError::Bootstrap(f))))
                &&& (r matches Ok(c) ==> {
                    &&& c.wf()
                    &&& c.spec_owner_key().bytes == c.spec_keys().bls_pk
                    &&& c.spec_config() == opt_contacts_view(supplied)
                    &&& c.spec_contacts() == resolved
                    &&& c.spec_status() == status_of_outcome(outcome)
                    &&& c.cache_view() == Seq::<(Seq<u8>, Seq<u8>)>::empty()
                    &&& c.spec_cache_capacity() == IMMUTABLE_BLOCK_CACHE_SIZE as nat
                    &&& c.spec_timeout() == REQUEST_TIMEOUT_SECS
                })
            }),
    {
        let keys = match ClientKeys::generate() {
            Ok(k) => k,
            Err(e) => {
                return Err(e);
            },
        };
        Self::unregistered_with_keys(keys, defaults, supplied, events)
    }

    /// Owned-keys construction with a post-bootstrap hook on the
    /// connection manager, for fault injection in tests; the production
    /// path passes the identity hook. The bootstrap result is discarded:
    /// once the manager itself is constructed, a context is returned.
    pub fn from_keys_with_hook<F: Fn(ConnectionManager) -> ConnectionManager>(
        keys: ClientKeys,
        owner: NetworkPublicKey,
        defaults: &Vec<Contact>,
        config: Vec<Contact>,
        events: &Vec<BootstrapEvent>,
        connection_manager_wrapper_fn: F,
    ) -> (r: Result<AppClient, AppError>)
        requires
            forall|m: ConnectionManager| #[trigger] connection_manager_wrapper_fn.requires((m,)),
        ensures
            ({
                let resolved = spec_resolve(defaults@, config@);
                let outcome = bootstrap_outcome(resolved, events@, false);
                &&& (r is Ok <==> all_valid(resolved))
                &&& (r matches Err(e) ==> e == AppError::ConnectionSetup)
                &&& (r matches Ok(c) ==> {
                    &&& c.wf()
                    &&& c.spec_keys() == keys
                    &&& c.spec_owner_key() == owner
                    &&& c.spec_config() == Some(config@)
                    &&& c.cache_view() == Seq::<(Seq<u8>, Seq<u8>)>::empty()
                    &&& c.spec_cache_capacity() == IMMUTABLE_BLOCK_CACHE_SIZE as nat
                    &&& c.spec_timeout() == REQUEST_TIMEOUT_SECS
                    &&& exists|m: ConnectionManager|
                        m.contacts@ == resolved && m.status == status_of_outcome(outcome)
                            && #[trigger] connection_manager_wrapper_fn.ensures(
                            (m,),
                            c.spec_manager(),
                        )
                })
            }),
    {
        let resolved = resolve(defaults, &config);
        let mut manager = match ConnectionManager::construct(resolved) {
            Ok(m) => m,
            Err(e) => {
                return Err(e);
            },
        };
        let _ = manager.bootstrap(events);
        let ghost pre_hook = manager;
        let manager = connection_manager_wrapper_fn(manager);
        Ok(AppClient {
            keys,
            owner_key: owner,
            config: Some(config),
            manager,
            cache: ImmutableBlockCache::new(),
            timeout_secs: REQUEST_TIMEOUT_SECS,
        })
    }

    /// Owned-keys construction: binds the supplied identity to the owner
    /// and attempts bootstrap, but discards a bootstrap failure — the
    /// context is returned and connectivity problems surface lazily, on
    /// the first connection-dependent call. This leniency, against the
    /// strict anonymous path, is intentional.
    pub fn from_keys(
        keys: ClientKeys,
        owner: NetworkPublicKey,
        defaults: &Vec<Contact>,
        config: Vec<Contact>,
        events: &Vec<BootstrapEvent>,
    ) -> (r: Result<AppClient, AppError>)
        ensures
            ({
                let resolved = spec_resolve(defaults@, config@);
                let outcome = bootstrap_outcome(resolved, events@, false);
                &&& (r is Ok <==> all_valid(resolved))
                &&& (r matches Err(e) ==> e == AppError::ConnectionSetup)
                &&& (r matches Ok(c) ==> {
                    &&& c.wf()
                    &&& c.spec_keys() == keys
                    &&& c.spec_owner_key() == owner
                    &&& c.spec_config() == Some(config@)
                    &&& c.spec_contacts() == resolved
                    &&& c.spec_status() == status_of_outcome(outcome)
                    &&& c.cache_view() == Seq::<(Seq<u8>, Seq<u8>)>::empty()
                    &&& c.spec_cache_capacity() == IMMUTABLE_BLOCK_CACHE_SIZE as nat
                    &&& c.spec_timeout() == REQUEST_TIMEOUT_SECS
                })
            }),
    {
        let identity_hook = |m: ConnectionManager| -> (r: ConnectionManager)
            ensures
                r == m,
            { m };
        let r = Self::from_keys_with_hook(keys, owner, defaults, config, events, identity_hook);
        proof {
            if r is Ok {
                let c = r->Ok_0;
                let m = choose|m: ConnectionManager|
                    m.contacts@ == spec_resolve(defaults@, config@) && m.status == status_of_outcome(
                        bootstrap_outcome(spec_resolve(defaults@, config@), events@, false),
                    ) && call_ensures(identity_hook, (m,), c.spec_manager());
                assert(c.spec_manager() == m);
            }
        }
        r
    }

    /// The derived full identity: the app's secret signing and BLS
    /// material bound to the owner's public key. Infallible.
    pub fn full_id(&self) -> (r: FullIdentity)
        ensures
            r.sign_sk == self.spec_keys().sign_sk,
            r.bls_sk == self.spec_keys().bls_sk,
            r.owner == self.spec_owner_key(),
    {
        self.keys.derive_full_identity(self.owner_key)
    }

    /// The app's public identity: its own network public key with the
    /// owner's. Infallible.
    pub fn public_id(&self) -> (r: AppPublicIdentity)
        ensures
            r.public_key.bytes == self.spec_keys().bls_pk,
            r.owner == self.spec_owner_key(),
    {
        AppPublicIdentity { public_key: self.keys.network_public_key(), owner: self.owner_key }
    }

    /// The caller-supplied contact set, as stored at construction.
    pub fn config(&self) -> (r: Option<Vec<Contact>>)
        ensures
            opt_contacts_view(r) == self.spec_config(),
    {
        match &self.config {
            Some(v) => Some(copy_contacts(v)),
            None => None,
        }
    }

    /// Public signing key.
    pub fn public_signing_key(&self) -> (r: [u8; 32])
        ensures
            r == self.spec_keys().sign_pk,
    {
        self.keys.sign_pk
    }

    /// Secret signing key.
    pub fn secret_signing_key(&self) -> (r: [u8; 64])
        ensures
            r == self.spec_keys().sign_sk,
    {
        self.keys.sign_sk
    }

    /// Public encryption key.
    pub fn public_encryption_key(&self) -> (r: [u8; 32])
        ensures
            r == self.spec_keys().enc_pk,
    {
        self.keys.enc_pk
    }

    /// Secret encryption key.
    pub fn secret_encryption_key(&self) -> (r: [u8; 32])
        ensures
            r == self.spec_keys().enc_sk,
    {
        self.keys.enc_sk
    }

    /// Secret symmetric key.
    pub fn secret_symmetric_key(&self) -> (r: [u8; 32])
        ensures
            r == self.spec_keys().enc_key,
    {
        self.keys.enc_key
    }

    /// Public BLS key.
    pub fn public_bls_key(&self) -> (r: [u8; 48])
        ensures
            r == self.spec_keys().bls_pk,
    {
        self.keys.bls_pk
    }

    /// Secret BLS key.
    pub fn secret_bls_key(&self) -> (r: [u8; 32])
        ensures
            r == self.spec_keys().bls_sk,
    {
        self.keys.bls_sk
    }

    /// The owner's public key.
    pub fn owner_key(&self) -> (r: NetworkPublicKey)
        ensures
            r == self.spec_owner_key(),
    {
        self.owner_key
    }

    /// The app's own network public key.
    pub fn public_key(&self) -> (r: NetworkPublicKey)
        ensures
            r.bytes == self.spec_keys().bls_pk,
    {
        self.keys.network_public_key()
    }

    /// The fixed request timeout, in seconds.
    pub fn request_timeout_secs(&self) -> (r: u64)
        ensures
            r == self.spec_timeout(),
    {
        self.timeout_secs
    }

    /// The contact the context is connected through. On a context whose
    /// bootstrap failure was discarded this is where the problem
    /// surfaces: the recorded failure is returned, while identity and
    /// cache accessors keep succeeding.
    pub fn connected_contact(&self) -> (r: Result<Contact, AppError>)
        ensures
            self.spec_status() matches ConnectionStatus::Connected(c) ==> r == Ok::<
                Contact,
                AppError,
            >(c),
            self.spec_status() matches ConnectionStatus::BootstrapFailed(f) ==> r == Err::<
                Contact,
                AppError,
            >(AppError::Bootstrap(f)),
            self.spec_status() is NotBootstrapped ==> r == Err::<Contact, AppError>(
                AppError::Bootstrap(BootstrapFailure::NoReachableContact),
            ),
            r is Ok <==> self.spec_status() is Connected,
    {
        match self.manager.status {
            ConnectionStatus::Connected(c) => Ok(c),
            ConnectionStatus::BootstrapFailed(f) => Err(AppError::Bootstrap(f)),
            ConnectionStatus::NotBootstrapped => Err(
                AppError::Bootstrap(BootstrapFailure::NoReachableContact),
            ),
        }
    }

    /// Looks a block up in the shared cache; a hit promotes the entry to
    /// most recently used. Identity, configuration and connection are
    /// untouched.
    pub fn cache_get(&mut self, hash: &Vec<u8>) -> (r: Option<Vec<u8>>)
        requires
            old(self).wf(),
        ensures
            final(self).wf(),
            final(self).spec_keys() == old(self).spec_keys(),
            final(self).spec_owner_key() == old(self).spec_owner_key(),
            final(self).spec_config() == old(self).spec_config(),
            final(self).spec_manager() == old(self).spec_manager(),
            final(self).spec_timeout() == old(self).spec_timeout(),
            final(self).spec_cache_capacity() == old(self).spec_cache_capacity(),
            r is Some <==> has_key(old(self).cache_view(), hash@),
            r matches Some(v) ==> v@ == lookup(old(self).cache_view(), hash@)
                && final(self).cache_view() == promote(old(self).cache_view(), hash@),
            r is None ==> final(self).cache_view() == old(self).cache_view(),
    {
        self.cache.get(hash)
    }

    /// Inserts a fetched block into the shared cache under its content
    /// hash, evicting and returning the least recently used entry if the
    /// cache was full and the hash fresh. Identity, configuration and
    /// connection are untouched.
    pub fn cache_insert(&mut self, hash: Vec<u8>, block: Vec<u8>) -> (evicted: Option<
        (Vec<u8>, Vec<u8>),
    >)
        requires
            old(self).wf(),
        ensures
            final(self).wf(),
            final(self).spec_keys() == old(self).spec_keys(),
            final(self).spec_owner_key() == old(self).spec_owner_key(),
            final(self).spec_config() == old(self).spec_config(),
            final(self).spec_manager() == old(self).spec_manager(),
            final(self).spec_timeout() == old(self).spec_timeout(),
            final(self).spec_cache_capacity() == old(self).spec_cache_capacity(),
            final(self).cache_view() == insert_model(
                old(self).cache_view(),
                hash@,
                block@,
                old(self).spec_cache_capacity(),
            ),
            evicted is Some <==> (!has_key(old(self).cache_view(), hash@) && old(
                self,
            ).cache_view().len() == old(self).spec_cache_capacity()),
            evicted matches Some(p) ==> p.0@ == old(self).cache_view()[0].0 && p.1@ == old(
                self,
            ).cache_view()[0].1,
    {
        self.cache.insert(hash, block)
    }

    /// How many blocks the cache holds.
    pub fn cache_len(&self) -> (n: usize)
        ensures
            n == self.cache_view().len(),
    {
        self.cache.len()
    }

    /// A short label for diagnostics; key material is never rendered.
    pub fn description(&self) -> (r: &'static str)
        ensures
            r@ == "Safe App Client"@,
    {
        proof {
            reveal_strlit("Safe App Client");
        }
        "Safe App Client"
    }
}

} // verus!
