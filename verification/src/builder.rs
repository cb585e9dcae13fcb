//! Building a provider from its configuration.
//!
//! The builder collects the name of the provider, its key info store, the
//! locator of the transport that reaches the device, and the secrets of the
//! owner and endorsement hierarchies. Building decodes the secrets,
//! negotiates the cipher of the session on a probing session, and opens the
//! session itself last, once every input has been found valid. The texts of
//! the secrets and of the locator are erased on the way.

use crate::cipher::{can_negotiate, negotiate_cipher, negotiated, CipherChoice};
use crate::error::BuildError;
use crate::key_info::KeyInfoManagerClient;
use crate::provider::{Provider, PROVIDER_UUID};
use crate::secret::{get_hierarchy_auth, hierarchy_auth, scrub};
use vstd::prelude::*;

verus! {

/// The size in bits of the root key of the session.
pub const ROOT_KEY_SIZE: u16 = 2048;

/// The size in bytes of the authentication value of the root key.
pub const ROOT_KEY_AUTH_SIZE: usize = 32;

/// A hierarchy of the device.
#[derive(Clone, Copy, Debug, PartialEq, Eq, Structural)]
pub enum Hierarchy {
    /// The owner hierarchy.
    Owner,
    /// The endorsement hierarchy.
    Endorsement,
}

/// A hashing algorithm of the device.
#[derive(Clone, Copy, Debug, PartialEq, Eq, Structural)]
pub enum HashingAlgorithm {
    /// SHA-1.
    Sha1,
    /// SHA-256.
    Sha256,
    /// SHA-384.
    Sha384,
    /// SHA-512.
    Sha512,
}

/// What the session of a provider is opened with. `T` is the type of the
/// descriptor of the transport.
pub struct SessionParameters<T> {
    /// The descriptor of the transport that reaches the device.
    pub tcti: T,
    /// The size in bits of the root key.
    pub root_key_size: u16,
    /// The size in bytes of the authentication value of the root key.
    pub root_key_auth_size: usize,
    /// The secret of the owner hierarchy.
    pub owner_hierarchy_auth: Vec<u8>,
    /// The secret of the endorsement hierarchy, if one was configured.
    pub endorsement_hierarchy_auth: Option<Vec<u8>>,
    /// The hierarchy under which the root key is made.
    pub root_hierarchy: Hierarchy,
    /// The hashing algorithm that guards the integrity of the session.
    pub session_hash_alg: HashingAlgorithm,
    /// The cipher that encrypts the parameters of the session.
    pub default_context_cipher: CipherChoice,
}

/// Builder of a provider.
///
/// The builder holds secrets. Building consumes it, and erases the texts of
/// the secrets and of the transport locator.
pub struct ProviderBuilder {
    provider_name: Option<String>,
    key_info_store: Option<KeyInfoManagerClient>,
    tcti: Option<String>,
    owner_hierarchy_auth: Option<String>,
    endorsement_hierarchy_auth: Option<String>,
}

/// The secret of the endorsement hierarchy that a configuration field stands
/// for. The secret is optional: an empty field stands for none, and is no
/// error.
pub open spec fn endorsement_secret(field: Option<String>) -> Result<Option<Seq<u8>>, BuildError> {
    match field {
        None => Ok(None),
        Some(_) => match hierarchy_auth(field) {
            Ok(secret) => Ok(Some(secret)),
            Err(e) => Err(e),
        },
    }
}

/// Whether the transport layer can be asked all that probing the device
/// asks, each function on the path that leads to it alone: `parse_locator` on
/// the locator configured, `open_probe` on a descriptor that `parse_locator`
/// gave for it, and `accepts` on a probing session that `open_probe` opened
/// with such a descriptor. Without a locator nothing is asked.
pub open spec fn can_probe<T, P, L, O, A>(
    tcti: Option<String>,
    parse_locator: L,
    open_probe: O,
    accepts: A,
) -> bool where
    L: Fn(&String) -> Option<T>,
    O: FnOnce(T) -> Option<P>,
    A: Fn(&P, CipherChoice) -> bool,
 {
    tcti matches Some(text) ==> {
        &&& call_requires(parse_locator, (&text,))
        &&& forall|locator: T| #[trigger]
            call_ensures(parse_locator, (&text,), Some(locator)) ==> {
                &&& call_requires(open_probe, (locator,))
                &&& forall|probe: P| #[trigger]
                    call_ensures(open_probe, (locator,), Some(probe)) ==> can_negotiate(
                        &probe,
                        accepts,
                    )
            }
    }
}

/// Whether `outcome` is what probing the device may end with, when the
/// transport layer answers as the three functions do: the locator must be
/// there, `parse_locator` must understand it, `open_probe` must open a
/// probing session with it, and on that session the cipher is negotiated.
pub open spec fn probed<T, P, L, O, A>(
    tcti: Option<String>,
    parse_locator: L,
    open_probe: O,
    accepts: A,
    outcome: Result<CipherChoice, BuildError>,
) -> bool where
    L: Fn(&String) -> Option<T>,
    O: FnOnce(T) -> Option<P>,
    A: Fn(&P, CipherChoice) -> bool,
 {
    match tcti {
        None => outcome == Err::<CipherChoice, BuildError>(BuildError::MissingTcti),
        Some(text) => exists|located: Option<T>|
            {
                &&& #[trigger] call_ensures(parse_locator, (&text,), located)
                &&& match located {
                    None => outcome == Err::<CipherChoice, BuildError>(BuildError::InvalidTcti),
                    Some(locator) => exists|opened: Option<P>|
                        {
                            &&& #[trigger] call_ensures(open_probe, (locator,), opened)
                            &&& match opened {
                                None => outcome == Err::<CipherChoice, BuildError>(
                                    BuildError::ContextInitialization,
                                ),
                                Some(probe) => negotiated(&probe, accepts, outcome),
                            }
                        },
                }
            },
    }
}

/// Whether `params` are the parameters of the session of a provider: the
/// fixed sizes of the root key and of its authentication value, the owner
/// hierarchy as root and bound to the secret `owner`, the endorsement
/// hierarchy bound to `endorsement` if there is one, SHA-256 as the hashing
/// algorithm of the session, and `cipher` as its cipher, over the transport
/// that `locator` describes.
pub open spec fn is_session_parameters<T>(
    params: SessionParameters<T>,
    locator: T,
    owner: Seq<u8>,
    endorsement: Option<Seq<u8>>,
    cipher: CipherChoice,
) -> bool {
    &&& params.tcti == locator
    &&& params.root_key_size == ROOT_KEY_SIZE
    &&& params.root_key_auth_size == ROOT_KEY_AUTH_SIZE
    &&& params.owner_hierarchy_auth@ == owner
    &&& match endorsement {
        Some(secret) => params.endorsement_hierarchy_auth matches Some(bytes) && bytes@ == secret,
        None => params.endorsement_hierarchy_auth is None,
    }
    &&& params.root_hierarchy == Hierarchy::Owner
    &&& params.session_hash_alg == HashingAlgorithm::Sha256
    &&& params.default_context_cipher == cipher
}

/// Whether `outcome` is what preparing the session of `builder` may end with.
/// The steps are taken in this order, and the first that fails decides the
/// error: the owner secret is decoded, the cipher is negotiated on a probing
/// session, the transport locator is parsed again for the session itself, and
/// the endorsement secret, if any, is decoded.
pub open spec fn prepared<T, P, L, O, A>(
    builder: ProviderBuilder,
    parse_locator: L,
    open_probe: O,
    accepts: A,
    outcome: Result<SessionParameters<T>, BuildError>,
) -> bool where
    L: Fn(&String) -> Option<T>,
    O: FnOnce(T) -> Option<P>,
    A: Fn(&P, CipherChoice) -> bool,
 {
    match hierarchy_auth(builder.owner_auth()) {
        Err(e) => outcome matches Err(x) && x == e,
        Ok(owner) => exists|negotiation: Result<CipherChoice, BuildError>|
            {
                &&& #[trigger] probed(
                    builder.transport(),
                    parse_locator,
                    open_probe,
                    accepts,
                    negotiation,
                )
                &&& match negotiation {
                    Err(e) => outcome matches Err(x) && x == e,
                    Ok(cipher) => exists|located: Option<T>|
                        {
                            &&& #[trigger] call_ensures(
                                parse_locator,
                                (&builder.transport()->0,),
                                located,
                            )
                            &&& match located {
                                None => outcome matches Err(x) && x == BuildError::InvalidTcti,
                                Some(locator) => match endorsement_secret(
                                    builder.endorsement_auth(),
                                ) {
                                    Err(e) => outcome matches Err(x) && x == e,
                                    Ok(endorsement) => outcome matches Ok(params)
                                        && is_session_parameters(
                                        params,
                                        locator,
                                        owner,
                                        endorsement,
                                        cipher,
                                    ),
                                },
                            }
                        },
                }
            },
    }
}

/// Whether `r` is what building `builder` may end with. The session is
/// prepared first; then the name of the provider and its key info store must
/// be there; the session is opened last, with the parameters prepared, and the
/// provider that owns it has the name and the keys that were configured.
pub open spec fn built<T, P, S, L, O, A, C>(
    builder: ProviderBuilder,
    parse_locator: L,
    open_probe: O,
    accepts: A,
    open_session: C,
    r: Result<Provider<S>, BuildError>,
) -> bool where
    L: Fn(&String) -> Option<T>,
    O: FnOnce(T) -> Option<P>,
    A: Fn(&P, CipherChoice) -> bool,
    C: FnOnce(SessionParameters<T>) -> Option<S>,
 {
    exists|preparation: Result<SessionParameters<T>, BuildError>|
        {
            &&& #[trigger] prepared(builder, parse_locator, open_probe, accepts, preparation)
            &&& match preparation {
                Err(e) => r matches Err(x) && x == e,
                Ok(params) => if builder.name() is None {
                    r matches Err(x) && x == BuildError::MissingProviderName
                } else if builder.store() is None {
                    r matches Err(x) && x == BuildError::MissingKeyInfoStore
                } else {
                    exists|opened: Option<S>|
                        {
                            &&& #[trigger] call_ensures(open_session, (params,), opened)
                            &&& match opened {
                                None => r matches Err(x) && x == BuildError::ContextInitialization,
                                Some(session) => {
                                    &&& r matches Ok(provider)
                                    &&& provider.session() == session
                                    &&& provider.identity().name@ == builder.name()->0@
                                    &&& provider.identity().uuid@ == PROVIDER_UUID@
                                    &&& provider.entries() == builder.store()->0.sequence()
                                    &&& provider.keys() == builder.store()->0@
                                },
                            }
                        }
                },
            }
        }
}

impl ProviderBuilder {
    /// The name configured for the provider.
    pub closed spec fn name(self) -> Option<String> {
        self.provider_name
    }

    /// The key info store configured for the provider.
    pub closed spec fn store(self) -> Option<KeyInfoManagerClient> {
        self.key_info_store
    }

    /// The transport locator configured.
    pub closed spec fn transport(self) -> Option<String> {
        self.tcti
    }

    /// The text configured for the secret of the owner hierarchy.
    pub closed spec fn owner_auth(self) -> Option<String> {
        self.owner_hierarchy_auth
    }

    /// The text configured for the secret of the endorsement hierarchy.
    pub closed spec fn endorsement_auth(self) -> Option<String> {
        self.endorsement_hierarchy_auth
    }

    /// A builder with nothing configured.
    pub fn new() -> (builder: ProviderBuilder)
        ensures
            builder.name() is None,
            builder.store() is None,
            builder.transport() is None,
            builder.owner_auth() is None,
            builder.endorsement_auth() is None,
    {
        ProviderBuilder {
            provider_name: None,
            key_info_store: None,
            tcti: None,
            owner_hierarchy_auth: None,
            endorsement_hierarchy_auth: None,
        }
    }

    /// Sets the name of the provider.
    pub fn with_provider_name(self, provider_name: String) -> (builder: ProviderBuilder)
        ensures
            builder.name() == Some(provider_name),
            builder.store() == self.store(),
            builder.transport() == self.transport(),
            builder.owner_auth() == self.owner_auth(),
            builder.endorsement_auth() == self.endorsement_auth(),
    {
        let mut builder = self;
        builder.provider_name = Some(provider_name);
        builder
    }

    /// Sets the key info store of the provider.
    pub fn with_key_info_store(self, key_info_store: KeyInfoManagerClient) -> (builder:
        ProviderBuilder)
        ensures
            builder.name() == self.name(),
            builder.store() == Some(key_info_store),
            builder.transport() == self.transport(),
            builder.owner_auth() == self.owner_auth(),
            builder.endorsement_auth() == self.endorsement_auth(),
    {
        let mut builder = self;
        builder.key_info_store = Some(key_info_store);
        builder
    }

    /// Sets the locator of the transport that reaches the device.
    pub fn with_tcti(self, tcti: &str) -> (builder: ProviderBuilder)
        ensures
            builder.name() == self.name(),
            builder.store() == self.store(),
            builder.transport() matches Some(text) && text@ == tcti@,
            builder.owner_auth() == self.owner_auth(),
            builder.endorsement_auth() == self.endorsement_auth(),
    {
        let mut builder = self;
        builder.tcti = Some(tcti.to_owned());
        builder
    }

    /// Sets the text of the secret of the owner hierarchy.
    pub fn with_owner_hierarchy_auth(self, owner_hierarchy_auth: String) -> (builder:
        ProviderBuilder)
        ensures
            builder.name() == self.name(),
            builder.store() == self.store(),
            builder.transport() == self.transport(),
            builder.owner_auth() == Some(owner_hierarchy_auth),
            builder.endorsement_auth() == self.endorsement_auth(),
    {
        let mut builder = self;
        builder.owner_hierarchy_auth = Some(owner_hierarchy_auth);
        builder
    }

    /// Sets the text of the secret of the endorsement hierarchy.
    pub fn with_endorsement_hierarchy_auth(self, endorsement_hierarchy_auth: String) -> (builder:
        ProviderBuilder)
        ensures
            builder.name() == self.name(),
            builder.store() == self.store(),
            builder.transport() == self.transport(),
            builder.owner_auth() == self.owner_auth(),
            builder.endorsement_auth() == Some(endorsement_hierarchy_auth),
    {
        let mut builder = self;
        builder.endorsement_hierarchy_auth = Some(endorsement_hierarchy_auth);
        builder
    }

    /// Finds the best cipher that the device supports for the session.
    ///
    /// A probing session is opened over the configured transport, used to
    /// negotiate the cipher, and closed before this function returns: it is
    /// owned here and goes no further.
    pub fn find_default_context_cipher<T, P, L, O, A>(
        &self,
        parse_locator: &L,
        open_probe: O,
        accepts: A,
    ) -> (r: Result<CipherChoice, BuildError>) where
        L: Fn(&String) -> Option<T>,
        O: FnOnce(T) -> Option<P>,
        A: Fn(&P, CipherChoice) -> bool,

        requires
            can_probe(self.transport(), *parse_locator, open_probe, accepts),
        ensures
            probed(self.transport(), *parse_locator, open_probe, accepts, r),
    {
        let text = match &self.tcti {
            None => {
                return Err(BuildError::MissingTcti);
            },
            Some(text) => text,
        };
        let located = parse_locator(text);
        let ghost located_answer = located;
        let locator = match located {
            None => {
                return Err(BuildError::InvalidTcti);
            },
            Some(locator) => locator,
        };
        let opened = open_probe(locator);
        let ghost opened_answer = opened;
        let r = match opened {
            None => Err(BuildError::ContextInitialization),
            Some(probe) => negotiate_cipher(&probe, accepts),
        };
        proof {
            assert(call_ensures(open_probe, (locator,), opened_answer));
            assert(call_ensures(*parse_locator, (text,), located_answer));
        }
        r
    }

    /// Takes the steps of building that come before the session is opened:
    /// decodes the secrets, negotiates the cipher, parses the transport
    /// locator, and erases each text once it has been read.
    fn prepare_session<T, P, L, O, A>(
        &mut self,
        parse_locator: &L,
        open_probe: O,
        accepts: A,
    ) -> (r: Result<SessionParameters<T>, BuildError>) where
        L: Fn(&String) -> Option<T>,
        O: FnOnce(T) -> Option<P>,
        A: Fn(&P, CipherChoice) -> bool,

        requires
            hierarchy_auth(old(self).owner_auth()) is Ok ==> can_probe(
                old(self).transport(),
                *parse_locator,
                open_probe,
                accepts,
            ),
        ensures
            prepared(*old(self), *parse_locator, open_probe, accepts, r),
            final(self).name() == old(self).name(),
            final(self).store() == old(self).store(),
            final(self).owner_auth() is None,
            r is Ok ==> final(self).transport() is None && final(self).endorsement_auth() is None,
    {
        let owner = match get_hierarchy_auth(&mut self.owner_hierarchy_auth) {
            Ok(owner) => owner,
            Err(e) => {
                return Err(e);
            },
        };
        let negotiation = self.find_default_context_cipher(parse_locator, open_probe, accepts);
        let cipher = match negotiation {
            Ok(cipher) => cipher,
            Err(e) => {
                return Err(e);
            },
        };
        let located = match &self.tcti {
            None => {
                return Err(BuildError::MissingTcti);
            },
            Some(text) => parse_locator(text),
        };
        let ghost located_answer = located;
        assert(call_ensures(*parse_locator, (&old(self).transport()->0,), located_answer));
        let locator = match located {
            None => {
                return Err(BuildError::InvalidTcti);
            },
            Some(locator) => locator,
        };
        scrub(&mut self.tcti);
        let endorsement = if self.endorsement_hierarchy_auth.is_some() {
            match get_hierarchy_auth(&mut self.endorsement_hierarchy_auth) {
                Ok(secret) => Some(secret),
                Err(e) => {
                    return Err(e);
                },
            }
        } else {
            None
        };
        Ok(
            SessionParameters {
                tcti: locator,
                root_key_size: ROOT_KEY_SIZE,
                root_key_auth_size: ROOT_KEY_AUTH_SIZE,
                owner_hierarchy_auth: owner,
                endorsement_hierarchy_auth: endorsement,
                root_hierarchy: Hierarchy::Owner,
                session_hash_alg: HashingAlgorithm::Sha256,
                default_context_cipher: cipher,
            },
        )
    }

    /// Builds the provider.
    ///
    /// The steps are taken in the order that `built` gives, and the first one
    /// that fails ends the build with its error: no provider exists then. In
    /// particular the build fails with a configuration error when the owner
    /// secret is missing or malformed, whatever the device would answer; the
    /// endorsement secret may be left out. The session is opened last, so that
    /// a failure never leaves a session behind. The probing session is closed
    /// before the session itself is opened. No function of the transport
    /// layer need be callable off the path that leads to it: a build without
    /// owner secret calls none of them. Whatever the outcome, the texts of
    /// both secrets and of the transport locator have been erased when this
    /// function returns.
    pub fn build<T, P, S, L, O, A, C>(
        self,
        parse_locator: L,
        open_probe: O,
        accepts: A,
        open_session: C,
    ) -> (r: Result<Provider<S>, BuildError>) where
        L: Fn(&String) -> Option<T>,
        O: FnOnce(T) -> Option<P>,
        A: Fn(&P, CipherChoice) -> bool,
        C: FnOnce(SessionParameters<T>) -> Option<S>,

        requires
            hierarchy_auth(self.owner_auth()) is Ok ==> can_probe(
                self.transport(),
                parse_locator,
                open_probe,
                accepts,
            ),
            forall|params: SessionParameters<T>|
                self.name() is Some && self.store() is Some && prepared(
                    self,
                    parse_locator,
                    open_probe,
                    accepts,
                    Ok::<SessionParameters<T>, BuildError>(params),
                ) ==> #[trigger] call_requires(open_session, (params,)),
        ensures
            built(self, parse_locator, open_probe, accepts, open_session, r),
            hierarchy_auth(self.owner_auth()) matches Err(e) ==> (r matches Err(x) && x == e),
    {
        let mut builder = self;
        let preparation = builder.prepare_session(&parse_locator, open_probe, accepts);
        scrub(&mut builder.tcti);
        scrub(&mut builder.owner_hierarchy_auth);
        scrub(&mut builder.endorsement_hierarchy_auth);
        // From here on no text of a secret or of the locator is left.
        assert(builder.transport() is None && builder.owner_auth() is None
            && builder.endorsement_auth() is None);
        let params = match preparation {
            Ok(params) => params,
            Err(e) => {
                return Err(e);
            },
        };
        let ProviderBuilder { provider_name, key_info_store, .. } = builder;
        let provider_name = match provider_name {
            Some(provider_name) => provider_name,
            None => {
                return Err(BuildError::MissingProviderName);
            },
        };
        let key_info_store = match key_info_store {
            Some(key_info_store) => key_info_store,
            None => {
                return Err(BuildError::MissingKeyInfoStore);
            },
        };
        let opened = open_session(params);
        let ghost opened_answer = opened;
        let r = match opened {
            Some(session) => Ok(Provider::new(provider_name, key_info_store, session)),
            None => Err(BuildError::ContextInitialization),
        };
        assert(call_ensures(open_session, (params,), opened_answer));
        r
    }
}

impl Default for ProviderBuilder {
    /// A builder with nothing configured.
    fn default() -> (builder: ProviderBuilder)
        ensures
            builder.name() is None,
            builder.store() is None,
            builder.transport() is None,
            builder.owner_auth() is None,
            builder.endorsement_auth() is None,
    {
        ProviderBuilder::new()
    }
}

} // verus!
