//! The provider: its identity, what it supports, and its operations.
//!
//! Every operation that needs the device is handed the hardware primitive to
//! run, as a function of the session that the provider owns. The provider
//! decides whether the primitive runs at all, with which key, and what its
//! answer means for the caller and for the key info store.

use crate::error::{OperationError, SessionFailure};
use crate::key_attributes::{Algorithm, CheckType, KeyAttributes};
use crate::key_info::{
    distinct_ids, key_id, keys_of, map_of, owners_of, position, ApplicationIdentity, KeyEntryView,
    KeyId, KeyInfo, KeyInfoManagerClient, KeyRecord, KeyRecordView,
};
use parsec_interface::operations::list_providers::Uuid;
use vstd::prelude::*;

verus! {

/// The name of a provider that was given no other.
pub const DEFAULT_PROVIDER_NAME: &'static str = "tpm-provider";

/// The identifier of this kind of provider.
pub const PROVIDER_UUID: &'static str = "1e4954a4-ff21-46d3-ab0c-661eeb667e1d";

/// The description that the provider gives of itself.
pub const PROVIDER_DESCRIPTION: &'static str =
    "TPM provider, interfacing with a library implementing the TCG TSS 2.0 Enhanced System API specification.";

/// The vendor that the provider names.
pub const PROVIDER_VENDOR: &'static str = "Trusted Computing Group (TCG)";

/// The operations of the service.
#[derive(Clone, Copy, Debug, PartialEq, Eq, Structural)]
pub enum Opcode {
    Ping,
    PsaGenerateKey,
    PsaDestroyKey,
    PsaSignHash,
    PsaVerifyHash,
    PsaImportKey,
    PsaExportPublicKey,
    ListProviders,
    ListOpcodes,
    PsaAsymmetricEncrypt,
    PsaAsymmetricDecrypt,
    PsaExportKey,
    PsaGenerateRandom,
    ListAuthenticators,
    PsaHashCompute,
    PsaHashCompare,
    PsaAeadEncrypt,
    PsaAeadDecrypt,
    PsaRawKeyAgreement,
    PsaCipherEncrypt,
    PsaCipherDecrypt,
    PsaSignMessage,
    PsaVerifyMessage,
    ListKeys,
    ListClients,
    DeleteClient,
    AttestKey,
    PrepareKeyAttestation,
    CanDoCrypto,
}

/// The kinds of provider that the service knows.
#[derive(Clone, Copy, Debug, PartialEq, Eq, Structural)]
pub enum ProviderId {
    Core,
    MbedCrypto,
    Pkcs11,
    Tpm,
    TrustedService,
    CryptoAuthLib,
}

/// What identifies a provider within the service.
#[derive(Clone, Debug, PartialEq, Eq)]
pub struct ProviderIdentity {
    /// The name given to the provider when it was built.
    pub name: String,
    /// The identifier of the kind of provider.
    pub uuid: String,
}

/// What a provider tells about itself.
#[derive(Clone, Debug, PartialEq, Eq)]
pub struct ProviderInfo {
    /// The identifier of the kind of provider, as sixteen bytes.
    pub uuid: [u8; 16],
    /// A short description of the provider.
    pub description: String,
    /// The vendor of the provider.
    pub vendor: String,
    /// The major version of the implementation.
    pub version_maj: u32,
    /// The minor version of the implementation.
    pub version_min: u32,
    /// The revision of the implementation.
    pub version_rev: u32,
    /// The kind of provider.
    pub id: ProviderId,
}

/// The operations that the provider supports.
pub open spec fn supported_opcodes() -> Seq<Opcode> {
    seq![
        Opcode::PsaGenerateKey,
        Opcode::PsaGenerateRandom,
        Opcode::PsaDestroyKey,
        Opcode::PsaSignHash,
        Opcode::PsaVerifyHash,
        Opcode::PsaImportKey,
        Opcode::PsaExportPublicKey,
        Opcode::PsaAsymmetricDecrypt,
        Opcode::PsaAsymmetricEncrypt,
        Opcode::CanDoCrypto,
        Opcode::AttestKey,
        Opcode::PrepareKeyAttestation,
    ]
}

/// The sixteen bytes of the identifier that `Uuid::parse_str` reads from
/// `text`, or `None` where the parser refuses the text.
pub uninterp spec fn parsed_uuid(text: Seq<char>) -> Option<Seq<u8>>;

/// Calls `Uuid::parse_str`, the parser of the `uuid` crate that
/// `parsec_interface` hands on, and takes the bytes of the identifier it
/// returns. Nothing is claimed of the parser but that what it reads depends
/// on the text alone.
#[verifier::external_body]
fn parse_uuid(text: &str) -> (r: Option<[u8; 16]>)
    ensures
        match r {
            Some(bytes) => parsed_uuid(text@) == Some(bytes@),
            None => parsed_uuid(text@) is None,
        },
{
    match Uuid::parse_str(text) {
        Ok(uuid) => Some(*uuid.as_bytes()),
        Err(_) => None,
    }
}

/// Whether `r` is the description of the provider, given the bytes `uuid` of
/// its identifier: the fixed description, vendor and version 0.1.0, and the
/// supported operations, each once. Without the bytes there is no description.
pub open spec fn is_description(
    uuid: Option<Seq<u8>>,
    r: Result<(ProviderInfo, Vec<Opcode>), OperationError>,
) -> bool {
    match uuid {
        Some(bytes) => {
            &&& r matches Ok((info, opcodes))
            &&& info.uuid@ == bytes
            &&& info.description@ == PROVIDER_DESCRIPTION@
            &&& info.vendor@ == PROVIDER_VENDOR@
            &&& info.version_maj == 0
            &&& info.version_min == 1
            &&& info.version_rev == 0
            &&& info.id == ProviderId::Tpm
            &&& opcodes@ == supported_opcodes()
        },
        None => r matches Err(e) && e == OperationError::Validation,
    }
}

/// Describes the provider, given the bytes of its identifier.
pub fn provider_info(uuid: Option<[u8; 16]>) -> (r: Result<
    (ProviderInfo, Vec<Opcode>),
    OperationError,
>)
    ensures
        is_description(
            match uuid {
                Some(bytes) => Some(bytes@),
                None => None,
            },
            r,
        ),
{
    match uuid {
        None => Err(OperationError::Validation),
        Some(bytes) => {
            let info = ProviderInfo {
                uuid: bytes,
                description: PROVIDER_DESCRIPTION.to_owned(),
                vendor: PROVIDER_VENDOR.to_owned(),
                version_maj: 0,
                version_min: 1,
                version_rev: 0,
                id: ProviderId::Tpm,
            };
            let opcodes = vec![
                Opcode::PsaGenerateKey,
                Opcode::PsaGenerateRandom,
                Opcode::PsaDestroyKey,
                Opcode::PsaSignHash,
                Opcode::PsaVerifyHash,
                Opcode::PsaImportKey,
                Opcode::PsaExportPublicKey,
                Opcode::PsaAsymmetricDecrypt,
                Opcode::PsaAsymmetricEncrypt,
                Opcode::CanDoCrypto,
                Opcode::AttestKey,
                Opcode::PrepareKeyAttestation,
            ];
            assert(opcodes@ =~= supported_opcodes());
            Ok((info, opcodes))
        },
    }
}

/// Describes the provider and lists the operations it supports.
///
/// The description is fixed: it depends on no provider, on no key and on no
/// device.
pub fn describe() -> (r: Result<(ProviderInfo, Vec<Opcode>), OperationError>)
    ensures
        is_description(parsed_uuid(PROVIDER_UUID@), r),
{
    provider_info(parse_uuid(PROVIDER_UUID))
}

/// What an operation reports for the answer `hw` of the hardware session: the
/// value it gave, or the error that stands for its failure.
pub open spec fn session_outcome<T>(hw: Result<T, SessionFailure>) -> Result<T, OperationError> {
    match hw {
        Ok(value) => Ok(value),
        Err(failure) => Err(failure.spec_to_error()),
    }
}

/// What generating `size` random bytes reports for the answer `hw` of the
/// hardware session. An answer of another length is a device error.
pub open spec fn random_outcome(size: usize, hw: Result<Vec<u8>, SessionFailure>) -> Result<
    Vec<u8>,
    OperationError,
> {
    match hw {
        Ok(bytes) => if bytes@.len() == size {
            Ok(bytes)
        } else {
            Err(OperationError::Device)
        },
        Err(failure) => Err(failure.spec_to_error()),
    }
}

/// Whether a new key may be made for `application` under `key_name` with
/// `attributes`, in the way that `check` names. The name must not be empty
/// and the provider must be able to handle such a key: otherwise the input is
/// invalid. The application must not have a key of that name yet: otherwise
/// there is a conflict.
pub open spec fn admission(
    keys: Map<KeyId, KeyRecordView>,
    application: Seq<char>,
    key_name: Seq<char>,
    attributes: KeyAttributes,
    check: CheckType,
) -> Result<(), OperationError> {
    if key_name.len() == 0 || !attributes.spec_can_do(check) {
        Err(OperationError::Validation)
    } else if keys.dom().contains(key_id(application, key_name)) {
        Err(OperationError::Conflict)
    } else {
        Ok(())
    }
}

/// What making a key reports, and what the store holds afterwards, for the
/// answer `hw` of the hardware session: the context that the session gave is
/// recorded under `id` with `attributes`; after a failure the store is as it
/// was.
pub open spec fn registration(
    keys: Map<KeyId, KeyRecordView>,
    id: KeyId,
    attributes: KeyAttributes,
    hw: Result<Seq<u8>, SessionFailure>,
) -> (Result<(), OperationError>, Map<KeyId, KeyRecordView>) {
    match hw {
        Ok(context) => (Ok(()), keys.insert(id, KeyRecordView { attributes, context })),
        Err(failure) => (Err(failure.spec_to_error()), keys),
    }
}

/// The entries that the store holds after a key was made, for the answer `hw`
/// of the hardware session: the new entry stands after those that were there;
/// after a failure the entries are as they were.
pub open spec fn recorded(
    entries: Seq<KeyEntryView>,
    id: KeyId,
    attributes: KeyAttributes,
    hw: Result<Seq<u8>, SessionFailure>,
) -> Seq<KeyEntryView> {
    match hw {
        Ok(context) => entries.push(
            KeyEntryView { id, record: KeyRecordView { attributes, context } },
        ),
        Err(_) => entries,
    }
}

/// The record of the key that `application` calls `key_name`, or the error
/// reported when it has no such key.
pub open spec fn resolution(
    keys: Map<KeyId, KeyRecordView>,
    application: Seq<char>,
    key_name: Seq<char>,
) -> Result<KeyRecordView, OperationError> {
    if keys.dom().contains(key_id(application, key_name)) {
        Ok(keys[key_id(application, key_name)])
    } else {
        Err(OperationError::NotFound)
    }
}

/// The mathematical value of a session's answer that holds bytes.
pub open spec fn bytes_view(hw: Result<Vec<u8>, SessionFailure>) -> Result<
    Seq<u8>,
    SessionFailure,
> {
    match hw {
        Ok(bytes) => Ok(bytes@),
        Err(failure) => Err(failure),
    }
}

/// Whether an operation on the key that `application` calls `key_name` runs
/// its hardware primitive, and runs it on `key`: the key is there, `key` is
/// its record, and its attributes permit the operation, as `permitted` tells.
pub open spec fn runs_on(
    keys: Map<KeyId, KeyRecordView>,
    application: Seq<char>,
    key_name: Seq<char>,
    permitted: spec_fn(KeyAttributes) -> bool,
    key: KeyRecord,
) -> bool {
    &&& resolution(keys, application, key_name) == Ok::<KeyRecordView, OperationError>(key@)
    &&& permitted(key.attributes)
}

/// Whether an operation on two keys of `application` runs its hardware
/// primitive, and runs it on `first` and `second`: both keys are there, and
/// these are their records.
pub open spec fn runs_on_both(
    keys: Map<KeyId, KeyRecordView>,
    application: Seq<char>,
    first_name: Seq<char>,
    second_name: Seq<char>,
    first: KeyRecord,
    second: KeyRecord,
) -> bool {
    &&& resolution(keys, application, first_name) == Ok::<KeyRecordView, OperationError>(first@)
    &&& resolution(keys, application, second_name) == Ok::<KeyRecordView, OperationError>(
        second@,
    )
}

/// Whether `r` is what an operation on the key that `application` calls
/// `key_name` may end with. The key must be there: otherwise it is reported
/// as not found. Its attributes must permit the operation, as `permitted`
/// tells: otherwise the input is invalid. Only then does the hardware
/// primitive run, once, on the record of that key, and `r` is what stands for
/// its answer; `ran` tells which answers the primitive may give on a record.
pub open spec fn key_operation<T>(
    keys: Map<KeyId, KeyRecordView>,
    application: Seq<char>,
    key_name: Seq<char>,
    permitted: spec_fn(KeyAttributes) -> bool,
    ran: spec_fn(KeyRecord, Result<T, SessionFailure>) -> bool,
    r: Result<T, OperationError>,
) -> bool {
    match resolution(keys, application, key_name) {
        Err(e) => r matches Err(x) && x == e,
        Ok(record) => if !permitted(record.attributes) {
            r matches Err(x) && x == OperationError::Validation
        } else {
            exists|key: KeyRecord, hw: Result<T, SessionFailure>|
                {
                    &&& #[trigger] ran(key, hw)
                    &&& key@ == record
                    &&& r == session_outcome(hw)
                }
        },
    }
}

/// Whether `r` is what an operation on two keys of `application` may end
/// with. Both keys must be there: otherwise a key is reported as not found.
/// Only then does the hardware primitive run, once, on the records of both,
/// and `r` is what stands for its answer.
pub open spec fn two_key_operation<T>(
    keys: Map<KeyId, KeyRecordView>,
    application: Seq<char>,
    first_name: Seq<char>,
    second_name: Seq<char>,
    ran: spec_fn(KeyRecord, KeyRecord, Result<T, SessionFailure>) -> bool,
    r: Result<T, OperationError>,
) -> bool {
    match (
        resolution(keys, application, first_name),
        resolution(keys, application, second_name),
    ) {
        (Ok(first_record), Ok(second_record)) => exists|
            first: KeyRecord,
            second: KeyRecord,
            hw: Result<T, SessionFailure>,
        |
            {
                &&& #[trigger] ran(first, second, hw)
                &&& first@ == first_record
                &&& second@ == second_record
                &&& r == session_outcome(hw)
            },
        _ => r matches Err(x) && x == OperationError::NotFound,
    }
}

/// Two keys made for one application under different names are both
/// admitted, whichever is made first, and are known by different identifiers:
/// after the first is recorded, the second is admitted still, and once it is
/// recorded too the store holds both.
pub proof fn lemma_keys_of_different_names_coexist(
    keys: Map<KeyId, KeyRecordView>,
    application: Seq<char>,
    first_name: Seq<char>,
    second_name: Seq<char>,
    first_attributes: KeyAttributes,
    second_attributes: KeyAttributes,
    check: CheckType,
    first_context: Seq<u8>,
    second_context: Seq<u8>,
)
    requires
        first_name != second_name,
        admission(keys, application, first_name, first_attributes, check) is Ok,
        admission(keys, application, second_name, second_attributes, check) is Ok,
    ensures
        key_id(application, first_name) != key_id(application, second_name),
        ({
            let first = registration(
                keys,
                key_id(application, first_name),
                first_attributes,
                Ok(first_context),
            );
            let second = registration(
                first.1,
                key_id(application, second_name),
                second_attributes,
                Ok(second_context),
            );
            &&& first.0 is Ok
            &&& admission(first.1, application, second_name, second_attributes, check) is Ok
            &&& second.0 is Ok
            &&& second.1.dom().contains(key_id(application, first_name))
            &&& second.1.dom().contains(key_id(application, second_name))
            &&& second.1[key_id(application, first_name)] == (KeyRecordView {
                attributes: first_attributes,
                context: first_context,
            })
            &&& second.1[key_id(application, second_name)] == (KeyRecordView {
                attributes: second_attributes,
                context: second_context,
            })
        }),
{
}

/// Of two keys made for one application under the same name, only one comes
/// to be: once the first is recorded, the second meets a conflict, whatever
/// its attributes.
pub proof fn lemma_key_of_same_name_conflicts(
    keys: Map<KeyId, KeyRecordView>,
    application: Seq<char>,
    key_name: Seq<char>,
    first_attributes: KeyAttributes,
    second_attributes: KeyAttributes,
    first_check: CheckType,
    second_check: CheckType,
    first_context: Seq<u8>,
)
    requires
        admission(keys, application, key_name, first_attributes, first_check) is Ok,
        second_attributes.spec_can_do(second_check),
    ensures
        admission(
            registration(
                keys,
                key_id(application, key_name),
                first_attributes,
                Ok(first_context),
            ).1,
            application,
            key_name,
            second_attributes,
            second_check,
        ) == Err::<(), OperationError>(OperationError::Conflict),
{
}

/// Two applications may use one name: a key recorded for one of them does not
/// stand in the way of a key of that name for the other.
pub proof fn lemma_applications_do_not_collide(
    keys: Map<KeyId, KeyRecordView>,
    first_application: Seq<char>,
    second_application: Seq<char>,
    key_name: Seq<char>,
    first_attributes: KeyAttributes,
    second_attributes: KeyAttributes,
    check: CheckType,
    first_context: Seq<u8>,
)
    requires
        first_application != second_application,
        admission(keys, first_application, key_name, first_attributes, check) is Ok,
        admission(keys, second_application, key_name, second_attributes, check) is Ok,
    ensures
        admission(
            registration(
                keys,
                key_id(first_application, key_name),
                first_attributes,
                Ok(first_context),
            ).1,
            second_application,
            key_name,
            second_attributes,
            check,
        ) is Ok,
{
}

/// A provider of cryptographic services on top of one hardware session.
///
/// The provider owns the session, of type `S`, for as long as it lives, and
/// hands it to the hardware primitive of each operation.
pub struct Provider<S> {
    provider_identity: ProviderIdentity,
    esapi_context: S,
    key_info_store: KeyInfoManagerClient,
}

impl<S> Provider<S> {
    /// The identity of the provider.
    pub closed spec fn identity(&self) -> ProviderIdentity {
        self.provider_identity
    }

    /// The hardware session that the provider owns.
    pub closed spec fn session(&self) -> S {
        self.esapi_context
    }

    /// The entries of the provider's key info store, in the order in which
    /// they were recorded.
    pub closed spec fn entries(&self) -> Seq<KeyEntryView> {
        self.key_info_store.sequence()
    }

    /// The keys that the provider knows: the entries of its store, as a map.
    pub open spec fn keys(&self) -> Map<KeyId, KeyRecordView> {
        map_of(self.entries())
    }

    /// A provider called `provider_name`, with the keys of `key_info_store`,
    /// on the session `esapi_context`.
    pub fn new(
        provider_name: String,
        key_info_store: KeyInfoManagerClient,
        esapi_context: S,
    ) -> (provider: Provider<S>)
        ensures
            provider.identity().name@ == provider_name@,
            provider.identity().uuid@ == PROVIDER_UUID@,
            provider.entries() == key_info_store.sequence(),
            provider.keys() == key_info_store@,
            provider.session() == esapi_context,
    {
        Provider {
            provider_identity: ProviderIdentity {
                name: provider_name,
                uuid: PROVIDER_UUID.to_owned(),
            },
            esapi_context,
            key_info_store,
        }
    }

    /// The identity of the provider.
    pub fn provider_identity(&self) -> (identity: &ProviderIdentity)
        ensures
            *identity == self.identity(),
    {
        &self.provider_identity
    }

    /// The hardware session that the provider owns.
    pub fn esapi_context(&self) -> (session: &S)
        ensures
            *session == self.session(),
    {
        &self.esapi_context
    }

    /// The key info store of the provider.
    pub fn key_info_store(&self) -> (store: &KeyInfoManagerClient)
        ensures
            store.sequence() == self.entries(),
            store@ == self.keys(),
    {
        &self.key_info_store
    }

    /// Describes the provider and lists the operations it supports.
    ///
    /// The hardware session is not used.
    pub fn describe(&self) -> (r: Result<(ProviderInfo, Vec<Opcode>), OperationError>)
        ensures
            is_description(parsed_uuid(PROVIDER_UUID@), r),
    {
        describe()
    }

    /// Lists the keys of `application`: what the key info store lists for
    /// it, line by line and in the store's order.
    ///
    /// The hardware session is not used and the store is not changed.
    pub fn list_keys(&self, application: &ApplicationIdentity) -> (keys: Vec<KeyInfo>)
        ensures
            keys@.len() == keys_of(self.entries(), application@).len(),
            forall|i: int|
                0 <= i < keys@.len() ==> (#[trigger] keys@[i])@ == keys_of(
                    self.entries(),
                    application@,
                )[i],
            distinct_ids(self.entries()),
    {
        self.key_info_store.list_keys(application)
    }

    /// Whether the provider can do what `check_type` asks about with a key of
    /// `attributes`.
    ///
    /// The answer comes from what the provider supports and from nothing else:
    /// neither the hardware session nor the key info store is used.
    pub fn can_do_crypto(
        &self,
        application: &ApplicationIdentity,
        check_type: CheckType,
        attributes: KeyAttributes,
    ) -> (b: bool)
        ensures
            b == attributes.spec_can_do(check_type),
    {
        attributes.can_do(check_type)
    }

    /// Generates `size` random bytes with the primitive `generate`.
    ///
    /// The primitive runs once, on the provider's session. Its failure is
    /// reported as the error that stands for it; an answer that has not the
    /// length asked for is reported as a device error.
    pub fn psa_generate_random<F: FnOnce(&S, usize) -> Result<Vec<u8>, SessionFailure>>(
        &self,
        size: usize,
        generate: F,
    ) -> (r: Result<Vec<u8>, OperationError>)
        requires
            call_requires(generate, (&self.session(), size)),
        ensures
            exists|hw: Result<Vec<u8>, SessionFailure>|
                {
                    &&& call_ensures(generate, (&self.session(), size), hw)
                    &&& r == random_outcome(size, hw)
                },
            r matches Ok(bytes) ==> bytes@.len() == size,
    {
        let hw = generate(&self.esapi_context, size);
        let ghost answer = hw;
        let r = match hw {
            Ok(bytes) => {
                if bytes.len() == size {
                    Ok(bytes)
                } else {
                    Err(OperationError::Device)
                }
            },
            Err(failure) => Err(failure.to_error()),
        };
        assert(call_ensures(generate, (&self.session(), size), answer) && r == random_outcome(
            size,
            answer,
        ));
        r
    }

    /// Generates a key for `application` under `key_name` with the primitive
    /// `create`, which gives the context of the new key.
    ///
    /// The input is checked first, then the name is looked up: the primitive
    /// runs only when the name is not empty, the provider can generate a key
    /// of `attributes`, and the application has no key of that name. The key
    /// is recorded when the primitive succeeds; in every other case the store
    /// stays as it was.
    pub fn psa_generate_key<F: FnOnce(&S, KeyAttributes) -> Result<Vec<u8>, SessionFailure>>(
        &mut self,
        application: &ApplicationIdentity,
        key_name: String,
        attributes: KeyAttributes,
        create: F,
    ) -> (r: Result<(), OperationError>)
        requires
            admission(
                old(self).keys(),
                application@,
                key_name@,
                attributes,
                CheckType::Generate,
            ) is Ok ==> call_requires(create, (&old(self).session(), attributes)),
        ensures
            final(self).identity() == old(self).identity(),
            final(self).session() == old(self).session(),
            match admission(
                old(self).keys(),
                application@,
                key_name@,
                attributes,
                CheckType::Generate,
            ) {
                Err(e) => {
                    &&& r == Err::<(), OperationError>(e)
                    &&& final(self).entries() == old(self).entries()
                },
                Ok(_) => exists|hw: Result<Vec<u8>, SessionFailure>|
                    {
                        &&& call_ensures(create, (&old(self).session(), attributes), hw)
                        &&& (r, final(self).keys()) == registration(
                            old(self).keys(),
                            key_id(application@, key_name@),
                            attributes,
                            bytes_view(hw),
                        )
                        &&& final(self).entries() == recorded(
                            old(self).entries(),
                            key_id(application@, key_name@),
                            attributes,
                            bytes_view(hw),
                        )
                    },
            },
    {
        if key_name.as_str().unicode_len() == 0 || !attributes.can_do(CheckType::Generate) {
            return Err(OperationError::Validation);
        }
        if self.key_info_store.contains(application, &key_name) {
            return Err(OperationError::Conflict);
        }
        let hw = create(&self.esapi_context, attributes);
        let ghost answer = hw;
        let ghost id = key_id(application@, key_name@);
        let r = match hw {
            Ok(context) => {
                let record = KeyRecord { attributes, context };
                self.key_info_store.insert(application, key_name, record)
            },
            Err(failure) => Err(failure.to_error()),
        };
        assert(call_ensures(create, (&old(self).session(), attributes), answer) && (r, self.keys())
            == registration(old(self).keys(), id, attributes, bytes_view(answer))
            && self.entries() == recorded(old(self).entries(), id, attributes, bytes_view(answer)));
        r
    }

    /// Destroys the key that `application` calls `key_name`.
    ///
    /// When the application has no such key, nothing changes and the key is
    /// reported as not found. The keys of other names and of other
    /// applications stay as they were in either case. The hardware session is
    /// not used: the device keeps nothing of a key.
    pub fn psa_destroy_key(&mut self, application: &ApplicationIdentity, key_name: &String) -> (r:
        Result<(), OperationError>)
        ensures
            final(self).identity() == old(self).identity(),
            final(self).session() == old(self).session(),
            match resolution(old(self).keys(), application@, key_name@) {
                Err(e) => {
                    &&& r == Err::<(), OperationError>(e)
                    &&& final(self).entries() == old(self).entries()
                },
                Ok(_) => {
                    &&& r == Ok::<(), OperationError>(())
                    &&& final(self).entries() == old(self).entries().remove(
                        position(old(self).entries(), key_id(application@, key_name@)),
                    )
                    &&& final(self).keys() == old(self).keys().remove(
                        key_id(application@, key_name@),
                    )
                },
            },
            forall|other: KeyId|
                other != key_id(application@, key_name@) ==> {
                    &&& #[trigger] final(self).keys().dom().contains(other)
                        == old(self).keys().dom().contains(other)
                    &&& final(self).keys().dom().contains(other)
                        ==> final(self).keys()[other] == old(self).keys()[other]
                },
    {
        match self.key_info_store.remove(application, key_name) {
            Ok(_) => Ok(()),
            Err(e) => Err(e),
        }
    }
    /// Lists the names of the applications that own a key: the names of what
    /// the key info store lists, one for one and in the store's order.
    ///
    /// The hardware session is not used and the store is not changed.
    pub fn list_clients(&self) -> (clients: Vec<String>)
        ensures
            clients@.len() == owners_of(self.entries()).len(),
            forall|i: int|
                0 <= i < clients@.len() ==> (#[trigger] clients@[i])@ == owners_of(
                    self.entries(),
                )[i],
    {
        let identities = self.key_info_store.list_clients();
        let mut clients: Vec<String> = Vec::new();
        let mut k: usize = 0;
        while k < identities.len()
            invariant
                k <= identities@.len(),
                clients@.len() == k,
                forall|i: int| 0 <= i < k ==> (#[trigger] clients@[i])@ == identities@[i]@,
            decreases identities@.len() - k,
        {
            clients.push(identities[k].name().clone());
            k = k + 1;
        }
        clients
    }

    /// Imports the key material `data` for `application` under `key_name`
    /// with the primitive `import`, which gives the context of the new key.
    ///
    /// The input is checked first, then the name is looked up: the primitive
    /// runs only when the name is not empty, the provider can import a key of
    /// `attributes`, and the application has no key of that name. Key material
    /// that the primitive refuses is invalid input. The key is recorded when
    /// the primitive succeeds; in every other case the store stays as it was.
    pub fn psa_import_key<F: FnOnce(&S, KeyAttributes, &[u8]) -> Result<Vec<u8>, SessionFailure>>(
        &mut self,
        application: &ApplicationIdentity,
        key_name: String,
        attributes: KeyAttributes,
        data: &[u8],
        import: F,
    ) -> (r: Result<(), OperationError>)
        requires
            admission(
                old(self).keys(),
                application@,
                key_name@,
                attributes,
                CheckType::Import,
            ) is Ok ==> call_requires(import, (&old(self).session(), attributes, data)),
        ensures
            final(self).identity() == old(self).identity(),
            final(self).session() == old(self).session(),
            match admission(
                old(self).keys(),
                application@,
                key_name@,
                attributes,
                CheckType::Import,
            ) {
                Err(e) => {
                    &&& r == Err::<(), OperationError>(e)
                    &&& final(self).entries() == old(self).entries()
                },
                Ok(_) => exists|hw: Result<Vec<u8>, SessionFailure>|
                    {
                        &&& call_ensures(import, (&old(self).session(), attributes, data), hw)
                        &&& (r, final(self).keys()) == registration(
                            old(self).keys(),
                            key_id(application@, key_name@),
                            attributes,
                            bytes_view(hw),
                        )
                        &&& final(self).entries() == recorded(
                            old(self).entries(),
                            key_id(application@, key_name@),
                            attributes,
                            bytes_view(hw),
                        )
                    },
            },
    {
        if key_name.as_str().unicode_len() == 0 || !attributes.can_do(CheckType::Import) {
            return Err(OperationError::Validation);
        }
        if self.key_info_store.contains(application, &key_name) {
            return Err(OperationError::Conflict);
        }
        let hw = import(&self.esapi_context, attributes, data);
        let ghost answer = hw;
        let ghost id = key_id(application@, key_name@);
        let r = match hw {
            Ok(context) => {
                let record = KeyRecord { attributes, context };
                self.key_info_store.insert(application, key_name, record)
            },
            Err(failure) => Err(failure.to_error()),
        };
        assert(call_ensures(import, (&old(self).session(), attributes, data), answer) && (
            r,
            self.keys(),
        ) == registration(old(self).keys(), id, attributes, bytes_view(answer)) && self.entries()
            == recorded(old(self).entries(), id, attributes, bytes_view(answer)));
        r
    }

    /// Exports the public half of the key that `application` calls
    /// `key_name`, with the primitive `export`.
    ///
    /// A key that has no public half, such as a symmetric key, is invalid
    /// input: the primitive does not run and no bytes are returned.
    pub fn psa_export_public_key<F: FnOnce(&S, &KeyRecord) -> Result<Vec<u8>, SessionFailure>>(
        &self,
        application: &ApplicationIdentity,
        key_name: &String,
        export: F,
    ) -> (r: Result<Vec<u8>, OperationError>)
        requires
            forall|key: &KeyRecord|
                runs_on(
                    self.keys(),
                    application@,
                    key_name@,
                    |attributes: KeyAttributes| attributes.key_type.spec_has_public_key(),
                    *key,
                ) ==> #[trigger] call_requires(
                    export,
                    (&self.session(), key),
                ),
        ensures
            key_operation(
                self.keys(),
                application@,
                key_name@,
                |attributes: KeyAttributes| attributes.key_type.spec_has_public_key(),
                |key: KeyRecord, hw: Result<Vec<u8>, SessionFailure>|
                    call_ensures(export, (&self.session(), &key), hw),
                r,
            ),
            resolution(self.keys(), application@, key_name@) matches Ok(record)
                && !record.attributes.key_type.spec_has_public_key() ==> (r matches Err(e) && e
                == OperationError::Validation),
    {
        let record = match self.key_info_store.get(application, key_name) {
            Some(record) => record,
            None => {
                return Err(OperationError::NotFound);
            },
        };
        if !record.attributes.key_type.has_public_key() {
            return Err(OperationError::Validation);
        }
        assert(self.session() == self.esapi_context);
        let hw = export(&self.esapi_context, record);
        let ghost ran = |key: KeyRecord, hw: Result<Vec<u8>, SessionFailure>|
            call_ensures(export, (&self.session(), &key), hw);
        assert(ran(*record, hw));
        match hw {
            Ok(bytes) => Ok(bytes),
            Err(failure) => Err(failure.to_error()),
        }
    }

    /// Signs `hash` with the key that `application` calls `key_name`, with
    /// the primitive `sign`.
    ///
    /// The key must permit signing with `algorithm`: a key of another
    /// algorithm, or one whose policy does not allow signing, is invalid
    /// input, and the primitive does not run.
    pub fn psa_sign_hash<F: FnOnce(&S, &KeyRecord, Algorithm, &[u8]) -> Result<
        Vec<u8>,
        SessionFailure,
    >>(
        &self,
        application: &ApplicationIdentity,
        key_name: &String,
        algorithm: Algorithm,
        hash: &[u8],
        sign: F,
    ) -> (r: Result<Vec<u8>, OperationError>)
        requires
            forall|key: &KeyRecord|
                runs_on(
                    self.keys(),
                    application@,
                    key_name@,
                    |attributes: KeyAttributes| attributes.spec_permits_sign(algorithm),
                    *key,
                ) ==> #[trigger] call_requires(
                    sign,
                    (&self.session(), key, algorithm, hash),
                ),
        ensures
            key_operation(
                self.keys(),
                application@,
                key_name@,
                |attributes: KeyAttributes| attributes.spec_permits_sign(algorithm),
                |key: KeyRecord, hw: Result<Vec<u8>, SessionFailure>|
                    call_ensures(sign, (&self.session(), &key, algorithm, hash), hw),
                r,
            ),
    {
        let record = match self.key_info_store.get(application, key_name) {
            Some(record) => record,
            None => {
                return Err(OperationError::NotFound);
            },
        };
        if !record.attributes.permits_sign(algorithm) {
            return Err(OperationError::Validation);
        }
        assert(self.session() == self.esapi_context);
        let hw = sign(&self.esapi_context, record, algorithm, hash);
        let ghost ran = |key: KeyRecord, hw: Result<Vec<u8>, SessionFailure>|
            call_ensures(sign, (&self.session(), &key, algorithm, hash), hw);
        assert(ran(*record, hw));
        match hw {
            Ok(signature) => Ok(signature),
            Err(failure) => Err(failure.to_error()),
        }
    }

    /// Verifies `signature` over `hash` with the key that `application` calls
    /// `key_name`, with the primitive `verify`, and tells whether the
    /// signature is good.
    ///
    /// The key must permit verifying with `algorithm`, else the input is
    /// invalid and the primitive does not run. A signature that the primitive
    /// cannot read is invalid input too.
    pub fn psa_verify_hash<F: FnOnce(&S, &KeyRecord, Algorithm, &[u8], &[u8]) -> Result<
        bool,
        SessionFailure,
    >>(
        &self,
        application: &ApplicationIdentity,
        key_name: &String,
        algorithm: Algorithm,
        hash: &[u8],
        signature: &[u8],
        verify: F,
    ) -> (r: Result<bool, OperationError>)
        requires
            forall|key: &KeyRecord|
                runs_on(
                    self.keys(),
                    application@,
                    key_name@,
                    |attributes: KeyAttributes| attributes.spec_permits_verify(algorithm),
                    *key,
                ) ==> #[trigger] call_requires(
                    verify,
                    (&self.session(), key, algorithm, hash, signature),
                ),
        ensures
            key_operation(
                self.keys(),
                application@,
                key_name@,
                |attributes: KeyAttributes| attributes.spec_permits_verify(algorithm),
                |key: KeyRecord, hw: Result<bool, SessionFailure>|
                    call_ensures(verify, (&self.session(), &key, algorithm, hash, signature), hw),
                r,
            ),
    {
        let record = match self.key_info_store.get(application, key_name) {
            Some(record) => record,
            None => {
                return Err(OperationError::NotFound);
            },
        };
        if !record.attributes.permits_verify(algorithm) {
            return Err(OperationError::Validation);
        }
        assert(self.session() == self.esapi_context);
        let hw = verify(&self.esapi_context, record, algorithm, hash, signature);
        let ghost ran = |key: KeyRecord, hw: Result<bool, SessionFailure>|
            call_ensures(verify, (&self.session(), &key, algorithm, hash, signature), hw);
        assert(ran(*record, hw));
        match hw {
            Ok(good) => Ok(good),
            Err(failure) => Err(failure.to_error()),
        }
    }

    /// Encrypts `plaintext` with the key that `application` calls `key_name`,
    /// with the primitive `encrypt`.
    ///
    /// The key must permit encrypting with `algorithm`, else the input is
    /// invalid and the primitive does not run. A plaintext that the primitive
    /// refuses, as one too long for the padding scheme, is invalid input too.
    pub fn psa_asymmetric_encrypt<F: FnOnce(&S, &KeyRecord, Algorithm, &[u8]) -> Result<
        Vec<u8>,
        SessionFailure,
    >>(
        &self,
        application: &ApplicationIdentity,
        key_name: &String,
        algorithm: Algorithm,
        plaintext: &[u8],
        encrypt: F,
    ) -> (r: Result<Vec<u8>, OperationError>)
        requires
            forall|key: &KeyRecord|
                runs_on(
                    self.keys(),
                    application@,
                    key_name@,
                    |attributes: KeyAttributes| attributes.spec_permits_encrypt(algorithm),
                    *key,
                ) ==> #[trigger] call_requires(
                    encrypt,
                    (&self.session(), key, algorithm, plaintext),
                ),
        ensures
            key_operation(
                self.keys(),
                application@,
                key_name@,
                |attributes: KeyAttributes| attributes.spec_permits_encrypt(algorithm),
                |key: KeyRecord, hw: Result<Vec<u8>, SessionFailure>|
                    call_ensures(encrypt, (&self.session(), &key, algorithm, plaintext), hw),
                r,
            ),
    {
        let record = match self.key_info_store.get(application, key_name) {
            Some(record) => record,
            None => {
                return Err(OperationError::NotFound);
            },
        };
        if !record.attributes.permits_encrypt(algorithm) {
            return Err(OperationError::Validation);
        }
        assert(self.session() == self.esapi_context);
        let hw = encrypt(&self.esapi_context, record, algorithm, plaintext);
        let ghost ran = |key: KeyRecord, hw: Result<Vec<u8>, SessionFailure>|
            call_ensures(encrypt, (&self.session(), &key, algorithm, plaintext), hw);
        assert(ran(*record, hw));
        match hw {
            Ok(ciphertext) => Ok(ciphertext),
            Err(failure) => Err(failure.to_error()),
        }
    }

    /// Decrypts `ciphertext` with the key that `application` calls
    /// `key_name`, with the primitive `decrypt`.
    ///
    /// The key must permit decrypting with `algorithm`, else the input is
    /// invalid and the primitive does not run. A ciphertext that the primitive
    /// refuses, for its format or its padding, is invalid input too.
    pub fn psa_asymmetric_decrypt<F: FnOnce(&S, &KeyRecord, Algorithm, &[u8]) -> Result<
        Vec<u8>,
        SessionFailure,
    >>(
        &self,
        application: &ApplicationIdentity,
        key_name: &String,
        algorithm: Algorithm,
        ciphertext: &[u8],
        decrypt: F,
    ) -> (r: Result<Vec<u8>, OperationError>)
        requires
            forall|key: &KeyRecord|
                runs_on(
                    self.keys(),
                    application@,
                    key_name@,
                    |attributes: KeyAttributes| attributes.spec_permits_decrypt(algorithm),
                    *key,
                ) ==> #[trigger] call_requires(
                    decrypt,
                    (&self.session(), key, algorithm, ciphertext),
                ),
        ensures
            key_operation(
                self.keys(),
                application@,
                key_name@,
                |attributes: KeyAttributes| attributes.spec_permits_decrypt(algorithm),
                |key: KeyRecord, hw: Result<Vec<u8>, SessionFailure>|
                    call_ensures(decrypt, (&self.session(), &key, algorithm, ciphertext), hw),
                r,
            ),
    {
        let record = match self.key_info_store.get(application, key_name) {
            Some(record) => record,
            None => {
                return Err(OperationError::NotFound);
            },
        };
        if !record.attributes.permits_decrypt(algorithm) {
            return Err(OperationError::Validation);
        }
        assert(self.session() == self.esapi_context);
        let hw = decrypt(&self.esapi_context, record, algorithm, ciphertext);
        let ghost ran = |key: KeyRecord, hw: Result<Vec<u8>, SessionFailure>|
            call_ensures(decrypt, (&self.session(), &key, algorithm, ciphertext), hw);
        assert(ran(*record, hw));
        match hw {
            Ok(plaintext) => Ok(plaintext),
            Err(failure) => Err(failure.to_error()),
        }
    }

    /// Prepares the attestation of the key that `application` calls
    /// `attested_key_name` by the key it calls `attesting_key_name`, with the
    /// primitive `prepare`, which gives the material of the challenge.
    ///
    /// Both keys must be there, else a key is reported as not found and the
    /// primitive does not run.
    pub fn prepare_key_attestation<T, F: FnOnce(&S, &KeyRecord, &KeyRecord) -> Result<
        T,
        SessionFailure,
    >>(
        &self,
        application: &ApplicationIdentity,
        attested_key_name: &String,
        attesting_key_name: &String,
        prepare: F,
    ) -> (r: Result<T, OperationError>)
        requires
            forall|attested: &KeyRecord, attesting: &KeyRecord|
                runs_on_both(
                    self.keys(),
                    application@,
                    attested_key_name@,
                    attesting_key_name@,
                    *attested,
                    *attesting,
                ) ==> #[trigger] call_requires(
                    prepare,
                    (&self.session(), attested, attesting),
                ),
        ensures
            two_key_operation(
                self.keys(),
                application@,
                attested_key_name@,
                attesting_key_name@,
                |attested: KeyRecord, attesting: KeyRecord, hw: Result<T, SessionFailure>|
                    call_ensures(prepare, (&self.session(), &attested, &attesting), hw),
                r,
            ),
    {
        let attested = match self.key_info_store.get(application, attested_key_name) {
            Some(record) => record,
            None => {
                return Err(OperationError::NotFound);
            },
        };
        let attesting = match self.key_info_store.get(application, attesting_key_name) {
            Some(record) => record,
            None => {
                return Err(OperationError::NotFound);
            },
        };
        assert(self.session() == self.esapi_context);
        let hw = prepare(&self.esapi_context, attested, attesting);
        let ghost ran = |attested: KeyRecord, attesting: KeyRecord, hw: Result<T, SessionFailure>|
            call_ensures(prepare, (&self.session(), &attested, &attesting), hw);
        assert(ran(*attested, *attesting, hw));
        match hw {
            Ok(challenge) => Ok(challenge),
            Err(failure) => Err(failure.to_error()),
        }
    }

    /// Attests the key that `application` calls `attested_key_name` by the
    /// key it calls `attesting_key_name`, with the primitive `attest`, which
    /// checks the response to the challenge and gives the proof of
    /// attestation.
    ///
    /// Both keys must be there, else a key is reported as not found and the
    /// primitive does not run. A response that the primitive refuses is
    /// invalid input.
    pub fn attest_key<T, F: FnOnce(&S, &KeyRecord, &KeyRecord, &[u8]) -> Result<T, SessionFailure>>(
        &self,
        application: &ApplicationIdentity,
        attested_key_name: &String,
        attesting_key_name: &String,
        challenge_response: &[u8],
        attest: F,
    ) -> (r: Result<T, OperationError>)
        requires
            forall|attested: &KeyRecord, attesting: &KeyRecord|
                runs_on_both(
                    self.keys(),
                    application@,
                    attested_key_name@,
                    attesting_key_name@,
                    *attested,
                    *attesting,
                ) ==> #[trigger] call_requires(
                    attest,
                    (&self.session(), attested, attesting, challenge_response),
                ),
        ensures
            two_key_operation(
                self.keys(),
                application@,
                attested_key_name@,
                attesting_key_name@,
                |attested: KeyRecord, attesting: KeyRecord, hw: Result<T, SessionFailure>|
                    call_ensures(
                        attest,
                        (&self.session(), &attested, &attesting, challenge_response),
                        hw,
                    ),
                r,
            ),
    {
        let attested = match self.key_info_store.get(application, attested_key_name) {
            Some(record) => record,
            None => {
                return Err(OperationError::NotFound);
            },
        };
        let attesting = match self.key_info_store.get(application, attesting_key_name) {
            Some(record) => record,
            None => {
                return Err(OperationError::NotFound);
            },
        };
        assert(self.session() == self.esapi_context);
        let hw = attest(&self.esapi_context, attested, attesting, challenge_response);
        let ghost ran = |attested: KeyRecord, attesting: KeyRecord, hw: Result<T, SessionFailure>|
            call_ensures(attest, (&self.session(), &attested, &attesting, challenge_response), hw);
        assert(ran(*attested, *attesting, hw));
        match hw {
            Ok(proof_of_attestation) => Ok(proof_of_attestation),
            Err(failure) => Err(failure.to_error()),
        }
    }
}

} // verus!
