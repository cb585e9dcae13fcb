//! What the provider reads of a key: its type, its size, the algorithm it may
//! be used with and the operations it may be used for.

use vstd::prelude::*;

verus! {

/// The type of a key.
#[derive(Clone, Copy, Debug, PartialEq, Eq, Structural)]
pub enum KeyType {
    /// An RSA key pair.
    RsaKeyPair,
    /// The public half of an RSA key pair.
    RsaPublicKey,
    /// An elliptic curve key pair over a NIST prime curve.
    EccKeyPair,
    /// The public half of an elliptic curve key pair.
    EccPublicKey,
    /// A symmetric AES key.
    Aes,
}

/// The algorithm that a key is permitted to be used with.
#[derive(Clone, Copy, Debug, PartialEq, Eq, Structural)]
pub enum Algorithm {
    /// RSA signature with PKCS#1 v1.5 padding.
    RsaPkcs1v15Sign,
    /// ECDSA signature.
    Ecdsa,
    /// RSA encryption with PKCS#1 v1.5 padding.
    RsaPkcs1v15Crypt,
    /// RSA encryption with OAEP padding.
    RsaOaep,
    /// AES in CFB mode.
    AesCfb,
}

/// The operations that a key may be used for.
#[derive(Clone, Copy, Debug, PartialEq, Eq, Structural)]
pub struct UsageFlags {
    /// The key may sign a hash.
    pub sign_hash: bool,
    /// The key may verify the signature of a hash.
    pub verify_hash: bool,
    /// The key may encrypt.
    pub encrypt: bool,
    /// The key may decrypt.
    pub decrypt: bool,
}

/// The attributes of a key.
#[derive(Clone, Copy, Debug, PartialEq, Eq, Structural)]
pub struct KeyAttributes {
    /// The type of the key.
    pub key_type: KeyType,
    /// The size of the key in bits.
    pub bits: u32,
    /// The algorithm that the key is permitted to be used with.
    pub algorithm: Algorithm,
    /// The operations that the key may be used for.
    pub usage: UsageFlags,
}

/// The kind of use that a capability query asks about.
#[derive(Clone, Copy, Debug, PartialEq, Eq, Structural)]
pub enum CheckType {
    /// Using an existing key.
    Use,
    /// Generating a key.
    Generate,
    /// Importing a key.
    Import,
    /// Deriving a key from another.
    Derive,
}

impl KeyType {
    /// Whether a key of this type is an RSA key.
    pub open spec fn spec_is_rsa(self) -> bool {
        self == KeyType::RsaKeyPair || self == KeyType::RsaPublicKey
    }

    /// Whether a key of this type is an RSA key.
    #[verifier::when_used_as_spec(spec_is_rsa)]
    pub fn is_rsa(self) -> (b: bool)
        ensures
            b == self.spec_is_rsa(),
    {
        match self {
            KeyType::RsaKeyPair | KeyType::RsaPublicKey => true,
            _ => false,
        }
    }

    /// Whether a key of this type is an elliptic curve key.
    pub open spec fn spec_is_ecc(self) -> bool {
        self == KeyType::EccKeyPair || self == KeyType::EccPublicKey
    }

    /// Whether a key of this type is an elliptic curve key.
    #[verifier::when_used_as_spec(spec_is_ecc)]
    pub fn is_ecc(self) -> (b: bool)
        ensures
            b == self.spec_is_ecc(),
    {
        match self {
            KeyType::EccKeyPair | KeyType::EccPublicKey => true,
            _ => false,
        }
    }

    /// Whether a key of this type has a public half. A symmetric key has none.
    pub open spec fn spec_has_public_key(self) -> bool {
        self.spec_is_rsa() || self.spec_is_ecc()
    }

    /// Whether a key of this type has a public half. A symmetric key has none.
    #[verifier::when_used_as_spec(spec_has_public_key)]
    pub fn has_public_key(self) -> (b: bool)
        ensures
            b == self.spec_has_public_key(),
    {
        self.is_rsa() || self.is_ecc()
    }

    /// Whether a key of this type holds a private half.
    pub open spec fn spec_is_key_pair(self) -> bool {
        self == KeyType::RsaKeyPair || self == KeyType::EccKeyPair
    }

    /// Whether a key of this type holds a private half.
    #[verifier::when_used_as_spec(spec_is_key_pair)]
    pub fn is_key_pair(self) -> (b: bool)
        ensures
            b == self.spec_is_key_pair(),
    {
        match self {
            KeyType::RsaKeyPair | KeyType::EccKeyPair => true,
            _ => false,
        }
    }

    /// Whether a key of this type is the public half of a key pair, alone.
    pub open spec fn spec_is_public_key(self) -> bool {
        self == KeyType::RsaPublicKey || self == KeyType::EccPublicKey
    }

    /// Whether a key of this type is the public half of a key pair, alone.
    #[verifier::when_used_as_spec(spec_is_public_key)]
    pub fn is_public_key(self) -> (b: bool)
        ensures
            b == self.spec_is_public_key(),
    {
        match self {
            KeyType::RsaPublicKey | KeyType::EccPublicKey => true,
            _ => false,
        }
    }
}

impl Algorithm {
    /// Whether this is a signature algorithm.
    pub open spec fn spec_is_signature(self) -> bool {
        self == Algorithm::RsaPkcs1v15Sign || self == Algorithm::Ecdsa
    }

    /// Whether this is a signature algorithm.
    #[verifier::when_used_as_spec(spec_is_signature)]
    pub fn is_signature(self) -> (b: bool)
        ensures
            b == self.spec_is_signature(),
    {
        match self {
            Algorithm::RsaPkcs1v15Sign | Algorithm::Ecdsa => true,
            _ => false,
        }
    }

    /// Whether this is an asymmetric encryption algorithm.
    pub open spec fn spec_is_asymmetric_encryption(self) -> bool {
        self == Algorithm::RsaPkcs1v15Crypt || self == Algorithm::RsaOaep
    }

    /// Whether this is an asymmetric encryption algorithm.
    #[verifier::when_used_as_spec(spec_is_asymmetric_encryption)]
    pub fn is_asymmetric_encryption(self) -> (b: bool)
        ensures
            b == self.spec_is_asymmetric_encryption(),
    {
        match self {
            Algorithm::RsaPkcs1v15Crypt | Algorithm::RsaOaep => true,
            _ => false,
        }
    }
}

/// Whether the device handles RSA keys of `bits` bits.
pub open spec fn rsa_size_supported(bits: u32) -> bool {
    bits == 1024 || bits == 2048 || bits == 3072 || bits == 4096
}

/// Whether the device handles keys over the NIST prime curve of `bits` bits.
pub open spec fn ecc_size_supported(bits: u32) -> bool {
    bits == 192 || bits == 224 || bits == 256 || bits == 384 || bits == 521
}

impl KeyAttributes {
    /// Whether the provider handles keys with these attributes: RSA keys of a
    /// supported size for RSA signature or encryption, and elliptic curve keys
    /// of a supported size for ECDSA.
    pub open spec fn spec_is_supported(self) -> bool {
        ||| {
            &&& self.key_type.spec_is_rsa()
            &&& rsa_size_supported(self.bits)
            &&& (self.algorithm == Algorithm::RsaPkcs1v15Sign
                || self.algorithm.spec_is_asymmetric_encryption())
        }
        ||| {
            &&& self.key_type.spec_is_ecc()
            &&& ecc_size_supported(self.bits)
            &&& self.algorithm == Algorithm::Ecdsa
        }
    }

    /// Whether the provider handles keys with these attributes.
    #[verifier::when_used_as_spec(spec_is_supported)]
    pub fn is_supported(self) -> (b: bool)
        ensures
            b == self.spec_is_supported(),
    {
        let bits: u32 = self.bits;
        if self.key_type.is_rsa() {
            (bits == 1024 || bits == 2048 || bits == 3072 || bits == 4096) && (
            self.algorithm == Algorithm::RsaPkcs1v15Sign
                || self.algorithm.is_asymmetric_encryption())
        } else if self.key_type.is_ecc() {
            (bits == 192 || bits == 224 || bits == 256 || bits == 384 || bits == 521)
                && self.algorithm == Algorithm::Ecdsa
        } else {
            false
        }
    }

    /// Whether the provider can do what `check` asks about with a key of these
    /// attributes. A key is generated as a key pair and imported as a public
    /// key; no key is derived.
    pub open spec fn spec_can_do(self, check: CheckType) -> bool {
        self.spec_is_supported() && match check {
            CheckType::Use => true,
            CheckType::Generate => self.key_type.spec_is_key_pair(),
            CheckType::Import => self.key_type.spec_is_public_key(),
            CheckType::Derive => false,
        }
    }

    /// Whether the provider can do what `check` asks about with a key of these
    /// attributes.
    #[verifier::when_used_as_spec(spec_can_do)]
    pub fn can_do(self, check: CheckType) -> (b: bool)
        ensures
            b == self.spec_can_do(check),
    {
        self.is_supported() && match check {
            CheckType::Use => true,
            CheckType::Generate => self.key_type.is_key_pair(),
            CheckType::Import => self.key_type.is_public_key(),
            CheckType::Derive => false,
        }
    }

    /// Whether a key of these attributes may sign a hash with `algorithm`.
    pub open spec fn spec_permits_sign(self, algorithm: Algorithm) -> bool {
        &&& self.usage.sign_hash
        &&& self.key_type.spec_is_key_pair()
        &&& algorithm.spec_is_signature()
        &&& self.algorithm == algorithm
    }

    /// Whether a key of these attributes may sign a hash with `algorithm`:
    /// it is a key pair whose policy allows signing, with that signature
    /// algorithm and no other.
    #[verifier::when_used_as_spec(spec_permits_sign)]
    pub fn permits_sign(self, algorithm: Algorithm) -> (b: bool)
        ensures
            b == self.spec_permits_sign(algorithm),
    {
        self.usage.sign_hash && self.key_type.is_key_pair() && algorithm.is_signature()
            && self.algorithm == algorithm
    }

    /// Whether a key of these attributes may verify a signature made with
    /// `algorithm`.
    pub open spec fn spec_permits_verify(self, algorithm: Algorithm) -> bool {
        &&& self.usage.verify_hash
        &&& self.key_type.spec_has_public_key()
        &&& algorithm.spec_is_signature()
        &&& self.algorithm == algorithm
    }

    /// Whether a key of these attributes may verify a signature made with
    /// `algorithm`: it has a public half, its policy allows verifying, with
    /// that signature algorithm and no other.
    #[verifier::when_used_as_spec(spec_permits_verify)]
    pub fn permits_verify(self, algorithm: Algorithm) -> (b: bool)
        ensures
            b == self.spec_permits_verify(algorithm),
    {
        self.usage.verify_hash && self.key_type.has_public_key() && algorithm.is_signature()
            && self.algorithm == algorithm
    }

    /// Whether a key of these attributes may encrypt with `algorithm`.
    pub open spec fn spec_permits_encrypt(self, algorithm: Algorithm) -> bool {
        &&& self.usage.encrypt
        &&& self.key_type.spec_has_public_key()
        &&& algorithm.spec_is_asymmetric_encryption()
        &&& self.algorithm == algorithm
    }

    /// Whether a key of these attributes may encrypt with `algorithm`: it has
    /// a public half, its policy allows encrypting, with that padding scheme
    /// and no other.
    #[verifier::when_used_as_spec(spec_permits_encrypt)]
    pub fn permits_encrypt(self, algorithm: Algorithm) -> (b: bool)
        ensures
            b == self.spec_permits_encrypt(algorithm),
    {
        self.usage.encrypt && self.key_type.has_public_key()
            && algorithm.is_asymmetric_encryption() && self.algorithm == algorithm
    }

    /// Whether a key of these attributes may decrypt with `algorithm`.
    pub open spec fn spec_permits_decrypt(self, algorithm: Algorithm) -> bool {
        &&& self.usage.decrypt
        &&& self.key_type.spec_is_key_pair()
        &&& algorithm.spec_is_asymmetric_encryption()
        &&& self.algorithm == algorithm
    }

    /// Whether a key of these attributes may decrypt with `algorithm`: it is
    /// a key pair whose policy allows decrypting, with that padding scheme and
    /// no other.
    #[verifier::when_used_as_spec(spec_permits_decrypt)]
    pub fn permits_decrypt(self, algorithm: Algorithm) -> (b: bool)
        ensures
            b == self.spec_permits_decrypt(algorithm),
    {
        self.usage.decrypt && self.key_type.is_key_pair() && algorithm.is_asymmetric_encryption()
            && self.algorithm == algorithm
    }
}

} // verus!
