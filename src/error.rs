use vstd::prelude::*;

verus! {

/// What can go wrong in the library's own logic.
#[derive(Debug, Clone, Copy, PartialEq, Eq, Structural)]
pub enum SyncError {
    /// The configured key is not 64 hexadecimal digits.
    BadKey,
    /// An AES operation or the random source of the crypto library failed.
    Crypto,
    /// A blob is too short to hold an IV, or its padding is malformed.
    Malformed,
    /// The length-obfuscation suffix would not fit its 24-bit length field.
    PaddingTooLong,
    /// A decrypted file does not match the signature recorded in the image.
    SignatureMismatch,
    /// An image that the goal needs was not supplied.
    MissingImage,
    /// The remote name-hash key differs and the user declined to adopt it.
    KeyDeclined,
    /// A message or blob is too large for the cipher.
    TooLarge,
    /// A name was looked up that the image does not hold.
    UnknownFile,
}

impl SyncError {
    /// The sentence shown to the user for each error.
    pub open spec fn text(self) -> &'static str {
        match self {
            SyncError::BadKey => "key_hex must be 64 hexadecimal digits",
            SyncError::Crypto => "the crypto library failed",
            SyncError::Malformed => "malformed blob",
            SyncError::PaddingTooLong => "length obfuscation suffix too long",
            SyncError::SignatureMismatch => "Signature mismatch! Someone may have tampered with your data.",
            SyncError::MissingImage => "an image is missing",
            SyncError::KeyDeclined => "not really an error. Just exiting.",
            SyncError::TooLarge => "too large for the cipher",
            SyncError::UnknownFile => "the file is not in the image",
        }
    }

    /// A sentence for the user: `text`.
    pub fn message(&self) -> (r: String)
        ensures
            r@ == self.text()@,
    {
        let t: &'static str = match self {
            SyncError::BadKey => "key_hex must be 64 hexadecimal digits",
            SyncError::Crypto => "the crypto library failed",
            SyncError::Malformed => "malformed blob",
            SyncError::PaddingTooLong => "length obfuscation suffix too long",
            SyncError::SignatureMismatch => "Signature mismatch! Someone may have tampered with your data.",
            SyncError::MissingImage => "an image is missing",
            SyncError::KeyDeclined => "not really an error. Just exiting.",
            SyncError::TooLarge => "too large for the cipher",
            SyncError::UnknownFile => "the file is not in the image",
        };
        String::from_str(t)
    }
}

} // verus!
