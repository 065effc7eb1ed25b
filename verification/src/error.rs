use vstd::prelude::*;

verus! {

/// The one fatal condition a job reports.
#[derive(Clone, Copy, Debug, PartialEq, Eq, Structural)]
pub enum PipelineError {
    /// The bytes handed over are not a playlist.
    ManifestParse,
    /// A master manifest lists no variant.
    NoVariants,
    /// A relative location was to be resolved, but the manifest was read
    /// from a local path.
    MissingBaseUrl,
    /// A location is no valid URL, alone or joined to the base.
    InvalidUri,
    /// The key could not be fetched: a transport failure or a status
    /// outside 2xx.
    KeyFetch,
    /// The fetched key is not 16 bytes long.
    KeyLength,
    /// The initialization vector is not 32 hexadecimal digits.
    IvFormat,
    /// The ciphertext length is no multiple of the block size.
    BlockAlignment,
    /// The decrypted data does not end in valid padding.
    Padding,
    /// Every attempt to fetch a segment failed.
    SegmentFetch,
    /// The temporary store of the segment with this index is absent at
    /// merge time.
    MissingSegmentData(usize),
}

impl PipelineError {
    /// What `message` says of each error.
    pub open spec fn message_of(self) -> Seq<char> {
        match self {
            PipelineError::ManifestParse => "the manifest could not be parsed"@,
            PipelineError::NoVariants => "the master manifest lists no variant"@,
            PipelineError::MissingBaseUrl =>
                "a relative location cannot be resolved without a network manifest"@,
            PipelineError::InvalidUri => "a location is no valid URL"@,
            PipelineError::KeyFetch => "the key could not be fetched"@,
            PipelineError::KeyLength => "the key is not 16 bytes long"@,
            PipelineError::IvFormat => "the initialization vector is not 32 hexadecimal digits"@,
            PipelineError::BlockAlignment =>
                "the ciphertext length is no multiple of the block size"@,
            PipelineError::Padding => "the decrypted data has no valid padding"@,
            PipelineError::SegmentFetch => "every attempt to fetch the segment failed"@,
            PipelineError::MissingSegmentData(_) => "a segment's temporary store is missing"@,
        }
    }

    /// A sentence that names the cause.
    pub fn message(&self) -> (m: &'static str)
        ensures
            m@ == self.message_of(),
    {
        match self {
            PipelineError::ManifestParse => "the manifest could not be parsed",
            PipelineError::NoVariants => "the master manifest lists no variant",
            PipelineError::MissingBaseUrl =>
                "a relative location cannot be resolved without a network manifest",
            PipelineError::InvalidUri => "a location is no valid URL",
            PipelineError::KeyFetch => "the key could not be fetched",
            PipelineError::KeyLength => "the key is not 16 bytes long",
            PipelineError::IvFormat => "the initialization vector is not 32 hexadecimal digits",
            PipelineError::BlockAlignment =>
                "the ciphertext length is no multiple of the block size",
            PipelineError::Padding => "the decrypted data has no valid padding",
            PipelineError::SegmentFetch => "every attempt to fetch the segment failed",
            PipelineError::MissingSegmentData(_) => "a segment's temporary store is missing",
        }
    }
}

} // verus!
