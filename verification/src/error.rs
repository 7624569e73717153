use vstd::prelude::*;

verus! {

/// Declares `std::io::Error` so that the top-level error can carry the
/// underlying storage failure verbatim, as an opaque value.
#[verifier::external_type_specification]
#[verifier::external_body]
pub struct ExIoError(std::io::Error);

/// Decimal rendering of an unsigned integer, as `u64::to_string` produces it.
pub uninterp spec fn decimal_of(n: u64) -> Seq<char>;

/// Decimal rendering of a signed integer, as `i64::to_string` produces it.
pub uninterp spec fn signed_decimal_of(n: i64) -> Seq<char>;

/// Relies on `u64::to_string`: the decimal digits of `n`, which depend on `n` alone.
#[verifier::external_body]
fn decimal(n: u64) -> (r: String)
    ensures
        r@ == decimal_of(n),
{
    n.to_string()
}

/// Relies on `i64::to_string`: the decimal rendering of `n`, which depends on `n` alone.
#[verifier::external_body]
fn signed_decimal(n: i64) -> (r: String)
    ensures
        r@ == signed_decimal_of(n),
{
    n.to_string()
}

/// Relies on the `Display` impl of `std::io::Error` for a best-effort message;
/// nothing is assumed of the text.
#[verifier::external_body]
fn io_error_message(err: &std::io::Error) -> (r: String) {
    format!("{}", err)
}

/// Structural lookup and chain-walk failures raised while locating and
/// assembling an archive from its sector chain.
#[derive(Clone, Eq, PartialEq, Ord, PartialOrd, Hash, Debug)]
pub enum ReadError {
    IndexNotFound(u8),
    ArchiveNotFound(u8, u32),
    ReferenceTableNotFound,
    NameNotInArchive(i32, String, u8),
    SectorArchiveMismatch(u32, u32),
    SectorChunkMismatch(usize, usize),
    SectorNextMismatch(u32, u32),
    SectorIndexMismatch(u8, u8),
}

/// The message `ReadError::message` returns for each case.
pub open spec fn read_error_message(e: ReadError) -> Seq<char> {
    match e {
        ReadError::IndexNotFound(id) => "Index "@ + decimal_of(id as u64) + " not found."@,
        ReadError::ArchiveNotFound(index_id, archive_id) => "Index "@ + decimal_of(
            index_id as u64,
        ) + " does not contain archive group "@ + decimal_of(archive_id as u64) + "."@,
        ReadError::ReferenceTableNotFound => "Reference table (index 255) not found."@,
        ReadError::NameNotInArchive(hash, name, index_id) => "Identifier hash "@
            + signed_decimal_of(hash as i64) + " for name "@ + name@ + " not found in index "@
            + decimal_of(index_id as u64) + "."@,
        ReadError::SectorArchiveMismatch(received, expected) => "Sector archive id was "@
            + decimal_of(received as u64) + " but expected "@ + decimal_of(expected as u64) + "."@,
        ReadError::SectorChunkMismatch(received, expected) => "Sector chunk was "@ + decimal_of(
            received as u64,
        ) + " but expected "@ + decimal_of(expected as u64) + "."@,
        ReadError::SectorNextMismatch(received, expected) => "Sector next was "@ + decimal_of(
            received as u64,
        ) + " but expected "@ + decimal_of(expected as u64) + "."@,
        ReadError::SectorIndexMismatch(received, expected) => "Sector parent index id was "@
            + decimal_of(received as u64) + " but expected "@ + decimal_of(expected as u64) + "."@,
    }
}

impl ReadError {
    /// Human-readable description of the failure, one sentence per case.
    pub fn message(&self) -> (r: String)
        ensures
            r@ == read_error_message(*self),
    {
        match self {
            ReadError::IndexNotFound(id) => {
                let mut s = String::from_str("Index ");
                s.append(decimal(*id as u64).as_str());
                s.append(" not found.");
                s
            },
            ReadError::ArchiveNotFound(index_id, archive_id) => {
                let mut s = String::from_str("Index ");
                s.append(decimal(*index_id as u64).as_str());
                s.append(" does not contain archive group ");
                s.append(decimal(*archive_id as u64).as_str());
                s.append(".");
                s
            },
            ReadError::ReferenceTableNotFound => String::from_str(
                "Reference table (index 255) not found.",
            ),
            ReadError::NameNotInArchive(hash, name, index_id) => {
                let mut s = String::from_str("Identifier hash ");
                s.append(signed_decimal(*hash as i64).as_str());
                s.append(" for name ");
                s.append(name.as_str());
                s.append(" not found in index ");
                s.append(decimal(*index_id as u64).as_str());
                s.append(".");
                s
            },
            ReadError::SectorArchiveMismatch(received, expected) => {
                let mut s = String::from_str("Sector archive id was ");
                s.append(decimal(*received as u64).as_str());
                s.append(" but expected ");
                s.append(decimal(*expected as u64).as_str());
                s.append(".");
                s
            },
            ReadError::SectorChunkMismatch(received, expected) => {
                let mut s = String::from_str("Sector chunk was ");
                s.append(decimal(*received as u64).as_str());
                s.append(" but expected ");
                s.append(decimal(*expected as u64).as_str());
                s.append(".");
                s
            },
            ReadError::SectorNextMismatch(received, expected) => {
                let mut s = String::from_str("Sector next was ");
                s.append(decimal(*received as u64).as_str());
                s.append(" but expected ");
                s.append(decimal(*expected as u64).as_str());
                s.append(".");
                s
            },
            ReadError::SectorIndexMismatch(received, expected) => {
                let mut s = String::from_str("Sector parent index id was ");
                s.append(decimal(*received as u64).as_str());
                s.append(" but expected ");
                s.append(decimal(*expected as u64).as_str());
                s.append(".");
                s
            },
        }
    }
}

/// Raised when a buffer's compression format tag is not implemented.
#[derive(Copy, Clone, Eq, PartialEq, Ord, PartialOrd, Hash, Debug)]
pub struct CompressionUnsupported;

impl CompressionUnsupported {
    /// Human-readable description of the failure.
    pub fn message(&self) -> (r: String)
        ensures
            r@ == "unsupported compression type"@,
    {
        String::from_str("unsupported compression type")
    }
}

/// Raised when metadata or layout decoding runs out of input.
#[derive(Copy, Clone, Eq, PartialEq, Ord, PartialOrd, Hash, Debug)]
pub enum ParseError {
    Unknown,
    Archive(u32),
    Sector(usize),
}

/// The message `ParseError::message` returns for each case.
pub open spec fn parse_error_message(e: ParseError) -> Seq<char> {
    match e {
        ParseError::Unknown => "Unknown parser error."@,
        ParseError::Archive(id) => "Unable to parse archive "@ + decimal_of(id as u64)
            + ", unexpected eof."@,
        ParseError::Sector(id) => "Unable to parse child sector of parent "@ + decimal_of(id as u64)
            + ", unexpected eof."@,
    }
}

impl ParseError {
    /// Human-readable description of the failure, one sentence per case.
    pub fn message(&self) -> (r: String)
        ensures
            r@ == parse_error_message(*self),
    {
        match self {
            ParseError::Unknown => String::from_str("Unknown parser error."),
            ParseError::Archive(id) => {
                let mut s = String::from_str("Unable to parse archive ");
                s.append(decimal(*id as u64).as_str());
                s.append(", unexpected eof.");
                s
            },
            ParseError::Sector(id) => {
                let mut s = String::from_str("Unable to parse child sector of parent ");
                s.append(decimal(*id as u64).as_str());
                s.append(", unexpected eof.");
                s
            },
        }
    }
}

/// Raised when decoded content fails its declared-length or checksum check.
#[derive(Copy, Clone, Eq, PartialEq, Ord, PartialOrd, Hash, Debug)]
pub enum ValidateError {
    InvalidLength(usize, usize),
    InvalidCrc(u32, u32, usize),
}

/// The message `ValidateError::message` returns for each case.
pub open spec fn validate_error_message(e: ValidateError) -> Seq<char> {
    match e {
        ValidateError::InvalidLength(expected, actual) => "Expected length of "@ + decimal_of(
            expected as u64,
        ) + " but was "@ + decimal_of(actual as u64) + "."@,
        ValidateError::InvalidCrc(expected, actual, index) => "Mismatch crc at index "@
            + decimal_of(index as u64) + ", expected "@ + decimal_of(expected as u64)
            + " but was "@ + decimal_of(actual as u64) + "."@,
    }
}

impl ValidateError {
    /// Human-readable description of the failure, one sentence per case.
    pub fn message(&self) -> (r: String)
        ensures
            r@ == validate_error_message(*self),
    {
        match self {
            ValidateError::InvalidLength(expected, actual) => {
                let mut s = String::from_str("Expected length of ");
                s.append(decimal(*expected as u64).as_str());
                s.append(" but was ");
                s.append(decimal(*actual as u64).as_str());
                s.append(".");
                s
            },
            ValidateError::InvalidCrc(expected, actual, index) => {
                let mut s = String::from_str("Mismatch crc at index ");
                s.append(decimal(*index as u64).as_str());
                s.append(", expected ");
                s.append(decimal(*expected as u64).as_str());
                s.append(" but was ");
                s.append(decimal(*actual as u64).as_str());
                s.append(".");
                s
            },
        }
    }
}

/// Super error type for all sub cache errors.
#[derive(Debug)]
pub enum RuneFsError {
    /// Wrapper for the `std::io::Error` type.
    Io(std::io::Error),
    Read(ReadError),
    Compression(CompressionUnsupported),
    /// Clarification error for failed parsers.
    Parse(ParseError),
    Validate(ValidateError),
}

impl RuneFsError {
    /// Human-readable description of the failure, delegated to the wrapped error.
    pub fn message(&self) -> (r: String)
        ensures
            *self matches RuneFsError::Read(e) ==> r@ == read_error_message(e),
            *self matches RuneFsError::Compression(_) ==> r@ == "unsupported compression type"@,
            *self matches RuneFsError::Parse(e) ==> r@ == parse_error_message(e),
            *self matches RuneFsError::Validate(e) ==> r@ == validate_error_message(e),
    {
        match self {
            RuneFsError::Io(err) => io_error_message(err),
            RuneFsError::Read(err) => err.message(),
            RuneFsError::Compression(err) => err.message(),
            RuneFsError::Parse(err) => err.message(),
            RuneFsError::Validate(err) => err.message(),
        }
    }
}

impl From<std::io::Error> for RuneFsError {
    fn from(err: std::io::Error) -> (r: Self) {
        RuneFsError::Io(err)
    }
}

impl vstd::std_specs::convert::FromSpecImpl<std::io::Error> for RuneFsError {
    open spec fn obeys_from_spec() -> bool {
        true
    }

    open spec fn from_spec(err: std::io::Error) -> Self {
        RuneFsError::Io(err)
    }
}

impl From<ReadError> for RuneFsError {
    fn from(err: ReadError) -> (r: Self) {
        RuneFsError::Read(err)
    }
}

impl vstd::std_specs::convert::FromSpecImpl<ReadError> for RuneFsError {
    open spec fn obeys_from_spec() -> bool {
        true
    }

    open spec fn from_spec(err: ReadError) -> Self {
        RuneFsError::Read(err)
    }
}

impl From<CompressionUnsupported> for RuneFsError {
    fn from(err: CompressionUnsupported) -> (r: Self) {
        RuneFsError::Compression(err)
    }
}

impl vstd::std_specs::convert::FromSpecImpl<CompressionUnsupported> for RuneFsError {
    open spec fn obeys_from_spec() -> bool {
        true
    }

    open spec fn from_spec(err: CompressionUnsupported) -> Self {
        RuneFsError::Compression(err)
    }
}

impl From<ParseError> for RuneFsError {
    fn from(err: ParseError) -> (r: Self) {
        RuneFsError::Parse(err)
    }
}

impl vstd::std_specs::convert::FromSpecImpl<ParseError> for RuneFsError {
    open spec fn obeys_from_spec() -> bool {
        true
    }

    open spec fn from_spec(err: ParseError) -> Self {
        RuneFsError::Parse(err)
    }
}

impl From<ValidateError> for RuneFsError {
    fn from(err: ValidateError) -> (r: Self) {
        RuneFsError::Validate(err)
    }
}

impl vstd::std_specs::convert::FromSpecImpl<ValidateError> for RuneFsError {
    open spec fn obeys_from_spec() -> bool {
        true
    }

    open spec fn from_spec(err: ValidateError) -> Self {
        RuneFsError::Validate(err)
    }
}

} // verus!
