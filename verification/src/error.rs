use vstd::prelude::*;

verus! {

/// Outcome of a read that copies bytes up to a terminator.
#[derive(Debug, PartialEq, Eq, Structural, Clone, Copy)]
pub enum ReadStatus {
    /// read completed with bytes read
    Complete(usize),
    /// partial read complete with bytes read
    Partial(usize),
    /// read complete because buffer has been filled with bytes
    BufferFull(usize),
}

/// Errors of a read from a byte source into a destination.
#[derive(Debug, PartialEq, Eq, Structural, Clone, Copy)]
pub enum ReadError {
    /// read called and destination buffer is empty
    DestinationEmpty,
    /// read called and no bytes to read from source
    SourceEmpty,
    /// read called and io is disconnected
    Disconnected,
}

/// The I/O error kinds of the embedded I/O traits, as plain values.
#[derive(Debug, PartialEq, Eq, Structural, Clone, Copy)]
pub enum ErrorKind {
    Other,
    NotFound,
    PermissionDenied,
    ConnectionRefused,
    ConnectionReset,
    ConnectionAborted,
    NotConnected,
    AddrInUse,
    AddrNotAvailable,
    BrokenPipe,
    AlreadyExists,
    InvalidInput,
    InvalidData,
    TimedOut,
    Interrupted,
    Unsupported,
    OutOfMemory,
    WriteZero,
}

impl ReadError {
    /// The I/O error kind reported for every read error.
    pub fn kind(&self) -> (k: ErrorKind)
        ensures
            k == ErrorKind::Other,
    {
        ErrorKind::Other
    }

    /// The text shown for the error.
    pub fn as_str(&self) -> (s: &'static str)
        ensures
            s@ == read_error_text(*self)@,
    {
        match self {
            ReadError::DestinationEmpty => "DestinationEmpty",
            ReadError::SourceEmpty => "SourceEmpty",
            ReadError::Disconnected => "Disconnected",
        }
    }
}

/// The text of a read error.
pub open spec fn read_error_text(e: ReadError) -> &'static str {
    match e {
        ReadError::DestinationEmpty => "DestinationEmpty",
        ReadError::SourceEmpty => "SourceEmpty",
        ReadError::Disconnected => "Disconnected",
    }
}

/// Errors of the byte buffers.
#[derive(Debug, PartialEq, Eq, Structural, Clone, Copy)]
pub enum BufferError {
    BufferEmpty,
    InsufficientSpace,
    PartialRead(usize),
}

/// The I/O error kind that a buffer error maps to.
pub open spec fn buffer_error_to_kind(e: BufferError) -> ErrorKind {
    match e {
        BufferError::BufferEmpty => ErrorKind::WriteZero,
        BufferError::InsufficientSpace => ErrorKind::OutOfMemory,
        BufferError::PartialRead(_) => ErrorKind::WriteZero,
    }
}

/// The buffer error that an I/O error kind maps to.
pub open spec fn kind_to_buffer_error(k: ErrorKind) -> BufferError {
    match k {
        ErrorKind::WriteZero => BufferError::BufferEmpty,
        ErrorKind::OutOfMemory => BufferError::InsufficientSpace,
        _ => BufferError::BufferEmpty,
    }
}

impl From<BufferError> for ErrorKind {
    fn from(err: BufferError) -> (k: Self) {
        match err {
            BufferError::BufferEmpty => ErrorKind::WriteZero,
            BufferError::InsufficientSpace => ErrorKind::OutOfMemory,
            BufferError::PartialRead(_) => ErrorKind::WriteZero,
        }
    }
}

impl vstd::std_specs::convert::FromSpecImpl<BufferError> for ErrorKind {
    open spec fn obeys_from_spec() -> bool {
        true
    }

    open spec fn from_spec(v: BufferError) -> Self {
        buffer_error_to_kind(v)
    }
}

impl From<ErrorKind> for BufferError {
    fn from(err: ErrorKind) -> (e: Self) {
        match err {
            ErrorKind::WriteZero => BufferError::BufferEmpty,
            ErrorKind::OutOfMemory => BufferError::InsufficientSpace,
            _ => BufferError::BufferEmpty,
        }
    }
}

impl vstd::std_specs::convert::FromSpecImpl<ErrorKind> for BufferError {
    open spec fn obeys_from_spec() -> bool {
        true
    }

    open spec fn from_spec(v: ErrorKind) -> Self {
        kind_to_buffer_error(v)
    }
}

impl BufferError {
    /// The text shown for the error.
    pub fn as_str(&self) -> (s: &'static str)
        ensures
            s@ == buffer_error_text(*self)@,
    {
        match self {
            BufferError::BufferEmpty => "BufferEmpty",
            BufferError::InsufficientSpace => "InsufficientSpace",
            BufferError::PartialRead(_) => "PartialRead",
        }
    }
}

/// The text of a buffer error.
pub open spec fn buffer_error_text(e: BufferError) -> &'static str {
    match e {
        BufferError::BufferEmpty => "BufferEmpty",
        BufferError::InsufficientSpace => "InsufficientSpace",
        BufferError::PartialRead(_) => "PartialRead",
    }
}

/// A buffer error survives the trip to an I/O error kind and back, except a
/// partial read, which comes back as an empty buffer.
pub proof fn lemma_buffer_error_round_trip(e: BufferError)
    ensures
        kind_to_buffer_error(buffer_error_to_kind(e)) == (match e {
            BufferError::PartialRead(_) => BufferError::BufferEmpty,
            _ => e,
        }),
{
}

/// Errors of the interrupt-safe queue.
#[derive(Debug, PartialEq, Eq, Structural, Clone, Copy)]
pub enum QueueError {
    Full,
    Empty,
    NoItem,
}

impl QueueError {
    /// The text shown for every queue error.
    pub fn as_str(&self) -> (s: &'static str)
        ensures
            s@ == "Custom error occurred"@,
    {
        "Custom error occurred"
    }
}

/// Errors of the buffer pool.
#[derive(Debug, PartialEq, Eq, Structural, Clone, Copy)]
pub enum BufferPoolError {
    PoolFull,
    PoolEmpty,
    AlreadyDeallocated,
    InvalidIndex,
}

impl BufferPoolError {
    /// The text shown for the error.
    pub fn as_str(&self) -> (s: &'static str)
        ensures
            s@ == buffer_pool_error_text(*self)@,
    {
        match self {
            BufferPoolError::PoolFull => "PoolFull",
            BufferPoolError::PoolEmpty => "PoolEmpty",
            BufferPoolError::AlreadyDeallocated => "AlreadyDeallocated",
            BufferPoolError::InvalidIndex => "InvalidIndex",
        }
    }
}

/// The text of a buffer pool error.
pub open spec fn buffer_pool_error_text(e: BufferPoolError) -> &'static str {
    match e {
        BufferPoolError::PoolFull => "PoolFull",
        BufferPoolError::PoolEmpty => "PoolEmpty",
        BufferPoolError::AlreadyDeallocated => "AlreadyDeallocated",
        BufferPoolError::InvalidIndex => "InvalidIndex",
    }
}

/// Errors of the interrupt driven drivers.
#[derive(Debug, PartialEq, Eq, Structural, Clone, Copy)]
pub enum DriverError {
    MissingDriver,
    MissingGlobalState,
    MissingGlobalBuffer,
    MissingFutureBuffer,
    BufferEmpty,
    InsufficientSpace,
}

impl DriverError {
    /// The text shown for the error.
    pub fn as_str(&self) -> (s: &'static str)
        ensures
            s@ == driver_error_text(*self)@,
    {
        match self {
            DriverError::MissingDriver => "MissingDriver",
            DriverError::MissingGlobalState => "MissingGlobalState",
            DriverError::MissingGlobalBuffer => "MissingGlobalBuffer",
            DriverError::MissingFutureBuffer => "MissingFutureBuffer",
            DriverError::BufferEmpty => "BufferEmpty",
            DriverError::InsufficientSpace => "InsufficientSpace",
        }
    }
}

/// The text of a driver error.
pub open spec fn driver_error_text(e: DriverError) -> &'static str {
    match e {
        DriverError::MissingDriver => "MissingDriver",
        DriverError::MissingGlobalState => "MissingGlobalState",
        DriverError::MissingGlobalBuffer => "MissingGlobalBuffer",
        DriverError::MissingFutureBuffer => "MissingFutureBuffer",
        DriverError::BufferEmpty => "BufferEmpty",
        DriverError::InsufficientSpace => "InsufficientSpace",
    }
}

} // verus!
