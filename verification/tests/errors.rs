use mpi104::{BufferError, BufferPoolError, DriverError, ErrorKind, QueueError, ReadError};

#[test]
fn buffer_error_to_kind_and_back() {
    assert_eq!(ErrorKind::from(BufferError::BufferEmpty), ErrorKind::WriteZero);
    assert_eq!(ErrorKind::from(BufferError::InsufficientSpace), ErrorKind::OutOfMemory);
    assert_eq!(ErrorKind::from(BufferError::PartialRead(3)), ErrorKind::WriteZero);
    assert_eq!(BufferError::from(ErrorKind::WriteZero), BufferError::BufferEmpty);
    assert_eq!(BufferError::from(ErrorKind::OutOfMemory), BufferError::InsufficientSpace);
    assert_eq!(BufferError::from(ErrorKind::TimedOut), BufferError::BufferEmpty);
    // a partial read comes back as an empty buffer
    assert_eq!(
        BufferError::from(ErrorKind::from(BufferError::PartialRead(2))),
        BufferError::BufferEmpty
    );
}

#[test]
fn error_texts() {
    assert_eq!(ReadError::DestinationEmpty.as_str(), "DestinationEmpty");
    assert_eq!(ReadError::Disconnected.as_str(), "Disconnected");
    assert_eq!(ReadError::SourceEmpty.kind(), ErrorKind::Other);
    assert_eq!(BufferError::PartialRead(1).as_str(), "PartialRead");
    assert_eq!(BufferError::InsufficientSpace.as_str(), "InsufficientSpace");
    assert_eq!(QueueError::NoItem.as_str(), "Custom error occurred");
    assert_eq!(BufferPoolError::AlreadyDeallocated.as_str(), "AlreadyDeallocated");
    assert_eq!(DriverError::MissingFutureBuffer.as_str(), "MissingFutureBuffer");
}
