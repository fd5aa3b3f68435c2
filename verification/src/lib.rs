//! Byte buffers, buffer pools, a fixed-block allocator, an interrupt-safe
//! queue core and the decision logic of the UART and FT240X drivers of an
//! AT90CAN128 firmware, with their contracts proved by Verus.
pub mod allocator;
pub mod async_queue;
pub mod buffer_handle;
pub mod buffer_pool;
pub mod circular_buffer;
pub mod const_circular_buffer;
pub mod driver;
pub mod error;
pub mod executor;
pub mod flat_buffer;
pub mod ft240x;
pub mod interrupts;
pub mod tasks;
pub mod timer;
pub mod uart;
pub mod usb_state;
pub mod waker;

pub use allocator::{ArbitraryAllocator, Block, MemPool, PoolKind};
pub use async_queue::AsyncQueueInner;
pub use buffer_handle::BufferHandle;
pub use buffer_pool::{BufferAllocator, BufferPool};
pub use circular_buffer::CircularBuffer;
pub use const_circular_buffer::ConstCircularBuffer;
pub use driver::{Driver, RxState, TxState, UsbRxFuture, UsbTxFuture};
pub use error::{
    BufferError, BufferPoolError, DriverError, ErrorKind, QueueError, ReadError, ReadStatus,
};
pub use executor::{Executor, Join};
pub use flat_buffer::FlatBuffer;
pub use ft240x::{
    AvrPort, BusState, FT240Conf, Ft240xCanRead, Ft240xCanWrite, Ft240xReaderHandle,
    Ft240xWriterHandle, IoBus8, StaticBus,
};
pub use interrupts::At90Can128Interrupts;
pub use timer::Timer;
pub use uart::{Usart1ReaderHandle, Usart1WriterHandle, UsartReader, UsartWriter};
pub use usb_state::UsbEvent;
