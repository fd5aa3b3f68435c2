# mpi104

Firmware pieces for an AT90CAN128 board that bridges a USART1 network module
and an FT240X USB FIFO.

- `src/` is the library, verified with Verus: the byte buffers
  (`ConstCircularBuffer`, `CircularBuffer`, `FlatBuffer`), the buffer pool and
  its allocator, the fixed-block allocator, the queue core, the transmit and
  receive state of the USB driver, and the decisions the UART and FT240X
  drivers take in their interrupt handlers and futures. Each buffer has an
  abstract model (`Seq<u8>` or a small struct) and the laws of the library
  (what a read gives back of a write, the bookkeeping of the pools, timer
  expiry across counter wrap) are proof functions over those models.
- `app/` holds the program: registers, interrupt handlers, the shared statics
  behind critical sections, and the async tasks and executor.
- `tests/` runs the library on concrete values.
