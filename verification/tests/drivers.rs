use mpi104::tasks::echo_line;
use mpi104::{
    At90Can128Interrupts, BusState, CircularBuffer, DriverError, ErrorKind, Executor,
    FlatBuffer, Ft240xCanRead, Ft240xCanWrite, Ft240xReaderHandle, Ft240xWriterHandle,
    ReadStatus, RxState, StaticBus, Timer, TxState, Usart1ReaderHandle, UsartReader,
    UsartWriter, UsbEvent, UsbRxFuture, UsbTxFuture,
};
use std::task::Waker;

fn flat(bytes: &[u8], cap: usize) -> FlatBuffer {
    let mut f = FlatBuffer::new(vec![0u8; cap]);
    assert_eq!(f.write_all(bytes), Ok(bytes.len()));
    f
}

#[test]
fn tx_state_sends_every_byte_then_completes() {
    let (mut tx, first) = TxState::start(flat(&[1, 2], 4));
    assert_eq!(first, Some(1));
    assert!(tx.result.is_none());
    tx.waker = Some(Waker::noop().clone());
    assert_eq!(tx.on_tx_ready(), Some(2));
    assert_eq!(tx.on_tx_ready(), None);
    assert_eq!(tx.result, Some(Ok(())));
    assert!(tx.waker.is_none());
}

#[test]
fn tx_state_of_empty_buffer_fails() {
    let (tx, first) = TxState::start(FlatBuffer::new(vec![0u8; 4]));
    assert_eq!(first, None);
    assert_eq!(tx.result, Some(Err(DriverError::BufferEmpty)));
    let e = TxState::error(FlatBuffer::new(vec![0u8; 1]), DriverError::MissingDriver);
    assert_eq!(e.result, Some(Err(DriverError::MissingDriver)));
}

#[test]
fn usb_tx_future_polls() {
    let mut state: Option<TxState> = None;
    assert_eq!(
        UsbTxFuture::poll_state(&mut state, Waker::noop()).map(|r| r.is_err()),
        Some(true)
    );
    let (tx, _) = TxState::start(flat(&[1], 2));
    let mut state = Some(tx);
    assert!(UsbTxFuture::poll_state(&mut state, Waker::noop()).is_none());
    assert!(state.as_ref().unwrap().waker.is_some());
    assert_eq!(state.as_mut().unwrap().on_tx_ready(), None);
    match UsbTxFuture::poll_state(&mut state, Waker::noop()) {
        Some(Ok(buf)) => assert!(buf.is_empty()),
        _ => panic!("transmission should be over"),
    }
    assert!(state.is_none());
}

#[test]
fn rx_state_receives_until_full() {
    let mut rx = RxState::new(CircularBuffer::new(vec![0u8; 3]));
    assert!(rx.has_room());
    rx.receive_byte(1);
    rx.receive_byte(2);
    assert!(!rx.has_room());
    rx.overflow();
    assert_eq!(rx.error, Some(DriverError::InsufficientSpace));
    assert_eq!(rx.buffer.len(), 2);
}

#[test]
fn usb_rx_future_drains_a_packet() {
    let mut rx = RxState::new(CircularBuffer::new(vec![0u8; 8]));
    for b in [b'h', b'i', 0x0d, b'x'] {
        rx.receive_byte(b);
    }
    let mut state = Some(rx);
    let mut fut = UsbRxFuture::new(FlatBuffer::new(vec![0u8; 8]));
    match fut.poll_state(&mut state, Waker::noop()) {
        Some(Ok(buf)) => assert_eq!(buf.as_ref(), &[b'h', b'i', 0x0d]),
        _ => panic!("a packet should be ready"),
    }
    assert_eq!(state.as_ref().unwrap().buffer.len(), 1);
    // the buffer was handed back
    assert_eq!(
        fut.poll_state(&mut state, Waker::noop()).map(|r| r.err()),
        Some(Some(DriverError::MissingFutureBuffer))
    );
}

#[test]
fn usb_rx_future_waits_without_bytes() {
    let mut state = Some(RxState::new(CircularBuffer::new(vec![0u8; 4])));
    let mut fut = UsbRxFuture::new(FlatBuffer::new(vec![0u8; 4]));
    assert!(fut.poll_state(&mut state, Waker::noop()).is_none());
    assert!(state.as_ref().unwrap().waker.is_some());
    let mut none: Option<RxState> = None;
    assert_eq!(
        fut.poll_state(&mut none, Waker::noop()).map(|r| r.err()),
        Some(Some(DriverError::MissingGlobalState))
    );
}

#[test]
fn usb_rx_future_keeps_waiting_until_a_packet_end() {
    let mut rx = RxState::new(CircularBuffer::new(vec![0u8; 8]));
    rx.receive_byte(b'a');
    rx.receive_byte(b'b');
    let mut state = Some(rx);
    let mut fut = UsbRxFuture::new(FlatBuffer::new(vec![0u8; 8]));
    // bytes without a packet end are stored and the poll stays pending
    assert!(fut.poll_state(&mut state, Waker::noop()).is_none());
    assert_eq!(state.as_ref().unwrap().buffer.len(), 0);
    state.as_mut().unwrap().receive_byte(0x0d);
    match fut.poll_state(&mut state, Waker::noop()) {
        Some(Ok(buf)) => assert_eq!(buf.as_ref(), &[b'a', b'b', 0x0d]),
        _ => panic!("a packet should be ready"),
    }
}

#[test]
fn usart_reader_manages_cts() {
    let mut r: UsartReader<8> = UsartReader::new();
    // a quarter of 8 is 2: raise clear-to-send when less than 2 bytes are free
    for b in 0..6u8 {
        assert!(!r.on_receive(b));
    }
    assert!(r.on_receive(6));
    assert!(r.on_receive(7));
    let mut dest = [0u8; 3];
    let (res, lower) = r.read(&mut dest);
    assert_eq!(res, Ok(3));
    assert_eq!(dest, [0, 1, 2]);
    // 3 free is not more than half of 8
    assert!(!lower);
    let mut dest = [0u8; 2];
    let (res, lower) = r.read_to(9, &mut dest);
    assert_eq!(res, Ok(ReadStatus::BufferFull(2)));
    assert!(lower);
}

#[test]
fn usart_reader_poll_can_read() {
    let mut r: UsartReader<4> = UsartReader::new();
    assert!(!r.poll_can_read(Waker::noop()));
    r.on_receive(1);
    assert!(r.poll_can_read(Waker::noop()));
}

#[test]
fn usart_writer_sends_and_goes_idle() {
    let mut w: UsartWriter<4> = UsartWriter::new();
    assert!(w.poll_tx_empty(Waker::noop()));
    let (res, enable) = w.write(&[1, 2, 3, 4, 5]);
    assert_eq!(res, Ok(4));
    assert!(enable);
    assert!(!w.poll_can_write(Waker::noop()));
    let (res, enable) = w.write(&[6]);
    assert_eq!(res, Err(ErrorKind::OutOfMemory));
    assert!(!enable);
    // the peer is not ready: the transmitter goes idle
    assert_eq!(w.on_tx_ready(false), None);
    assert_eq!(w.on_tx_ready(true), Some(1));
    assert!(w.poll_can_write(Waker::noop()));
    // the transmitter went idle above: a flush enables it again
    assert!(w.flush());
    assert_eq!(w.on_tx_ready(true), Some(2));
    assert_eq!(w.on_tx_ready(true), Some(3));
    assert_eq!(w.on_tx_ready(true), Some(4));
    assert_eq!(w.on_tx_ready(true), None);
    assert!(w.flush());
}

#[test]
fn usart_read_to_steps() {
    assert_eq!(Usart1ReaderHandle::read_to_step(2, ReadStatus::Partial(3)), (5, None));
    assert_eq!(
        Usart1ReaderHandle::read_to_step(5, ReadStatus::Complete(1)),
        (6, Some(ReadStatus::Complete(6)))
    );
    assert_eq!(
        Usart1ReaderHandle::read_to_step(1, ReadStatus::BufferFull(2)),
        (3, Some(ReadStatus::BufferFull(3)))
    );
}

#[test]
fn ft240x_waits_on_lines() {
    assert_eq!(Ft240xCanRead::poll_lines(false, true), Some(Err(ErrorKind::NotConnected)));
    assert_eq!(Ft240xCanRead::poll_lines(true, true), Some(Ok(())));
    assert_eq!(Ft240xCanRead::poll_lines(true, false), None);
    assert_eq!(Ft240xCanWrite::poll_lines(false, true), Some(Err(ErrorKind::NotConnected)));
    assert_eq!(Ft240xCanWrite::poll_lines(true, true), Some(Ok(())));
    assert_eq!(Ft240xCanWrite::poll_lines(true, false), None);
}

#[test]
fn ft240x_read_to_steps() {
    let mut buf = FlatBuffer::new(vec![0u8; 3]);
    assert_eq!(Ft240xReaderHandle::check_destination(&buf), Ok(()));
    assert_eq!(Ft240xReaderHandle::read_to_step(b'\n', &mut buf, b'a', true, true), None);
    assert_eq!(
        Ft240xReaderHandle::read_to_step(b'\n', &mut buf, b'b', true, false),
        Some(Ok(false))
    );
    assert_eq!(
        Ft240xReaderHandle::read_to_step(b'\n', &mut buf, b'\n', true, true),
        Some(Ok(true))
    );
    assert_eq!(buf.as_ref(), b"ab\n");
    assert_eq!(Ft240xReaderHandle::check_destination(&buf), Err(ErrorKind::OutOfMemory));
    let mut small = FlatBuffer::new(vec![0u8; 1]);
    assert_eq!(
        Ft240xReaderHandle::read_to_step(b'\n', &mut small, b'x', true, true),
        Some(Err(ErrorKind::NotConnected))
    );
    let mut other = FlatBuffer::new(vec![0u8; 4]);
    assert_eq!(
        Ft240xReaderHandle::read_to_step(b'\n', &mut other, b'x', false, true),
        Some(Err(ErrorKind::NotConnected))
    );
}

#[test]
fn ft240x_read_and_write_steps() {
    assert_eq!(Ft240xReaderHandle::check_read_len(0), Err(ErrorKind::InvalidInput));
    assert_eq!(Ft240xReaderHandle::check_read_len(2), Ok(()));
    assert_eq!(Ft240xReaderHandle::read_step(1, 4, true, true), None);
    assert_eq!(Ft240xReaderHandle::read_step(1, 4, true, false), Some(Ok(1)));
    assert_eq!(Ft240xReaderHandle::read_step(4, 4, true, true), Some(Ok(4)));
    assert_eq!(
        Ft240xReaderHandle::read_step(2, 4, false, true),
        Some(Err(ErrorKind::NotConnected))
    );
    assert_eq!(Ft240xWriterHandle::check_write_len(0), Err(ErrorKind::InvalidInput));
    assert!(Ft240xWriterHandle::write_done(3, 3, true, true));
    assert!(!Ft240xWriterHandle::write_done(1, 3, true, true));
    assert!(Ft240xWriterHandle::write_done(1, 3, false, true));
    assert!(Ft240xWriterHandle::write_done(1, 3, true, false));
    assert_eq!(Ft240xWriterHandle::check_flush(false), Err(ErrorKind::NotConnected));
    assert_eq!(Ft240xWriterHandle::check_flush(true), Ok(()));
}

#[test]
fn bus_state_reconfigures_only_on_change() {
    let mut s = BusState::Unknown;
    assert!(s.enter_input());
    assert!(!s.enter_input());
    assert!(s.enter_output());
    assert!(!s.enter_output());
    assert_eq!(s, BusState::Output);
    let mut slot: StaticBus<u8, bool> = StaticBus::empty();
    slot.install(3, true);
}

#[test]
fn timer_expires_across_wrap() {
    let t = Timer::delay_from(65530, 10);
    assert!(!t.is_expired(65535));
    assert!(!t.is_expired(3));
    assert!(t.is_expired(4));
    assert!(t.is_expired(4 + 0x7fff));
    assert!(!t.is_expired(4 + 0x8000));
}

#[test]
fn interrupt_masks() {
    assert_eq!(At90Can128Interrupts::rxf_enabled(0x01), 0x41);
    assert_eq!(At90Can128Interrupts::rxf_disabled(0xff), 0xbf);
    assert_eq!(At90Can128Interrupts::txe_enabled(0x00), 0x20);
    assert_eq!(At90Can128Interrupts::txe_disabled(0x20), 0x00);
    assert!(At90Can128Interrupts::rxf_is_enabled(0x40));
    assert!(!At90Can128Interrupts::txe_is_enabled(0x40));
}

#[test]
fn usb_events() {
    assert!(UsbEvent::idle().is_ready(mpi104::usb_state::IDLE | mpi104::usb_state::SPACE_AVAILABLE));
    assert!(!UsbEvent::idle().is_ready(mpi104::usb_state::TRANSMITTING));
    assert!(UsbEvent::space_available(4).is_ready(mpi104::usb_state::SPACE_AVAILABLE));
    assert_eq!(UsbEvent::space_available(4).bytes_required(), 4);
    assert_eq!(UsbEvent::idle().bytes_required(), 0);
}

#[test]
fn echo_line_formats_reply() {
    let rx = flat(b"abc\n", 8);
    let mut tx = FlatBuffer::new(vec![0u8; 32]);
    echo_line(&rx, &mut tx);
    assert_eq!(tx.as_ref(), b"abc bytes: 4\r\n");
}

#[test]
fn echo_line_leaves_out_what_does_not_fit() {
    let rx = flat(b"abcdef\n", 8);
    let mut tx = FlatBuffer::new(vec![0u8; 10]);
    echo_line(&rx, &mut tx);
    assert_eq!(tx.as_ref(), b"abcdef7\r\n");
}

#[test]
fn executor_hands_back_its_future() {
    let e = Executor::new(std::future::ready(3u8));
    let f = e.into_future();
    let _ = f;
}

#[test]
fn usart_writer_handle_checks_length() {
    assert_eq!(
        mpi104::Usart1WriterHandle::check_write_len(0),
        Err(ErrorKind::InvalidInput)
    );
    assert_eq!(mpi104::Usart1WriterHandle::check_write_len(3), Ok(()));
}

#[test]
fn flat_buffer_write_position() {
    let mut f = flat(&[1, 2], 4);
    assert_eq!(f.write_pos(), 2);
    assert_eq!(f.read_byte(), Ok(1));
    assert_eq!(f.write_pos(), 2);
}
