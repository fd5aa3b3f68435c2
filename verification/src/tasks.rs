use vstd::prelude::*;

use crate::error::BufferError;
use crate::flat_buffer::{FlatBuffer, FlatModel};
use vstd::string::StringSliceAdditionalSpecFns;

verus! {

/// Appending all of `bytes` keeps every later write inside the storage.
proof fn lemma_writes_fit_kept(m: FlatModel, bytes: Seq<u8>)
    requires
        m.valid(),
        m.writes_fit(),
    ensures
        m.write_all_fits(bytes.len()),
        m.write_all(bytes).0.valid(),
        m.write_all(bytes).0.writes_fit(),
        m.write_all(bytes).0.capacity() == m.capacity(),
{
    let m2 = m.write_all(bytes).0;
    assert(m2.storage.len() == m.storage.len());
}

/// The state of the reply after the echo of a line of `n` bytes (terminator
/// included) whose bytes are `line`: the line without its terminator, the
/// text " bytes: ", the digit byte `n + 0x30` and a line break, each part
/// written only when it fits.
pub open spec fn echo_reply(tx: FlatModel, line: Seq<u8>, n: int) -> FlatModel {
    let t1 = tx.write_all(line.subrange(0, n - 1)).0;
    let t2 = t1.write_all(" bytes: ".spec_bytes()).0;
    let t3 = t2.write_byte((n + 0x30) as u8).0;
    t3.write_all("\r\n".spec_bytes()).0
}

/// Writes the reply to a received line into `tx_buffer`: the line without
/// its last byte, " bytes: ", the count of received bytes as the byte
/// `count + 0x30`, and "\r\n"; a part that does not fit is left out.
pub fn echo_line(rx_buffer: &FlatBuffer, tx_buffer: &mut FlatBuffer)
    requires
        rx_buffer.wf(),
        rx_buffer@.len >= 1,
        rx_buffer@.len + 0x30 <= 255,
        old(tx_buffer).wf(),
        old(tx_buffer)@.writes_fit(),
    ensures
        final(tx_buffer).wf(),
        final(tx_buffer)@ == echo_reply(
            old(tx_buffer)@,
            rx_buffer@.contents(),
            rx_buffer@.len as int,
        ),
{
    proof {
        rx_buffer.lemma_wf_valid();
        old(tx_buffer).lemma_wf_valid();
    }
    let len = rx_buffer.len();
    let line = rx_buffer.as_ref();
    let body = vstd::slice::slice_subrange(line, 0, len - 1);
    proof {
        lemma_writes_fit_kept(tx_buffer@, body@);
    }
    let _ = tx_buffer.write_all(body);
    proof {
        lemma_writes_fit_kept(tx_buffer@, " bytes: ".spec_bytes());
    }
    let _ = tx_buffer.write_str(" bytes: ");
    let ghost t2 = tx_buffer@;
    proof {
        lemma_writes_fit_kept(t2, seq![(len + 0x30) as u8]);
    }
    let _ = tx_buffer.write_byte(len as u8 + 0x30);
    proof {
        lemma_writes_fit_kept(tx_buffer@, "\r\n".spec_bytes());
    }
    let _ = tx_buffer.write_str("\r\n");
}

} // verus!
