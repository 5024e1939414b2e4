//! Verified core of a binding to the Wintun layer-3 TUN driver.
//!
//! The driver itself is reached through a foreign interface; what is kept
//! here is the logic around it: the wide-string encoding used for adapter
//! names and log messages, the ring-capacity rule of a session, the receive
//! loop's decisions, the send-path buffer handling and the GUID layout of an
//! adapter identifier.

mod bindings;
mod guid;
mod util;
mod session;

pub use bindings::{
    LoggerLevel, ERROR_NO_MORE_ITEMS, MAX_IP_PACKET_SIZE, MAX_RING_CAPACITY, MIN_RING_CAPACITY,
};
pub use guid::{le_u16, le_u32, lemma_guid_layout_fields, lemma_guid_layout_injective, Guid};
pub use session::{
    fill_send_buffer, receive_step, send_size, session_capacity, spec_receive_step, ReceiveAction,
    ReceiveOutcome,
};
pub use util::{
    decode_str, encode_str, has_no_nul, into_string, is_high_surrogate, is_low_surrogate,
    lemma_decode_str_encode_str, lemma_decode_str_terminated, lemma_encode_str_terminated, lemma_utf16_decode_encode, lemma_utf16_decode_pair,
    lemma_utf16_decode_single, lemma_utf16_decode_unpaired, lemma_utf16_encode_char,
    lemma_utf16_encode_cons,
    lemma_utf16_encode_append, lemma_utf16_encode_decode, prepend_char, spec_decode_str,
    spec_encode_str, surrogate_pair_value, utf16_decode, utf16_encode, utf16_units, wide_len,
    wstrlen,
};
