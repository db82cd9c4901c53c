//! Client-side transport layer of an HTTP toolkit: connection identity,
//! an idle-connection pool, the HTTP/1 exchange state machine and the
//! bounded body collector used by request extractors.

mod body;
mod connection;
mod dispatcher;
mod extract;
mod pool;

pub use body::ResponseBody;
pub use connection::{
    ascii_lower, bytes_equal, key_for, key_spec, lower_byte, Authority, lemma_key_identity, same_target, AuthorityWithPath,
    Connection, ConnectionKey, KeyModel, Scheme, Target, TargetModel, TransportError,
};
pub use dispatcher::{
    absorb_read, body_is_empty, consume_written, decimal, default_port, host_header_value,
    host_value, lemma_body_failure_forces_close, lemma_continue_is_interim,
    lemma_force_close_sticks, lemma_head_has_no_body, transition, Action, BodySize,
    DispatchError, Event, Exchange, Phase, RequestHead, CONTINUE,
};
pub use extract::{
    chunk_views, collect_limited, effective_limit, extend_limited, first_overflow, flat,
    limit_spec, over, overflow_message, prefix_len, Body, BodyOverFlow, ExtensionRef, ExtensionsRef, Limit,
};
pub use pool::{
    handles_distinct, holds_handle, last_key_index, lemma_last_key_index_bounds,
    lemma_lease_then_return_exclusive, lemma_return_then_lease, lemma_returned_distinct,
    lemma_two_returns_lease_in_reverse, returned, Conn, Pool,
};
