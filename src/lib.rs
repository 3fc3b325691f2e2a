//! The client side of a server-driven UI host: length-prefixed framing,
//! the envelope protocol, a JSON-Pointer patch applier over the view-model,
//! the revision and resync rules of a session, and a bounded outbound queue.
pub mod document;
pub mod envelope;
pub mod framing;
pub mod outbound;
pub mod patch;
pub mod pointer;
pub mod session;
pub mod text;

pub use crate::document::{Json, JsonNumber};
pub use crate::envelope::{
    decode_elixir_document, decode_ui_document, intent_envelope, ready_envelope,
    ui_envelope_document, DecodeError, ElixirEnvelope, UiEnvelope,
};
pub use crate::framing::{
    read_frame, write_frame, ByteCursor, ErrorKind, FrameError, ELIXIR_TO_UI_CAP, UI_TO_ELIXIR_CAP,
};
pub use crate::outbound::{
    enqueue_control_envelope, request_resync, send_intent, ControlSend, IntentSend, OutboundQueue,
    ResyncRequest, TryRecvError, TrySendError,
};
pub use crate::patch::{apply_vm_patch_ops, patch_changes_screen, remove_path, set_path, PatchOp};
pub use crate::pointer::{parse_index, parse_pointer, unescape_json_pointer_token, PatchError};
pub use crate::session::{
    apply_patch, apply_render, handle_patch, handle_render, mark_applied_ack, mark_applied_rev,
    reset_for_resync, should_resync_for_error, validate_patch_rev, validate_render_rev,
    ApplyError, HostBindings, ResyncReason, RevisionError, UiModelState,
};
