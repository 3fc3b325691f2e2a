use vstd::prelude::*;
use crate::document::{
    get_member, group_document_lemmas, member, members_v, same_text, Json, JsonNumber, JsonNumberV,
    JsonV,
};
use crate::patch::{ops_v, PatchOp, PatchOpV};

verus! {

broadcast use group_document_lemmas;

/// An envelope the host sends to the controller.
#[derive(Debug, PartialEq)]
pub enum UiEnvelope {
    /// The host is ready for a fresh snapshot.
    Ready { sid: String, capabilities: Json },
    /// Something the user did.
    Intent { sid: String, id: u64, name: String, payload: Json },
}

pub enum UiEnvelopeV {
    Ready { sid: Seq<char>, capabilities: JsonV },
    Intent { sid: Seq<char>, id: u64, name: Seq<char>, payload: JsonV },
}

impl View for UiEnvelope {
    type V = UiEnvelopeV;

    open spec fn view(&self) -> UiEnvelopeV {
        match self {
            UiEnvelope::Ready { sid, capabilities } => UiEnvelopeV::Ready {
                sid: sid@,
                capabilities: capabilities@,
            },
            UiEnvelope::Intent { sid, id, name, payload } => UiEnvelopeV::Intent {
                sid: sid@,
                id: *id,
                name: name@,
                payload: payload@,
            },
        }
    }
}

/// An envelope the controller sends to the host.
#[derive(Debug, PartialEq)]
pub enum ElixirEnvelope {
    /// A full snapshot of the view-model.
    Render { sid: String, rev: u64, vm: Json },
    /// Edits of the view-model, with an optional acknowledged intent id.
    Patch { sid: String, rev: u64, ack: Option<u64>, ops: Vec<PatchOp> },
    /// A failure reported by the controller.
    Error { sid: String, rev: Option<u64>, code: String, message: String },
}

pub enum ElixirEnvelopeV {
    Render { sid: Seq<char>, rev: u64, vm: JsonV },
    Patch { sid: Seq<char>, rev: u64, ack: Option<u64>, ops: Seq<PatchOpV> },
    Error { sid: Seq<char>, rev: Option<u64>, code: Seq<char>, message: Seq<char> },
}

impl View for ElixirEnvelope {
    type V = ElixirEnvelopeV;

    open spec fn view(&self) -> ElixirEnvelopeV {
        match self {
            ElixirEnvelope::Render { sid, rev, vm } => ElixirEnvelopeV::Render {
                sid: sid@,
                rev: *rev,
                vm: vm@,
            },
            ElixirEnvelope::Patch { sid, rev, ack, ops } => ElixirEnvelopeV::Patch {
                sid: sid@,
                rev: *rev,
                ack: *ack,
                ops: ops_v(ops@),
            },
            ElixirEnvelope::Error { sid, rev, code, message } => ElixirEnvelopeV::Error {
                sid: sid@,
                rev: *rev,
                code: code@,
                message: message@,
            },
        }
    }
}

/// Why a document is not a valid envelope.
#[derive(Debug, Clone, Copy, PartialEq, Eq)]
pub enum DecodeError {
    /// The document has no string tag: `t` for an envelope, `op` for an operation.
    MissingTag,
    /// The tag names no envelope of this direction.
    UnknownTag,
    /// A required member is missing, or a member has the wrong type.
    InvalidField,
}

/// The string member `key` of an object.
pub open spec fn str_field(doc: JsonV, key: Seq<char>) -> Option<Seq<char>> {
    match member(doc, key) {
        Some(JsonV::Str(s)) => Some(s),
        _ => None,
    }
}

/// A number read as a 64-bit unsigned integer: any non-negative integer.
pub open spec fn u64_of(v: JsonV) -> Option<u64> {
    match v {
        JsonV::Number(JsonNumberV::Unsigned(u)) => Some(u),
        JsonV::Number(JsonNumberV::Negative(i)) => if i >= 0 {
            Some(i as u64)
        } else {
            None
        },
        _ => None,
    }
}

/// The unsigned integer member `key` of an object.
pub open spec fn u64_field(doc: JsonV, key: Seq<char>) -> Option<u64> {
    match member(doc, key) {
        Some(v) => u64_of(v),
        None => None,
    }
}

/// An optional unsigned integer member: absent and `null` both read as unset;
/// `None` where the member has another type.
pub open spec fn opt_u64_field(doc: JsonV, key: Seq<char>) -> Option<Option<u64>> {
    match member(doc, key) {
        None => Some(None),
        Some(JsonV::Null) => Some(None),
        Some(v) => match u64_of(v) {
            Some(u) => Some(Some(u)),
            None => None,
        },
    }
}

/// The patch operation that a document describes, tagged by its `op` member.
pub open spec fn patch_op_of(doc: JsonV) -> Option<PatchOpV> {
    match str_field(doc, "op"@) {
        Some(op) => if op == "replace"@ || op == "add"@ {
            match (str_field(doc, "path"@), member(doc, "value"@)) {
                (Some(path), Some(value)) => if op == "replace"@ {
                    Some(PatchOpV::Replace { path, value })
                } else {
                    Some(PatchOpV::Add { path, value })
                },
                _ => None,
            }
        } else if op == "remove"@ {
            match str_field(doc, "path"@) {
                Some(path) => Some(PatchOpV::Remove { path }),
                None => None,
            }
        } else {
            None
        },
        None => None,
    }
}

/// The operations of the array member `ops`, where each of them is valid.
pub open spec fn ops_of(doc: JsonV) -> Option<Seq<PatchOpV>> {
    match member(doc, "ops"@) {
        Some(JsonV::Array(items)) => if forall|i: int|
            0 <= i < items.len() ==> (#[trigger] patch_op_of(items[i])) is Some {
            Some(Seq::new(items.len(), |i: int| patch_op_of(items[i])->0))
        } else {
            None
        },
        _ => None,
    }
}

/// The inbound envelope that a document describes, tagged by its `t` member.
/// Members the envelope does not use are ignored.
pub open spec fn elixir_envelope_of(doc: JsonV) -> Option<ElixirEnvelopeV> {
    match str_field(doc, "t"@) {
        Some(t) => if t == "render"@ {
            match (str_field(doc, "sid"@), u64_field(doc, "rev"@), member(doc, "vm"@)) {
                (Some(sid), Some(rev), Some(vm)) => Some(ElixirEnvelopeV::Render { sid, rev, vm }),
                _ => None,
            }
        } else if t == "patch"@ {
            match (
                str_field(doc, "sid"@),
                u64_field(doc, "rev"@),
                opt_u64_field(doc, "ack"@),
                ops_of(doc),
            ) {
                (Some(sid), Some(rev), Some(ack), Some(ops)) => Some(
                    ElixirEnvelopeV::Patch { sid, rev, ack, ops },
                ),
                _ => None,
            }
        } else if t == "error"@ {
            match (
                str_field(doc, "sid"@),
                opt_u64_field(doc, "rev"@),
                str_field(doc, "code"@),
                str_field(doc, "message"@),
            ) {
                (Some(sid), Some(rev), Some(code), Some(message)) => Some(
                    ElixirEnvelopeV::Error { sid, rev, code, message },
                ),
                _ => None,
            }
        } else {
            None
        },
        None => None,
    }
}

/// The outbound envelope that a document describes.
pub open spec fn ui_envelope_of(doc: JsonV) -> Option<UiEnvelopeV> {
    match str_field(doc, "t"@) {
        Some(t) => if t == "ready"@ {
            match (str_field(doc, "sid"@), member(doc, "capabilities"@)) {
                (Some(sid), Some(capabilities)) => Some(UiEnvelopeV::Ready { sid, capabilities }),
                _ => None,
            }
        } else if t == "intent"@ {
            match (
                str_field(doc, "sid"@),
                u64_field(doc, "id"@),
                str_field(doc, "name"@),
                member(doc, "payload"@),
            ) {
                (Some(sid), Some(id), Some(name), Some(payload)) => Some(
                    UiEnvelopeV::Intent { sid, id, name, payload },
                ),
                _ => None,
            }
        } else {
            None
        },
        None => None,
    }
}

/// The document that carries an outbound envelope: the tag `t` first, then
/// the envelope's fields in order.
pub open spec fn ui_document_v(e: UiEnvelopeV) -> JsonV {
    match e {
        UiEnvelopeV::Ready { sid, capabilities } => JsonV::Object(
            seq![
                ("t"@, JsonV::Str("ready"@)),
                ("sid"@, JsonV::Str(sid)),
                ("capabilities"@, capabilities),
            ],
        ),
        UiEnvelopeV::Intent { sid, id, name, payload } => JsonV::Object(
            seq![
                ("t"@, JsonV::Str("intent"@)),
                ("sid"@, JsonV::Str(sid)),
                ("id"@, JsonV::Number(JsonNumberV::Unsigned(id))),
                ("name"@, JsonV::Str(name)),
                ("payload"@, payload),
            ],
        ),
    }
}

/// The capabilities the host announces: `{m1: true, transport: "stdio-packet-4"}`.
pub open spec fn capabilities_v() -> JsonV {
    JsonV::Object(
        seq![("m1"@, JsonV::Bool(true)), ("transport"@, JsonV::Str("stdio-packet-4"@))],
    )
}

/// The string member `key`.
fn str_member(doc: &Json, key: &str) -> (r: Option<String>)
    ensures
        match r {
            Some(s) => str_field(doc@, key@) == Some(s@),
            None => str_field(doc@, key@) is None,
        },
{
    match get_member(doc, key) {
        Some(Json::Str(s)) => Some(s.clone()),
        _ => None,
    }
}

/// A number read as a 64-bit unsigned integer.
fn u64_value(v: &Json) -> (r: Option<u64>)
    ensures
        r == u64_of(v@),
{
    match v {
        Json::Number(JsonNumber::Unsigned(u)) => Some(*u),
        Json::Number(JsonNumber::Negative(i)) => {
            if *i >= 0 {
                Some(*i as u64)
            } else {
                None
            }
        },
        _ => None,
    }
}

/// The unsigned integer member `key`.
fn u64_member(doc: &Json, key: &str) -> (r: Option<u64>)
    ensures
        r == u64_field(doc@, key@),
{
    match get_member(doc, key) {
        Some(v) => u64_value(v),
        None => None,
    }
}

/// The optional unsigned integer member `key`.
fn opt_u64_member(doc: &Json, key: &str) -> (r: Option<Option<u64>>)
    ensures
        r == opt_u64_field(doc@, key@),
{
    match get_member(doc, key) {
        None => Some(None),
        Some(Json::Null) => Some(None),
        Some(v) => match u64_value(v) {
            Some(u) => Some(Some(u)),
            None => None,
        },
    }
}

/// A copy of the member `key`.
fn copy_member(doc: &Json, key: &str) -> (r: Option<Json>)
    ensures
        match r {
            Some(v) => member(doc@, key@) == Some(v@),
            None => member(doc@, key@) is None,
        },
{
    match get_member(doc, key) {
        Some(v) => Some(v.copy()),
        None => None,
    }
}

/// Reads one patch operation.
pub fn decode_patch_op(doc: &Json) -> (r: Result<PatchOp, DecodeError>)
    ensures
        match r {
            Ok(op) => patch_op_of(doc@) == Some(op@),
            Err(_) => patch_op_of(doc@) is None,
        },
        str_field(doc@, "op"@) is None ==> r == Err::<PatchOp, DecodeError>(DecodeError::MissingTag),
        ({
            let op = str_field(doc@, "op"@);
            op is Some && op->0 != "replace"@ && op->0 != "add"@ && op->0 != "remove"@
        }) ==> r == Err::<PatchOp, DecodeError>(DecodeError::UnknownTag),
{
    let op = match str_member(doc, "op") {
        Some(op) => op,
        None => return Err(DecodeError::MissingTag),
    };
    let is_replace = same_text(op.as_str(), "replace");
    if is_replace || same_text(op.as_str(), "add") {
        let path = match str_member(doc, "path") {
            Some(path) => path,
            None => return Err(DecodeError::InvalidField),
        };
        let value = match copy_member(doc, "value") {
            Some(value) => value,
            None => return Err(DecodeError::InvalidField),
        };
        if is_replace {
            Ok(PatchOp::Replace { path, value })
        } else {
            Ok(PatchOp::Add { path, value })
        }
    } else if same_text(op.as_str(), "remove") {
        match str_member(doc, "path") {
            Some(path) => Ok(PatchOp::Remove { path }),
            None => Err(DecodeError::InvalidField),
        }
    } else {
        Err(DecodeError::UnknownTag)
    }
}

/// Reads the array member `ops` as patch operations.
fn decode_ops(doc: &Json) -> (r: Result<Vec<PatchOp>, DecodeError>)
    ensures
        match r {
            Ok(ops) => ops_of(doc@) == Some(ops_v(ops@)),
            Err(_) => ops_of(doc@) is None,
        },
{
    let items = match get_member(doc, "ops") {
        Some(Json::Array(items)) => items,
        _ => return Err(DecodeError::InvalidField),
    };
    let ghost iv = Json::Array(*items)@->Array_0;
    let mut ops: Vec<PatchOp> = Vec::new();
    let mut i: usize = 0;
    while i < items.len()
        invariant
            i <= items.len(),
            iv == Json::Array(*items)@->Array_0,
            member(doc@, "ops"@) == Some(JsonV::Array(iv)),
            ops.len() == i,
            forall|j: int| 0 <= j < i ==> #[trigger] patch_op_of(iv[j]) == Some(ops@[j]@),
        decreases items.len() - i,
    {
        assert(iv[i as int] == items@[i as int]@);
        match decode_patch_op(&items[i]) {
            Ok(op) => ops.push(op),
            Err(e) => return Err(e),
        }
        i = i + 1;
    }
    assert(ops_v(ops@) =~= Seq::new(iv.len(), |j: int| patch_op_of(iv[j])->0));
    Ok(ops)
}

/// Reads an inbound envelope from its document.
pub fn decode_elixir_document(doc: &Json) -> (r: Result<ElixirEnvelope, DecodeError>)
    ensures
        match r {
            Ok(e) => elixir_envelope_of(doc@) == Some(e@),
            Err(_) => elixir_envelope_of(doc@) is None,
        },
        str_field(doc@, "t"@) is None ==> r == Err::<ElixirEnvelope, DecodeError>(
            DecodeError::MissingTag,
        ),
        ({
            let t = str_field(doc@, "t"@);
            t is Some && t->0 != "render"@ && t->0 != "patch"@ && t->0 != "error"@
        }) ==> r == Err::<ElixirEnvelope, DecodeError>(DecodeError::UnknownTag),
{
    let t = match str_member(doc, "t") {
        Some(t) => t,
        None => return Err(DecodeError::MissingTag),
    };
    if same_text(t.as_str(), "render") {
        let sid = match str_member(doc, "sid") {
            Some(s) => s,
            None => return Err(DecodeError::InvalidField),
        };
        let rev = match u64_member(doc, "rev") {
            Some(v) => v,
            None => return Err(DecodeError::InvalidField),
        };
        let vm = match copy_member(doc, "vm") {
            Some(v) => v,
            None => return Err(DecodeError::InvalidField),
        };
        Ok(ElixirEnvelope::Render { sid, rev, vm })
    } else if same_text(t.as_str(), "patch") {
        let sid = match str_member(doc, "sid") {
            Some(s) => s,
            None => return Err(DecodeError::InvalidField),
        };
        let rev = match u64_member(doc, "rev") {
            Some(v) => v,
            None => return Err(DecodeError::InvalidField),
        };
        let ack = match opt_u64_member(doc, "ack") {
            Some(v) => v,
            None => return Err(DecodeError::InvalidField),
        };
        let ops = match decode_ops(doc) {
            Ok(ops) => ops,
            Err(e) => return Err(e),
        };
        Ok(ElixirEnvelope::Patch { sid, rev, ack, ops })
    } else if same_text(t.as_str(), "error") {
        let sid = match str_member(doc, "sid") {
            Some(s) => s,
            None => return Err(DecodeError::InvalidField),
        };
        let rev = match opt_u64_member(doc, "rev") {
            Some(v) => v,
            None => return Err(DecodeError::InvalidField),
        };
        let code = match str_member(doc, "code") {
            Some(s) => s,
            None => return Err(DecodeError::InvalidField),
        };
        let message = match str_member(doc, "message") {
            Some(s) => s,
            None => return Err(DecodeError::InvalidField),
        };
        Ok(ElixirEnvelope::Error { sid, rev, code, message })
    } else {
        Err(DecodeError::UnknownTag)
    }
}

/// A member `(key, value)`.
fn entry(key: &str, value: Json) -> (r: (String, Json))
    ensures
        r.0@ == key@,
        r.1@ == value@,
{
    (String::from_str(key), value)
}

/// The capabilities the host announces.
pub fn capabilities() -> (r: Json)
    ensures
        r@ == capabilities_v(),
{
    let mut members: Vec<(String, Json)> = Vec::new();
    members.push(entry("m1", Json::Bool(true)));
    members.push(entry("transport", Json::string("stdio-packet-4")));
    assert(members_v(members@) =~= capabilities_v()->Object_0);
    Json::Object(members)
}

/// The `Ready` envelope of session `sid`, announcing the host's capabilities.
pub fn ready_envelope(sid: String) -> (r: UiEnvelope)
    ensures
        r@ == (UiEnvelopeV::Ready { sid: sid@, capabilities: capabilities_v() }),
{
    UiEnvelope::Ready { sid, capabilities: capabilities() }
}

/// The `Intent` envelope with the given fields.
pub fn intent_envelope(sid: String, id: u64, name: &str, payload: Json) -> (r: UiEnvelope)
    ensures
        r@ == (UiEnvelopeV::Intent { sid: sid@, id, name: name@, payload: payload@ }),
{
    UiEnvelope::Intent { sid, id, name: String::from_str(name), payload }
}

/// The document that carries an outbound envelope.
pub fn ui_envelope_document(envelope: &UiEnvelope) -> (r: Json)
    ensures
        r@ == ui_document_v(envelope@),
{
    let mut members: Vec<(String, Json)> = Vec::new();
    match envelope {
        UiEnvelope::Ready { sid, capabilities } => {
            members.push(entry("t", Json::string("ready")));
            members.push(entry("sid", Json::string(sid.as_str())));
            members.push(entry("capabilities", capabilities.copy()));
        },
        UiEnvelope::Intent { sid, id, name, payload } => {
            members.push(entry("t", Json::string("intent")));
            members.push(entry("sid", Json::string(sid.as_str())));
            members.push(entry("id", Json::Number(JsonNumber::Unsigned(*id))));
            members.push(entry("name", Json::string(name.as_str())));
            members.push(entry("payload", payload.copy()));
        },
    }
    assert(members_v(members@) =~= ui_document_v(envelope@)->Object_0);
    Json::Object(members)
}

/// Reads an outbound envelope from its document.
pub fn decode_ui_document(doc: &Json) -> (r: Result<UiEnvelope, DecodeError>)
    ensures
        match r {
            Ok(e) => ui_envelope_of(doc@) == Some(e@),
            Err(_) => ui_envelope_of(doc@) is None,
        },
        str_field(doc@, "t"@) is None ==> r == Err::<UiEnvelope, DecodeError>(
            DecodeError::MissingTag,
        ),
        ({
            let t = str_field(doc@, "t"@);
            t is Some && t->0 != "ready"@ && t->0 != "intent"@
        }) ==> r == Err::<UiEnvelope, DecodeError>(DecodeError::UnknownTag),
{
    let t = match str_member(doc, "t") {
        Some(t) => t,
        None => return Err(DecodeError::MissingTag),
    };
    if same_text(t.as_str(), "ready") {
        let sid = match str_member(doc, "sid") {
            Some(s) => s,
            None => return Err(DecodeError::InvalidField),
        };
        let capabilities = match copy_member(doc, "capabilities") {
            Some(v) => v,
            None => return Err(DecodeError::InvalidField),
        };
        Ok(UiEnvelope::Ready { sid, capabilities })
    } else if same_text(t.as_str(), "intent") {
        let sid = match str_member(doc, "sid") {
            Some(s) => s,
            None => return Err(DecodeError::InvalidField),
        };
        let id = match u64_member(doc, "id") {
            Some(v) => v,
            None => return Err(DecodeError::InvalidField),
        };
        let name = match str_member(doc, "name") {
            Some(s) => s,
            None => return Err(DecodeError::InvalidField),
        };
        let payload = match copy_member(doc, "payload") {
            Some(v) => v,
            None => return Err(DecodeError::InvalidField),
        };
        Ok(UiEnvelope::Intent { sid, id, name, payload })
    } else {
        Err(DecodeError::UnknownTag)
    }
}

/// Encoding an outbound envelope as a document and decoding that document
/// gives the same envelope back.
pub proof fn lemma_ui_envelope_round_trip(e: UiEnvelopeV)
    ensures
        ui_envelope_of(ui_document_v(e)) == Some(e),
{
    reveal_strlit("t");
    reveal_strlit("sid");
    reveal_strlit("capabilities");
    reveal_strlit("id");
    reveal_strlit("name");
    reveal_strlit("payload");
    reveal_strlit("ready");
    reveal_strlit("intent");
    reveal_with_fuel(crate::document::find_from, 6);
    assert("t"@.len() == 1);
    assert("sid"@.len() == 3);
    assert("capabilities"@.len() == 12);
    assert("id"@.len() == 2);
    assert("name"@.len() == 4);
    assert("payload"@.len() == 7);
    assert("ready"@.len() == 5);
    assert("intent"@.len() == 6);
    assert("t"@ != "sid"@);
    assert("t"@ != "capabilities"@);
    assert("sid"@ != "capabilities"@);
    assert("t"@ != "id"@);
    assert("sid"@ != "id"@);
    assert("t"@ != "name"@);
    assert("sid"@ != "name"@);
    assert("id"@ != "name"@);
    assert("t"@ != "payload"@);
    assert("sid"@ != "payload"@);
    assert("id"@ != "payload"@);
    assert("name"@ != "payload"@);
    assert("intent"@ != "ready"@);
}

} // verus!
