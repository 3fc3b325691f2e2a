use std::cell::{Cell, RefCell};

use serde_json::Value;
use ui_host_runtime::document::get_member;
use ui_host_runtime::session::global_props;
use ui_host_runtime::{
    apply_patch, apply_render, handle_patch, handle_render, read_frame, ready_envelope,
    request_resync, ui_envelope_document, write_frame, ApplyError, ByteCursor, ControlSend, Json,
    JsonNumber, OutboundQueue, PatchError, PatchOp, ResyncReason, ResyncRequest, RevisionError,
    UiEnvelope, UiModelState, HostBindings, UI_TO_ELIXIR_CAP,
};

#[derive(Default)]
struct Screen {
    next_id: Cell<u32>,
    renders: Cell<u32>,
    patches: Cell<u32>,
    fail_render: Cell<bool>,
    app_title: RefCell<String>,
    active_screen: RefCell<String>,
    nav_can_back: Cell<bool>,
    error_title: RefCell<String>,
}

struct Toolkit;

impl HostBindings for Toolkit {
    type Ui = Screen;
    type ScreenId = u32;

    fn set_app_title(ui: &Screen, title: &str) {
        *ui.app_title.borrow_mut() = title.to_string();
    }

    fn set_active_screen(ui: &Screen, active_screen: &str) {
        *ui.active_screen.borrow_mut() = active_screen.to_string();
    }

    fn set_nav_can_back(ui: &Screen, nav_can_back: bool) {
        ui.nav_can_back.set(nav_can_back);
    }

    fn set_error_title(ui: &Screen, title: &str) {
        *ui.error_title.borrow_mut() = title.to_string();
    }

    fn set_error_message(_ui: &Screen, _message: &str) {}

    fn set_error_screen_module(_ui: &Screen, _screen_module: &str) {}

    fn apply_screen_render(ui: &Screen, _vm: &Json) -> Result<u32, String> {
        if ui.fail_render.get() {
            return Err("no such screen".to_string());
        }
        ui.renders.set(ui.renders.get() + 1);
        ui.next_id.set(ui.next_id.get() + 1);
        Ok(ui.next_id.get())
    }

    fn apply_screen_patch(ui: &Screen, _screen_id: u32, _ops: &[PatchOp], _vm: &Json) -> Result<(), String> {
        ui.patches.set(ui.patches.get() + 1);
        Ok(())
    }
}

fn s(text: &str) -> Json {
    Json::Str(text.to_string())
}

fn obj(members: Vec<(&str, Json)>) -> Json {
    Json::Object(members.into_iter().map(|(k, v)| (k.to_string(), v)).collect())
}

fn to_value(j: &Json) -> Value {
    match j {
        Json::Null => Value::Null,
        Json::Bool(b) => Value::Bool(*b),
        Json::Number(JsonNumber::Unsigned(u)) => Value::from(*u),
        Json::Number(JsonNumber::Negative(i)) => Value::from(*i),
        Json::Number(JsonNumber::Decimal(t)) => Value::Number(t.parse().unwrap()),
        Json::Str(s) => Value::String(s.clone()),
        Json::Array(items) => Value::Array(items.iter().map(to_value).collect()),
        Json::Object(members) => Value::Object(
            members.iter().map(|(k, v)| (k.clone(), to_value(v))).collect(),
        ),
    }
}

fn title_of(vm: &Json) -> Option<&Json> {
    get_member(get_member(vm, "app")?, "title")
}

/// Renders revision 1 of session S1: title "X", screen "home".
fn first_render(ui: &Screen, state: &mut UiModelState<u32>, pending: &mut bool) {
    let vm = obj(vec![("app", obj(vec![("title", s("X"))])), ("screen", obj(vec![("name", s("home"))]))]);
    handle_render::<Toolkit>(ui, state, pending, "S1", "S1", 1, &vm).expect("first render");
}

#[test]
fn cold_start_announces_ready() {
    let mut tx = OutboundQueue::new(256);
    tx.try_send(ready_envelope("S1".to_string())).unwrap();
    let first = tx.try_recv().unwrap();
    let bytes = serde_json::to_vec(&to_value(&ui_envelope_document(&first))).unwrap();
    let mut framed = Vec::new();
    write_frame(&mut framed, &bytes, UI_TO_ELIXIR_CAP).unwrap();
    let mut cursor = ByteCursor::new(framed);
    let payload = read_frame(&mut cursor, UI_TO_ELIXIR_CAP).unwrap();
    let value: Value = serde_json::from_slice(&payload).unwrap();
    let expected: Value = serde_json::from_str(
        r#"{"t":"ready","sid":"S1","capabilities":{"m1":true,"transport":"stdio-packet-4"}}"#,
    )
    .unwrap();
    assert_eq!(value, expected);
}

#[test]
fn first_render_is_applied() {
    let ui = Screen::default();
    let mut state = UiModelState::<u32>::default();
    let mut pending = false;
    first_render(&ui, &mut state, &mut pending);
    assert_eq!(state.last_rev, Some(1));
    assert_eq!(title_of(&state.vm), Some(&s("X")));
    assert_eq!(*ui.active_screen.borrow(), "home");
    assert_eq!(*ui.app_title.borrow(), "X");
    assert_eq!(state.screen_id, 1);
}

#[test]
fn monotonic_patch_keeps_screen() {
    let ui = Screen::default();
    let mut state = UiModelState::<u32>::default();
    let mut pending = false;
    first_render(&ui, &mut state, &mut pending);
    let screen = state.screen_id;
    let ops = vec![PatchOp::Replace { path: "/app/title".to_string(), value: s("Y") }];
    handle_patch::<Toolkit>(&ui, &mut state, "S1", "S1", 2, None, &ops).expect("patch");
    assert_eq!(state.last_rev, Some(2));
    assert_eq!(title_of(&state.vm), Some(&s("Y")));
    assert_eq!(*ui.app_title.borrow(), "Y");
    assert_eq!(state.screen_id, screen);
    assert_eq!(ui.patches.get(), 1);
    assert_eq!(ui.renders.get(), 1);
}

#[test]
fn screen_swap_renders_anew() {
    let ui = Screen::default();
    let mut state = UiModelState::<u32>::default();
    let mut pending = false;
    first_render(&ui, &mut state, &mut pending);
    let screen = state.screen_id;
    let ops = vec![PatchOp::Replace { path: "/screen/name".to_string(), value: s("devices") }];
    handle_patch::<Toolkit>(&ui, &mut state, "S1", "S1", 2, Some(3), &ops).expect("patch");
    assert_ne!(state.screen_id, screen);
    assert_eq!(ui.renders.get(), 2);
    assert_eq!(ui.patches.get(), 0);
    assert_eq!(*ui.active_screen.borrow(), "devices");
    assert_eq!(state.last_ack, Some(3));
}

#[test]
fn revision_gap_resets_and_requests_resync() {
    for as_patch in [false, true] {
        let ui = Screen::default();
        let mut state = UiModelState::<u32>::default();
        let mut pending = false;
        first_render(&ui, &mut state, &mut pending);
        let r = if as_patch {
            handle_patch::<Toolkit>(&ui, &mut state, "S1", "S1", 4, None, &[])
        } else {
            handle_render::<Toolkit>(&ui, &mut state, &mut pending, "S1", "S1", 4, &obj(vec![]))
        };
        assert_eq!(
            r,
            Err(ResyncReason::Revision(RevisionError::Mismatch { rev: 4, expected: 2 }))
        );
        assert_eq!(state.last_rev, None);
        assert_eq!(state.vm, obj(vec![]));
        let mut tx = OutboundQueue::new(4);
        assert_eq!(
            request_resync(&mut tx, "S1", &mut pending),
            ResyncRequest::Requested(ControlSend::Enqueued)
        );
        match tx.try_recv() {
            Ok(UiEnvelope::Ready { sid, .. }) => assert_eq!(sid, "S1"),
            other => panic!("expected ready, got {other:?}"),
        }
    }
}

#[test]
fn sid_mismatch_resets_until_next_render() {
    let ui = Screen::default();
    let mut state = UiModelState::<u32>::default();
    let mut pending = false;
    first_render(&ui, &mut state, &mut pending);
    let r = handle_render::<Toolkit>(&ui, &mut state, &mut pending, "S1", "S2", 2, &obj(vec![]));
    assert_eq!(r, Err(ResyncReason::SidMismatch));
    assert_eq!(state.last_rev, None);
    let mut tx = OutboundQueue::new(4);
    request_resync(&mut tx, "S1", &mut pending);
    assert!(pending);
    assert_eq!(tx.len(), 1);
    let ops = vec![PatchOp::Replace { path: "/app/title".to_string(), value: s("Z") }];
    assert_eq!(
        handle_patch::<Toolkit>(&ui, &mut state, "S1", "S2", 2, None, &ops),
        Err(ResyncReason::SidMismatch)
    );
    assert!(pending);
    first_render(&ui, &mut state, &mut pending);
    assert!(!pending);
}

#[test]
fn failed_patch_resets_state() {
    let ui = Screen::default();
    let mut state = UiModelState::<u32>::default();
    let mut pending = false;
    first_render(&ui, &mut state, &mut pending);
    let ops = vec![PatchOp::Remove { path: "/nope".to_string() }];
    assert_eq!(
        handle_patch::<Toolkit>(&ui, &mut state, "S1", "S1", 2, Some(1), &ops),
        Err(ResyncReason::Apply(ApplyError::Patch(PatchError::MissingPath)))
    );
    assert_eq!(state.vm, obj(vec![]));
    assert_eq!(state.last_rev, None);
    assert_eq!(state.last_ack, None);
}

#[test]
fn failed_screen_render_keeps_pending_and_resets() {
    let ui = Screen::default();
    ui.fail_render.set(true);
    let mut state = UiModelState::<u32>::default();
    let mut pending = true;
    let r = handle_render::<Toolkit>(&ui, &mut state, &mut pending, "S1", "S1", 1, &obj(vec![]));
    assert_eq!(r, Err(ResyncReason::Apply(ApplyError::Screen("no such screen".to_string()))));
    assert!(pending);
    assert_eq!(state.last_rev, None);
}

#[test]
fn apply_render_and_patch_keep_revision_fields() {
    let ui = Screen::default();
    let mut state = UiModelState::<u32>::default();
    apply_render::<Toolkit>(&ui, &obj(vec![("nav", obj(vec![("stack", Json::Array(vec![s("a"), s("b")]))]))]), &mut state).unwrap();
    assert!(ui.nav_can_back.get());
    assert_eq!(state.last_rev, None);
    let ops = vec![PatchOp::Remove { path: "/nav/stack/1".to_string() }];
    apply_patch::<Toolkit>(&ui, &ops, &mut state).unwrap();
    assert!(!ui.nav_can_back.get());
    assert_eq!(*ui.app_title.borrow(), "Projection");
    assert_eq!(*ui.active_screen.borrow(), "error");
}

#[test]
fn global_props_read_their_pointers() {
    let vm = obj(vec![
        ("app", obj(vec![("title", s("T"))])),
        ("screen", obj(vec![
            ("name", s("error")),
            ("vm", obj(vec![("title", s("Oops")), ("message", s("bad")), ("screen_module", s("M"))])),
        ])),
        ("nav", obj(vec![("stack", Json::Array(vec![s("a")]))])),
    ]);
    let p = global_props(&vm);
    assert_eq!(p.app_title, "T");
    assert_eq!(p.active_screen, "error");
    assert!(!p.nav_can_back);
    assert_eq!(p.error_title, "Oops");
    assert_eq!(p.error_message, "bad");
    assert_eq!(p.error_screen_module, "M");
    let empty = global_props(&obj(vec![("app", obj(vec![("title", Json::Bool(true))]))]));
    assert_eq!(empty.app_title, "Projection");
    assert_eq!(empty.active_screen, "error");
    assert_eq!(empty.error_title, "");
}
