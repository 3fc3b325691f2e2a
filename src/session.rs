use vstd::prelude::*;
use crate::document::{
    empty_object_v, get_member, group_document_lemmas, member, same_text, Json, JsonV,
};
use crate::patch::{
    apply_ops, apply_vm_patch_ops, changes_screen, ops_v, patch_changes_screen, PatchOp,
};
use crate::pointer::PatchError;

verus! {

broadcast use group_document_lemmas;

/// What the host shows and what it has applied so far.
#[derive(Debug)]
pub struct UiModelState<ScreenId> {
    /// The widget tree the toolkit built on the last full render.
    pub screen_id: ScreenId,
    /// The current view-model.
    pub vm: Json,
    /// The revision most recently applied.
    pub last_rev: Option<u64>,
    /// The highest intent id the controller has acknowledged.
    pub last_ack: Option<u64>,
}

impl<ScreenId: Copy + Default> Default for UiModelState<ScreenId> {
    fn default() -> (r: Self)
        ensures
            r.is_reset(),
    {
        UiModelState {
            screen_id: ScreenId::default(),
            vm: Json::empty_object(),
            last_rev: None,
            last_ack: None,
        }
    }
}

impl<ScreenId> UiModelState<ScreenId> {
    /// The state holds nothing applied: an empty view-model, no revision, no
    /// acknowledgement.
    pub open spec fn is_reset(&self) -> bool {
        &&& self.vm@ == empty_object_v()
        &&& self.last_rev is None
        &&& self.last_ack is None
    }
}

/// The revision that must follow `last`, wrapping after the largest.
pub open spec fn next_rev(last: u64) -> u64 {
    if last == u64::MAX {
        0
    } else {
        (last + 1) as u64
    }
}

/// Why an update's revision is refused.
#[derive(Debug, Clone, Copy, PartialEq, Eq)]
pub enum RevisionError {
    /// The revision is not the one after the last applied.
    Mismatch { rev: u64, expected: u64 },
    /// A patch arrived before any render.
    PatchBeforeRender { rev: u64 },
}

/// The revision after `last`, wrapping after the largest.
fn following_rev(last: u64) -> (r: u64)
    ensures
        r == next_rev(last),
{
    if last == u64::MAX {
        0
    } else {
        last + 1
    }
}

/// Checks the revision of a render: any revision is accepted before the
/// first render, then only the one after the last applied.
pub fn validate_render_rev<ScreenId>(state: &UiModelState<ScreenId>, rev: u64) -> (r: Result<
    (),
    RevisionError,
>)
    ensures
        match state.last_rev {
            None => r is Ok,
            Some(last) => if rev == next_rev(last) {
                r is Ok
            } else {
                r == Err::<(), RevisionError>(
                    RevisionError::Mismatch { rev, expected: next_rev(last) },
                )
            },
        },
{
    match state.last_rev {
        Some(last) => {
            let expected = following_rev(last);
            if rev == expected {
                Ok(())
            } else {
                Err(RevisionError::Mismatch { rev, expected })
            }
        },
        None => Ok(()),
    }
}

/// Checks the revision of a patch: it must be the one after the last
/// applied, and there must have been a render before it.
pub fn validate_patch_rev<ScreenId>(state: &UiModelState<ScreenId>, rev: u64) -> (r: Result<
    (),
    RevisionError,
>)
    ensures
        match state.last_rev {
            None => r == Err::<(), RevisionError>(RevisionError::PatchBeforeRender { rev }),
            Some(last) => if rev == next_rev(last) {
                r is Ok
            } else {
                r == Err::<(), RevisionError>(
                    RevisionError::Mismatch { rev, expected: next_rev(last) },
                )
            },
        },
{
    match state.last_rev {
        Some(last) => {
            let expected = following_rev(last);
            if rev == expected {
                Ok(())
            } else {
                Err(RevisionError::Mismatch { rev, expected })
            }
        },
        None => Err(RevisionError::PatchBeforeRender { rev }),
    }
}

/// Records `rev` as the last applied revision.
pub fn mark_applied_rev<ScreenId>(state: &mut UiModelState<ScreenId>, rev: u64)
    ensures
        final(state).last_rev == Some(rev),
        final(state).last_ack == old(state).last_ack,
        final(state).vm == old(state).vm,
        final(state).screen_id == old(state).screen_id,
{
    state.last_rev = Some(rev);
}

/// The acknowledgement high-water mark after `ack` arrives.
pub open spec fn merge_ack(current: Option<u64>, ack: Option<u64>) -> Option<u64> {
    match (current, ack) {
        (_, None) => current,
        (None, Some(next)) => Some(next),
        (Some(cur), Some(next)) => Some(if cur >= next { cur } else { next }),
    }
}

/// Raises the acknowledgement high-water mark to `ack`; `None` changes nothing.
pub fn mark_applied_ack<ScreenId>(state: &mut UiModelState<ScreenId>, ack: Option<u64>)
    ensures
        final(state).last_ack == merge_ack(old(state).last_ack, ack),
        final(state).last_rev == old(state).last_rev,
        final(state).vm == old(state).vm,
        final(state).screen_id == old(state).screen_id,
{
    match (state.last_ack, ack) {
        (_, None) => {},
        (None, Some(next)) => state.last_ack = Some(next),
        (Some(cur), Some(next)) => state.last_ack = Some(if cur >= next { cur } else { next }),
    }
}

/// Drops everything applied, ready for a fresh snapshot.
pub fn reset_for_resync<ScreenId: Copy + Default>(state: &mut UiModelState<ScreenId>)
    ensures
        final(state).is_reset(),
{
    *state = UiModelState::default();
}

/// The acknowledgement high-water mark after a run of acknowledgements.
pub open spec fn acks_after(start: Option<u64>, acks: Seq<Option<u64>>) -> Option<u64>
    decreases acks.len(),
{
    if acks.len() == 0 {
        start
    } else {
        merge_ack(acks_after(start, acks.drop_last()), acks.last())
    }
}

/// The largest of a non-empty run of numbers.
pub open spec fn seq_max(s: Seq<u64>) -> u64
    decreases s.len(),
{
    if s.len() <= 1 {
        s[0]
    } else {
        let m = seq_max(s.drop_last());
        if m >= s.last() {
            m
        } else {
            s.last()
        }
    }
}

/// A run of numbers, each as a set acknowledgement.
pub open spec fn all_set(acks: Seq<u64>) -> Seq<Option<u64>> {
    Seq::new(acks.len(), |i: int| Some(acks[i]))
}

/// Starting from no acknowledgement, a run of acknowledgements that are all
/// set leaves the high-water mark at their maximum.
pub proof fn lemma_ack_high_watermark(acks: Seq<u64>)
    requires
        acks.len() > 0,
    ensures
        acks_after(None, all_set(acks)) == Some(seq_max(acks)),
    decreases acks.len(),
{
    assert(all_set(acks).last() == Some(acks.last()));
    if acks.len() > 1 {
        lemma_ack_high_watermark(acks.drop_last());
        assert(all_set(acks).drop_last() =~= all_set(acks.drop_last()));
        assert(acks_after(None, all_set(acks)) == merge_ack(
            acks_after(None, all_set(acks.drop_last())),
            Some(acks.last()),
        ));
    } else {
        assert(all_set(acks).drop_last() =~= Seq::<Option<u64>>::empty());
        assert(acks_after(None, Seq::<Option<u64>>::empty()) == None::<u64>);
        assert(acks_after(None, all_set(acks)) == merge_ack(None, Some(acks.last())));
        assert(seq_max(acks) == acks[0]);
    }
}

/// An acknowledgement never lowers the high-water mark, and unset leaves it
/// as it was.
pub proof fn lemma_ack_monotonic(current: Option<u64>, ack: Option<u64>)
    ensures
        ack is None ==> merge_ack(current, ack) == current,
        current is Some ==> merge_ack(current, ack) is Some && merge_ack(current, ack)->0
            >= current->0,
        ack is Some ==> merge_ack(current, ack) is Some && merge_ack(current, ack)->0 >= ack->0,
{
}

/// What the applier needs from the GUI toolkit: global-property setters,
/// a full render of the active screen, and an incremental patch of it.
pub trait HostBindings {
    /// The toolkit's window.
    type Ui;
    /// Names the widget tree of a rendered screen.
    type ScreenId: Copy + Default;

    fn set_app_title(ui: &Self::Ui, title: &str);

    fn set_active_screen(ui: &Self::Ui, active_screen: &str);

    fn set_nav_can_back(ui: &Self::Ui, nav_can_back: bool);

    fn set_error_title(ui: &Self::Ui, title: &str);

    fn set_error_message(ui: &Self::Ui, message: &str);

    fn set_error_screen_module(ui: &Self::Ui, screen_module: &str);

    /// Builds the screen that `vm` names, from scratch.
    fn apply_screen_render(ui: &Self::Ui, vm: &Json) -> Result<Self::ScreenId, String>;

    /// Brings the screen `screen_id` up to date with `ops`, after which the
    /// view-model is `vm`.
    fn apply_screen_patch(
        ui: &Self::Ui,
        screen_id: Self::ScreenId,
        ops: &[PatchOp],
        vm: &Json,
    ) -> Result<(), String>;
}

/// The value two members down: `doc.a.b`.
pub open spec fn lookup2(doc: JsonV, a: Seq<char>, b: Seq<char>) -> Option<JsonV> {
    match member(doc, a) {
        Some(x) => member(x, b),
        None => None,
    }
}

/// The value three members down: `doc.a.b.c`.
pub open spec fn lookup3(doc: JsonV, a: Seq<char>, b: Seq<char>, c: Seq<char>) -> Option<JsonV> {
    match lookup2(doc, a, b) {
        Some(x) => member(x, c),
        None => None,
    }
}

/// The text of a string value, or `default` where there is none.
pub open spec fn text_or(v: Option<JsonV>, default: Seq<char>) -> Seq<char> {
    match v {
        Some(JsonV::Str(s)) => s,
        _ => default,
    }
}

/// The global properties that the toolkit shows, as read from a view-model.
#[derive(Debug, PartialEq, Eq)]
pub struct GlobalProps {
    pub app_title: String,
    pub active_screen: String,
    pub nav_can_back: bool,
    pub error_title: String,
    pub error_message: String,
    pub error_screen_module: String,
}

/// `/app/title`, `/screen/name`, whether `/nav/stack` holds more than one
/// entry, and `/screen/vm/title`, `/screen/vm/message`,
/// `/screen/vm/screen_module`, with their defaults.
pub open spec fn global_props_hold(vm: JsonV, p: GlobalProps) -> bool {
    &&& p.app_title@ == text_or(lookup2(vm, "app"@, "title"@), "Projection"@)
    &&& p.active_screen@ == text_or(lookup2(vm, "screen"@, "name"@), "error"@)
    &&& p.nav_can_back == match lookup2(vm, "nav"@, "stack"@) {
        Some(JsonV::Array(items)) => items.len() > 1,
        _ => false,
    }
    &&& p.error_title@ == text_or(lookup3(vm, "screen"@, "vm"@, "title"@), ""@)
    &&& p.error_message@ == text_or(lookup3(vm, "screen"@, "vm"@, "message"@), ""@)
    &&& p.error_screen_module@ == text_or(
        lookup3(vm, "screen"@, "vm"@, "screen_module"@),
        ""@,
    )
}

/// The member `a.b`.
fn get2<'a>(doc: &'a Json, a: &str, b: &str) -> (r: Option<&'a Json>)
    ensures
        match r {
            Some(v) => lookup2(doc@, a@, b@) == Some(v@),
            None => lookup2(doc@, a@, b@) is None,
        },
{
    match get_member(doc, a) {
        Some(x) => get_member(x, b),
        None => None,
    }
}

/// The member `a.b.c`.
fn get3<'a>(doc: &'a Json, a: &str, b: &str, c: &str) -> (r: Option<&'a Json>)
    ensures
        match r {
            Some(v) => lookup3(doc@, a@, b@, c@) == Some(v@),
            None => lookup3(doc@, a@, b@, c@) is None,
        },
{
    match get2(doc, a, b) {
        Some(x) => get_member(x, c),
        None => None,
    }
}

/// The text of a string value, or `default`.
fn text_or_default(v: Option<&Json>, default: &str) -> (r: String)
    ensures
        r@ == text_or(
            match v {
                Some(j) => Some(j@),
                None => None,
            },
            default@,
        ),
{
    match v {
        Some(Json::Str(s)) => s.clone(),
        _ => String::from_str(default),
    }
}

/// Reads the global properties from a view-model.
pub fn global_props(vm: &Json) -> (r: GlobalProps)
    ensures
        global_props_hold(vm@, r),
{
    let nav_can_back = match get2(vm, "nav", "stack") {
        Some(Json::Array(items)) => items.len() > 1,
        _ => false,
    };
    GlobalProps {
        app_title: text_or_default(get2(vm, "app", "title"), "Projection"),
        active_screen: text_or_default(get2(vm, "screen", "name"), "error"),
        nav_can_back,
        error_title: text_or_default(get3(vm, "screen", "vm", "title"), ""),
        error_message: text_or_default(get3(vm, "screen", "vm", "message"), ""),
        error_screen_module: text_or_default(get3(vm, "screen", "vm", "screen_module"), ""),
    }
}

/// Pushes the global properties of `vm` to the toolkit.
pub fn apply_global_props<B: HostBindings>(ui: &B::Ui, vm: &Json) {
    let props = global_props(vm);
    B::set_app_title(ui, props.app_title.as_str());
    B::set_active_screen(ui, props.active_screen.as_str());
    B::set_nav_can_back(ui, props.nav_can_back);
    B::set_error_title(ui, props.error_title.as_str());
    B::set_error_message(ui, props.error_message.as_str());
    B::set_error_screen_module(ui, props.error_screen_module.as_str());
}

/// Why applying an update failed.
#[derive(Debug, PartialEq, Eq)]
pub enum ApplyError {
    /// An operation could not be applied to the view-model.
    Patch(PatchError),
    /// The toolkit could not render or patch the screen.
    Screen(String),
}

/// Replaces the view-model with a full snapshot and renders its screen.
pub fn apply_render<B: HostBindings>(
    ui: &B::Ui,
    vm: &Json,
    ui_model_state: &mut UiModelState<B::ScreenId>,
) -> (r: Result<(), ApplyError>)
    ensures
        final(ui_model_state).vm@ == vm@,
        final(ui_model_state).last_rev == old(ui_model_state).last_rev,
        final(ui_model_state).last_ack == old(ui_model_state).last_ack,
        r is Err ==> r->Err_0 is Screen && final(ui_model_state).screen_id == old(ui_model_state).screen_id,
{
    ui_model_state.vm = vm.copy();
    apply_global_props::<B>(ui, &ui_model_state.vm);
    match B::apply_screen_render(ui, vm) {
        Ok(screen_id) => {
            ui_model_state.screen_id = screen_id;
            Ok(())
        },
        Err(e) => Err(ApplyError::Screen(e)),
    }
}

/// Applies patch operations to the view-model, then brings the screen up to
/// date: rendered anew where the screen's name may have changed, patched
/// otherwise.
pub fn apply_patch<B: HostBindings>(
    ui: &B::Ui,
    ops: &[PatchOp],
    ui_model_state: &mut UiModelState<B::ScreenId>,
) -> (r: Result<(), ApplyError>)
    ensures
        final(ui_model_state).vm@ == apply_ops(old(ui_model_state).vm@, ops_v(ops@)).0,
        final(ui_model_state).last_rev == old(ui_model_state).last_rev,
        final(ui_model_state).last_ack == old(ui_model_state).last_ack,
        !apply_ops(old(ui_model_state).vm@, ops_v(ops@)).1 ==> r is Err && r->Err_0 is Patch,
        r is Ok ==> apply_ops(old(ui_model_state).vm@, ops_v(ops@)).1,
        r is Err && r->Err_0 is Patch ==> !apply_ops(old(ui_model_state).vm@, ops_v(ops@)).1,
        r is Err || !changes_screen(ops@) ==> final(ui_model_state).screen_id == old(ui_model_state).screen_id,
{
    match apply_vm_patch_ops(&mut ui_model_state.vm, ops) {
        Ok(()) => {},
        Err(e) => return Err(ApplyError::Patch(e)),
    }
    apply_global_props::<B>(ui, &ui_model_state.vm);
    if patch_changes_screen(ops) {
        match B::apply_screen_render(ui, &ui_model_state.vm) {
            Ok(screen_id) => {
                ui_model_state.screen_id = screen_id;
                Ok(())
            },
            Err(e) => Err(ApplyError::Screen(e)),
        }
    } else {
        match B::apply_screen_patch(ui, ui_model_state.screen_id, ops, &ui_model_state.vm) {
            Ok(()) => Ok(()),
            Err(e) => Err(ApplyError::Screen(e)),
        }
    }
}

/// Whether a render of `rev` may follow the last applied revision.
pub open spec fn render_rev_ok(last: Option<u64>, rev: u64) -> bool {
    last is None || rev == next_rev(last->0)
}

/// Whether a patch of `rev` may follow the last applied revision.
pub open spec fn patch_rev_ok(last: Option<u64>, rev: u64) -> bool {
    last is Some && rev == next_rev(last->0)
}

/// The revision before `last`, wrapping below zero.
pub open spec fn prev_rev(last: u64) -> u64 {
    if last == 0 {
        u64::MAX
    } else {
        (last - 1) as u64
    }
}

/// Once a revision is applied, a render or a patch is accepted only with the
/// next revision: the same one, one skipped ahead, and the one before are
/// all refused.
pub proof fn lemma_only_next_revision(last: u64, rev: u64)
    ensures
        render_rev_ok(Some(last), rev) <==> rev == next_rev(last),
        patch_rev_ok(Some(last), rev) <==> rev == next_rev(last),
        !render_rev_ok(Some(last), last),
        !render_rev_ok(Some(last), next_rev(next_rev(last))),
        !render_rev_ok(Some(last), prev_rev(last)),
        !patch_rev_ok(Some(last), last),
        !patch_rev_ok(Some(last), next_rev(next_rev(last))),
        !patch_rev_ok(Some(last), prev_rev(last)),
{
}

/// Before any render, a render of every revision is accepted and a patch of
/// every revision is refused.
pub proof fn lemma_first_revision(rev: u64)
    ensures
        render_rev_ok(None, rev),
        !patch_rev_ok(None, rev),
{
}

/// Why an inbound update was refused and a fresh snapshot is needed.
#[derive(Debug, PartialEq, Eq)]
pub enum ResyncReason {
    /// The update belongs to another session.
    SidMismatch,
    /// The update's revision does not follow the last applied one.
    Revision(RevisionError),
    /// The update could not be applied.
    Apply(ApplyError),
}

/// Handles a `Render` envelope of session `sid` on the UI thread. An update
/// of another session, out of order, or that cannot be applied resets the
/// state and is refused; otherwise the snapshot becomes the view-model, `rev`
/// the last applied revision, and a pending resync is over.
pub fn handle_render<B: HostBindings>(
    ui: &B::Ui,
    state: &mut UiModelState<B::ScreenId>,
    resync_pending: &mut bool,
    local_sid: &str,
    sid: &str,
    rev: u64,
    vm: &Json,
) -> (r: Result<(), ResyncReason>)
    ensures
        r is Ok ==> !*final(resync_pending),
        r is Err ==> *final(resync_pending) == *old(resync_pending),
        sid@ != local_sid@ ==> r == Err::<(), ResyncReason>(ResyncReason::SidMismatch)
            && final(state).is_reset(),
        sid@ == local_sid@ && !render_rev_ok(old(state).last_rev, rev) ==> r is Err
            && r->Err_0 is Revision && final(state).is_reset(),
        sid@ == local_sid@ && render_rev_ok(old(state).last_rev, rev) ==> match r {
            Ok(()) => {
                &&& final(state).vm@ == vm@
                &&& final(state).last_rev == Some(rev)
                &&& final(state).last_ack == old(state).last_ack
            },
            Err(reason) => reason is Apply && final(state).is_reset(),
        },
{
    if !same_text(sid, local_sid) {
        reset_for_resync(state);
        return Err(ResyncReason::SidMismatch);
    }
    match validate_render_rev(state, rev) {
        Ok(()) => {},
        Err(e) => {
            reset_for_resync(state);
            return Err(ResyncReason::Revision(e));
        },
    }
    match apply_render::<B>(ui, vm, state) {
        Ok(()) => {},
        Err(e) => {
            reset_for_resync(state);
            return Err(ResyncReason::Apply(e));
        },
    }
    mark_applied_rev(state, rev);
    *resync_pending = false;
    Ok(())
}

/// Handles a `Patch` envelope of session `sid` on the UI thread. An update
/// of another session, out of order, or that cannot be applied resets the
/// state and is refused; otherwise the operations are applied, `rev` becomes
/// the last applied revision and `ack` raises the acknowledgement mark.
pub fn handle_patch<B: HostBindings>(
    ui: &B::Ui,
    state: &mut UiModelState<B::ScreenId>,
    local_sid: &str,
    sid: &str,
    rev: u64,
    ack: Option<u64>,
    ops: &[PatchOp],
) -> (r: Result<(), ResyncReason>)
    ensures
        sid@ != local_sid@ ==> r == Err::<(), ResyncReason>(ResyncReason::SidMismatch)
            && final(state).is_reset(),
        sid@ == local_sid@ && !patch_rev_ok(old(state).last_rev, rev) ==> r is Err
            && r->Err_0 is Revision && final(state).is_reset(),
        sid@ == local_sid@ && patch_rev_ok(old(state).last_rev, rev) && !apply_ops(
            old(state).vm@,
            ops_v(ops@),
        ).1 ==> r is Err && final(state).is_reset(),
        sid@ == local_sid@ && patch_rev_ok(old(state).last_rev, rev) ==> match r {
            Ok(()) => {
                &&& apply_ops(old(state).vm@, ops_v(ops@)).1
                &&& final(state).vm@ == apply_ops(old(state).vm@, ops_v(ops@)).0
                &&& final(state).last_rev == Some(rev)
                &&& final(state).last_ack == merge_ack(old(state).last_ack, ack)
            },
            Err(reason) => reason is Apply && final(state).is_reset(),
        },
{
    if !same_text(sid, local_sid) {
        reset_for_resync(state);
        return Err(ResyncReason::SidMismatch);
    }
    match validate_patch_rev(state, rev) {
        Ok(()) => {},
        Err(e) => {
            reset_for_resync(state);
            return Err(ResyncReason::Revision(e));
        },
    }
    match apply_patch::<B>(ui, ops, state) {
        Ok(()) => {},
        Err(e) => {
            reset_for_resync(state);
            return Err(ResyncReason::Apply(e));
        },
    }
    mark_applied_rev(state, rev);
    mark_applied_ack(state, ack);
    Ok(())
}

/// The error codes of the controller that ask for a fresh snapshot.
pub open spec fn is_resync_code(code: Seq<char>) -> bool {
    ||| code == "decode_error"@
    ||| code == "frame_too_large"@
    ||| code == "invalid_envelope"@
    ||| code == "resync_required"@
    ||| code == "rev_mismatch"@
    ||| code == "patch_apply_error"@
}

/// Whether an `Error` envelope with `code` asks for a fresh snapshot.
pub fn should_resync_for_error(code: &str) -> (r: bool)
    ensures
        r == is_resync_code(code@),
{
    same_text(code, "decode_error") || same_text(code, "frame_too_large") || same_text(
        code,
        "invalid_envelope",
    ) || same_text(code, "resync_required") || same_text(code, "rev_mismatch") || same_text(
        code,
        "patch_apply_error",
    )
}

} // verus!
