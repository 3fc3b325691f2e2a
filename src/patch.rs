use vstd::prelude::*;
use crate::document::{
    distinct_keys, empty_object_v, find_member, group_document_lemmas, key_index,
    lemma_find_from_range, lemma_key_missing, member, members_v, put_member, same_text,
    well_formed, Json, JsonV,
};
use crate::pointer::{
    index_value, parse_index, parse_pointer, parse_usize_token, pointer_tokens, raw_tokens,
    split_slash, unescape, PatchError,
};

verus! {

broadcast use group_document_lemmas;

/// One edit of a document, addressed by a JSON Pointer.
#[derive(Debug, PartialEq)]
pub enum PatchOp {
    /// Overwrites a value that must already exist.
    Replace { path: String, value: Json },
    /// Creates or overwrites a value; on an array, index `len` appends.
    Add { path: String, value: Json },
    /// Deletes a value that must exist.
    Remove { path: String },
}

pub enum PatchOpV {
    Replace { path: Seq<char>, value: JsonV },
    Add { path: Seq<char>, value: JsonV },
    Remove { path: Seq<char> },
}

impl View for PatchOp {
    type V = PatchOpV;

    open spec fn view(&self) -> PatchOpV {
        match self {
            PatchOp::Replace { path, value } => PatchOpV::Replace { path: path@, value: value@ },
            PatchOp::Add { path, value } => PatchOpV::Add { path: path@, value: value@ },
            PatchOp::Remove { path } => PatchOpV::Remove { path: path@ },
        }
    }
}

impl PatchOp {
    pub open spec fn path_v(&self) -> Seq<char> {
        match self {
            PatchOp::Replace { path, .. } => path@,
            PatchOp::Add { path, .. } => path@,
            PatchOp::Remove { path } => path@,
        }
    }
}

/// The values of a list of operations.
pub open spec fn ops_v(ops: Seq<PatchOp>) -> Seq<PatchOpV> {
    Seq::new(ops.len(), |i: int| ops[i]@)
}

/// The child that a write descends into at `token`: an object's member (an
/// empty object where the member is missing), or an existing array element.
pub open spec fn descend_create(node: JsonV, token: Seq<char>) -> Option<JsonV> {
    match node {
        JsonV::Object(m) => if key_index(m, token) >= 0 {
            Some(m[key_index(m, token)].1)
        } else {
            Some(empty_object_v())
        },
        JsonV::Array(a) => match index_value(token) {
            Some(i) => if i < a.len() {
                Some(a[i as int])
            } else {
                None
            },
            None => None,
        },
        _ => None,
    }
}

/// The child that a removal descends into at `token`; it must exist.
pub open spec fn descend_existing_v(node: JsonV, token: Seq<char>) -> Option<JsonV> {
    match node {
        JsonV::Object(m) => member(node, token),
        _ => descend_create(node, token),
    }
}

/// `node` with its child at `token` replaced by `child`.
pub open spec fn plug(node: JsonV, token: Seq<char>, child: JsonV) -> JsonV {
    match node {
        JsonV::Object(m) => JsonV::Object(put_member(m, token, child)),
        JsonV::Array(a) => JsonV::Array(a.update(index_value(token)->0 as int, child)),
        _ => node,
    }
}

/// The write of `value` at `key` of `node`, and whether it succeeds.
pub open spec fn set_terminal(node: JsonV, key: Seq<char>, value: JsonV, replace_only: bool) -> (
    JsonV,
    bool,
) {
    match node {
        JsonV::Object(m) => if replace_only && key_index(m, key) < 0 {
            (node, false)
        } else {
            (JsonV::Object(put_member(m, key, value)), true)
        },
        JsonV::Array(a) => match index_value(key) {
            Some(i) => if i < a.len() {
                (JsonV::Array(a.update(i as int, value)), true)
            } else if i == a.len() {
                (JsonV::Array(a.push(value)), true)
            } else {
                (node, false)
            },
            None => (node, false),
        },
        _ => (node, false),
    }
}

/// The write of `value` at the tokens `toks[i..]` below `node`: intermediate
/// object members are created as empty objects on the way down, and stay
/// even where the write then fails.
pub open spec fn set_at(
    node: JsonV,
    toks: Seq<Seq<char>>,
    i: int,
    value: JsonV,
    replace_only: bool,
) -> (JsonV, bool)
    decreases toks.len() - i,
{
    if i < 0 || i >= toks.len() {
        (node, false)
    } else if i == toks.len() - 1 {
        set_terminal(node, toks[i], value, replace_only)
    } else {
        match descend_create(node, toks[i]) {
            Some(child) => {
                let (c, ok) = set_at(child, toks, i + 1, value, replace_only);
                (plug(node, toks[i], c), ok)
            },
            None => (node, false),
        }
    }
}

/// The removal of the value at `key` of `node`, and whether it succeeds.
pub open spec fn remove_terminal(node: JsonV, key: Seq<char>) -> (JsonV, bool) {
    match node {
        JsonV::Object(m) => if key_index(m, key) >= 0 {
            (JsonV::Object(m.remove(key_index(m, key))), true)
        } else {
            (node, false)
        },
        JsonV::Array(a) => match index_value(key) {
            Some(i) => if i < a.len() {
                (JsonV::Array(a.remove(i as int)), true)
            } else {
                (node, false)
            },
            None => (node, false),
        },
        _ => (node, false),
    }
}

/// The removal of the value at the tokens `toks[i..]` below `node`.
pub open spec fn remove_at(node: JsonV, toks: Seq<Seq<char>>, i: int) -> (JsonV, bool)
    decreases toks.len() - i,
{
    if i < 0 || i >= toks.len() {
        (node, false)
    } else if i == toks.len() - 1 {
        remove_terminal(node, toks[i])
    } else {
        match descend_existing_v(node, toks[i]) {
            Some(child) => {
                let (c, ok) = remove_at(child, toks, i + 1);
                (plug(node, toks[i], c), ok)
            },
            None => (node, false),
        }
    }
}

/// The document after writing `value` at `path`, and whether the write
/// succeeds. The empty path replaces the whole document.
pub open spec fn set_path_v(root: JsonV, path: Seq<char>, value: JsonV, replace_only: bool) -> (
    JsonV,
    bool,
) {
    match pointer_tokens(path) {
        Some(toks) => if toks.len() == 0 {
            (value, true)
        } else {
            set_at(root, toks, 0, value, replace_only)
        },
        None => (root, false),
    }
}

/// The document after removing the value at `path`, and whether the removal
/// succeeds. The empty path resets the document to `{}`.
pub open spec fn remove_path_v(root: JsonV, path: Seq<char>) -> (JsonV, bool) {
    match pointer_tokens(path) {
        Some(toks) => if toks.len() == 0 {
            (empty_object_v(), true)
        } else {
            remove_at(root, toks, 0)
        },
        None => (root, false),
    }
}

/// The document after one operation, and whether it succeeds.
pub open spec fn apply_op(doc: JsonV, op: PatchOpV) -> (JsonV, bool) {
    match op {
        PatchOpV::Replace { path, value } => set_path_v(doc, path, value, true),
        PatchOpV::Add { path, value } => set_path_v(doc, path, value, false),
        PatchOpV::Remove { path } => remove_path_v(doc, path),
    }
}

/// The document after the operations in order, stopping at the first that
/// fails, and whether all of them succeed.
pub open spec fn apply_ops(doc: JsonV, ops: Seq<PatchOpV>) -> (JsonV, bool)
    decreases ops.len(),
{
    if ops.len() == 0 {
        (doc, true)
    } else {
        let (d, ok) = apply_ops(doc, ops.drop_last());
        if ok {
            apply_op(d, ops.last())
        } else {
            (d, false)
        }
    }
}

/// The value of the member at position `k`, to be written in place.
fn member_value_mut<'a>(members: &'a mut Vec<(String, Json)>, k: usize) -> (r: &'a mut Json)
    requires
        k < old(members).len(),
    ensures
        *r == old(members)@[k as int].1,
        final(members)@ == old(members)@.update(k as int, (old(members)@[k as int].0, *final(r))),
{
    let entry = &mut members[k];
    &mut entry.1
}

/// Steps into the child at `token`, creating an empty object where an object
/// member is missing.
pub fn descend_or_create<'a>(value: &'a mut Json, token: &str) -> (r: Result<&'a mut Json, PatchError>)
    ensures
        match descend_create(old(value)@, token@) {
            Some(child) => {
                &&& r is Ok
                &&& (*r->Ok_0)@ == child
                &&& final(value)@ == plug(old(value)@, token@, (*final(r->Ok_0))@)
            },
            None => r is Err && final(value)@ == old(value)@,
        },
{
    match value {
        Json::Object(members) => {
            let ghost old_mv = members_v(members@);
            proof {
                lemma_find_from_range(old_mv, token@, 0);
            }
            let k = match find_member(members, token) {
                Some(k) => k,
                None => {
                    members.push((String::from_str(token), Json::empty_object()));
                    members.len() - 1
                },
            };
            let ghost m = members@;
            assert(m[k as int].0@ == token@);
            let child = member_value_mut(members, k);
            proof {
                let c = (*final(child))@;
                assert(members_v(m.update(k as int, (m[k as int].0, *final(child)))) == members_v(
                    m,
                ).update(k as int, (token@, c)));
                assert(members_v(m).update(k as int, (token@, c)) =~= put_member(old_mv, token@, c));
            }
            Ok(child)
        },
        Json::Array(items) => {
            match parse_index(token, items.len()) {
                Ok(index) => {
                    if index < items.len() {
                        Ok(&mut items[index])
                    } else {
                        Err(PatchError::IndexOutOfBounds)
                    }
                },
                Err(e) => Err(e),
            }
        },
        _ => Err(PatchError::NotAContainer),
    }
}

/// Steps into the existing child at `token`.
pub fn descend_existing<'a>(value: &'a mut Json, token: &str) -> (r: Option<&'a mut Json>)
    ensures
        match descend_existing_v(old(value)@, token@) {
            Some(child) => {
                &&& r is Some
                &&& (*r->0)@ == child
                &&& final(value)@ == plug(old(value)@, token@, (*final(r->0))@)
            },
            None => r is None && final(value)@ == old(value)@,
        },
{
    match value {
        Json::Object(members) => {
            let ghost old_mv = members_v(members@);
            proof {
                lemma_find_from_range(old_mv, token@, 0);
            }
            match find_member(members, token) {
                Some(k) => {
                    let ghost m = members@;
                    let child = member_value_mut(members, k);
                    proof {
                        let c = (*final(child))@;
                        assert(members_v(m.update(k as int, (m[k as int].0, *final(child))))
                            == members_v(m).update(k as int, (token@, c)));
                    }
                    Some(child)
                },
                None => None,
            }
        },
        Json::Array(items) => match parse_usize_token(token) {
            Some(index) => {
                if index < items.len() {
                    Some(&mut items[index])
                } else {
                    None
                }
            },
            None => None,
        },
        _ => None,
    }
}

/// Writes `value` at `key` of `node`.
fn set_last(node: &mut Json, key: &str, value: Json, replace_only: bool) -> (r: Result<
    (),
    PatchError,
>)
    ensures
        (final(node)@, r is Ok) == set_terminal(old(node)@, key@, value@, replace_only),
{
    match node {
        Json::Object(members) => {
            proof {
                lemma_find_from_range(members_v(members@), key@, 0);
            }
            match find_member(members, key) {
                Some(k) => {
                    members.set(k, (String::from_str(key), value));
                    Ok(())
                },
                None => {
                    if replace_only {
                        Err(PatchError::MissingPath)
                    } else {
                        members.push((String::from_str(key), value));
                        Ok(())
                    }
                },
            }
        },
        Json::Array(items) => match parse_index(key, items.len()) {
            Ok(index) => {
                if index == items.len() {
                    items.push(value);
                } else {
                    items.set(index, value);
                }
                Ok(())
            },
            Err(e) => Err(e),
        },
        _ => Err(PatchError::NotAContainer),
    }
}

/// Writes `value` at the tokens `toks[i..]` below `node`.
fn set_from(node: &mut Json, toks: &Vec<String>, i: usize, value: Json, replace_only: bool) -> (r:
    Result<(), PatchError>)
    requires
        i < toks.len(),
    ensures
        (final(node)@, r is Ok) == set_at(old(node)@, toks.deep_view(), i as int, value@, replace_only),
    decreases toks.len() - i,
{
    let token = toks[i].as_str();
    assert(token@ == toks.deep_view()[i as int]);
    if i + 1 == toks.len() {
        return set_last(node, token, value, replace_only);
    }
    match descend_or_create(node, token) {
        Ok(child) => set_from(child, toks, i + 1, value, replace_only),
        Err(e) => Err(e),
    }
}

/// Writes `value` at `path`. With `replace_only`, an object member must
/// already exist.
pub fn set_path(root: &mut Json, path: &str, value: Json, replace_only: bool) -> (r: Result<
    (),
    PatchError,
>)
    ensures
        (final(root)@, r is Ok) == set_path_v(old(root)@, path@, value@, replace_only),
{
    let tokens = match parse_pointer(path) {
        Ok(tokens) => tokens,
        Err(e) => return Err(e),
    };
    if tokens.len() == 0 {
        *root = value;
        return Ok(());
    }
    set_from(root, &tokens, 0, value, replace_only)
}

/// Removes the value at `key` of `node`.
fn remove_last(node: &mut Json, key: &str) -> (r: Result<(), PatchError>)
    ensures
        (final(node)@, r is Ok) == remove_terminal(old(node)@, key@),
{
    match node {
        Json::Object(members) => {
            proof {
                lemma_find_from_range(members_v(members@), key@, 0);
            }
            match find_member(members, key) {
                Some(k) => {
                    members.remove(k);
                    Ok(())
                },
                None => Err(PatchError::MissingPath),
            }
        },
        Json::Array(items) => {
            let max_index = if items.len() == 0 {
                0
            } else {
                items.len() - 1
            };
            match parse_index(key, max_index) {
                Ok(index) => {
                    if index < items.len() {
                        items.remove(index);
                        Ok(())
                    } else {
                        Err(PatchError::IndexOutOfBounds)
                    }
                },
                Err(e) => Err(e),
            }
        },
        _ => Err(PatchError::NotAContainer),
    }
}

/// Removes the value at the tokens `toks[i..]` below `node`.
fn remove_from(node: &mut Json, toks: &Vec<String>, i: usize) -> (r: Result<(), PatchError>)
    requires
        i < toks.len(),
    ensures
        (final(node)@, r is Ok) == remove_at(old(node)@, toks.deep_view(), i as int),
    decreases toks.len() - i,
{
    let token = toks[i].as_str();
    assert(token@ == toks.deep_view()[i as int]);
    if i + 1 == toks.len() {
        return remove_last(node, token);
    }
    match descend_existing(node, token) {
        Some(child) => remove_from(child, toks, i + 1),
        None => Err(PatchError::MissingPath),
    }
}

/// Removes the value at `path`; the empty path resets the document to `{}`.
pub fn remove_path(root: &mut Json, path: &str) -> (r: Result<(), PatchError>)
    ensures
        (final(root)@, r is Ok) == remove_path_v(old(root)@, path@),
{
    let tokens = match parse_pointer(path) {
        Ok(tokens) => tokens,
        Err(e) => return Err(e),
    };
    if tokens.len() == 0 {
        *root = Json::empty_object();
        return Ok(());
    }
    remove_from(root, &tokens, 0)
}

proof fn lemma_apply_ops_stops(doc: JsonV, ops: Seq<PatchOpV>, j: int)
    requires
        0 <= j <= ops.len(),
        !apply_ops(doc, ops.subrange(0, j)).1,
    ensures
        apply_ops(doc, ops) == apply_ops(doc, ops.subrange(0, j)),
    decreases ops.len() - j,
{
    if j < ops.len() {
        let longer = ops.subrange(0, j + 1);
        assert(longer.drop_last() =~= ops.subrange(0, j));
        lemma_apply_ops_stops(doc, ops, j + 1);
    } else {
        assert(ops.subrange(0, j) =~= ops);
    }
}

/// Applies `op` to the document.
fn apply_one(vm: &mut Json, op: &PatchOp) -> (r: Result<(), PatchError>)
    ensures
        (final(vm)@, r is Ok) == apply_op(old(vm)@, op@),
{
    match op {
        PatchOp::Replace { path, value } => set_path(vm, path.as_str(), value.copy(), true),
        PatchOp::Add { path, value } => set_path(vm, path.as_str(), value.copy(), false),
        PatchOp::Remove { path } => remove_path(vm, path.as_str()),
    }
}

/// Applies the operations in order; the first that fails ends the run and
/// its error is returned, with the document as the earlier ones left it.
pub fn apply_vm_patch_ops(vm: &mut Json, ops: &[PatchOp]) -> (r: Result<(), PatchError>)
    ensures
        (final(vm)@, r is Ok) == apply_ops(old(vm)@, ops_v(ops@)),
{
    let ghost start = vm@;
    let ghost all = ops_v(ops@);
    let mut i: usize = 0;
    assert(all.subrange(0, 0) =~= Seq::<PatchOpV>::empty());
    while i < ops.len()
        invariant
            i <= ops.len(),
            all == ops_v(ops@),
            start == old(vm)@,
            apply_ops(start, all.subrange(0, i as int)) == (vm@, true),
        decreases ops.len() - i,
    {
        let ghost prefix = all.subrange(0, i + 1);
        assert(prefix.drop_last() =~= all.subrange(0, i as int));
        assert(prefix.last() == ops@[i as int]@);
        let r = apply_one(vm, &ops[i]);
        match r {
            Ok(()) => {},
            Err(e) => {
                proof {
                    lemma_apply_ops_stops(start, all, i + 1);
                }
                return Err(e);
            },
        }
        i = i + 1;
    }
    assert(all.subrange(0, i as int) =~= all);
    Ok(())
}

/// The path of the value that names the active screen.
pub open spec fn screen_name_path() -> Seq<char> {
    "/screen/name"@
}

/// Some operation addresses the active screen's name.
pub open spec fn changes_screen(ops: Seq<PatchOp>) -> bool {
    exists|i: int| 0 <= i < ops.len() && (#[trigger] ops[i]).path_v() == screen_name_path()
}

/// Whether some operation addresses the active screen's name, so that the
/// screen has to be rendered anew.
pub fn patch_changes_screen(ops: &[PatchOp]) -> (r: bool)
    ensures
        r == changes_screen(ops@),
{
    let mut i: usize = 0;
    while i < ops.len()
        invariant
            i <= ops.len(),
            forall|j: int| 0 <= j < i ==> (#[trigger] ops@[j]).path_v() != screen_name_path(),
        decreases ops.len() - i,
    {
        let path = match &ops[i] {
            PatchOp::Replace { path, .. } => path,
            PatchOp::Add { path, .. } => path,
            PatchOp::Remove { path } => path,
        };
        if same_text(path.as_str(), "/screen/name") {
            return true;
        }
        i = i + 1;
    }
    false
}

proof fn lemma_put_member_well_formed(members: Seq<(Seq<char>, JsonV)>, key: Seq<char>, value: JsonV)
    requires
        well_formed(JsonV::Object(members)),
        well_formed(value),
    ensures
        well_formed(JsonV::Object(put_member(members, key, value))),
{
    let k = key_index(members, key);
    lemma_find_from_range(members, key, 0);
    let out = put_member(members, key, value);
    if k < 0 {
        lemma_key_missing(members, key, 0);
    }
    assert(distinct_keys(out)) by {
        assert forall|i: int, j: int| 0 <= i < j < out.len() implies out[i].0 != out[j].0 by {
            if k < 0 && j == members.len() {
                assert(members[i].0 != key);
            }
        }
    }
    assert forall|i: int| 0 <= i < out.len() implies #[trigger] well_formed(out[i].1) by {
        if i < members.len() && i != k {
            assert(well_formed(members[i].1));
        }
    }
}

proof fn lemma_remove_member_well_formed(members: Seq<(Seq<char>, JsonV)>, k: int)
    requires
        well_formed(JsonV::Object(members)),
        0 <= k < members.len(),
    ensures
        well_formed(JsonV::Object(members.remove(k))),
{
    let out = members.remove(k);
    assert(distinct_keys(out)) by {
        assert forall|i: int, j: int| 0 <= i < j < out.len() implies out[i].0 != out[j].0 by {
            let i2 = if i < k { i } else { i + 1 };
            let j2 = if j < k { j } else { j + 1 };
            assert(out[i] == members[i2] && out[j] == members[j2]);
        }
    }
    assert forall|i: int| 0 <= i < out.len() implies #[trigger] well_formed(out[i].1) by {
        let i2 = if i < k { i } else { i + 1 };
        assert(out[i] == members[i2]);
        assert(well_formed(members[i2].1));
    }
}

proof fn lemma_array_edit_well_formed(items: Seq<JsonV>, out: Seq<JsonV>, value: JsonV)
    requires
        well_formed(JsonV::Array(items)),
        well_formed(value),
        forall|i: int| 0 <= i < out.len() ==> out[i] == value || (i < items.len() && out[i] == items[i])
            || (i + 1 < items.len() && out[i] == items[i + 1]),
    ensures
        well_formed(JsonV::Array(out)),
{
    assert forall|i: int| 0 <= i < out.len() implies #[trigger] well_formed(out[i]) by {
        if out[i] != value {
            if i < items.len() && out[i] == items[i] {
                assert(well_formed(items[i]));
            } else {
                assert(well_formed(items[i + 1]));
            }
        }
    }
}

proof fn lemma_plug_well_formed(node: JsonV, token: Seq<char>, child: JsonV)
    requires
        well_formed(node),
        well_formed(child),
        descend_create(node, token) is Some,
    ensures
        well_formed(plug(node, token, child)),
{
    match node {
        JsonV::Object(m) => lemma_put_member_well_formed(m, token, child),
        JsonV::Array(a) => {
            let i = index_value(token)->0 as int;
            lemma_array_edit_well_formed(a, a.update(i, child), child);
        },
        _ => {},
    }
}

proof fn lemma_descend_well_formed(node: JsonV, token: Seq<char>)
    requires
        well_formed(node),
        descend_create(node, token) is Some,
    ensures
        well_formed(descend_create(node, token)->0),
        descend_existing_v(node, token) is Some ==> descend_existing_v(node, token) == descend_create(
            node,
            token,
        ),
{
    match node {
        JsonV::Object(m) => {
            let k = key_index(m, token);
            lemma_find_from_range(m, token, 0);
            if k >= 0 {
                assert(well_formed(m[k].1));
            } else {
                assert(well_formed(empty_object_v()));
            }
        },
        JsonV::Array(a) => {
            assert(well_formed(a[index_value(token)->0 as int]));
        },
        _ => {},
    }
}

proof fn lemma_set_terminal_well_formed(node: JsonV, key: Seq<char>, value: JsonV, replace_only: bool)
    requires
        well_formed(node),
        well_formed(value),
    ensures
        well_formed(set_terminal(node, key, value, replace_only).0),
{
    match node {
        JsonV::Object(m) => lemma_put_member_well_formed(m, key, value),
        JsonV::Array(a) => match index_value(key) {
            Some(i) => {
                if i < a.len() {
                    lemma_array_edit_well_formed(a, a.update(i as int, value), value);
                } else if i == a.len() {
                    lemma_array_edit_well_formed(a, a.push(value), value);
                }
            },
            None => {},
        },
        _ => {},
    }
}

proof fn lemma_remove_terminal_well_formed(node: JsonV, key: Seq<char>)
    requires
        well_formed(node),
    ensures
        well_formed(remove_terminal(node, key).0),
{
    match node {
        JsonV::Object(m) => {
            if key_index(m, key) >= 0 {
                lemma_find_from_range(m, key, 0);
                lemma_remove_member_well_formed(m, key_index(m, key));
            }
        },
        JsonV::Array(a) => match index_value(key) {
            Some(i) => {
                if i < a.len() {
                    let out = a.remove(i as int);
                    assert(well_formed(JsonV::Array(out))) by {
                        assert forall|j: int| 0 <= j < out.len() implies #[trigger] well_formed(
                            out[j],
                        ) by {
                            if j < i {
                                assert(well_formed(a[j]));
                            } else {
                                assert(well_formed(a[j + 1]));
                            }
                        }
                    }
                }
            },
            None => {},
        },
        _ => {},
    }
}

proof fn lemma_set_at_well_formed(
    node: JsonV,
    toks: Seq<Seq<char>>,
    i: int,
    value: JsonV,
    replace_only: bool,
)
    requires
        well_formed(node),
        well_formed(value),
    ensures
        well_formed(set_at(node, toks, i, value, replace_only).0),
    decreases toks.len() - i,
{
    if 0 <= i < toks.len() {
        if i == toks.len() - 1 {
            lemma_set_terminal_well_formed(node, toks[i], value, replace_only);
        } else if descend_create(node, toks[i]) is Some {
            let child = descend_create(node, toks[i])->0;
            lemma_descend_well_formed(node, toks[i]);
            lemma_set_at_well_formed(child, toks, i + 1, value, replace_only);
            lemma_plug_well_formed(node, toks[i], set_at(child, toks, i + 1, value, replace_only).0);
        }
    }
}

proof fn lemma_remove_at_well_formed(node: JsonV, toks: Seq<Seq<char>>, i: int)
    requires
        well_formed(node),
    ensures
        well_formed(remove_at(node, toks, i).0),
    decreases toks.len() - i,
{
    if 0 <= i < toks.len() {
        if i == toks.len() - 1 {
            lemma_remove_terminal_well_formed(node, toks[i]);
        } else if descend_existing_v(node, toks[i]) is Some {
            let child = descend_existing_v(node, toks[i])->0;
            assert(descend_create(node, toks[i]) is Some) by {
                if let JsonV::Object(m) = node {
                    lemma_find_from_range(m, toks[i], 0);
                }
            }
            lemma_descend_well_formed(node, toks[i]);
            lemma_remove_at_well_formed(child, toks, i + 1);
            lemma_plug_well_formed(node, toks[i], remove_at(child, toks, i + 1).0);
        }
    }
}

/// Every value that an operation writes is well formed.
pub open spec fn op_well_formed(op: PatchOpV) -> bool {
    match op {
        PatchOpV::Replace { value, .. } => well_formed(value),
        PatchOpV::Add { value, .. } => well_formed(value),
        PatchOpV::Remove { .. } => true,
    }
}

/// Edits keep a document well formed: applied to a document whose objects
/// have distinct keys, operations that write well-formed values leave a
/// document whose objects have distinct keys, whether they succeed or stop
/// part way.
pub proof fn lemma_edits_keep_well_formed(doc: JsonV, ops: Seq<PatchOpV>)
    requires
        well_formed(doc),
        forall|i: int| 0 <= i < ops.len() ==> #[trigger] op_well_formed(ops[i]),
    ensures
        well_formed(apply_ops(doc, ops).0),
    decreases ops.len(),
{
    if ops.len() > 0 {
        let init = ops.drop_last();
        assert forall|i: int| 0 <= i < init.len() implies #[trigger] op_well_formed(init[i]) by {
            assert(op_well_formed(ops[i]));
        }
        lemma_edits_keep_well_formed(doc, init);
        let d = apply_ops(doc, init).0;
        assert(op_well_formed(ops.last()));
        match ops.last() {
            PatchOpV::Replace { path, value } => {
                if let Some(toks) = pointer_tokens(path) {
                    lemma_set_at_well_formed(d, toks, 0, value, true);
                }
            },
            PatchOpV::Add { path, value } => {
                if let Some(toks) = pointer_tokens(path) {
                    lemma_set_at_well_formed(d, toks, 0, value, false);
                }
            },
            PatchOpV::Remove { path } => {
                if let Some(toks) = pointer_tokens(path) {
                    lemma_remove_at_well_formed(d, toks, 0);
                }
                assert(well_formed(empty_object_v()));
            },
        }
    }
}

/// A token with no `/` and no `~`, which a pointer writes as it is.
pub open spec fn plain_token(t: Seq<char>) -> bool {
    forall|i: int| 0 <= i < t.len() ==> t[i] != '/' && t[i] != '~'
}

proof fn lemma_plain_split(t: Seq<char>)
    requires
        plain_token(t),
    ensures
        split_slash(t) == seq![t],
    decreases t.len(),
{
    if t.len() > 0 {
        let init = t.drop_last();
        assert(plain_token(init)) by {
            assert forall|i: int| 0 <= i < init.len() implies init[i] != '/' && init[i] != '~' by {
                assert(init[i] == t[i]);
            }
        }
        lemma_plain_split(init);
        assert(t.last() != '/');
        assert(init.push(t.last()) =~= t);
        assert(split_slash(init).update(0, init.push(t.last())) =~= seq![t]);
    } else {
        assert(t =~= Seq::<char>::empty());
    }
}

proof fn lemma_plain_unescape(t: Seq<char>)
    requires
        plain_token(t),
    ensures
        unescape(t) == Some(t),
    decreases t.len(),
{
    if t.len() == 0 {
        assert(t =~= Seq::<char>::empty());
    }
    if t.len() > 0 {
        let rest = t.subrange(1, t.len() as int);
        assert(plain_token(rest)) by {
            assert forall|i: int| 0 <= i < rest.len() implies rest[i] != '/' && rest[i] != '~' by {
                assert(rest[i] == t[i + 1]);
            }
        }
        assert(t[0] != '~');
        lemma_plain_unescape(rest);
        assert(seq![t[0]] + rest =~= t);
    }
}

/// The pointer `/t` of a plain token addresses that token alone.
pub proof fn lemma_plain_pointer(t: Seq<char>)
    requires
        plain_token(t),
    ensures
        pointer_tokens(seq!['/'] + t) == Some(seq![t]),
{
    let p = seq!['/'] + t;
    assert(p.subrange(1, p.len() as int) =~= t);
    lemma_plain_split(t);
    lemma_plain_unescape(t);
    assert(raw_tokens(p) == seq![t]);
    assert(Seq::new(raw_tokens(p).len(), |k: int| unescape(raw_tokens(p)[k])->0) =~= seq![t]);
}

/// On an object without the key: `add` inserts it after the other members,
/// `replace` fails, and `remove` fails.
pub proof fn lemma_object_missing_key(members: Seq<(Seq<char>, JsonV)>, key: Seq<char>, value: JsonV)
    requires
        plain_token(key),
        key_index(members, key) < 0,
    ensures
        set_path_v(JsonV::Object(members), seq!['/'] + key, value, false) == (
            JsonV::Object(members.push((key, value))),
            true,
        ),
        !set_path_v(JsonV::Object(members), seq!['/'] + key, value, true).1,
        !remove_path_v(JsonV::Object(members), seq!['/'] + key).1,
{
    lemma_plain_pointer(key);
}

/// On an array of length `len`: `add` at index `len` appends, and `add` past
/// it fails.
pub proof fn lemma_array_add(items: Seq<JsonV>, token: Seq<char>, value: JsonV)
    requires
        plain_token(token),
        index_value(token) is Some,
    ensures
        index_value(token)->0 == items.len() ==> set_path_v(
            JsonV::Array(items),
            seq!['/'] + token,
            value,
            false,
        ) == (JsonV::Array(items.push(value)), true),
        index_value(token)->0 > items.len() ==> !set_path_v(
            JsonV::Array(items),
            seq!['/'] + token,
            value,
            false,
        ).1,
{
    lemma_plain_pointer(token);
}

/// On an array: `remove` at an index below the length takes that element out
/// and shifts the rest left, and at or past the length it fails.
pub proof fn lemma_array_remove(items: Seq<JsonV>, token: Seq<char>)
    requires
        plain_token(token),
        index_value(token) is Some,
    ensures
        index_value(token)->0 < items.len() ==> remove_path_v(JsonV::Array(items), seq!['/'] + token)
            == (JsonV::Array(items.remove(index_value(token)->0 as int)), true),
        index_value(token)->0 < items.len() ==> forall|j: int|
            index_value(token)->0 <= j < items.len() - 1 ==> (#[trigger] items.remove(
                index_value(token)->0 as int,
            )[j]) == items[j + 1],
        index_value(token)->0 >= items.len() ==> !remove_path_v(
            JsonV::Array(items),
            seq!['/'] + token,
        ).1,
{
    lemma_plain_pointer(token);
}

/// The empty path addresses the whole document: a write replaces it and a
/// removal resets it to `{}`.
pub proof fn lemma_empty_path(root: JsonV, value: JsonV, replace_only: bool)
    ensures
        set_path_v(root, Seq::empty(), value, replace_only) == (value, true),
        remove_path_v(root, Seq::empty()) == (empty_object_v(), true),
{
}

} // verus!
