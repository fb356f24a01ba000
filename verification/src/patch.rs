//! RFC 6902 patch operations, restricted to `add`, with paths kept as
//! unescaped token sequences for the pointer layer to join.

use vstd::prelude::*;

use crate::json::{jv_view, Json, JsonValue};

verus! {

/// The mathematical value of one `add` operation.
pub struct PatchView {
    pub path: Seq<Seq<char>>,
    pub value: Json,
}

/// An `add` operation: the value is placed at the location the path tokens
/// name. Tokens are unescaped; escaping belongs to the pointer layer.
pub struct AddOperation {
    pub path: Vec<String>,
    pub value: JsonValue,
}

/// An RFC 6902 operation. The engine only ever emits `add`.
pub enum PatchOperation {
    Add(AddOperation),
}

impl View for AddOperation {
    type V = PatchView;

    open spec fn view(&self) -> PatchView {
        PatchView { path: self.path.deep_view(), value: jv_view(self.value) }
    }
}

impl View for PatchOperation {
    type V = PatchView;

    open spec fn view(&self) -> PatchView {
        match self {
            PatchOperation::Add(op) => op@,
        }
    }
}

/// The views of a sequence of patch operations, element by element.
pub open spec fn patch_views(s: Seq<PatchOperation>) -> Seq<PatchView> {
    Seq::new(
        s.len(),
        |i: int|
            if 0 <= i < s.len() {
                s[i]@
            } else {
                PatchView { path: Seq::empty(), value: Json::Null }
            },
    )
}

} // verus!
