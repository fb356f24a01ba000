//! The slice of the admission envelope the engine consumes and produces:
//! the request fields the policies read, and the response the webhook
//! assembles from policy results.

use vstd::prelude::*;

use crate::json::{jv_view, Json, JsonValue};
use crate::patch::PatchOperation;

verus! {

/// The mathematical value of an object under admission.
pub struct DynamicObjectView {
    pub generate_name: Option<Seq<char>>,
    pub labels: Option<Seq<(Seq<char>, Seq<char>)>>,
    pub data: Json,
}

/// An object under admission: the metadata fields the policies read, and
/// the rest of the object as an untyped tree.
pub struct DynamicObject {
    pub generate_name: Option<String>,
    pub labels: Option<Vec<(String, String)>>,
    pub data: JsonValue,
}

impl View for DynamicObject {
    type V = DynamicObjectView;

    open spec fn view(&self) -> DynamicObjectView {
        DynamicObjectView {
            generate_name: self.generate_name.deep_view(),
            labels: match self.labels {
                Some(l) => Some(l.deep_view()),
                None => None,
            },
            data: jv_view(self.data),
        }
    }
}

/// The mathematical value of an admission request.
pub struct AdmissionRequestView {
    pub uid: Seq<char>,
    pub kind: Seq<char>,
    pub resource: Seq<char>,
    pub name: Seq<char>,
    pub operation: Seq<char>,
    pub object: Option<DynamicObjectView>,
}

/// The fields of an admission request the engine reads.
pub struct AdmissionRequest {
    pub uid: String,
    pub kind: String,
    pub resource: String,
    pub name: String,
    pub operation: String,
    pub object: Option<DynamicObject>,
}

impl View for AdmissionRequest {
    type V = AdmissionRequestView;

    open spec fn view(&self) -> AdmissionRequestView {
        AdmissionRequestView {
            uid: self.uid@,
            kind: self.kind@,
            resource: self.resource@,
            name: self.name@,
            operation: self.operation@,
            object: match self.object {
                Some(o) => Some(o@),
                None => None,
            },
        }
    }
}

/// The admission response the webhook returns: a decision, an optional
/// denial message, non-blocking warnings, and the patches to apply on the
/// mutating path.
pub struct AdmissionResponse {
    pub uid: String,
    pub allowed: bool,
    pub message: Option<String>,
    pub warnings: Vec<String>,
    pub patches: Vec<PatchOperation>,
}

} // verus!
