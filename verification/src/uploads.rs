//! Multipart profile uploads: which parts are stored, and under which name.
use vstd::prelude::*;
use crate::text::same_text;

verus! {

/// A parameter of a part's `Content-Disposition` header, as far as the
/// upload rules read it.
pub enum DispositionParam {
    /// `name="..."`
    Name(String),
    /// `filename="..."`
    Filename(String),
    /// Any other parameter.
    Other,
}

/// What becomes of one part of an upload.
pub enum FieldPlan {
    /// The part is passed over: its disposition is not `form-data`.
    Skip,
    /// The part's bytes are stored under `file_name`; `cpu_profile` tells
    /// whether it is the gzip-compressed CPU profile.
    Store { file_name: String, cpu_profile: bool },
}

/// Whether a part can be planned: a `form-data` part has at least two
/// disposition parameters, the second of them a file name.
pub open spec fn field_plannable(form_data: bool, params: Seq<DispositionParam>) -> bool {
    form_data ==> params.len() >= 2 && params[1] is Filename
}

/// Which parts can be planned: every part that is not `form-data`; every
/// `form-data` part whose second disposition parameter is a file name,
/// whatever that name and the first parameter are; and no `form-data` part
/// with fewer than two parameters or a second one that is not a file name.
pub proof fn lemma_plannable_parts(first: DispositionParam, file_name: String, params: Seq<
    DispositionParam,
>)
    ensures
        field_plannable(false, params),
        field_plannable(true, seq![first, DispositionParam::Filename(file_name)]),
        field_plannable(true, seq![first, DispositionParam::Filename(file_name)] + params),
        params.len() < 2 ==> !field_plannable(true, params),
        params.len() >= 2 && !(params[1] is Filename) ==> !field_plannable(true, params),
{
    let two = seq![first, DispositionParam::Filename(file_name)];
    assert((two + params)[1] == two[1]);
}

/// Whether a part can be planned: a `form-data` part has at least two
/// disposition parameters, the second of them a file name.
pub fn field_is_plannable(form_data: bool, params: &Vec<DispositionParam>) -> (res: bool)
    ensures
        res == field_plannable(form_data, params@),
{
    if !form_data {
        return true;
    }
    if params.len() < 2 {
        return false;
    }
    match &params[1] {
        DispositionParam::Filename(_) => true,
        _ => false,
    }
}

/// What becomes of one part of an upload: parts whose disposition is not
/// `form-data` are passed over; the others are stored under the file name
/// that their second disposition parameter gives, and the one named
/// `cpu.pprof` is the CPU profile.
pub fn plan_field(form_data: bool, params: &Vec<DispositionParam>) -> (res: FieldPlan)
    requires
        field_plannable(form_data, params@),
    ensures
        !form_data ==> res is Skip,
        form_data ==> (res matches FieldPlan::Store { file_name, cpu_profile } && (
        params@[1] matches DispositionParam::Filename(f) && file_name@ == f@) && cpu_profile == (
        file_name@ == "cpu.pprof"@)),
{
    if !form_data {
        return FieldPlan::Skip;
    }
    match &params[1] {
        DispositionParam::Filename(f) => {
            let file_name = f.clone();
            let cpu_profile = same_text(file_name.as_str(), "cpu.pprof");
            FieldPlan::Store { file_name, cpu_profile }
        },
        _ => FieldPlan::Skip,
    }
}

} // verus!
