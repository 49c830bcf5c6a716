//! What a request is told when its data does not pass validation.

use crate::http::{UNAUTHORIZED, UNPROCESSABLE};
use crate::resp::Res;
use axum_extra::headers::ContentType;
use vstd::prelude::*;
use vstd::string::StringExecFns;

verus! {

#[verifier::external_type_specification]
#[verifier::external_body]
pub struct ExValidationErrors(validator::ValidationErrors);

/// The codes of the errors that a validation found, by the field they were
/// found on.
pub uninterp spec fn field_codes(errors: validator::ValidationErrors) -> Map<
    Seq<char>,
    Seq<Seq<char>>,
>;

/// A field's name with the codes found on it.
pub type Finding = (String, Vec<String>);

/// The character sequences of a list of findings.
pub open spec fn findings(list: Seq<Finding>) -> Seq<(Seq<char>, Seq<Seq<char>>)> {
    list.map_values(|f: Finding| (f.0@, f.1@.map_values(|c: String| c@)))
}

/// `list` names every field of `codes` once, each with its codes, in some
/// order.
pub open spec fn lists(
    list: Seq<(Seq<char>, Seq<Seq<char>>)>,
    codes: Map<Seq<char>, Seq<Seq<char>>>,
) -> bool {
    &&& forall|i: int|
        0 <= i < list.len() ==> codes.contains_key((#[trigger] list[i]).0) && codes[list[i].0]
            == list[i].1
    &&& forall|i: int, j: int|
        0 <= i < j < list.len() ==> (#[trigger] list[i]).0 != (#[trigger] list[j]).0
    &&& forall|field: Seq<char>| #[trigger]
        codes.contains_key(field) ==> exists|i: int|
            0 <= i < list.len() && (#[trigger] list[i]).0 == field
}

/// `validator::ValidationErrors::field_errors`, with every error reduced
/// to its code. The fields come in the order in which the map is walked,
/// which is not fixed.
#[verifier::external_body]
fn codes_by_field(errors: &validator::ValidationErrors) -> (list: Vec<Finding>)
    ensures
        lists(findings(list@), field_codes(*errors)),
{
    errors.field_errors().into_iter().map(
        |(field, found)| (field.to_string(), found.iter().map(|e| e.code.to_string()).collect()),
    ).collect()
}

/// Whether the value of a content type header announces JSON.
pub uninterp spec fn announces_json(content_type: Seq<char>) -> bool;

/// `HeaderMapExt::typed_get` for `ContentType`, on a map that holds
/// `value` as its content type, and the equality of what it finds with
/// `ContentType::json`. The answer depends on the value alone. A value that
/// cannot stand in a header announces nothing.
#[verifier::external_body]
fn typed_json(value: &str) -> (yes: bool)
    ensures
        yes == announces_json(value@),
{
    let mut map = axum::http::HeaderMap::new();
    if let Ok(held) = axum::http::HeaderValue::from_str(value) {
        map.insert(axum::http::header::CONTENT_TYPE, held);
    }
    let found: Option<ContentType> = axum_extra::headers::HeaderMapExt::typed_get(&map);
    found.map(|t| t == ContentType::json()).unwrap_or(false)
}

/// What a request is told that must bring JSON and does not.
pub open spec fn json_wanted() -> Seq<char> {
    "请求头必须为 application/json"@
}

/// Whether a request announces JSON by its content type.
pub fn json_content_type(content_type: Option<&str>) -> (yes: bool)
    ensures
        yes == match content_type {
            Some(value) => announces_json(value@),
            None => false,
        },
{
    match content_type {
        Some(value) => typed_json(value),
        None => false,
    }
}

/// Lets a request pass that announces JSON, and turns any other away.
pub fn need_json(content_type: Option<&str>) -> (res: Result<(), Res<()>>)
    ensures
        match content_type {
            Some(value) if announces_json(value@) => res is Ok,
            _ => res is Err && res->Err_0.says(UNAUTHORIZED, json_wanted()),
        },
{
    if json_content_type(content_type) {
        Ok(())
    } else {
        Err(Res::msg(UNAUTHORIZED, "请求头必须为 application/json"))
    }
}

/// What every report starts with.
pub open spec fn failed() -> Seq<char> {
    "数据验证失败: "@
}

/// The codes of one field, with a comma and a blank between neighbours.
pub open spec fn joined(codes: Seq<Seq<char>>) -> Seq<char>
    decreases codes.len(),
{
    if codes.len() == 0 {
        Seq::empty()
    } else if codes.len() == 1 {
        codes[0]
    } else {
        joined(codes.drop_last()) + ", "@ + codes.last()
    }
}

/// One field of a report: its name, and its codes in angle brackets.
pub open spec fn finding_text(field: Seq<char>, codes: Seq<Seq<char>>) -> Seq<char> {
    field + "<"@ + joined(codes) + ">; "@
}

/// The fields of a report, one after the other.
pub open spec fn findings_text(list: Seq<(Seq<char>, Seq<Seq<char>>)>) -> Seq<char>
    decreases list.len(),
{
    if list.len() == 0 {
        Seq::empty()
    } else {
        findings_text(list.drop_last()) + finding_text(list.last().0, list.last().1)
    }
}

/// The report on a list of findings: the opening words and the fields,
/// without the blank at the very end.
pub open spec fn report_text(list: Seq<(Seq<char>, Seq<Seq<char>>)>) -> Seq<char> {
    (failed() + findings_text(list)).drop_last()
}

fn push_joined(out: &mut String, codes: &Vec<String>)
    ensures
        final(out)@ == old(out)@ + joined(codes@.map_values(|c: String| c@)),
{
    let ghost view = codes@.map_values(|c: String| c@);
    let mut i: usize = 0;
    assert(joined(view.take(0)) =~= Seq::<char>::empty());
    while i < codes.len()
        invariant
            i <= codes.len(),
            view == codes@.map_values(|c: String| c@),
            out@ == old(out)@ + joined(view.take(i as int)),
        decreases codes.len() - i,
    {
        if i > 0 {
            out.append(", ");
        }
        out.append(codes[i].as_str());
        proof {
            let next = view.take(i + 1);
            assert(next.drop_last() =~= view.take(i as int));
            assert(next.last() == codes@[i as int]@);
            if i == 0 {
                assert(joined(next) == next[0]);
                assert(joined(view.take(0)) =~= Seq::<char>::empty());
            }
            assert(out@ =~= old(out)@ + joined(next));
        }
        i += 1;
    }
    assert(view.take(codes.len() as int) =~= view);
}

/// Writes the report on a list of findings.
pub fn report(list: &Vec<Finding>) -> (text: String)
    ensures
        text@ == report_text(findings(list@)),
{
    let ghost view = findings(list@);
    let mut text = String::from_str("数据验证失败: ");
    let mut i: usize = 0;
    assert(findings_text(view.take(0)) =~= Seq::<char>::empty());
    while i < list.len()
        invariant
            i <= list.len(),
            view == findings(list@),
            text@ == failed() + findings_text(view.take(i as int)),
        decreases list.len() - i,
    {
        let ghost before = text@;
        text.append(list[i].0.as_str());
        text.append("<");
        push_joined(&mut text, &list[i].1);
        text.append(">; ");
        proof {
            let next = view.take(i + 1);
            assert(next.drop_last() =~= view.take(i as int));
            assert(next.last() == view[i as int]);
            assert(text@ =~= before + finding_text(view[i as int].0, view[i as int].1));
            assert(text@ =~= failed() + findings_text(next));
        }
        i += 1;
    }
    proof {
        assert(view.take(list.len() as int) =~= view);
        reveal_strlit("数据验证失败: ");
        assert(text@.len() > 0);
    }
    let chars = crate::text::chars_of(text.as_str());
    let mut cut = chars;
    cut.pop();
    assert(cut@ =~= text@.drop_last());
    crate::text::text_of(&cut)
}

/// Turns the outcome of a validation into the answer for the request.
///
/// Data that passed is let through. Data that did not is rejected as
/// unprocessable, and the message names every field that failed, with the
/// codes of what was found on it. The order of the fields is that of the
/// walk through the errors.
pub fn validate(outcome: Result<(), validator::ValidationErrors>) -> (res: Result<(), Res<()>>)
    ensures
        match outcome {
            Ok(_) => res is Ok,
            Err(errors) => res is Err && res->Err_0.code == UNPROCESSABLE && exists|
                list: Seq<(Seq<char>, Seq<Seq<char>>)>,
            |
                #![trigger report_text(list)]
                lists(list, field_codes(errors)) && res->Err_0.info@ == report_text(list),
        },
{
    match outcome {
        Ok(_) => Ok(()),
        Err(errors) => {
            let list = codes_by_field(&errors);
            let text = report(&list);
            assert(lists(findings(list@), field_codes(errors)) && text@ == report_text(
                findings(list@),
            ));
            Err(Res::msg(UNPROCESSABLE, text.as_str()))
        },
    }
}

} // verus!
