//! The multipart form of the transport, as this crate sees it.
//!
//! A form and its parts are made by `reqwest`. Verus does not look inside
//! them: every function of this module states what the outside code does and
//! is believed, not proved.

use vstd::prelude::*;
use vstd::utf8::encode_utf8;

verus! {

/// The multipart form of `reqwest`, carried as it is.
#[verifier::external_type_specification]
#[verifier::external_body]
pub struct ExForm(reqwest::multipart::Form);

/// One part of a multipart form of `reqwest`, carried as it is.
#[verifier::external_type_specification]
#[verifier::external_body]
pub struct ExPart(reqwest::multipart::Part);

/// A part as it goes into a form: the name of its field, its file name where
/// it has one, and its payload.
pub type WirePart = (Seq<char>, Option<Seq<char>>, Seq<u8>);

/// The parts of a form, in the order in which they are sent.
pub uninterp spec fn form_parts(form: reqwest::multipart::Form) -> Seq<WirePart>;

/// What a part holds before it has a field name: its file name, where it has
/// one, and its payload.
pub uninterp spec fn part_content(part: reqwest::multipart::Part) -> (Option<Seq<char>>, Seq<u8>);

/// `Form::new`: a form without parts.
#[verifier::external_body]
pub(crate) fn empty_form() -> (r: reqwest::multipart::Form)
    ensures
        form_parts(r).len() == 0,
{
    reqwest::multipart::Form::new()
}

/// `Form::text`: adds, after the parts that are there, a part without a file
/// name whose payload is the bytes of `value`.
#[verifier::external_body]
pub(crate) fn add_text(form: reqwest::multipart::Form, name: String, value: String) -> (r:
    reqwest::multipart::Form)
    ensures
        form_parts(r) == form_parts(form).push((name@, None, encode_utf8(value@))),
{
    form.text(name, value)
}

/// `Part::bytes`: a part without a file name whose payload is `content`.
#[verifier::external_body]
pub(crate) fn bytes_part(content: Vec<u8>) -> (r: reqwest::multipart::Part)
    ensures
        part_content(r) == (None::<Seq<char>>, content@),
{
    reqwest::multipart::Part::bytes(content)
}

/// `Part::file_name`: the same part with `file_name` as its file name.
#[verifier::external_body]
pub(crate) fn with_file_name(part: reqwest::multipart::Part, file_name: String) -> (r:
    reqwest::multipart::Part)
    ensures
        part_content(r) == (Some(file_name@), part_content(part).1),
{
    part.file_name(file_name)
}

/// `Form::part`: adds `part` under `name`, after the parts that are there.
#[verifier::external_body]
pub(crate) fn add_part(
    form: reqwest::multipart::Form,
    name: String,
    part: reqwest::multipart::Part,
) -> (r: reqwest::multipart::Form)
    ensures
        form_parts(r) == form_parts(form).push((name@, part_content(part).0, part_content(part).1)),
{
    form.part(name, part)
}

} // verus!
