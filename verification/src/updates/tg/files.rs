//! The rows that stand for the files of a message, with what is known of
//! each file's shape written down as JSON.

use crate::models::{NewFile, NewFileView};
use crate::tools::{clone_opt, decimal_text, opt_text};
use crate::updates::tg::source::TELEGRAM;
use crate::updates::tg::structs::{
    FileType, FileTypeView, TelegramFileWithMeta, TelegramFileWithMetaView,
};
use vstd::prelude::*;

verus! {

/// The JSON string that `serde_json` writes for a text: the text between
/// double quotes, with the characters that JSON does not take as they are
/// written as escapes.
pub uninterp spec fn json_string_text(text: Seq<char>) -> Seq<char>;

/// `serde_json::to_string` on an `i64`. It writes into a vector of bytes,
/// which cannot fail, so it always gives a text; the `Option` is what
/// becomes of its `Result`. The text is the integer in decimal, with a minus
/// sign in front of a negative one.
#[verifier::external_body]
fn json_number(value: i64) -> (r: Option<String>)
    ensures
        r is Some,
        r matches Some(text) ==> text@ == decimal_text(value as int),
{
    serde_json::to_string(&value).ok()
}

/// `serde_json::to_string` on a `str`. It writes into a vector of bytes,
/// which cannot fail, so it always gives a text; the `Option` is what
/// becomes of its `Result`. The text is named [`json_string_text`]; it
/// depends on the text alone.
#[verifier::external_body]
fn json_string(value: &str) -> (r: Option<String>)
    ensures
        r is Some,
        r matches Some(text) ==> text@ == json_string_text(value@),
{
    serde_json::to_string(value).ok()
}

/// The kind of file that a row is marked with.
pub open spec fn file_type_label(file_type: FileTypeView) -> Seq<char> {
    match file_type {
        FileTypeView::Document => "DOCUMENT"@,
        FileTypeView::Animation(_) => "ANIMATION"@,
        FileTypeView::Image(_) => "IMAGE"@,
    }
}

/// The JSON object of an image's width and height, from the JSON numbers.
pub open spec fn image_frame(width: Seq<char>, height: Seq<char>) -> Seq<char> {
    "{\"width\":"@ + width + ",\"height\":"@ + height + "}"@
}

/// The JSON object of an animation's duration, width, height and type of
/// content, from the JSON numbers and the JSON string.
pub open spec fn animation_frame(
    duration: Seq<char>,
    width: Seq<char>,
    height: Seq<char>,
    mime_type: Seq<char>,
) -> Seq<char> {
    "{\"duration\":"@ + duration + ",\"width\":"@ + width + ",\"height\":"@ + height
        + ",\"mime_type\":"@ + mime_type + "}"@
}

/// What is known of a file's shape, as JSON; a document has nothing known.
pub open spec fn meta_text(file_type: FileTypeView) -> Option<Seq<char>> {
    match file_type {
        FileTypeView::Document => None,
        FileTypeView::Animation(meta) => Some(
            animation_frame(
                decimal_text(meta.duration),
                decimal_text(meta.width),
                decimal_text(meta.height),
                json_string_text(meta.mime_type),
            ),
        ),
        FileTypeView::Image(meta) => Some(
            image_frame(decimal_text(meta.width as int), decimal_text(meta.height as int)),
        ),
    }
}

/// Puts the JSON object of an image together from the JSON of its width
/// and of its height. There is none where one of the two is missing.
pub fn frame_image(width: Option<String>, height: Option<String>) -> (r: Option<String>)
    ensures
        r is Some == (width is Some && height is Some),
        r matches Some(text) ==> text@ == image_frame(width.unwrap()@, height.unwrap()@),
{
    match (width, height) {
        (Some(w), Some(h)) => {
            let mut text = "{\"width\":".to_owned();
            text.append(w.as_str());
            text.append(",\"height\":");
            text.append(h.as_str());
            text.append("}");
            Some(text)
        },
        _ => None,
    }
}

/// Puts the JSON object of an animation together from the JSON of its
/// parts. There is none where one of them is missing.
pub fn frame_animation(
    duration: Option<String>,
    width: Option<String>,
    height: Option<String>,
    mime_type: Option<String>,
) -> (r: Option<String>)
    ensures
        r is Some == (duration is Some && width is Some && height is Some && mime_type is Some),
        r matches Some(text) ==> text@ == animation_frame(
            duration.unwrap()@,
            width.unwrap()@,
            height.unwrap()@,
            mime_type.unwrap()@,
        ),
{
    match (duration, width, height, mime_type) {
        (Some(d), Some(w), Some(h), Some(m)) => {
            let mut text = "{\"duration\":".to_owned();
            text.append(d.as_str());
            text.append(",\"width\":");
            text.append(w.as_str());
            text.append(",\"height\":");
            text.append(h.as_str());
            text.append(",\"mime_type\":");
            text.append(m.as_str());
            text.append("}");
            Some(text)
        },
        _ => None,
    }
}

/// What is known of a file's shape, as JSON: none for a document, the JSON
/// object of its meta for an animation and for an image.
pub fn meta_json(file_type: &FileType) -> (r: Option<String>)
    ensures
        opt_text(r) == meta_text(file_type@),
{
    match file_type {
        FileType::Document => None,
        FileType::Animation(meta) => frame_animation(
            json_number(meta.duration),
            json_number(meta.width),
            json_number(meta.height),
            json_string(meta.mime_type.as_str()),
        ),
        FileType::Image(meta) => frame_image(
            json_number(meta.width),
            json_number(meta.height),
        ),
    }
}

/// The row that stands for a file of the record `record_id`, with the
/// given description of its shape.
pub open spec fn new_file_of(
    file: TelegramFileWithMetaView,
    record_id: int,
    meta: Option<Seq<char>>,
) -> NewFileView {
    NewFileView {
        record_id,
        kind: TELEGRAM@,
        local_path: file.path.local_path,
        remote_path: file.path.remote_file,
        remote_id: Some(file.path.remote_id),
        file_name: file.file_name,
        type_: file_type_label(file.file_type),
        meta,
    }
}

fn type_text(file_type: &FileType) -> (s: String)
    ensures
        s@ == file_type_label(file_type@),
{
    match file_type {
        FileType::Document => "DOCUMENT".to_owned(),
        FileType::Animation(_) => "ANIMATION".to_owned(),
        FileType::Image(_) => "IMAGE".to_owned(),
    }
}

/// The row that stands for a file of the record `record_id`.
pub fn new_file(file: &TelegramFileWithMeta, record_id: i32, meta: Option<String>) -> (row: NewFile)
    ensures
        row@ == new_file_of(file@, record_id as int, opt_text(meta)),
{
    NewFile {
        kind: TELEGRAM.to_owned(),
        local_path: clone_opt(&file.path.local_path),
        remote_path: file.path.remote_file.clone(),
        remote_id: Some(file.path.remote_id.clone()),
        file_name: clone_opt(&file.file_name),
        record_id,
        type_: type_text(&file.file_type),
        meta,
    }
}

/// Whether `rows` stand for `files` as files of the record `record_id`:
/// one row for each file, in order, each with the description of its
/// file's shape.
pub open spec fn rows_stand_for(
    rows: Seq<NewFileView>,
    files: Seq<TelegramFileWithMetaView>,
    record_id: int,
) -> bool {
    &&& rows.len() == files.len()
    &&& forall|i: int|
        0 <= i < files.len() ==> #[trigger] rows[i] == new_file_of(
            files[i],
            record_id,
            meta_text(files[i].file_type),
        )
}

/// The rows that stand for the files of the record `record_id`.
pub fn new_files(files: &Vec<TelegramFileWithMeta>, record_id: i32) -> (rows: Vec<NewFile>)
    ensures
        rows_stand_for(
            Seq::new(rows@.len(), |i: int| rows@[i]@),
            Seq::new(files@.len(), |i: int| files@[i]@),
            record_id as int,
        ),
{
    let mut rows: Vec<NewFile> = Vec::new();
    let mut i: usize = 0;
    while i < files.len()
        invariant
            i <= files@.len(),
            rows@.len() == i,
            forall|j: int|
                0 <= j < i ==> (#[trigger] rows@[j])@ == new_file_of(
                    files@[j]@,
                    record_id as int,
                    meta_text(files@[j]@.file_type),
                ),
        decreases files@.len() - i,
    {
        let file = &files[i];
        rows.push(new_file(file, record_id, meta_json(&file.file_type)));
        i += 1;
    }
    rows
}

} // verus!
