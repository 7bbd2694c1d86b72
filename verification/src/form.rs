//! Form fields and their encoding into the parts of a multipart body.
//!
//! Encoding reads files, which this crate does not do itself. The caller asks
//! `files_to_read` which files the fields name, reads them, and hands what it
//! read to `encode`: one entry for each file, `None` for a file that could
//! not be read. Such a file is left out; the other parts are sent.

use crate::multipart::{
    add_part, add_text, bytes_part, empty_form, form_parts, with_file_name, WirePart,
};
use crate::text::last_segment;
use vstd::prelude::*;
use vstd::utf8::encode_utf8;

verus! {

/// What a form field holds: a text, or files.
#[derive(Clone, Copy, PartialEq, Eq, Structural, Debug)]
pub enum FormFieldType {
    Text,
    File,
}

/// One field of a form. A field without a key is not sent.
#[derive(Debug)]
pub struct FormField {
    pub key: String,
    /// The text of a text field.
    pub value: String,
    /// The paths of the files of a file field.
    pub files: Vec<String>,
    pub field_type: FormFieldType,
}

/// What a `FormField` holds.
pub struct FormFieldView {
    pub key: Seq<char>,
    pub value: Seq<char>,
    pub files: Seq<Seq<char>>,
    pub field_type: FormFieldType,
}

/// The texts that a sequence of strings holds.
pub open spec fn texts(strings: Seq<String>) -> Seq<Seq<char>> {
    strings.map_values(|s: String| s@)
}

impl View for FormField {
    type V = FormFieldView;

    open spec fn view(&self) -> FormFieldView {
        FormFieldView {
            key: self.key@,
            value: self.value@,
            files: texts(self.files@),
            field_type: self.field_type,
        }
    }
}

/// What a sequence of form fields holds.
pub open spec fn field_views(fields: Seq<FormField>) -> Seq<FormFieldView> {
    fields.map_values(|f: FormField| f@)
}

/// A file that was read: the name to send it under, and its bytes.
#[derive(Debug)]
pub struct Attachment {
    pub file_name: String,
    pub content: Vec<u8>,
}

/// What an `Attachment` holds.
pub struct AttachmentView {
    pub file_name: Seq<char>,
    pub content: Seq<u8>,
}

impl View for Attachment {
    type V = AttachmentView;

    open spec fn view(&self) -> AttachmentView {
        AttachmentView { file_name: self.file_name@, content: self.content@ }
    }
}

/// What one entry of the files read holds.
pub open spec fn read_view(read: Option<Attachment>) -> Option<AttachmentView> {
    match read {
        Some(attachment) => Some(attachment@),
        None => None,
    }
}

/// What a sequence of files read holds.
pub open spec fn read_views(reads: Seq<Option<Attachment>>) -> Seq<Option<AttachmentView>> {
    reads.map_values(|r: Option<Attachment>| read_view(r))
}

/// One part of a multipart body.
#[derive(Debug)]
pub enum FormPart {
    Text { name: String, value: String },
    File { name: String, file_name: String, content: Vec<u8> },
}

/// What a `FormPart` holds.
pub enum FormPartView {
    Text { name: Seq<char>, value: Seq<char> },
    File { name: Seq<char>, file_name: Seq<char>, content: Seq<u8> },
}

impl View for FormPart {
    type V = FormPartView;

    open spec fn view(&self) -> FormPartView {
        match self {
            FormPart::Text { name, value } => FormPartView::Text { name: name@, value: value@ },
            FormPart::File { name, file_name, content } => FormPartView::File {
                name: name@,
                file_name: file_name@,
                content: content@,
            },
        }
    }
}

/// What a sequence of parts holds.
pub open spec fn part_views(parts: Seq<FormPart>) -> Seq<FormPartView> {
    parts.map_values(|p: FormPart| p@)
}

/// The paths of the files that a field sends.
pub open spec fn field_paths(field: FormFieldView) -> Seq<Seq<char>> {
    if field.key.len() > 0 && field.field_type == FormFieldType::File {
        field.files
    } else {
        Seq::empty()
    }
}

/// The paths of the files that the fields send, in the order in which they
/// are sent.
pub open spec fn paths_to_read(fields: Seq<FormFieldView>) -> Seq<Seq<char>>
    decreases fields.len(),
{
    if fields.len() == 0 {
        Seq::empty()
    } else {
        paths_to_read(fields.drop_last()) + field_paths(fields.last())
    }
}

/// The parts of a file field with the key `key`: one for each file that was
/// read, in their order.
pub open spec fn file_parts(key: Seq<char>, reads: Seq<Option<AttachmentView>>) -> Seq<
    FormPartView,
>
    decreases reads.len(),
{
    if reads.len() == 0 {
        Seq::empty()
    } else {
        let before = file_parts(key, reads.drop_last());
        match reads.last() {
            Some(attachment) => before.push(
                FormPartView::File {
                    name: key,
                    file_name: attachment.file_name,
                    content: attachment.content,
                },
            ),
            None => before,
        }
    }
}

/// The parts of one field, of which `reads` are the files.
pub open spec fn field_parts(field: FormFieldView, reads: Seq<Option<AttachmentView>>) -> Seq<
    FormPartView,
> {
    if field.key.len() == 0 {
        Seq::empty()
    } else {
        match field.field_type {
            FormFieldType::Text => seq![
                FormPartView::Text { name: field.key, value: field.value },
            ],
            FormFieldType::File => file_parts(field.key, reads),
        }
    }
}

/// The parts of a form: those of its fields, in the order of the fields.
/// `reads` holds the files of all the fields, in the order of `paths_to_read`.
pub open spec fn parts_of(fields: Seq<FormFieldView>, reads: Seq<Option<AttachmentView>>) -> Seq<
    FormPartView,
>
    decreases fields.len(),
{
    if fields.len() == 0 {
        Seq::empty()
    } else {
        let n = paths_to_read(fields.drop_last()).len() as int;
        parts_of(fields.drop_last(), reads.take(n)) + field_parts(fields.last(), reads.skip(n))
    }
}

/// A part as it goes into the form of the transport.
pub open spec fn wire_part(part: FormPartView) -> WirePart {
    match part {
        FormPartView::Text { name, value } => (name, None, encode_utf8(value)),
        FormPartView::File { name, file_name, content } => (name, Some(file_name), content),
    }
}

/// The name under which a file is sent: the last component of its path, or
/// `file` where the path has none.
pub open spec fn name_or_default(component: Option<Seq<char>>) -> Seq<char> {
    match component {
        Some(name) => name,
        None => "file"@,
    }
}

/// The items of `v` in the opposite order, so that they can be taken one by
/// one from the end.
pub fn reversed<T>(v: Vec<T>) -> (r: Vec<T>)
    ensures
        r@ == v@.reverse(),
{
    let mut rest = v;
    let mut out: Vec<T> = Vec::new();
    loop
        invariant
            rest.len() + out.len() == v.len(),
            rest@ == v@.take(rest.len() as int),
            out@ == v@.reverse().take(out.len() as int),
        ensures
            out@ == v@.reverse(),
        decreases rest.len(),
    {
        match rest.pop() {
            Some(item) => {
                out.push(item);
                assert(out@ =~= v@.reverse().take(out.len() as int));
                assert(rest@ =~= v@.take(rest.len() as int));
            },
            None => {
                assert(out@ =~= v@.reverse());
                break ;
            },
        }
    }
    out
}

/// The texts of a sequence with one more string are those of the sequence
/// with the text of that string.
pub proof fn lemma_texts_push(strings: Seq<String>, last: String)
    ensures
        texts(strings.push(last)) == texts(strings).push(last@),
{
    assert(texts(strings.push(last)) =~= texts(strings).push(last@));
}

/// A copy of `strings`.
pub fn clone_strings(strings: &Vec<String>) -> (r: Vec<String>)
    ensures
        texts(r@) == texts(strings@),
{
    let mut out: Vec<String> = Vec::new();
    let mut i: usize = 0;
    while i < strings.len()
        invariant
            i <= strings.len(),
            texts(out@) == texts(strings@.take(i as int)),
        decreases strings.len() - i,
    {
        let ghost before = out@;
        out.push(strings[i].clone());
        proof {
            assert(strings@.take(i + 1) =~= strings@.take(i as int).push(strings@[i as int]));
            lemma_texts_push(before, out@.last());
            lemma_texts_push(strings@.take(i as int), strings@[i as int]);
        }
        i += 1;
    }
    assert(strings@.take(strings.len() as int) =~= strings@);
    out
}

impl FormField {
    /// An empty text field.
    pub fn new() -> (r: FormField)
        ensures
            r@ == (FormFieldView {
                key: Seq::empty(),
                value: Seq::empty(),
                files: Seq::empty(),
                field_type: FormFieldType::Text,
            }),
    {
        let r = FormField {
            key: String::new(),
            value: String::new(),
            files: Vec::new(),
            field_type: FormFieldType::Text,
        };
        assert(texts(r.files@) =~= Seq::<Seq<char>>::empty());
        r
    }

    /// A copy of this field.
    pub fn duplicate(&self) -> (r: FormField)
        ensures
            r@ == self@,
    {
        FormField {
            key: self.key.clone(),
            value: self.value.clone(),
            files: clone_strings(&self.files),
            field_type: self.field_type,
        }
    }

    /// Makes this a field of `field_type` and forgets its text and its files.
    pub fn choose_type(&mut self, field_type: FormFieldType)
        ensures
            final(self)@ == (FormFieldView {
                key: old(self)@.key,
                value: Seq::empty(),
                files: Seq::empty(),
                field_type,
            }),
    {
        self.field_type = field_type;
        self.value = String::new();
        self.files = Vec::new();
        assert(texts(self.files@) =~= Seq::<Seq<char>>::empty());
    }
}

/// The paths of more fields are those of the first fields followed by those
/// of the others.
pub proof fn lemma_paths_concat(a: Seq<FormFieldView>, b: Seq<FormFieldView>)
    ensures
        paths_to_read(a + b) == paths_to_read(a) + paths_to_read(b),
    decreases b.len(),
{
    if b.len() == 0 {
        assert(a + b =~= a);
        assert(paths_to_read(a) + paths_to_read(b) =~= paths_to_read(a));
    } else {
        assert((a + b).drop_last() =~= a + b.drop_last());
        lemma_paths_concat(a, b.drop_last());
        assert(paths_to_read(a + b) =~= paths_to_read(a) + paths_to_read(b));
    }
}

/// The paths of the files that the fields send, in the order in which
/// `encode` expects what was read from them.
pub fn files_to_read(fields: &Vec<FormField>) -> (paths: Vec<String>)
    ensures
        texts(paths@) == paths_to_read(field_views(fields@)),
{
    let mut paths: Vec<String> = Vec::new();
    let mut i: usize = 0;
    assert(field_views(fields@.take(0)) =~= Seq::<FormFieldView>::empty());
    assert(texts(paths@) =~= Seq::<Seq<char>>::empty());
    while i < fields.len()
        invariant
            i <= fields.len(),
            texts(paths@) == paths_to_read(field_views(fields@.take(i as int))),
        decreases fields.len() - i,
    {
        let field = &fields[i];
        let ghost before = paths@;
        proof {
            let next = field_views(fields@.take(i + 1));
            assert(next.drop_last() =~= field_views(fields@.take(i as int)));
            assert(next.last() == field@);
        }
        if field.key.as_str().unicode_len() > 0 && field.field_type == FormFieldType::File {
            let mut k: usize = 0;
            while k < field.files.len()
                invariant
                    k <= field.files.len(),
                    texts(paths@) == texts(before) + texts(field.files@.take(k as int)),
                decreases field.files.len() - k,
            {
                let ghost so_far = paths@;
                paths.push(field.files[k].clone());
                proof {
                    let taken = field.files@.take(k as int);
                    let path = field.files@[k as int];
                    assert(field.files@.take(k + 1) =~= taken.push(path));
                    lemma_texts_push(so_far, paths@.last());
                    lemma_texts_push(taken, path);
                    assert((texts(before) + texts(taken)).push(path@) =~= texts(before) + texts(
                        taken,
                    ).push(path@));
                }
                k += 1;
            }
            assert(field.files@.take(field.files.len() as int) =~= field.files@);
        } else {
            assert(texts(paths@) + Seq::<Seq<char>>::empty() =~= texts(paths@));
        }
        i += 1;
    }
    assert(fields@.take(fields.len() as int) =~= fields@);
    paths
}

/// The name under which a file is sent, given the last component of its path.
pub fn file_name_or_default(component: Option<String>) -> (r: String)
    ensures
        r@ == name_or_default(
            match component {
                Some(name) => Some(name@),
                None => None,
            },
        ),
{
    match component {
        Some(name) => name,
        None => "file".to_owned(),
    }
}

/// A path that is one plain name on every platform: not empty, neither `.`
/// nor `..`, and without a separator or a drive colon.
pub open spec fn is_plain_name(path: Seq<char>) -> bool {
    &&& path.len() > 0
    &&& path != seq!['.']
    &&& path != seq!['.', '.']
    &&& forall|i: int|
        0 <= i < path.len() ==> #[trigger] path[i] != '/' && path[i] != '\\' && path[i] != ':'
}

/// A path in which only `/` can separate components: it holds neither a
/// backslash nor a colon, and does not start with two slashes.
pub open spec fn is_slash_path(path: Seq<char>) -> bool {
    &&& forall|i: int| 0 <= i < path.len() ==> #[trigger] path[i] != '\\' && path[i] != ':'
    &&& !(path.len() >= 2 && path[0] == '/' && path[1] == '/')
}

/// A path whose last component is known without regard to the platform: only
/// `/` separates in it, and a plain name follows its last `/`.
pub open spec fn ends_in_name(path: Seq<char>) -> bool {
    is_slash_path(path) && is_plain_name(last_segment(path))
}

/// `Path::file_name` on `path`, as text: the last component of the path,
/// where it has one that is text. A component is never empty. Which
/// characters separate components depends on the platform, but `/` does so
/// as the documentation of `Path` has it; so the component is stated where
/// nothing but `/` can separate and a plain name follows the last `/`: it is
/// that name.
#[verifier::external_body]
fn last_component(path: &str) -> (r: Option<String>)
    ensures
        r matches Some(name) ==> name@.len() > 0,
        r is None ==> !ends_in_name(path@),
        r matches Some(name) ==> (ends_in_name(path@) ==> name@ == last_segment(path@)),
{
    std::path::Path::new(path).file_name().and_then(|name| name.to_str()).map(|s| s.to_string())
}

/// A path that is one plain name ends in that name.
pub proof fn lemma_plain_name(path: Seq<char>)
    requires
        is_plain_name(path),
    ensures
        ends_in_name(path),
        last_segment(path) == path,
{
    lemma_no_slash(path);
}

/// A text without `/` is its own last segment.
pub proof fn lemma_no_slash(s: Seq<char>)
    requires
        forall|i: int| 0 <= i < s.len() ==> #[trigger] s[i] != '/',
    ensures
        last_segment(s) == s,
    decreases s.len(),
{
    if s.len() > 0 {
        let before = s.drop_last();
        assert forall|i: int| 0 <= i < before.len() implies #[trigger] before[i] != '/' by {
            assert(before[i] == s[i]);
        }
        lemma_no_slash(before);
        assert(s[s.len() - 1] != '/');
        assert(before.push(s.last()) =~= s);
    } else {
        assert(last_segment(s) =~= s);
    }
}

/// A file that was read from `path`, ready to be sent. Its name is the last
/// component of `path` as the platform sees it, or `file` where the path has
/// none. It is never empty. Where only `/` can separate in the path and a
/// plain name follows the last `/`, it is that name; so for a path that is
/// one plain name it is the path.
pub fn attachment(path: &str, content: Vec<u8>) -> (r: Attachment)
    ensures
        r.content@ == content@,
        r.file_name@.len() > 0,
        ends_in_name(path@) ==> r.file_name@ == last_segment(path@),
        is_plain_name(path@) ==> r.file_name@ == path@,
{
    proof {
        reveal_strlit("file");
        if is_plain_name(path@) {
            lemma_plain_name(path@);
        }
    }
    Attachment { file_name: file_name_or_default(last_component(path)), content }
}

/// Encodes the fields of a form into the parts of a multipart body.
///
/// The parts follow the order of the fields. A field without a key gives no
/// part; a text field gives one; a file field gives one for each of its
/// files that was read. `reads` holds an entry for each path of
/// `files_to_read`, in that order: the file, or `None` where it could not be
/// read.
pub fn encode(fields: &Vec<FormField>, reads: Vec<Option<Attachment>>) -> (parts: Vec<FormPart>)
    requires
        reads.len() == paths_to_read(field_views(fields@)).len(),
    ensures
        part_views(parts@) == parts_of(field_views(fields@), read_views(reads@)),
{
    let ghost all = field_views(fields@);
    let ghost files = read_views(reads@);
    let mut parts: Vec<FormPart> = Vec::new();
    let ghost total = reads.len() as int;
    let mut stack = reversed(reads);
    let mut i: usize = 0;
    let ghost mut j: int = 0;
    proof {
        assert(all.take(0) =~= Seq::<FormFieldView>::empty());
        assert(part_views(parts@) =~= Seq::<FormPartView>::empty());
        assert(stack@.take(total) =~= stack@);
    }
    while i < fields.len()
        invariant
            i <= fields.len(),
            all == field_views(fields@),
            files == read_views(reads@),
            total == reads.len() == paths_to_read(all).len(),
            0 <= j <= total,
            j == paths_to_read(all.take(i as int)).len(),
            stack@ == reads@.reverse().take(total - j),
            part_views(parts@) == parts_of(all.take(i as int), files.take(j)),
        decreases fields.len() - i,
    {
        let field = &fields[i];
        let ghost before = part_views(parts@);
        let ghost next = all.take(i + 1);
        proof {
            assert(next.drop_last() =~= all.take(i as int));
            assert(next.last() == field@);
            assert(all =~= next + all.skip(i + 1));
            lemma_paths_concat(next, all.skip(i + 1));
            assert(paths_to_read(next).len() <= reads.len());
        }
        let ghost count = field_paths(field@).len() as int;
        proof {
            assert(files.take(j + count).take(j) =~= files.take(j));
        }
        if field.key.as_str().unicode_len() == 0 {
            proof {
                assert(before + Seq::<FormPartView>::empty() =~= before);
            }
        } else {
            match field.field_type {
                FormFieldType::Text => {
                    parts.push(
                        FormPart::Text { name: field.key.clone(), value: field.value.clone() },
                    );
                    proof {
                        assert(part_views(parts@) =~= before + seq![
                            FormPartView::Text { name: field@.key, value: field@.value },
                        ]);
                    }
                },
                FormFieldType::File => {
                    let mut k: usize = 0;
                    proof {
                        assert(files.subrange(j, j) =~= Seq::<Option<AttachmentView>>::empty());
                        assert(before + Seq::<FormPartView>::empty() =~= before);
                    }
                    while k < field.files.len()
                        invariant
                            k <= field.files.len(),
                            files == read_views(reads@),
                            field.files.len() == count,
                            total == reads.len(),
                            0 <= j,
                            j + count <= total,
                            stack@ == reads@.reverse().take(total - j - k),
                            part_views(parts@) == before + file_parts(
                                field@.key,
                                files.subrange(j, j + k),
                            ),
                        decreases field.files.len() - k,
                    {
                        let ghost so_far = part_views(parts@);
                        let ghost entry = reads@[j + k];
                        proof {
                            assert(stack@.last() == entry);
                            assert(stack@.drop_last() =~= reads@.reverse().take(
                                total - j - k - 1,
                            ));
                            assert(files.subrange(j, j + k + 1).drop_last() =~= files.subrange(
                                j,
                                j + k,
                            ));
                            assert(files.subrange(j, j + k + 1).last() == read_view(entry));
                        }
                        match stack.pop() {
                            Some(Some(attachment)) => {
                                let ghost shown = attachment@;
                                parts.push(
                                    FormPart::File {
                                        name: field.key.clone(),
                                        file_name: attachment.file_name,
                                        content: attachment.content,
                                    },
                                );
                                proof {
                                    assert(part_views(parts@) =~= so_far.push(
                                        FormPartView::File {
                                            name: field@.key,
                                            file_name: shown.file_name,
                                            content: shown.content,
                                        },
                                    ));
                                    assert(part_views(parts@) =~= before + file_parts(
                                        field@.key,
                                        files.subrange(j, j + k + 1),
                                    ));
                                }
                            },
                            Some(None) => {},
                            None => {},
                        }
                        k += 1;
                    }
                    proof {
                        assert(files.take(j + count).skip(j) =~= files.subrange(j, j + count));
                    }
                },
            }
        }
        proof {
            if field.key@.len() == 0 || field.field_type == FormFieldType::Text {
                assert(paths_to_read(next) =~= paths_to_read(all.take(i as int)));
            }
            j = j + count;
        }
        i += 1;
    }
    proof {
        assert(all.take(fields.len() as int) =~= all);
        assert(files.take(j) =~= files);
    }
    parts
}

/// The parts follow the order of the fields: the parts of the fields `a`
/// followed by the fields `b` are the parts of `a`, made from the first
/// files, followed by the parts of `b`, made from the other files.
pub proof fn law_parts_follow_fields(
    a: Seq<FormFieldView>,
    b: Seq<FormFieldView>,
    reads: Seq<Option<AttachmentView>>,
)
    requires
        reads.len() == paths_to_read(a + b).len(),
    ensures
        paths_to_read(a).len() <= reads.len(),
        parts_of(a + b, reads) == parts_of(a, reads.take(paths_to_read(a).len() as int))
            + parts_of(b, reads.skip(paths_to_read(a).len() as int)),
    decreases b.len(),
{
    let na = paths_to_read(a).len() as int;
    lemma_paths_concat(a, b);
    if b.len() == 0 {
        assert(a + b =~= a);
        assert(reads.take(na) =~= reads);
        assert(parts_of(a, reads) + Seq::<FormPartView>::empty() =~= parts_of(a, reads));
    } else {
        let all = a + b;
        let shorter = b.drop_last();
        assert(all.drop_last() =~= a + shorter);
        assert(all.last() == b.last());
        lemma_paths_concat(a, shorter);
        let ns = paths_to_read(shorter).len() as int;
        let n = na + ns;
        law_parts_follow_fields(a, shorter, reads.take(n));
        assert(reads.take(n).take(na) =~= reads.take(na));
        assert(reads.take(n).skip(na) =~= reads.skip(na).take(ns));
        assert(reads.skip(na).skip(ns) =~= reads.skip(n));
        let first = parts_of(a, reads.take(na));
        let middle = parts_of(shorter, reads.skip(na).take(ns));
        let last = field_parts(b.last(), reads.skip(n));
        assert((first + middle) + last =~= first + (middle + last));
    }
}

/// A field without a key is not sent: with it or without it among the
/// fields, the same files are read and the same parts are made.
pub proof fn law_keyless_field(
    a: Seq<FormFieldView>,
    field: FormFieldView,
    b: Seq<FormFieldView>,
    reads: Seq<Option<AttachmentView>>,
)
    requires
        field.key.len() == 0,
        reads.len() == paths_to_read(a + b).len(),
    ensures
        paths_to_read(a + seq![field] + b) == paths_to_read(a + b),
        parts_of(a + seq![field] + b, reads) == parts_of(a + b, reads),
{
    let one = seq![field];
    let tail = one + b;
    let none = Seq::<Option<AttachmentView>>::empty();
    assert(a + one + b =~= a + tail);
    assert(one.drop_last() =~= Seq::<FormFieldView>::empty());
    assert(one.last() == field);
    assert(paths_to_read(one.drop_last()) =~= Seq::<Seq<char>>::empty());
    assert(paths_to_read(one) =~= Seq::<Seq<char>>::empty());
    lemma_paths_concat(a, tail);
    lemma_paths_concat(one, b);
    lemma_paths_concat(a, b);
    assert(paths_to_read(tail) =~= paths_to_read(b));
    let rest = reads.skip(paths_to_read(a).len() as int);
    law_parts_follow_fields(a, tail, reads);
    law_parts_follow_fields(a, b, reads);
    law_parts_follow_fields(one, b, rest);
    assert(rest.skip(0) =~= rest);
    assert(rest.take(0) =~= none);
    assert(parts_of(one.drop_last(), none.take(0)) =~= Seq::<FormPartView>::empty());
    assert(field_parts(field, none.skip(0)) =~= Seq::<FormPartView>::empty());
    assert(parts_of(one, none) =~= Seq::<FormPartView>::empty());
    assert(Seq::<FormPartView>::empty() + parts_of(b, rest) =~= parts_of(b, rest));
}

/// Makes the form of the transport from the parts of a multipart body, in
/// their order.
pub fn build_form(parts: Vec<FormPart>) -> (form: reqwest::multipart::Form)
    ensures
        form_parts(form) == part_views(parts@).map_values(|p: FormPartView| wire_part(p)),
{
    let ghost wanted = part_views(parts@).map_values(|p: FormPartView| wire_part(p));
    let mut form = empty_form();
    let ghost total = parts.len() as int;
    let mut stack = reversed(parts);
    let ghost mut done: int = 0;
    proof {
        assert(stack@.take(total) =~= stack@);
        assert(form_parts(form) =~= wanted.take(0));
    }
    loop
        invariant
            wanted == part_views(parts@).map_values(|p: FormPartView| wire_part(p)),
            total == parts.len(),
            0 <= done <= total,
            stack@ == parts@.reverse().take(total - done),
            form_parts(form) == wanted.take(done),
        ensures
            form_parts(form) == wanted,
        decreases stack.len(),
    {
        proof {
            if done < total {
                assert(stack@.last() == parts@[done]);
                assert(stack@.drop_last() =~= parts@.reverse().take(total - done - 1));
                assert(wanted.take(done + 1) =~= wanted.take(done).push(wanted[done]));
            } else {
                assert(wanted.take(done) =~= wanted);
            }
        }
        match stack.pop() {
            Some(FormPart::Text { name, value }) => {
                form = add_text(form, name, value);
            },
            Some(FormPart::File { name, file_name, content }) => {
                let part = with_file_name(bytes_part(content), file_name);
                form = add_part(form, name, part);
            },
            None => {
                break ;
            },
        }
        proof {
            done = done + 1;
        }
    }
    form
}

} // verus!
