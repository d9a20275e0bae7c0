//! What the chat provider makes of the chat network's updates.

use crate::tools::{decimal_text, empty_string_as_option, i64_to_string, opt_text};
use crate::updates::tg::content::{Animation, PhotoSize, Poll, PollOption, RemoteFile, Sticker};
use vstd::prelude::*;
use vstd::std_specs::convert::FromSpec;

verus! {

/// What the chat provider puts on the update channel.
#[derive(Debug, Clone, PartialEq, Eq)]
pub enum TelegramUpdate {
    FileDownloadFinished(TelegramFile),
    Message(TelegramMessage),
}

#[derive(Debug, Clone, PartialEq, Eq)]
pub struct TelegramMessage {
    pub message_id: i64,
    pub chat_id: i64,
    /// Seconds since the epoch, where the network gave a date.
    pub date: Option<i64>,
    pub content: Option<String>,
    pub files: Option<Vec<TelegramFileWithMeta>>,
}

#[derive(Debug, Clone, Copy, PartialEq, Eq)]
pub struct ImageMeta {
    pub width: i64,
    pub height: i64,
}

impl From<&PhotoSize> for ImageMeta {
    fn from(p: &PhotoSize) -> (m: ImageMeta) {
        ImageMeta { width: p.width, height: p.height }
    }
}

impl vstd::std_specs::convert::FromSpecImpl<&PhotoSize> for ImageMeta {
    open spec fn obeys_from_spec() -> bool {
        true
    }

    open spec fn from_spec(p: &PhotoSize) -> ImageMeta {
        ImageMeta { width: p.width, height: p.height }
    }
}

impl From<&Sticker> for ImageMeta {
    fn from(s: &Sticker) -> (m: ImageMeta) {
        ImageMeta { width: s.width, height: s.height }
    }
}

impl vstd::std_specs::convert::FromSpecImpl<&Sticker> for ImageMeta {
    open spec fn obeys_from_spec() -> bool {
        true
    }

    open spec fn from_spec(s: &Sticker) -> ImageMeta {
        ImageMeta { width: s.width, height: s.height }
    }
}

#[derive(Debug, Clone, PartialEq, Eq)]
pub struct AnimationMeta {
    pub duration: i64,
    pub width: i64,
    pub height: i64,
    pub mime_type: String,
}

impl From<&Animation> for AnimationMeta {
    fn from(a: &Animation) -> (m: AnimationMeta) {
        AnimationMeta {
            duration: a.duration,
            width: a.width,
            height: a.height,
            mime_type: a.mime_type.clone(),
        }
    }
}

impl vstd::std_specs::convert::FromSpecImpl<&Animation> for AnimationMeta {
    open spec fn obeys_from_spec() -> bool {
        true
    }

    open spec fn from_spec(a: &Animation) -> AnimationMeta {
        AnimationMeta {
            duration: a.duration,
            width: a.width,
            height: a.height,
            mime_type: a.mime_type,
        }
    }
}

#[derive(Debug, Clone, PartialEq, Eq)]
pub struct PollMeta {
    pub question: String,
    pub options: Vec<PollOptionMeta>,
    pub total_voter_count: i64,
}

impl PollMeta {
    /// The poll's question, its options in order, and its count of voters.
    pub fn from_poll(p: &Poll) -> (m: PollMeta)
        ensures
            m.question == p.question,
            m.total_voter_count == p.total_voter_count,
            m.options@.len() == p.options@.len(),
            forall|i: int|
                0 <= i < p.options@.len() ==> #[trigger] m.options@[i]
                    == PollOptionMeta::from_spec(&p.options@[i]),
    {
        let mut options: Vec<PollOptionMeta> = Vec::new();
        let mut i: usize = 0;
        while i < p.options.len()
            invariant
                i <= p.options@.len(),
                options@.len() == i,
                forall|j: int|
                    0 <= j < i ==> #[trigger] options@[j] == PollOptionMeta::from_spec(
                        &p.options@[j],
                    ),
            decreases p.options@.len() - i,
        {
            options.push(PollOptionMeta::from(&p.options[i]));
            i += 1;
        }
        PollMeta {
            question: p.question.clone(),
            options,
            total_voter_count: p.total_voter_count,
        }
    }
}

#[derive(Debug, Clone, PartialEq, Eq)]
pub struct PollOptionMeta {
    pub text: String,
    pub voter_count: i64,
    pub vote_percentage: i64,
}

impl From<&PollOption> for PollOptionMeta {
    fn from(po: &PollOption) -> (m: PollOptionMeta) {
        PollOptionMeta {
            text: po.text.clone(),
            voter_count: po.voter_count,
            vote_percentage: po.vote_percentage,
        }
    }
}

impl vstd::std_specs::convert::FromSpecImpl<&PollOption> for PollOptionMeta {
    open spec fn obeys_from_spec() -> bool {
        true
    }

    open spec fn from_spec(po: &PollOption) -> PollOptionMeta {
        PollOptionMeta {
            text: po.text,
            voter_count: po.voter_count,
            vote_percentage: po.vote_percentage,
        }
    }
}

/// The kind of an attached file, with what is known of its shape.
#[derive(Debug, Clone, PartialEq, Eq)]
pub enum FileType {
    Document,
    Animation(AnimationMeta),
    Image(ImageMeta),
}

/// One file attached to a message.
#[derive(Debug, Clone, PartialEq, Eq)]
pub struct TelegramFileWithMeta {
    pub path: FilePath,
    pub file_type: FileType,
    pub file_name: Option<String>,
}

/// Where a file is: on this machine, if it is, and in the chat network.
#[derive(Debug, Clone, PartialEq, Eq)]
pub struct FilePath {
    pub local_path: Option<String>,
    /// The network's number for the file, in decimal.
    pub remote_file: String,
    pub remote_id: String,
}

/// What a [`FilePath`] holds, as characters.
pub struct FilePathView {
    pub local_path: Option<Seq<char>>,
    pub remote_file: Seq<char>,
    pub remote_id: Seq<char>,
}

impl View for FilePath {
    type V = FilePathView;

    open spec fn view(&self) -> FilePathView {
        FilePathView {
            local_path: opt_text(self.local_path),
            remote_file: self.remote_file@,
            remote_id: self.remote_id@,
        }
    }
}

impl FilePath {
    /// The path of a file of the chat network. An empty local path counts
    /// as none.
    pub open spec fn spec_new(file: RemoteFile) -> FilePathView {
        FilePathView {
            local_path: if file.local_path@.len() == 0 {
                None
            } else {
                Some(file.local_path@)
            },
            remote_file: decimal_text(file.id as int),
            remote_id: file.unique_id@,
        }
    }

    pub fn new(file: &RemoteFile) -> (p: FilePath)
        ensures
            p@ == FilePath::spec_new(*file),
    {
        FilePath {
            local_path: empty_string_as_option(file.local_path.as_str()),
            remote_file: i64_to_string(file.id),
            remote_id: file.unique_id.clone(),
        }
    }
}

/// A file whose download has finished.
#[derive(Debug, Clone, PartialEq, Eq)]
pub struct TelegramFile {
    pub local_path: String,
    pub remote_file: String,
    pub remote_id: String,
}

#[derive(Debug, Clone, PartialEq, Eq)]
pub struct TelegramFileForRecord {
    pub file: TelegramFile,
    pub record_id: String,
}

/// What an [`AnimationMeta`] holds, as plain values.
pub struct AnimationMetaView {
    pub duration: int,
    pub width: int,
    pub height: int,
    pub mime_type: Seq<char>,
}

impl View for AnimationMeta {
    type V = AnimationMetaView;

    open spec fn view(&self) -> AnimationMetaView {
        AnimationMetaView {
            duration: self.duration as int,
            width: self.width as int,
            height: self.height as int,
            mime_type: self.mime_type@,
        }
    }
}

/// What a [`FileType`] holds, as plain values.
pub enum FileTypeView {
    Document,
    Animation(AnimationMetaView),
    Image(ImageMeta),
}

impl View for FileType {
    type V = FileTypeView;

    open spec fn view(&self) -> FileTypeView {
        match self {
            FileType::Document => FileTypeView::Document,
            FileType::Animation(meta) => FileTypeView::Animation(meta@),
            FileType::Image(meta) => FileTypeView::Image(*meta),
        }
    }
}

/// What a [`TelegramFileWithMeta`] holds, as plain values.
pub struct TelegramFileWithMetaView {
    pub path: FilePathView,
    pub file_type: FileTypeView,
    pub file_name: Option<Seq<char>>,
}

impl View for TelegramFileWithMeta {
    type V = TelegramFileWithMetaView;

    open spec fn view(&self) -> TelegramFileWithMetaView {
        TelegramFileWithMetaView {
            path: self.path@,
            file_type: self.file_type@,
            file_name: opt_text(self.file_name),
        }
    }
}

/// What an optional list of files holds, as plain values.
pub open spec fn files_view(files: Option<Vec<TelegramFileWithMeta>>) -> Option<
    Seq<TelegramFileWithMetaView>,
> {
    match files {
        Some(list) => Some(Seq::new(list@.len(), |i: int| list@[i]@)),
        None => None,
    }
}

/// What a [`TelegramFile`] holds, as plain values.
pub struct TelegramFileView {
    pub local_path: Seq<char>,
    pub remote_file: Seq<char>,
    pub remote_id: Seq<char>,
}

impl View for TelegramFile {
    type V = TelegramFileView;

    open spec fn view(&self) -> TelegramFileView {
        TelegramFileView {
            local_path: self.local_path@,
            remote_file: self.remote_file@,
            remote_id: self.remote_id@,
        }
    }
}

/// What a [`TelegramMessage`] holds, as plain values.
pub struct TelegramMessageView {
    pub message_id: int,
    pub chat_id: int,
    pub date: Option<int>,
    pub content: Option<Seq<char>>,
    pub files: Option<Seq<TelegramFileWithMetaView>>,
}

impl View for TelegramMessage {
    type V = TelegramMessageView;

    open spec fn view(&self) -> TelegramMessageView {
        TelegramMessageView {
            message_id: self.message_id as int,
            chat_id: self.chat_id as int,
            date: match self.date {
                Some(d) => Some(d as int),
                None => None,
            },
            content: opt_text(self.content),
            files: files_view(self.files),
        }
    }
}

/// What a [`TelegramUpdate`] holds, as plain values.
pub enum TelegramUpdateView {
    FileDownloadFinished(TelegramFileView),
    Message(TelegramMessageView),
}

impl View for TelegramUpdate {
    type V = TelegramUpdateView;

    open spec fn view(&self) -> TelegramUpdateView {
        match self {
            TelegramUpdate::FileDownloadFinished(file) => TelegramUpdateView::FileDownloadFinished(
                file@,
            ),
            TelegramUpdate::Message(message) => TelegramUpdateView::Message(message@),
        }
    }
}

} // verus!
