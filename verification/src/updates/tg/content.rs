//! What the chat network hands over, as plain values: the part of a message
//! that the parser reads.

use vstd::prelude::*;

verus! {

/// The kind of an inline span of a formatted text.
#[derive(Debug, Clone, PartialEq, Eq)]
pub enum TextEntityType {
    Bold,
    BotCommand,
    Cashtag,
    Code,
    EmailAddress,
    Hashtag,
    Italic,
    Mention,
    MentionName,
    PhoneNumber,
    Pre,
    PreCode,
    Strikethrough,
    /// A span that links to the given address.
    TextUrl(String),
    Underline,
    Url,
    /// A kind this library has no name for.
    Other,
}

/// One inline span: `length` characters from `offset`, counted in Unicode
/// scalar values.
#[derive(Debug, Clone, PartialEq, Eq)]
pub struct TextEntity {
    pub offset: i64,
    pub length: i64,
    pub type_: TextEntityType,
}

/// A text with its inline spans.
#[derive(Debug, Clone, PartialEq, Eq)]
pub struct FormattedText {
    pub text: String,
    pub entities: Vec<TextEntity>,
}

/// A file as the chat network describes it.
#[derive(Debug, Clone, PartialEq, Eq)]
pub struct RemoteFile {
    /// The network's number for the file; downloads are asked by it.
    pub id: i64,
    /// Where the file lies on this machine, empty while it is not here.
    pub local_path: String,
    /// The network's stable handle of the file.
    pub unique_id: String,
}

#[derive(Debug, Clone, PartialEq, Eq)]
pub struct Animation {
    pub duration: i64,
    pub width: i64,
    pub height: i64,
    pub file_name: String,
    pub mime_type: String,
    pub animation: RemoteFile,
}

#[derive(Debug, Clone, PartialEq, Eq)]
pub struct Document {
    pub file_name: String,
    pub document: RemoteFile,
}

/// One rendition of a photo.
#[derive(Debug, Clone, PartialEq, Eq)]
pub struct PhotoSize {
    pub width: i64,
    pub height: i64,
    pub photo: RemoteFile,
}

#[derive(Debug, Clone, PartialEq, Eq)]
pub struct Sticker {
    pub width: i64,
    pub height: i64,
    pub sticker: RemoteFile,
}

#[derive(Debug, Clone, PartialEq, Eq)]
pub struct PollOption {
    pub text: String,
    pub voter_count: i64,
    pub vote_percentage: i64,
}

#[derive(Debug, Clone, PartialEq, Eq)]
pub struct Poll {
    pub question: String,
    pub options: Vec<PollOption>,
    pub total_voter_count: i64,
}

/// The content of one chat message. The variants that carry nothing are
/// those of which the parser reads only the kind.
#[derive(Debug, Clone, PartialEq, Eq)]
pub enum MessageContent {
    MessageText(FormattedText),
    MessageAnimation { animation: Animation, caption: FormattedText },
    MessageAudio { caption: FormattedText },
    MessageDocument { document: Document, caption: FormattedText },
    MessagePhoto { sizes: Vec<PhotoSize>, caption: FormattedText },
    MessageVideo { caption: FormattedText },
    MessageSticker(Sticker),
    MessageChatChangePhoto,
    MessagePoll,
    MessageChatChangeTitle,
    MessageChatDeletePhoto,
    MessageChatJoinByLink,
    MessageChatUpgradeFrom,
    MessageChatUpgradeTo,
    MessageContact,
    MessageContactRegistered,
    MessageCustomServiceAction,
    MessageExpiredPhoto,
    MessageExpiredVideo,
    MessageInvoice,
    MessageLocation,
    MessagePassportDataReceived,
    MessageScreenshotTaken,
    MessageSupergroupChatCreate,
    MessageVenue,
    MessageVideoNote,
    MessageVoiceNote,
    MessageWebsiteConnected,
    MessageBasicGroupChatCreate,
    MessageCall,
    MessageChatAddMembers,
    MessageChatDeleteMember,
    MessageChatSetTtl,
    MessageGame,
    MessageGameScore,
    MessagePassportDataSent,
    MessagePaymentSuccessful,
    MessagePaymentSuccessfulBot,
    MessagePinMessage,
    MessageUnsupported,
    /// A kind this library has no name for.
    Other,
}

/// A message as the chat network delivers it.
#[derive(Debug, Clone, PartialEq, Eq)]
pub struct Message {
    pub id: i64,
    pub chat_id: i64,
    /// Seconds since the epoch.
    pub date: i64,
    pub content: MessageContent,
}

/// One item of the chat network's update stream.
#[derive(Debug, Clone, PartialEq, Eq)]
pub enum TgUpdate {
    /// A download that was asked for has finished.
    FileDownloaded(RemoteFile),
    NewMessage(Message),
    /// The content of a known message was replaced.
    MessageContent { chat_id: i64, message_id: i64, new_content: MessageContent },
    ChatPhoto,
    ChatTitle,
}

/// A channel of the chat network.
#[derive(Debug, Clone, PartialEq, Eq)]
pub struct Channel {
    pub chat_id: i64,
    pub title: String,
    pub username: String,
}

} // verus!
