//! Turns what the chat network sends into text with inline markup and a
//! list of attached files.

use crate::models::{NewSource, NewSourceView};
use crate::result::Error;
use crate::tools::{decimal_text, i64_to_string, opt_text};
use crate::updates::tg::content::{
    Animation, Channel, Document, FormattedText, MessageContent, PhotoSize, Sticker, TextEntity,
    TextEntityType, TgUpdate,
};
use crate::updates::tg::source::TELEGRAM;
use crate::updates::tg::structs::{
    files_view, AnimationMeta, AnimationMetaView, FilePath, FileType, FileTypeView, ImageMeta,
    TelegramFile, TelegramFileView, TelegramFileWithMeta, TelegramFileWithMetaView, TelegramMessage,
    TelegramMessageView, TelegramUpdate, TelegramUpdateView,
};
use vstd::prelude::*;

verus! {

/// A tag to be written in front of the character at `pos`.
pub struct Event {
    pub pos: int,
    pub tag: Seq<char>,
}

/// An [`Event`] in memory.
pub struct TagEvent {
    pub pos: i128,
    pub tag: String,
}

impl View for TagEvent {
    type V = Event;

    open spec fn view(&self) -> Event {
        Event { pos: self.pos as int, tag: self.tag@ }
    }
}

/// The events held by a vector, in its order.
pub open spec fn event_views(v: Seq<TagEvent>) -> Seq<Event> {
    Seq::new(v.len(), |i: int| v[i]@)
}

/// The opening and the closing tag of each kind of span that is written
/// out; `None` for the kinds that leave the text as it is.
pub open spec fn tag_pair(t: TextEntityType) -> Option<(Seq<char>, Seq<char>)> {
    match t {
        TextEntityType::Bold => Some(("<b>"@, "</b>"@)),
        TextEntityType::Code => Some(("<code>"@, "</code>"@)),
        TextEntityType::Hashtag => Some(("#"@, ""@)),
        TextEntityType::Italic => Some(("<i>"@, "</i>"@)),
        TextEntityType::PhoneNumber => Some(("<phone>"@, "</phone>"@)),
        TextEntityType::Pre => Some(("<pre>"@, "</pre>"@)),
        TextEntityType::PreCode => Some(("<pre><code>"@, "</code></pre>"@)),
        TextEntityType::Strikethrough => Some(("<strike>"@, "</strike>"@)),
        TextEntityType::TextUrl(u) => Some(("<a href=\""@ + u@ + "\">"@, "</a>"@)),
        TextEntityType::Underline => Some(("<u>"@, "</u>"@)),
        TextEntityType::Url => Some(("<a>"@, "</a>"@)),
        TextEntityType::BotCommand => None,
        TextEntityType::Cashtag => None,
        TextEntityType::EmailAddress => None,
        TextEntityType::Mention => None,
        TextEntityType::MentionName => None,
        TextEntityType::Other => None,
    }
}

fn pair(open: &str, close: &str) -> (r: Option<(String, String)>)
    ensures
        r matches Some(p) && p.0@ == open@ && p.1@ == close@,
{
    Some((open.to_owned(), close.to_owned()))
}

/// The tags of a span, as [`tag_pair`] gives them.
pub fn tags_for(t: &TextEntityType) -> (r: Option<(String, String)>)
    ensures
        r is Some == tag_pair(*t) is Some,
        r matches Some(p) ==> (p.0@, p.1@) == tag_pair(*t).unwrap(),
{
    match t {
        TextEntityType::Bold => pair("<b>", "</b>"),
        TextEntityType::Code => pair("<code>", "</code>"),
        TextEntityType::Hashtag => pair("#", ""),
        TextEntityType::Italic => pair("<i>", "</i>"),
        TextEntityType::PhoneNumber => pair("<phone>", "</phone>"),
        TextEntityType::Pre => pair("<pre>", "</pre>"),
        TextEntityType::PreCode => pair("<pre><code>", "</code></pre>"),
        TextEntityType::Strikethrough => pair("<strike>", "</strike>"),
        TextEntityType::TextUrl(u) => {
            let mut open = "<a href=\"".to_owned();
            open.append(u.as_str());
            open.append("\">");
            Some((open, "</a>".to_owned()))
        },
        TextEntityType::Underline => pair("<u>", "</u>"),
        TextEntityType::Url => pair("<a>", "</a>"),
        TextEntityType::BotCommand => None,
        TextEntityType::Cashtag => None,
        TextEntityType::EmailAddress => None,
        TextEntityType::Mention => None,
        TextEntityType::MentionName => None,
        TextEntityType::Other => None,
    }
}

/// The events of one span: its opening tag at its offset, then its closing
/// tag at its end. A span that is not written out has none.
pub open spec fn entity_events(e: TextEntity) -> Seq<Event> {
    match tag_pair(e.type_) {
        Some((open, close)) => seq![
            Event { pos: e.offset as int, tag: open },
            Event { pos: e.offset + e.length, tag: close },
        ],
        None => Seq::empty(),
    }
}

/// The events of all spans, in the order of the spans.
pub open spec fn events_of(entities: Seq<TextEntity>) -> Seq<Event>
    decreases entities.len(),
{
    if entities.len() == 0 {
        Seq::empty()
    } else {
        events_of(entities.drop_last()) + entity_events(entities.last())
    }
}

/// `e` put into `s` behind every event that is not later than it.
pub open spec fn insert_event(s: Seq<Event>, e: Event) -> Seq<Event>
    decreases s.len(),
{
    if s.len() == 0 {
        seq![e]
    } else if s.last().pos <= e.pos {
        s.push(e)
    } else {
        insert_event(s.drop_last(), e).push(s.last())
    }
}

/// The events by ascending position; events at one position keep the order
/// they came in.
pub open spec fn ordered(evs: Seq<Event>) -> Seq<Event>
    decreases evs.len(),
{
    if evs.len() == 0 {
        Seq::empty()
    } else {
        insert_event(ordered(evs.drop_last()), evs.last())
    }
}

/// The tags of the events at position `i`, one after the other in the
/// order of the events.
pub open spec fn tags_at(evs: Seq<Event>, i: int) -> Seq<char>
    decreases evs.len(),
{
    if evs.len() == 0 {
        Seq::empty()
    } else if evs.last().pos == i {
        tags_at(evs.drop_last(), i) + evs.last().tag
    } else {
        tags_at(evs.drop_last(), i)
    }
}

/// The output for the first `i` characters of the text: in front of each
/// character stand the tags of the events at its index.
pub open spec fn rendered_prefix(text: Seq<char>, evs: Seq<Event>, i: nat) -> Seq<char>
    decreases i,
{
    if i == 0 {
        Seq::empty()
    } else {
        rendered_prefix(text, evs, (i - 1) as nat) + tags_at(evs, i - 1) + seq![text[i - 1]]
    }
}

/// The text with the tags of `evs` written into it: for every index from
/// the first character to the end of the text, the tags of the events at
/// that index in their order, then the character at that index. An event
/// whose position is no such index is not written.
pub open spec fn rendered(text: Seq<char>, evs: Seq<Event>) -> Seq<char> {
    rendered_prefix(text, evs, text.len()) + tags_at(evs, text.len() as int)
}

/// A formatted text as text with inline markup. The events are taken by
/// ascending position; those at one position keep the order of their
/// spans.
pub open spec fn render(ft: FormattedText) -> Seq<char> {
    rendered(ft.text@, ordered(events_of(ft.entities@)))
}

/// The events lie in ascending order of their positions.
pub open spec fn ascending(evs: Seq<Event>) -> bool {
    forall|i: int, j: int|
        0 <= i < j < evs.len() ==> (#[trigger] evs[i]).pos <= (#[trigger] evs[j]).pos
}

proof fn lemma_insert_at(s: Seq<Event>, e: Event, idx: int)
    requires
        0 <= idx <= s.len(),
        forall|j: int| idx <= j < s.len() ==> s[j].pos > e.pos,
        idx > 0 ==> s[idx - 1].pos <= e.pos,
    ensures
        insert_event(s, e) == s.insert(idx, e),
    decreases s.len(),
{
    if s.len() == 0 {
        assert(s.insert(idx, e) =~= seq![e]);
    } else if idx == s.len() {
        assert(s.insert(idx, e) =~= s.push(e));
    } else {
        lemma_insert_at(s.drop_last(), e, idx);
        assert(s.insert(idx, e) =~= s.drop_last().insert(idx, e).push(s.last()));
    }
}

fn insert_sorted(v: &mut Vec<TagEvent>, e: TagEvent)
    ensures
        event_views(final(v)@) == insert_event(event_views(old(v)@), e@),
{
    let mut idx: usize = v.len();
    while idx > 0 && v[idx - 1].pos > e.pos
        invariant
            idx <= v@.len(),
            v@ == old(v)@,
            forall|j: int| idx <= j < v@.len() ==> v@[j].pos > e.pos,
        decreases idx,
    {
        idx -= 1;
    }
    proof {
        let s = event_views(v@);
        lemma_insert_at(s, e@, idx as int);
        assert(event_views(v@.insert(idx as int, e)) =~= s.insert(idx as int, e@));
    }
    v.insert(idx, e);
}

proof fn lemma_events_of_push(entities: Seq<TextEntity>, i: int)
    requires
        0 <= i < entities.len(),
    ensures
        events_of(entities.subrange(0, i + 1)) == events_of(entities.subrange(0, i))
            + entity_events(entities[i]),
{
    assert(entities.subrange(0, i + 1).drop_last() =~= entities.subrange(0, i));
}

proof fn lemma_ordered_push(evs: Seq<Event>, e: Event)
    ensures
        ordered(evs.push(e)) == insert_event(ordered(evs), e),
{
    assert(evs.push(e).drop_last() =~= evs);
}

/// The events of the spans, ready to be written: by ascending position.
pub fn make_entities_stack(entities: &Vec<TextEntity>) -> (stack: Vec<TagEvent>)
    ensures
        event_views(stack@) == ordered(events_of(entities@)),
{
    let mut stack: Vec<TagEvent> = Vec::new();
    let mut i: usize = 0;
    assert(event_views(stack@) =~= ordered(events_of(entities@.subrange(0, 0))));
    while i < entities.len()
        invariant
            i <= entities@.len(),
            event_views(stack@) == ordered(events_of(entities@.subrange(0, i as int))),
        decreases entities@.len() - i,
    {
        let entity = &entities[i];
        proof {
            lemma_events_of_push(entities@, i as int);
        }
        match tags_for(&entity.type_) {
            Some((start_tag, end_tag)) => {
                let ghost before = events_of(entities@.subrange(0, i as int));
                let ghost first = Event { pos: entity.offset as int, tag: start_tag@ };
                let ghost second = Event { pos: entity.offset + entity.length, tag: end_tag@ };
                insert_sorted(&mut stack, TagEvent { pos: entity.offset as i128, tag: start_tag });
                insert_sorted(
                    &mut stack,
                    TagEvent { pos: entity.offset as i128 + entity.length as i128, tag: end_tag },
                );
                proof {
                    lemma_ordered_push(before, first);
                    lemma_ordered_push(before.push(first), second);
                    assert(before + entity_events(*entity) =~= before.push(first).push(second));
                }
            },
            None => {
                assert(events_of(entities@.subrange(0, i as int)) + entity_events(*entity)
                    =~= events_of(entities@.subrange(0, i as int)));
            },
        }
        i += 1;
    }
    assert(entities@.subrange(0, i as int) =~= entities@);
    stack
}

proof fn lemma_insert_ascending(s: Seq<Event>, e: Event)
    requires
        ascending(s),
    ensures
        ascending(insert_event(s, e)),
        forall|k: int|
            0 <= k < insert_event(s, e).len() ==> #[trigger] insert_event(s, e)[k] == e
                || s.contains(insert_event(s, e)[k]),
    decreases s.len(),
{
    let after = insert_event(s, e);
    if s.len() == 0 {
    } else if s.last().pos <= e.pos {
        assert forall|i: int, j: int| 0 <= i < j < after.len() implies (#[trigger] after[i]).pos
            <= (#[trigger] after[j]).pos by {
            if j < s.len() {
                assert(after[i] == s[i] && after[j] == s[j]);
            } else {
                assert(after[i] == s[i]);
                assert(s[i].pos <= s[s.len() - 1].pos);
            }
        }
        assert forall|k: int| 0 <= k < after.len() implies #[trigger] after[k] == e || s.contains(
            after[k],
        ) by {
            if k < s.len() {
                assert(s[k] == after[k]);
            }
        }
    } else {
        let front = s.drop_last();
        assert forall|i: int, j: int| 0 <= i < j < front.len() implies (#[trigger] front[i]).pos
            <= (#[trigger] front[j]).pos by {
            assert(front[i] == s[i] && front[j] == s[j]);
        }
        lemma_insert_ascending(front, e);
        let rest = insert_event(front, e);
        assert(after == rest.push(s.last()));
        assert forall|k: int| 0 <= k < after.len() implies #[trigger] after[k] == e || s.contains(
            after[k],
        ) by {
            if k < rest.len() {
                assert(after[k] == rest[k]);
                if rest[k] != e {
                    let m = choose|m: int| 0 <= m < front.len() && front[m] == rest[k];
                    assert(s[m] == rest[k]);
                }
            } else {
                assert(s[s.len() - 1] == after[k]);
            }
        }
        assert forall|i: int, j: int| 0 <= i < j < after.len() implies (#[trigger] after[i]).pos
            <= (#[trigger] after[j]).pos by {
            if j < rest.len() {
                assert(after[i] == rest[i] && after[j] == rest[j]);
            } else {
                assert(after[i] == rest[i]);
                if rest[i] != e {
                    let m = choose|m: int| 0 <= m < front.len() && front[m] == rest[i];
                    assert(s[m].pos <= s[s.len() - 1].pos);
                }
            }
        }
    }
}

/// Put in order, the events lie in ascending order.
pub proof fn lemma_ordered_ascending(evs: Seq<Event>)
    ensures
        ascending(ordered(evs)),
    decreases evs.len(),
{
    if evs.len() > 0 {
        lemma_ordered_ascending(evs.drop_last());
        lemma_insert_ascending(ordered(evs.drop_last()), evs.last());
    }
}

/// Where no event lies at a position, no tag is written there.
pub proof fn lemma_tags_at_none(evs: Seq<Event>, i: int)
    requires
        forall|e: int| 0 <= e < evs.len() ==> (#[trigger] evs[e]).pos != i,
    ensures
        tags_at(evs, i) == Seq::<char>::empty(),
    decreases evs.len(),
{
    if evs.len() > 0 {
        assert(evs[evs.len() - 1].pos != i);
        assert forall|e: int| 0 <= e < evs.drop_last().len() implies (
        #[trigger] evs.drop_last()[e]).pos != i by {
            assert(evs.drop_last()[e] == evs[e]);
        }
        lemma_tags_at_none(evs.drop_last(), i);
    }
}

/// The tags at a position are those of the first `k` events, where none
/// of the others lies there.
pub proof fn lemma_tags_at_front(evs: Seq<Event>, k: int, i: int)
    requires
        0 <= k <= evs.len(),
        forall|e: int| k <= e < evs.len() ==> (#[trigger] evs[e]).pos != i,
    ensures
        tags_at(evs, i) == tags_at(evs.subrange(0, k), i),
    decreases evs.len(),
{
    if k < evs.len() {
        assert(evs[evs.len() - 1].pos != i);
        assert forall|e: int| k <= e < evs.drop_last().len() implies (
        #[trigger] evs.drop_last()[e]).pos != i by {
            assert(evs.drop_last()[e] == evs[e]);
        }
        lemma_tags_at_front(evs.drop_last(), k, i);
        assert(evs.drop_last().subrange(0, k) =~= evs.subrange(0, k));
    } else {
        assert(evs.subrange(0, k) =~= evs);
    }
}

/// Without events the output is the text.
pub proof fn lemma_rendered_without_events(text: Seq<char>, i: nat)
    requires
        i <= text.len(),
    ensures
        rendered_prefix(text, Seq::empty(), i) == text.subrange(0, i as int),
    decreases i,
{
    if i > 0 {
        lemma_rendered_without_events(text, (i - 1) as nat);
        assert(text.subrange(0, i as int) =~= text.subrange(0, i - 1) + seq![text[i - 1]]);
    } else {
        assert(text.subrange(0, 0) =~= Seq::<char>::empty());
    }
}

/// Where no tag is written at the positions between `i` and `j`, the
/// characters from `i` up to `j` follow the tags at `i` as they are.
pub proof fn lemma_rendered_run(text: Seq<char>, evs: Seq<Event>, i: nat, j: nat)
    requires
        i < j <= text.len(),
        forall|m: int| i < m < j ==> #[trigger] tags_at(evs, m) == Seq::<char>::empty(),
    ensures
        rendered_prefix(text, evs, j) == rendered_prefix(text, evs, i) + tags_at(evs, i as int)
            + text.subrange(i as int, j as int),
    decreases j,
{
    if j == i + 1 {
        assert(text.subrange(i as int, j as int) =~= seq![text[i as int]]);
    } else {
        lemma_rendered_run(text, evs, i, (j - 1) as nat);
        assert(tags_at(evs, j - 1) == Seq::<char>::empty());
        assert(text.subrange(i as int, j as int) =~= text.subrange(i as int, j - 1) + seq![
            text[j - 1],
        ]);
    }
}

/// Renders a formatted text: the text itself, with the opening tag of each
/// span written in front of the character at the span's offset and its
/// closing tag in front of the character at the span's end, or at the end
/// of the text where the span ends there. The tags at one position stand
/// in the order of their spans. A tag whose position lies outside the text
/// is not written. A text without spans is returned as it is.
pub fn parse_formatted_text(formatted_text: &FormattedText) -> (result_text: String)
    ensures
        result_text@ == render(*formatted_text),
{
    let events = make_entities_stack(&formatted_text.entities);
    let text = formatted_text.text.as_str();
    let n = text.unicode_len();
    let ghost evs = event_views(events@);
    if events.len() == 0 {
        proof {
            assert(evs =~= Seq::<Event>::empty());
            lemma_rendered_without_events(text@, n as nat);
            assert(text@.subrange(0, n as int) =~= text@);
        }
        return formatted_text.text.clone();
    }
    proof {
        lemma_ordered_ascending(events_of(formatted_text.entities@));
    }
    let mut k: usize = 0;
    while k < events.len() && events[k].pos < 0
        invariant
            k <= events@.len(),
            evs == event_views(events@),
            forall|e: int| 0 <= e < k ==> (#[trigger] evs[e]).pos < 0,
        decreases events@.len() - k,
    {
        k += 1;
    }
    let mut result_text = String::new();
    let mut i: usize = 0;
    proof {
        let front = evs.subrange(0, k as int);
        assert forall|e: int| 0 <= e < front.len() implies (#[trigger] front[e]).pos != 0 by {
            assert(front[e] == evs[e]);
        }
        lemma_tags_at_none(front, 0);
    }
    while k < events.len() && events[k].pos <= n as i128
        invariant
            n == text@.len(),
            i <= n,
            text@ == formatted_text.text@,
            evs == event_views(events@),
            evs == ordered(events_of(formatted_text.entities@)),
            ascending(evs),
            k <= events@.len(),
            forall|e: int| 0 <= e < k ==> (#[trigger] evs[e]).pos <= i,
            k < events@.len() ==> evs[k as int].pos >= i,
            result_text@ == rendered_prefix(text@, evs, i as nat) + tags_at(
                evs.subrange(0, k as int),
                i as int,
            ),
        decreases events@.len() - k,
    {
        let at: usize = events[k].pos as usize;
        let ghost front = evs.subrange(0, k as int);
        assert forall|e: int| 0 <= e < front.len() implies (#[trigger] front[e]).pos <= i by {
            assert(front[e] == evs[e]);
        }
        if at > i {
            result_text.append(text.substring_char(i, at));
            proof {
                assert forall|m: int| i < m < at implies #[trigger] tags_at(evs, m) == Seq::<
                    char,
                >::empty() by {
                    assert forall|e: int| 0 <= e < evs.len() implies (#[trigger] evs[e]).pos
                        != m by {
                        if e >= k {
                            assert(evs[k as int].pos <= evs[e].pos);
                        }
                    }
                    lemma_tags_at_none(evs, m);
                }
                lemma_rendered_run(text@, evs, i as nat, at as nat);
                assert forall|e: int| k <= e < evs.len() implies (#[trigger] evs[e]).pos != i by {
                    assert(evs[k as int].pos <= evs[e].pos);
                }
                lemma_tags_at_front(evs, k as int, i as int);
                lemma_tags_at_none(front, at as int);
            }
            i = at;
        }
        result_text.append(events[k].tag.as_str());
        proof {
            let longer = evs.subrange(0, k + 1);
            assert(longer.drop_last() =~= front);
            assert(longer.last() == evs[k as int]);
        }
        k += 1;
    }
    result_text.append(text.substring_char(i, n));
    proof {
        let front = evs.subrange(0, k as int);
        assert forall|e: int| k <= e < evs.len() implies (#[trigger] evs[e]).pos > n by {
            assert(evs[k as int].pos <= evs[e].pos);
        }
        if i < n {
            assert forall|m: int| i < m < n implies #[trigger] tags_at(evs, m) == Seq::<
                char,
            >::empty() by {
                lemma_tags_at_none(evs, m);
            }
            lemma_rendered_run(text@, evs, i as nat, n as nat);
            lemma_tags_at_front(evs, k as int, i as int);
            lemma_tags_at_none(evs, n as int);
        } else {
            lemma_tags_at_front(evs, k as int, n as int);
            assert(text@.subrange(i as int, n as int) =~= Seq::<char>::empty());
        }
    }
    result_text
}

/// The name of the kind of a message content that is never turned into a
/// record, `None` for every other content.
pub open spec fn unsupported_name(message: MessageContent) -> Option<Seq<char>> {
    match message {
        MessageContent::MessageChatChangePhoto => Some("messageChatChangePhoto"@),
        MessageContent::MessagePoll => Some("messagePoll"@),
        MessageContent::MessageChatChangeTitle => Some("messageChatChangeTitle"@),
        MessageContent::MessageChatDeletePhoto => Some("messageChatDeletePhoto"@),
        MessageContent::MessageChatJoinByLink => Some("messageChatJoinByLink"@),
        MessageContent::MessageChatUpgradeFrom => Some("messageChatUpgradeFrom"@),
        MessageContent::MessageChatUpgradeTo => Some("messageChatUpgradeTo"@),
        MessageContent::MessageContact => Some("messageContact"@),
        MessageContent::MessageContactRegistered => Some("messageContactRegistered"@),
        MessageContent::MessageCustomServiceAction => Some("messageCustomServiceAction"@),
        MessageContent::MessageExpiredPhoto => Some("messageExpiredPhoto"@),
        MessageContent::MessageExpiredVideo => Some("messageExpiredVideo"@),
        MessageContent::MessageInvoice => Some("messageInvoice"@),
        MessageContent::MessageLocation => Some("messageLocation"@),
        MessageContent::MessagePassportDataReceived => Some("messagePassportDataReceived"@),
        MessageContent::MessageScreenshotTaken => Some("messageScreenshotTaken"@),
        MessageContent::MessageSupergroupChatCreate => Some("messageSupergroupChatCreate"@),
        MessageContent::MessageVenue => Some("messageVenue"@),
        MessageContent::MessageVideoNote => Some("messageVideoNote"@),
        MessageContent::MessageVoiceNote => Some("messageVoiceNote"@),
        MessageContent::MessageWebsiteConnected => Some("messageWebsiteConnected"@),
        _ => None,
    }
}

/// The text of a message content: its text or its caption, rendered. A
/// sticker and the events that are passed over have none.
pub open spec fn content_text(message: MessageContent) -> Option<Seq<char>> {
    match message {
        MessageContent::MessageText(text) => Some(render(text)),
        MessageContent::MessageAnimation { caption, .. } => Some(render(caption)),
        MessageContent::MessageAudio { caption } => Some(render(caption)),
        MessageContent::MessageDocument { caption, .. } => Some(render(caption)),
        MessageContent::MessagePhoto { caption, .. } => Some(render(caption)),
        MessageContent::MessageVideo { caption } => Some(render(caption)),
        _ => None,
    }
}

/// What is known of the shape of an animation.
pub open spec fn animation_meta(animation: Animation) -> AnimationMetaView {
    AnimationMetaView {
        duration: animation.duration as int,
        width: animation.width as int,
        height: animation.height as int,
        mime_type: animation.mime_type@,
    }
}

/// The file of an animation.
pub open spec fn animation_file(animation: Animation) -> TelegramFileWithMetaView {
    TelegramFileWithMetaView {
        path: FilePath::spec_new(animation.animation),
        file_type: FileTypeView::Animation(animation_meta(animation)),
        file_name: Some(animation.file_name@),
    }
}

/// The file of a document.
pub open spec fn document_file(document: Document) -> TelegramFileWithMetaView {
    TelegramFileWithMetaView {
        path: FilePath::spec_new(document.document),
        file_type: FileTypeView::Document,
        file_name: Some(document.file_name@),
    }
}

/// The file of one size of a photo.
pub open spec fn photo_file(size: PhotoSize) -> TelegramFileWithMetaView {
    TelegramFileWithMetaView {
        path: FilePath::spec_new(size.photo),
        file_type: FileTypeView::Image(ImageMeta { width: size.width, height: size.height }),
        file_name: None,
    }
}

/// The file of a sticker.
pub open spec fn sticker_file(sticker: Sticker) -> TelegramFileWithMetaView {
    TelegramFileWithMetaView {
        path: FilePath::spec_new(sticker.sticker),
        file_type: FileTypeView::Image(ImageMeta { width: sticker.width, height: sticker.height }),
        file_name: None,
    }
}

/// The files of a message content: the animation, the document, the
/// sticker, or one file for each size of a photo.
pub open spec fn content_files(message: MessageContent) -> Option<Seq<TelegramFileWithMetaView>> {
    match message {
        MessageContent::MessageAnimation { animation, .. } => Some(seq![animation_file(animation)]),
        MessageContent::MessageDocument { document, .. } => Some(seq![document_file(document)]),
        MessageContent::MessagePhoto { sizes, .. } => Some(
            Seq::new(sizes@.len(), |i: int| photo_file(sizes@[i])),
        ),
        MessageContent::MessageSticker(sticker) => Some(seq![sticker_file(sticker)]),
        _ => None,
    }
}

fn not_supported(name: &str) -> (r: Result<
    (Option<String>, Option<Vec<TelegramFileWithMeta>>),
    Error,
>)
    ensures
        r matches Err(e) && e is UpdateNotSupported && e.detail() == name@,
{
    Err(Error::UpdateNotSupported(name.to_owned()))
}

fn photo_files(sizes: &Vec<PhotoSize>) -> (files: Vec<TelegramFileWithMeta>)
    ensures
        files@.len() == sizes@.len(),
        forall|i: int| 0 <= i < sizes@.len() ==> (#[trigger] files@[i])@ == photo_file(sizes@[i]),
{
    let mut files: Vec<TelegramFileWithMeta> = Vec::new();
    let mut i: usize = 0;
    while i < sizes.len()
        invariant
            i <= sizes@.len(),
            files@.len() == i,
            forall|j: int| 0 <= j < i ==> (#[trigger] files@[j])@ == photo_file(sizes@[j]),
        decreases sizes@.len() - i,
    {
        let size = &sizes[i];
        files.push(
            TelegramFileWithMeta {
                file_type: FileType::Image(ImageMeta::from(size)),
                path: FilePath::new(&size.photo),
                file_name: None,
            },
        );
        i += 1;
    }
    files
}

/// Parses the content of a message into its text and its files. A content
/// that is never turned into a record is refused with the name of its
/// kind; every other content is parsed.
pub fn parse_message_content(message: &MessageContent) -> (r: Result<
    (Option<String>, Option<Vec<TelegramFileWithMeta>>),
    Error,
>)
    ensures
        match r {
            Ok((text, files)) => {
                &&& unsupported_name(*message) is None
                &&& opt_text(text) == content_text(*message)
                &&& files_view(files) == content_files(*message)
            },
            Err(e) => {
                &&& e is UpdateNotSupported
                &&& unsupported_name(*message) == Some(e.detail())
            },
        },
{
    match message {
        MessageContent::MessageText(text) => Ok((Some(parse_formatted_text(text)), None)),
        MessageContent::MessageAnimation { animation, caption } => {
            let file = TelegramFileWithMeta {
                path: FilePath::new(&animation.animation),
                file_type: FileType::Animation(AnimationMeta::from(animation)),
                file_name: Some(animation.file_name.clone()),
            };
            let files = vec![file];
            assert(files_view(Some(files)).unwrap() =~= seq![animation_file(*animation)]);
            Ok((Some(parse_formatted_text(caption)), Some(files)))
        },
        MessageContent::MessageAudio { caption } => Ok((Some(parse_formatted_text(caption)), None)),
        MessageContent::MessageDocument { document, caption } => {
            let file = TelegramFileWithMeta {
                path: FilePath::new(&document.document),
                file_type: FileType::Document,
                file_name: Some(document.file_name.clone()),
            };
            let files = vec![file];
            assert(files_view(Some(files)).unwrap() =~= seq![document_file(*document)]);
            Ok((Some(parse_formatted_text(caption)), Some(files)))
        },
        MessageContent::MessagePhoto { sizes, caption } => {
            let files = photo_files(sizes);
            assert(files_view(Some(files)).unwrap() =~= Seq::new(
                sizes@.len(),
                |i: int| photo_file(sizes@[i]),
            ));
            Ok((Some(parse_formatted_text(caption)), Some(files)))
        },
        MessageContent::MessageVideo { caption } => Ok((Some(parse_formatted_text(caption)), None)),
        MessageContent::MessageChatChangePhoto => not_supported("messageChatChangePhoto"),
        MessageContent::MessagePoll => not_supported("messagePoll"),
        MessageContent::MessageChatChangeTitle => not_supported("messageChatChangeTitle"),
        MessageContent::MessageChatDeletePhoto => not_supported("messageChatDeletePhoto"),
        MessageContent::MessageChatJoinByLink => not_supported("messageChatJoinByLink"),
        MessageContent::MessageChatUpgradeFrom => not_supported("messageChatUpgradeFrom"),
        MessageContent::MessageChatUpgradeTo => not_supported("messageChatUpgradeTo"),
        MessageContent::MessageContact => not_supported("messageContact"),
        MessageContent::MessageContactRegistered => not_supported("messageContactRegistered"),
        MessageContent::MessageCustomServiceAction => not_supported("messageCustomServiceAction"),
        MessageContent::MessageExpiredPhoto => not_supported("messageExpiredPhoto"),
        MessageContent::MessageExpiredVideo => not_supported("messageExpiredVideo"),
        MessageContent::MessageInvoice => not_supported("messageInvoice"),
        MessageContent::MessageLocation => not_supported("messageLocation"),
        MessageContent::MessagePassportDataReceived => not_supported(
            "messagePassportDataReceived",
        ),
        MessageContent::MessageScreenshotTaken => not_supported("messageScreenshotTaken"),
        MessageContent::MessageSticker(sticker) => {
            let file = TelegramFileWithMeta {
                path: FilePath::new(&sticker.sticker),
                file_type: FileType::Image(ImageMeta::from(sticker)),
                file_name: None,
            };
            let files = vec![file];
            assert(files_view(Some(files)).unwrap() =~= seq![sticker_file(*sticker)]);
            Ok((None, Some(files)))
        },
        MessageContent::MessageSupergroupChatCreate => not_supported(
            "messageSupergroupChatCreate",
        ),
        MessageContent::MessageVenue => not_supported("messageVenue"),
        MessageContent::MessageVideoNote => not_supported("messageVideoNote"),
        MessageContent::MessageVoiceNote => not_supported("messageVoiceNote"),
        MessageContent::MessageWebsiteConnected => not_supported("messageWebsiteConnected"),
        MessageContent::Other => Ok((None, None)),
        MessageContent::MessageBasicGroupChatCreate => Ok((None, None)),
        MessageContent::MessageCall => Ok((None, None)),
        MessageContent::MessageChatAddMembers => Ok((None, None)),
        MessageContent::MessageChatDeleteMember => Ok((None, None)),
        MessageContent::MessageChatSetTtl => Ok((None, None)),
        MessageContent::MessageGame => Ok((None, None)),
        MessageContent::MessageGameScore => Ok((None, None)),
        MessageContent::MessagePassportDataSent => Ok((None, None)),
        MessageContent::MessagePaymentSuccessful => Ok((None, None)),
        MessageContent::MessagePaymentSuccessfulBot => Ok((None, None)),
        MessageContent::MessagePinMessage => Ok((None, None)),
        MessageContent::MessageUnsupported => Ok((None, None)),
    }
}

/// The message update that a content gives: none where the content has
/// neither text nor files.
pub open spec fn message_update(
    message_id: int,
    chat_id: int,
    date: Option<int>,
    content: MessageContent,
) -> Option<TelegramUpdateView> {
    if content_text(content) is None && content_files(content) is None {
        None
    } else {
        Some(
            TelegramUpdateView::Message(
                TelegramMessageView {
                    message_id,
                    chat_id,
                    date,
                    content: content_text(content),
                    files: content_files(content),
                },
            ),
        )
    }
}

/// The name of the kind of an update that is refused, `None` for an update
/// that is parsed.
pub open spec fn refused_update_name(update: TgUpdate) -> Option<Seq<char>> {
    match update {
        TgUpdate::FileDownloaded(_) => None,
        TgUpdate::NewMessage(message) => unsupported_name(message.content),
        TgUpdate::MessageContent { new_content, .. } => unsupported_name(new_content),
        TgUpdate::ChatPhoto => Some("updateChatPhoto"@),
        TgUpdate::ChatTitle => Some("updateChatTitle"@),
    }
}

/// What an update of the chat network becomes.
pub open spec fn parsed_update(update: TgUpdate) -> Option<TelegramUpdateView> {
    match update {
        TgUpdate::FileDownloaded(file) => Some(
            TelegramUpdateView::FileDownloadFinished(
                TelegramFileView {
                    local_path: file.local_path@,
                    remote_file: decimal_text(file.id as int),
                    remote_id: file.unique_id@,
                },
            ),
        ),
        TgUpdate::NewMessage(message) => message_update(
            message.id as int,
            message.chat_id as int,
            Some(message.date as int),
            message.content,
        ),
        TgUpdate::MessageContent { chat_id, message_id, new_content } => message_update(
            message_id as int,
            chat_id as int,
            None,
            new_content,
        ),
        TgUpdate::ChatPhoto => None,
        TgUpdate::ChatTitle => None,
    }
}

fn message_from(
    message_id: i64,
    chat_id: i64,
    date: Option<i64>,
    content: &MessageContent,
) -> (r: Result<Option<TelegramUpdate>, Error>)
    ensures
        match r {
            Ok(Some(update)) => unsupported_name(*content) is None && Some(update@)
                == message_update(
                message_id as int,
                chat_id as int,
                match date {
                    Some(d) => Some(d as int),
                    None => None,
                },
                *content,
            ),
            Ok(None) => unsupported_name(*content) is None && message_update(
                message_id as int,
                chat_id as int,
                match date {
                    Some(d) => Some(d as int),
                    None => None,
                },
                *content,
            ) is None,
            Err(e) => e is UpdateNotSupported && unsupported_name(*content) == Some(e.detail()),
        },
{
    match parse_message_content(content) {
        Ok((content, files)) => {
            if content.is_none() && files.is_none() {
                Ok(None)
            } else {
                Ok(
                    Some(
                        TelegramUpdate::Message(
                            TelegramMessage { message_id, chat_id, date, content, files },
                        ),
                    ),
                )
            }
        },
        Err(e) => Err(e),
    }
}

/// Parses one update of the chat network. A finished download and a
/// message with text or files become an update of this library; a message
/// with neither becomes none; a change of a chat's photo or title, and a
/// message whose content is never turned into a record, are refused with
/// the name of the kind.
pub fn parse_update(tg_update: &TgUpdate) -> (r: Result<Option<TelegramUpdate>, Error>)
    ensures
        match r {
            Ok(Some(update)) => refused_update_name(*tg_update) is None && Some(update@)
                == parsed_update(*tg_update),
            Ok(None) => refused_update_name(*tg_update) is None && parsed_update(*tg_update)
                is None,
            Err(e) => e is UpdateNotSupported && refused_update_name(*tg_update) == Some(
                e.detail(),
            ),
        },
{
    match tg_update {
        TgUpdate::FileDownloaded(file) => Ok(
            Some(
                TelegramUpdate::FileDownloadFinished(
                    TelegramFile {
                        local_path: file.local_path.clone(),
                        remote_file: i64_to_string(file.id),
                        remote_id: file.unique_id.clone(),
                    },
                ),
            ),
        ),
        TgUpdate::NewMessage(message) => message_from(
            message.id,
            message.chat_id,
            Some(message.date),
            &message.content,
        ),
        TgUpdate::MessageContent { chat_id, message_id, new_content } => message_from(
            *message_id,
            *chat_id,
            None,
            new_content,
        ),
        TgUpdate::ChatPhoto => Err(Error::UpdateNotSupported("updateChatPhoto".to_owned())),
        TgUpdate::ChatTitle => Err(Error::UpdateNotSupported("updateChatTitle".to_owned())),
    }
}

/// The source that stands for a channel: its chat's number as origin, its
/// user name as link, its title as name.
pub open spec fn channel_source(channel: Channel) -> NewSourceView {
    NewSourceView {
        name: channel.title@,
        origin: decimal_text(channel.chat_id as int),
        kind: TELEGRAM@,
        image: None,
        external_link: channel.username@,
    }
}

/// The source that stands for a channel.
pub fn channel_to_new_source(channel: Channel) -> (source: NewSource)
    ensures
        source@ == channel_source(channel),
{
    NewSource {
        name: channel.title,
        origin: i64_to_string(channel.chat_id),
        kind: TELEGRAM.to_owned(),
        image: None,
        external_link: channel.username,
    }
}

} // verus!
