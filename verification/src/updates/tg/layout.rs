//! Where the text and the tags lie in what the parser renders.

use crate::updates::tg::content::{FormattedText, TextEntity};
use crate::updates::tg::parsers::{
    ascending, entity_events, events_of, insert_event, lemma_rendered_run,
    lemma_rendered_without_events, lemma_tags_at_front, lemma_tags_at_none, ordered, render,
    rendered, rendered_prefix, tag_pair, tags_at, Event,
};
use vstd::prelude::*;

verus! {

/// Whether a span is written out.
pub open spec fn is_written(e: TextEntity) -> bool {
    tag_pair(e.type_) is Some
}

/// A text without spans that are written out renders as itself.
pub proof fn lemma_render_plain(ft: FormattedText)
    requires
        forall|i: int| 0 <= i < ft.entities@.len() ==> !is_written(#[trigger] ft.entities@[i]),
    ensures
        render(ft) == ft.text@,
{
    lemma_no_events(ft.entities@);
    lemma_rendered_without_events(ft.text@, ft.text@.len());
    assert(ft.text@.subrange(0, ft.text@.len() as int) =~= ft.text@);
}

proof fn lemma_no_events(entities: Seq<TextEntity>)
    requires
        forall|i: int| 0 <= i < entities.len() ==> !is_written(#[trigger] entities[i]),
    ensures
        events_of(entities) == Seq::<Event>::empty(),
        ordered(events_of(entities)) == Seq::<Event>::empty(),
    decreases entities.len(),
{
    if entities.len() > 0 {
        lemma_no_events(entities.drop_last());
        assert(!is_written(entities[entities.len() - 1]));
        assert(events_of(entities) =~= Seq::<Event>::empty());
    }
}

/// How many characters of tags are written in front of the characters
/// before index `i`.
pub open spec fn written_before(evs: Seq<Event>, i: nat) -> nat
    decreases i,
{
    if i == 0 {
        0
    } else {
        written_before(evs, (i - 1) as nat) + tags_at(evs, i - 1).len()
    }
}

proof fn lemma_written_before_monotonic(evs: Seq<Event>, i: nat, j: nat)
    requires
        i <= j,
    ensures
        written_before(evs, i) <= written_before(evs, j),
    decreases j,
{
    if i < j {
        lemma_written_before_monotonic(evs, i, (j - 1) as nat);
    }
}

/// Where the text lies in the output for its first `i` characters: each
/// of them stands at its index plus the length of the tags written up to
/// it, and the output is as long as these characters and tags together.
pub proof fn lemma_prefix_layout(text: Seq<char>, evs: Seq<Event>, i: nat)
    requires
        i <= text.len(),
    ensures
        rendered_prefix(text, evs, i).len() == i + written_before(evs, i),
        forall|c: int|
            0 <= c < i ==> #[trigger] rendered_prefix(text, evs, i)[c + written_before(
                evs,
                (c + 1) as nat,
            )] == text[c],
    decreases i,
{
    if i > 0 {
        let p = (i - 1) as nat;
        lemma_prefix_layout(text, evs, p);
        let before = rendered_prefix(text, evs, p);
        let out = rendered_prefix(text, evs, i);
        assert(out == before + tags_at(evs, p as int) + seq![text[p as int]]);
        assert forall|c: int| 0 <= c < i implies #[trigger] out[c + written_before(
            evs,
            (c + 1) as nat,
        )] == text[c] by {
            if c < p {
                lemma_written_before_monotonic(evs, (c + 1) as nat, p);
                assert(before[c + written_before(evs, (c + 1) as nat)] == text[c]);
            }
        }
    }
}

/// Taking the tags out of the output gives the text back, whatever the
/// spans: the output is as long as the text and the written tags together,
/// and each character of the text stands in it at its index plus the length
/// of the tags written up to it.
pub proof fn lemma_text_survives(ft: FormattedText)
    ensures
        ({
            let evs = ordered(events_of(ft.entities@));
            let text = ft.text@;
            &&& render(ft).len() == text.len() + written_before(evs, text.len() + 1)
            &&& forall|c: int|
                0 <= c < text.len() ==> #[trigger] render(ft)[c + written_before(
                    evs,
                    (c + 1) as nat,
                )] == text[c]
        }),
{
    let evs = ordered(events_of(ft.entities@));
    let text = ft.text@;
    lemma_prefix_layout(text, evs, text.len());
    let inner = rendered_prefix(text, evs, text.len());
    assert forall|c: int| 0 <= c < text.len() implies #[trigger] render(ft)[c + written_before(
        evs,
        (c + 1) as nat,
    )] == text[c] by {
        lemma_written_before_monotonic(evs, (c + 1) as nat, text.len());
        assert(inner[c + written_before(evs, (c + 1) as nat)] == text[c]);
    }
}

/// The spans that are written out lie in order inside a text of `len`
/// characters: each begins in the text, holds a character at least and ends
/// in the text or at its end, and of any two the one that is named first
/// ends where the other begins, or before. Such spans do not overlap; they
/// may touch, and the last may reach the end of the text.
pub open spec fn spans_in_order(entities: Seq<TextEntity>, len: nat) -> bool {
    &&& forall|i: int|
        0 <= i < entities.len() && is_written(#[trigger] entities[i]) ==> 0 <= entities[i].offset
            && entities[i].length >= 1 && entities[i].offset + entities[i].length <= len
    &&& forall|i: int, j: int|
        0 <= i < j < entities.len() && is_written(#[trigger] entities[i]) && is_written(
            #[trigger] entities[j],
        ) ==> entities[i].offset + entities[i].length <= entities[j].offset
}

/// The text with the spans woven in, for spans that lie in order: around
/// the last span that is written out, the text up to it with the spans
/// before it woven in, then its opening tag, then exactly the characters of
/// the span, then its closing tag, then the rest of the text as it is.
pub open spec fn woven(text: Seq<char>, entities: Seq<TextEntity>) -> Seq<char>
    decreases entities.len(),
{
    if entities.len() == 0 {
        text
    } else if !is_written(entities.last()) {
        woven(text, entities.drop_last())
    } else {
        let e = entities.last();
        woven(text.subrange(0, e.offset as int), entities.drop_last()) + tag_pair(
            e.type_,
        ).unwrap().0 + text.subrange(e.offset as int, e.offset + e.length) + tag_pair(
            e.type_,
        ).unwrap().1 + text.subrange(e.offset + e.length, text.len() as int)
    }
}

/// The total length of the tags of the spans that are written out.
pub open spec fn tags_total(entities: Seq<TextEntity>) -> nat
    decreases entities.len(),
{
    if entities.len() == 0 {
        0
    } else if !is_written(entities.last()) {
        tags_total(entities.drop_last())
    } else {
        tags_total(entities.drop_last()) + tag_pair(entities.last().type_).unwrap().0.len()
            + tag_pair(entities.last().type_).unwrap().1.len()
    }
}

proof fn lemma_in_order_front(entities: Seq<TextEntity>, len: nat, bound: nat)
    requires
        entities.len() > 0,
        spans_in_order(entities, len),
        bound <= len,
        forall|i: int|
            0 <= i < entities.len() - 1 && is_written(#[trigger] entities[i]) ==> entities[i].offset
                + entities[i].length <= bound,
    ensures
        spans_in_order(entities.drop_last(), bound),
{
    let front = entities.drop_last();
    assert forall|i: int| 0 <= i < front.len() && is_written(#[trigger] front[i]) implies 0
        <= front[i].offset && front[i].length >= 1 && front[i].offset + front[i].length
        <= bound by {
        assert(front[i] == entities[i]);
    }
    assert forall|i: int, j: int|
        0 <= i < j < front.len() && is_written(#[trigger] front[i]) && is_written(
            #[trigger] front[j],
        ) implies front[i].offset + front[i].length <= front[j].offset by {
        assert(front[i] == entities[i] && front[j] == entities[j]);
    }
}

proof fn lemma_in_order_events(entities: Seq<TextEntity>, len: nat)
    requires
        spans_in_order(entities, len),
    ensures
        ascending(events_of(entities)),
        forall|k: int|
            0 <= k < events_of(entities).len() ==> 0 <= (#[trigger] events_of(entities)[k]).pos
                <= len,
    decreases entities.len(),
{
    if entities.len() > 0 {
        let front = entities.drop_last();
        let e = entities.last();
        let n = entities.len() - 1;
        assert(entities[n] == e);
        let evs = events_of(entities);
        let head = events_of(front);
        if is_written(e) {
            let bound = e.offset as nat;
            assert forall|i: int| 0 <= i < n && is_written(#[trigger] entities[i]) implies
                entities[i].offset + entities[i].length <= bound by {
                assert(is_written(entities[n]));
            }
            lemma_in_order_front(entities, len, bound);
            lemma_in_order_events(front, bound);
            let tail = entity_events(e);
            assert(evs == head + tail);
            assert forall|k: int| 0 <= k < evs.len() implies 0 <= (#[trigger] evs[k]).pos
                <= len by {
                if k < head.len() {
                    assert(evs[k] == head[k]);
                } else {
                    assert(evs[k] == tail[k - head.len()]);
                }
            }
            assert forall|i: int, j: int| 0 <= i < j < evs.len() implies (#[trigger] evs[i]).pos
                <= (#[trigger] evs[j]).pos by {
                if j < head.len() {
                    assert(evs[i] == head[i] && evs[j] == head[j]);
                } else if i < head.len() {
                    assert(evs[i] == head[i]);
                    assert(evs[j] == tail[j - head.len()]);
                } else {
                    assert(evs[i] == tail[i - head.len()]);
                    assert(evs[j] == tail[j - head.len()]);
                }
            }
        } else {
            lemma_in_order_front(entities, len, len);
            lemma_in_order_events(front, len);
            assert(evs =~= head);
        }
    }
}

/// Events that lie in ascending order are in order as they are.
pub proof fn lemma_ordered_of_ascending(evs: Seq<Event>)
    requires
        ascending(evs),
    ensures
        ordered(evs) == evs,
    decreases evs.len(),
{
    if evs.len() > 0 {
        let front = evs.drop_last();
        assert forall|i: int, j: int| 0 <= i < j < front.len() implies (#[trigger] front[i]).pos
            <= (#[trigger] front[j]).pos by {
            assert(front[i] == evs[i] && front[j] == evs[j]);
        }
        lemma_ordered_of_ascending(front);
        if front.len() > 0 {
            assert(front[front.len() - 1] == evs[front.len() - 1]);
            assert(evs[front.len() - 1].pos <= evs[evs.len() - 1].pos);
        }
        assert(insert_event(front, evs.last()) =~= evs);
    }
}

proof fn lemma_prefix_agrees(
    text: Seq<char>,
    evs: Seq<Event>,
    short: Seq<char>,
    fewer: Seq<Event>,
    i: nat,
)
    requires
        i <= text.len(),
        i <= short.len(),
        forall|c: int| 0 <= c < i ==> text[c] == short[c],
        forall|m: int| 0 <= m < i ==> #[trigger] tags_at(evs, m) == tags_at(fewer, m),
    ensures
        rendered_prefix(text, evs, i) == rendered_prefix(short, fewer, i),
    decreases i,
{
    if i > 0 {
        lemma_prefix_agrees(text, evs, short, fewer, (i - 1) as nat);
        assert(tags_at(evs, i - 1) == tags_at(fewer, i - 1));
    }
}

proof fn lemma_woven(text: Seq<char>, entities: Seq<TextEntity>)
    requires
        spans_in_order(entities, text.len()),
    ensures
        rendered(text, events_of(entities)) == woven(text, entities),
        woven(text, entities).len() == text.len() + tags_total(entities),
    decreases entities.len(),
{
    let len = text.len();
    if entities.len() == 0 {
        lemma_rendered_without_events(text, len);
        assert(text.subrange(0, len as int) =~= text);
        assert(rendered(text, events_of(entities)) =~= text);
    } else {
        let front = entities.drop_last();
        let e = entities.last();
        let n = entities.len() - 1;
        assert(entities[n] == e);
        let head = events_of(front);
        let all = events_of(entities);
        if !is_written(e) {
            lemma_in_order_front(entities, len, len);
            lemma_woven(text, front);
            assert(all =~= head);
        } else {
            let a = e.offset as nat;
            let b = (e.offset + e.length) as nat;
            let open = tag_pair(e.type_).unwrap().0;
            let close = tag_pair(e.type_).unwrap().1;
            let o = Event { pos: a as int, tag: open };
            let c = Event { pos: b as int, tag: close };
            let short = text.subrange(0, a as int);
            assert forall|i: int| 0 <= i < n && is_written(#[trigger] entities[i]) implies
                entities[i].offset + entities[i].length <= a by {
                assert(is_written(entities[n]));
            }
            lemma_in_order_front(entities, len, a);
            lemma_woven(short, front);
            lemma_in_order_events(front, a);
            assert(all =~= head.push(o).push(c));
            assert(all.drop_last() =~= head.push(o));
            assert(all.last() == c);
            assert(head.push(o).drop_last() =~= head);
            assert(head.push(o).last() == o);
            assert(all.subrange(0, head.len() as int) =~= head);
            // The characters before the span, with the spans before it.
            assert forall|m: int| 0 <= m < a implies #[trigger] tags_at(all, m) == tags_at(
                head,
                m,
            ) by {
                assert forall|x: int| head.len() <= x < all.len() implies (#[trigger] all[x]).pos
                    != m by {}
                lemma_tags_at_front(all, head.len() as int, m);
            }
            lemma_prefix_agrees(text, all, short, head, a);
            // The tags at the first character of the span.
            assert(tags_at(head.push(o), a as int) == tags_at(head, a as int) + open);
            assert(tags_at(all, a as int) == tags_at(all.drop_last(), a as int));
            assert(tags_at(all, a as int) == tags_at(head, a as int) + open);
            // The characters of the span.
            assert forall|m: int| a < m < b implies #[trigger] tags_at(all, m) == Seq::<
                char,
            >::empty() by {
                assert forall|x: int| 0 <= x < all.len() implies (#[trigger] all[x]).pos != m by {
                    if x < head.len() {
                        assert(all[x] == head[x]);
                    }
                }
                lemma_tags_at_none(all, m);
            }
            lemma_rendered_run(text, all, a, b);
            // The tags behind the last character of the span.
            assert forall|x: int| 0 <= x < head.len() implies (#[trigger] head[x]).pos
                != b by {}
            lemma_tags_at_none(head, b as int);
            assert(tags_at(head.push(o), b as int) == tags_at(head, b as int));
            assert(tags_at(all, b as int) == tags_at(all.drop_last(), b as int) + close);
            assert(tags_at(all, b as int) =~= close);
            let upto = rendered_prefix(text, all, b);
            assert(upto == rendered(short, head) + open + text.subrange(a as int, b as int));
            if b < len {
                assert forall|m: int| b < m < len implies #[trigger] tags_at(all, m) == Seq::<
                    char,
                >::empty() by {
                    assert forall|x: int| 0 <= x < all.len() implies (#[trigger] all[x]).pos
                        != m by {
                        if x < head.len() {
                            assert(all[x] == head[x]);
                        }
                    }
                    lemma_tags_at_none(all, m);
                }
                lemma_rendered_run(text, all, b, len);
                assert forall|x: int| 0 <= x < all.len() implies (#[trigger] all[x]).pos
                    != len by {
                    if x < head.len() {
                        assert(all[x] == head[x]);
                    }
                }
                lemma_tags_at_none(all, len as int);
                assert(rendered(text, all) =~= upto + close + text.subrange(
                    b as int,
                    len as int,
                ));
            } else {
                assert(text.subrange(b as int, len as int) =~= Seq::<char>::empty());
                assert(rendered(text, all) =~= upto + close + text.subrange(
                    b as int,
                    len as int,
                ));
            }
            assert(rendered(text, all) =~= woven(text, entities));
        }
    }
}

/// The offset law of the parser. For spans that lie in order, whether they
/// touch or not and whether the last reaches the end of the text or not,
/// the output is the text with the spans woven in: the opening tag of each
/// span that is written out stands before its closing tag, with exactly the
/// characters of the span between them and no other tag, and what lies
/// outside the spans is the text as it is. The output is as long as the
/// text and all the tags together.
pub proof fn lemma_render_woven(ft: FormattedText)
    requires
        spans_in_order(ft.entities@, ft.text@.len()),
    ensures
        render(ft) == woven(ft.text@, ft.entities@),
        render(ft).len() == ft.text@.len() + tags_total(ft.entities@),
{
    lemma_in_order_events(ft.entities@, ft.text@.len());
    lemma_ordered_of_ascending(events_of(ft.entities@));
    lemma_woven(ft.text@, ft.entities@);
}

proof fn lemma_insert_tags(s: Seq<Event>, e: Event, i: int)
    requires
        ascending(s),
    ensures
        tags_at(insert_event(s, e), i) == tags_at(s, i) + if e.pos == i {
            e.tag
        } else {
            Seq::<char>::empty()
        },
    decreases s.len(),
{
    let placed = if e.pos == i {
        e.tag
    } else {
        Seq::<char>::empty()
    };
    if s.len() == 0 {
        assert(seq![e].drop_last() =~= s);
        assert(tags_at(insert_event(s, e), i) =~= tags_at(s, i) + placed);
    } else if s.last().pos <= e.pos {
        assert(s.push(e).drop_last() =~= s);
        assert(tags_at(insert_event(s, e), i) =~= tags_at(s, i) + placed);
    } else {
        let front = s.drop_last();
        assert forall|a: int, b: int| 0 <= a < b < front.len() implies (#[trigger] front[a]).pos
            <= (#[trigger] front[b]).pos by {
            assert(front[a] == s[a] && front[b] == s[b]);
        }
        lemma_insert_tags(front, e, i);
        let rest = insert_event(front, e);
        assert(rest.push(s.last()).drop_last() =~= rest);
        assert(tags_at(insert_event(s, e), i) =~= tags_at(s, i) + placed);
    }
}

/// The tags at a position are the same, and in the same order, whether the
/// events are put in order or not.
pub proof fn lemma_ordered_tags(evs: Seq<Event>, i: int)
    ensures
        tags_at(ordered(evs), i) == tags_at(evs, i),
    decreases evs.len(),
{
    if evs.len() > 0 {
        lemma_ordered_tags(evs.drop_last(), i);
        crate::updates::tg::parsers::lemma_ordered_ascending(evs.drop_last());
        lemma_insert_tags(ordered(evs.drop_last()), evs.last(), i);
    }
}

/// The output is the same whether the events are put in order or not: it
/// is the text with, at every index, the tags of the spans in the order of
/// the spans.
pub proof fn lemma_render_by_spans(ft: FormattedText)
    ensures
        render(ft) == rendered(ft.text@, events_of(ft.entities@)),
{
    let evs = events_of(ft.entities@);
    let text = ft.text@;
    assert forall|m: int| 0 <= m < text.len() implies #[trigger] tags_at(ordered(evs), m)
        == tags_at(evs, m) by {
        lemma_ordered_tags(evs, m);
    }
    lemma_prefix_agrees(text, ordered(evs), text, evs, text.len());
    lemma_ordered_tags(evs, text.len() as int);
}

/// The total length of the tags of some events.
pub open spec fn tags_len(evs: Seq<Event>) -> nat
    decreases evs.len(),
{
    if evs.len() == 0 {
        0
    } else {
        tags_len(evs.drop_last()) + evs.last().tag.len()
    }
}

proof fn lemma_written_push(evs: Seq<Event>, m: nat)
    requires
        evs.len() > 0,
    ensures
        written_before(evs, m) == written_before(evs.drop_last(), m) + if 0 <= evs.last().pos
            < m {
            evs.last().tag.len()
        } else {
            0
        },
    decreases m,
{
    if m > 0 {
        lemma_written_push(evs, (m - 1) as nat);
    }
}

proof fn lemma_written_all(evs: Seq<Event>, m: nat)
    requires
        forall|e: int| 0 <= e < evs.len() ==> 0 <= (#[trigger] evs[e]).pos < m,
    ensures
        written_before(evs, m) == tags_len(evs),
    decreases evs.len(),
{
    if evs.len() == 0 {
        assert(evs =~= Seq::<Event>::empty());
        lemma_written_none(m);
    } else {
        assert forall|e: int| 0 <= e < evs.drop_last().len() implies 0 <= (
        #[trigger] evs.drop_last()[e]).pos < m by {
            assert(evs.drop_last()[e] == evs[e]);
        }
        lemma_written_all(evs.drop_last(), m);
        lemma_written_push(evs, m);
        assert(0 <= evs[evs.len() - 1].pos < m);
    }
}

proof fn lemma_written_none(m: nat)
    ensures
        written_before(Seq::<Event>::empty(), m) == 0,
    decreases m,
{
    if m > 0 {
        lemma_written_none((m - 1) as nat);
    }
}

/// The spans that are written out lie inside a text of `len` characters:
/// each begins and ends in the text or at its end, and does not end before
/// it begins.
pub open spec fn spans_inside(entities: Seq<TextEntity>, len: nat) -> bool {
    forall|i: int|
        0 <= i < entities.len() && is_written(#[trigger] entities[i]) ==> 0 <= entities[i].offset
            && entities[i].length >= 0 && entities[i].offset + entities[i].length <= len
}

proof fn lemma_events_inside(entities: Seq<TextEntity>, len: nat)
    requires
        spans_inside(entities, len),
    ensures
        forall|k: int|
            0 <= k < events_of(entities).len() ==> 0 <= (#[trigger] events_of(entities)[k]).pos
                <= len,
        tags_len(events_of(entities)) == tags_total(entities),
    decreases entities.len(),
{
    if entities.len() > 0 {
        let front = entities.drop_last();
        let e = entities.last();
        assert(entities[entities.len() - 1] == e);
        assert forall|i: int| 0 <= i < front.len() && is_written(#[trigger] front[i]) implies 0
            <= front[i].offset && front[i].length >= 0 && front[i].offset + front[i].length
            <= len by {
            assert(front[i] == entities[i]);
        }
        lemma_events_inside(front, len);
        let head = events_of(front);
        let evs = events_of(entities);
        if is_written(e) {
            let tail = entity_events(e);
            assert(evs == head + tail);
            assert(evs =~= head.push(tail[0]).push(tail[1]));
            assert(evs.drop_last() =~= head.push(tail[0]));
            assert(head.push(tail[0]).drop_last() =~= head);
            assert forall|k: int| 0 <= k < evs.len() implies 0 <= (#[trigger] evs[k]).pos
                <= len by {
                if k < head.len() {
                    assert(evs[k] == head[k]);
                } else {
                    assert(evs[k] == tail[k - head.len()]);
                }
            }
            assert(tags_len(head.push(tail[0])) == tags_len(head) + tail[0].tag.len());
            assert(tags_len(evs) == tags_len(evs.drop_last()) + tail[1].tag.len());
        } else {
            assert(evs =~= head);
        }
    }
}

/// The length of the output, whatever the order of the spans and whether
/// they overlap or not: where every span that is written out lies inside
/// the text, the output is as long as the text and the tags of all these
/// spans together, so every tag is written, once.
pub proof fn lemma_render_length(ft: FormattedText)
    requires
        spans_inside(ft.entities@, ft.text@.len()),
    ensures
        render(ft).len() == ft.text@.len() + tags_total(ft.entities@),
{
    let text = ft.text@;
    let evs = events_of(ft.entities@);
    lemma_render_by_spans(ft);
    lemma_events_inside(ft.entities@, text.len());
    lemma_prefix_layout(text, evs, text.len());
    lemma_written_all(evs, text.len() + 1);
}

proof fn lemma_tags_at_concat(x: Seq<Event>, y: Seq<Event>, i: int)
    ensures
        tags_at(x + y, i) == tags_at(x, i) + tags_at(y, i),
    decreases y.len(),
{
    if y.len() == 0 {
        assert(x + y =~= x);
        assert(tags_at(x, i) + tags_at(y, i) =~= tags_at(x, i));
    } else {
        lemma_tags_at_concat(x, y.drop_last(), i);
        assert((x + y).drop_last() =~= x + y.drop_last());
        assert((x + y).last() == y.last());
        assert(tags_at(x + y, i) =~= tags_at(x, i) + tags_at(y, i));
    }
}

proof fn lemma_prefix_grows(text: Seq<char>, evs: Seq<Event>, i: nat, j: nat)
    requires
        i <= j <= text.len(),
    ensures
        rendered_prefix(text, evs, i).len() <= rendered_prefix(text, evs, j).len(),
        rendered_prefix(text, evs, j).subrange(0, rendered_prefix(text, evs, i).len() as int)
            == rendered_prefix(text, evs, i),
    decreases j,
{
    if i < j {
        lemma_prefix_grows(text, evs, i, (j - 1) as nat);
        let short = rendered_prefix(text, evs, i);
        let before = rendered_prefix(text, evs, (j - 1) as nat);
        let out = rendered_prefix(text, evs, j);
        assert(out.subrange(0, short.len() as int) =~= before.subrange(0, short.len() as int));
    } else {
        let out = rendered_prefix(text, evs, j);
        assert(out.subrange(0, out.len() as int) =~= out);
    }
}

/// The output begins with the output for the first `p` characters and the
/// tags at position `p`.
proof fn lemma_output_begins(text: Seq<char>, evs: Seq<Event>, p: nat)
    requires
        p <= text.len(),
    ensures
        rendered_prefix(text, evs, p).len() + tags_at(evs, p as int).len() <= rendered(
            text,
            evs,
        ).len(),
        rendered(text, evs).subrange(
            0,
            (rendered_prefix(text, evs, p).len() + tags_at(evs, p as int).len()) as int,
        ) == rendered_prefix(text, evs, p) + tags_at(evs, p as int),
{
    let out = rendered(text, evs);
    let upto = rendered_prefix(text, evs, p) + tags_at(evs, p as int);
    if p == text.len() {
        assert(out.subrange(0, upto.len() as int) =~= upto);
    } else {
        let next = rendered_prefix(text, evs, (p + 1) as nat);
        assert(next == upto + seq![text[p as int]]);
        lemma_prefix_grows(text, evs, (p + 1) as nat, text.len());
        let whole = rendered_prefix(text, evs, text.len());
        assert(whole.subrange(0, next.len() as int) == next);
        assert(next.subrange(0, upto.len() as int) =~= upto);
        assert(whole.subrange(0, upto.len() as int) =~= whole.subrange(
            0,
            next.len() as int,
        ).subrange(0, upto.len() as int));
        assert(out.subrange(0, upto.len() as int) =~= whole.subrange(0, upto.len() as int));
    }
}

/// Where the tag of the event at index `e` begins in the output: at its
/// position, behind the tags written in front of the characters before it
/// and behind the tags of the events before it at its own position.
pub open spec fn place(evs: Seq<Event>, e: int) -> int {
    evs[e].pos + written_before(evs, evs[e].pos as nat) + tags_at(
        evs.subrange(0, e),
        evs[e].pos,
    ).len()
}

/// The tag of an event whose position is an index of the text or its end
/// stands in the output at its place.
pub proof fn lemma_tag_place(text: Seq<char>, evs: Seq<Event>, e: int)
    requires
        0 <= e < evs.len(),
        0 <= evs[e].pos <= text.len(),
    ensures
        0 <= place(evs, e),
        place(evs, e) + evs[e].tag.len() <= rendered(text, evs).len(),
        rendered(text, evs).subrange(place(evs, e), place(evs, e) + evs[e].tag.len())
            == evs[e].tag,
        place(evs, e) + evs[e].tag.len() <= evs[e].pos + written_before(
            evs,
            (evs[e].pos + 1) as nat,
        ),
{
    let p = evs[e].pos as nat;
    let front = evs.subrange(0, e);
    let back = evs.subrange(e + 1, evs.len() as int);
    let one = seq![evs[e]];
    assert(evs =~= (front + one) + back);
    lemma_tags_at_concat(front + one, back, p as int);
    lemma_tags_at_concat(front, one, p as int);
    assert(one.drop_last().len() == 0);
    assert(tags_at(one.drop_last(), p as int) == Seq::<char>::empty());
    assert(one.last() == evs[e]);
    assert(tags_at(one, p as int) =~= evs[e].tag);
    let group = tags_at(evs, p as int);
    assert(group == tags_at(front, p as int) + evs[e].tag + tags_at(back, p as int));
    lemma_prefix_layout(text, evs, p);
    lemma_output_begins(text, evs, p);
    let out = rendered(text, evs);
    let upto = rendered_prefix(text, evs, p) + group;
    let lo = place(evs, e);
    let hi = lo + evs[e].tag.len();
    assert(out.subrange(lo, hi) =~= upto.subrange(lo, hi));
    assert(upto.subrange(lo, hi) =~= evs[e].tag);
}

proof fn lemma_events_of_begin(entities: Seq<TextEntity>, m: int)
    requires
        0 <= m <= entities.len(),
    ensures
        events_of(entities.subrange(0, m)).len() <= events_of(entities).len(),
        events_of(entities).subrange(0, events_of(entities.subrange(0, m)).len() as int)
            == events_of(entities.subrange(0, m)),
    decreases entities.len() - m,
{
    let evs = events_of(entities);
    if m == entities.len() {
        assert(entities.subrange(0, m) =~= entities);
        assert(evs.subrange(0, evs.len() as int) =~= evs);
    } else {
        lemma_events_of_begin(entities, m + 1);
        let longer = entities.subrange(0, m + 1);
        assert(longer.drop_last() =~= entities.subrange(0, m));
        let more = events_of(longer);
        let fewer = events_of(entities.subrange(0, m));
        assert(more == fewer + entity_events(longer.last()));
        assert(evs.subrange(0, fewer.len() as int) =~= more.subrange(0, fewer.len() as int));
        assert(more.subrange(0, fewer.len() as int) =~= fewer);
    }
}

/// The opening tag of a span, as an event.
pub open spec fn opener(e: TextEntity) -> Event {
    Event { pos: e.offset as int, tag: tag_pair(e.type_).unwrap().0 }
}

/// The closing tag of a span, as an event.
pub open spec fn closer(e: TextEntity) -> Event {
    Event { pos: e.offset + e.length, tag: tag_pair(e.type_).unwrap().1 }
}

/// Every opener stands before its closer, whatever the order of the spans
/// and whether they overlap or not. Take a span that is written out, lies
/// inside the text and holds a character at least. Its opening and its
/// closing tag are the events at the indices returned, one behind the
/// other; each stands in the output at its place; and the closing tag
/// begins behind the end of the opening tag, by the length of the span at
/// least.
pub proof fn lemma_opener_before_closer(ft: FormattedText, m: int) -> (at: (int, int))
    requires
        0 <= m < ft.entities@.len(),
        is_written(ft.entities@[m]),
        0 <= ft.entities@[m].offset,
        ft.entities@[m].length >= 1,
        ft.entities@[m].offset + ft.entities@[m].length <= ft.text@.len(),
    ensures
        ({
            let evs = events_of(ft.entities@);
            let (a, b) = at;
            &&& 0 <= a && b == a + 1 && b < evs.len()
            &&& evs[a] == opener(ft.entities@[m])
            &&& evs[b] == closer(ft.entities@[m])
            &&& 0 <= place(evs, a)
            &&& place(evs, a) + evs[a].tag.len() + ft.entities@[m].length <= place(evs, b)
            &&& place(evs, b) + evs[b].tag.len() <= render(ft).len()
            &&& render(ft).subrange(place(evs, a), place(evs, a) + evs[a].tag.len()) == evs[a].tag
            &&& render(ft).subrange(place(evs, b), place(evs, b) + evs[b].tag.len()) == evs[b].tag
        }),
{
    let entities = ft.entities@;
    let text = ft.text@;
    let evs = events_of(entities);
    let span = entities[m];
    lemma_render_by_spans(ft);
    lemma_events_of_begin(entities, m);
    lemma_events_of_begin(entities, m + 1);
    let upto = entities.subrange(0, m + 1);
    assert(upto.drop_last() =~= entities.subrange(0, m));
    assert(upto.last() == span);
    let fewer = events_of(entities.subrange(0, m));
    let more = events_of(upto);
    assert(more == fewer + entity_events(span));
    let a = fewer.len() as int;
    let b = a + 1;
    assert(more[a] == opener(span));
    assert(more[b] == closer(span));
    assert(evs.subrange(0, more.len() as int)[a] == more[a]);
    assert(evs.subrange(0, more.len() as int)[b] == more[b]);
    lemma_tag_place(text, evs, a);
    lemma_tag_place(text, evs, b);
    lemma_written_before_monotonic(
        evs,
        (span.offset + 1) as nat,
        (span.offset + span.length) as nat,
    );
    (a, b)
}

} // verus!
