use news_aggregator::updates::tg::content::{FormattedText, TextEntity, TextEntityType};
use news_aggregator::updates::tg::parsers::parse_formatted_text;

fn entity(offset: i64, length: i64, type_: TextEntityType) -> TextEntity {
    TextEntity { offset, length, type_ }
}

fn formatted(text: &str, entities: Vec<TextEntity>) -> FormattedText {
    FormattedText { text: text.to_string(), entities }
}

#[test]
fn test_parse_formatted_text() {
    let tests = vec![
        (
            formatted(
                "Изображение из пятидесяти линий.\nНаткнулся на скрипт, который генерирует такие изображения вот тут.\nЛожите рядом со скриптом png изображение 750х750 в градациях серого, в исходнике меняете имя файла на ваше и запускаете исходник с помощью processing. Сгенерированное изображение будет лежать в том же каталоге.",
                vec![
                    entity(
                        91,
                        7,
                        TextEntityType::TextUrl(
                            "https://gist.github.com/u-ndefine/8e4bc21be4275f87fefe7b2a68487161"
                                .to_string(),
                        ),
                    ),
                    entity(
                        239,
                        10,
                        TextEntityType::TextUrl("https://processing.org/download/".to_string()),
                    ),
                ],
            ),
            r#"Изображение из пятидесяти линий.
Наткнулся на скрипт, который генерирует такие изображения <a href="https://gist.github.com/u-ndefine/8e4bc21be4275f87fefe7b2a68487161">вот тут</a>.
Ложите рядом со скриптом png изображение 750х750 в градациях серого, в исходнике меняете имя файла на ваше и запускаете исходник с помощью <a href="https://processing.org/download/">processing</a>. Сгенерированное изображение будет лежать в том же каталоге."#,
        ),
        (
            formatted(
                "Напоминаем, что здесь у нас есть ещё и свой чат, где проходят «публичные» интервью, а в свободное время можно просто потрещать за жизнь \n\nЗаходи, тебе здесь рады)\n\nhttps://t.me/joinchat/IqlQqUGyZpI1-0Zu8ChAmA",
                vec![],
            ),
            r#"Напоминаем, что здесь у нас есть ещё и свой чат, где проходят «публичные» интервью, а в свободное время можно просто потрещать за жизнь 

Заходи, тебе здесь рады)

https://t.me/joinchat/IqlQqUGyZpI1-0Zu8ChAmA"#,
        ),
    ];
    for (formatted_text, expected) in tests {
        let t = parse_formatted_text(&formatted_text);
        assert_eq!(t, expected);
    }
}

#[test]
fn bold_span_is_wrapped() {
    let ft = formatted("AB", vec![entity(0, 1, TextEntityType::Bold)]);
    assert_eq!(parse_formatted_text(&ft), "<b>A</b>B");
}

#[test]
fn text_without_entities_is_unchanged() {
    let ft = formatted("plain <b>text</b> & more", vec![]);
    assert_eq!(parse_formatted_text(&ft), "plain <b>text</b> & more");
    let empty = formatted("", vec![]);
    assert_eq!(parse_formatted_text(&empty), "");
}

#[test]
fn text_url_opens_before_the_first_character() {
    let ft = formatted(
        "click",
        vec![entity(0, 1, TextEntityType::TextUrl("http://x".to_string()))],
    );
    assert_eq!(parse_formatted_text(&ft), "<a href=\"http://x\">c</a>lick");
}

#[test]
fn text_url_over_the_whole_text_closes_after_the_last_character() {
    let ft = formatted(
        "click",
        vec![entity(0, 5, TextEntityType::TextUrl("http://x".to_string()))],
    );
    let rendered = parse_formatted_text(&ft);
    assert_eq!(rendered, "<a href=\"http://x\">click</a>");
    assert_eq!(rendered.chars().count(), 28);
}

#[test]
fn every_kind_of_span_has_its_tags() {
    let cases = vec![
        (TextEntityType::Bold, "<b>a</b>b"),
        (TextEntityType::Code, "<code>a</code>b"),
        (TextEntityType::Hashtag, "#ab"),
        (TextEntityType::Italic, "<i>a</i>b"),
        (TextEntityType::PhoneNumber, "<phone>a</phone>b"),
        (TextEntityType::Pre, "<pre>a</pre>b"),
        (TextEntityType::PreCode, "<pre><code>a</code></pre>b"),
        (TextEntityType::Strikethrough, "<strike>a</strike>b"),
        (TextEntityType::Underline, "<u>a</u>b"),
        (TextEntityType::Url, "<a>a</a>b"),
        (TextEntityType::BotCommand, "ab"),
        (TextEntityType::Cashtag, "ab"),
        (TextEntityType::EmailAddress, "ab"),
        (TextEntityType::Mention, "ab"),
        (TextEntityType::MentionName, "ab"),
        (TextEntityType::Other, "ab"),
    ];
    for (kind, expected) in cases {
        let ft = formatted("ab", vec![entity(0, 1, kind)]);
        assert_eq!(parse_formatted_text(&ft), expected);
    }
}

#[test]
fn spans_are_written_by_offset_whatever_their_order() {
    let ft = formatted(
        "0123456789",
        vec![entity(6, 2, TextEntityType::Italic), entity(1, 3, TextEntityType::Bold)],
    );
    assert_eq!(parse_formatted_text(&ft), "0<b>123</b>45<i>67</i>89");
}

#[test]
fn nested_spans_are_all_written() {
    let ft = formatted(
        "0123456789",
        vec![entity(0, 8, TextEntityType::Bold), entity(2, 3, TextEntityType::Italic)],
    );
    assert_eq!(parse_formatted_text(&ft), "<b>01<i>234</i>567</b>89");
}

#[test]
fn spans_that_touch_are_both_written() {
    let ft = formatted(
        "ABC",
        vec![entity(0, 1, TextEntityType::Bold), entity(1, 1, TextEntityType::Italic)],
    );
    assert_eq!(parse_formatted_text(&ft), "<b>A</b><i>B</i>C");
    let ft = formatted(
        "abcdef",
        vec![
            entity(0, 2, TextEntityType::Bold),
            entity(2, 2, TextEntityType::Italic),
            entity(4, 2, TextEntityType::Code),
        ],
    );
    assert_eq!(parse_formatted_text(&ft), "<b>ab</b><i>cd</i><code>ef</code>");
}

#[test]
fn tags_at_one_position_keep_the_order_of_their_spans() {
    let ft = formatted(
        "ABC",
        vec![entity(1, 1, TextEntityType::Italic), entity(0, 1, TextEntityType::Bold)],
    );
    assert_eq!(parse_formatted_text(&ft), "<b>A<i></b>B</i>C");
    let same = formatted(
        "AB",
        vec![entity(0, 2, TextEntityType::Bold), entity(0, 2, TextEntityType::Italic)],
    );
    assert_eq!(parse_formatted_text(&same), "<b><i>AB</b></i>");
}

#[test]
fn empty_span_and_span_in_an_empty_text() {
    let ft = formatted("ab", vec![entity(1, 0, TextEntityType::Bold)]);
    assert_eq!(parse_formatted_text(&ft), "a<b></b>b");
    let empty = formatted("", vec![entity(0, 0, TextEntityType::Bold)]);
    assert_eq!(parse_formatted_text(&empty), "<b></b>");
}

#[test]
fn offsets_count_characters_not_bytes() {
    let ft = formatted("жук", vec![entity(1, 1, TextEntityType::Bold)]);
    assert_eq!(parse_formatted_text(&ft), "ж<b>у</b>к");
}

#[test]
fn tag_outside_the_text_is_not_written() {
    let ft = formatted("ab", vec![entity(5, 2, TextEntityType::Bold)]);
    assert_eq!(parse_formatted_text(&ft), "ab");
    let negative = formatted("ab", vec![entity(-1, 2, TextEntityType::Bold)]);
    assert_eq!(parse_formatted_text(&negative), "a</b>b");
    let long = formatted("ab", vec![entity(1, 5, TextEntityType::Bold)]);
    assert_eq!(parse_formatted_text(&long), "a<b>b");
    let huge = formatted("ab", vec![entity(i64::MAX, i64::MAX, TextEntityType::Bold)]);
    assert_eq!(parse_formatted_text(&huge), "ab");
}
