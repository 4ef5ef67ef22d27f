use chat_layout::channels::channel_label;
use chat_layout::channels::Channel;
use chat_layout::color::Color;
use chat_layout::color::user_color;
use chat_layout::geometry::Rect;
use chat_layout::geometry::split_regions;
use chat_layout::input::cursor_cell;
use chat_layout::input::input_box_height;
use chat_layout::input::wrap_input;
use chat_layout::members::Member;
use chat_layout::members::render_members;
use chat_layout::members::Role;
use chat_layout::messages::render_messages;
use chat_layout::messages::Message;
use chat_layout::messages::MessageItem;
use chat_layout::textutil::displayed_name;
use chat_layout::width::display_width;
use chat_layout::ui::draw;
use chat_layout::ui::AppState;

fn rect(x: u16, y: u16, width: u16, height: u16) -> Rect {
    Rect { x, y, width, height }
}

fn msg(from: &str, body: &str, ts: i64) -> Message {
    Message { from: from.to_string(), body: body.to_string(), arrived_at: ts }
}

#[test]
fn label_untouched_when_it_fits() {
    assert_eq!(channel_label("general", 0, 20), "general");
    assert_eq!(channel_label("general", 3, 20), "general (3)");
}

#[test]
fn label_shows_two_digit_unread_count() {
    assert_eq!(channel_label("dev", 42, 20), "dev (42)");
}

#[test]
fn label_truncates_name_and_keeps_suffix() {
    // width 14 > 10: overflow 4, name cut from 10 to 6 width units.
    assert_eq!(channel_label("abcdefghij", 2, 10), "abcdef (2)");
}

#[test]
fn label_truncation_respects_char_boundaries() {
    // Each 'e'-acute is two bytes wide in UTF-8 but one display cell.
    // Label width 9 > 6: overflow 3, cut at byte 2, which is a boundary
    // after exactly one character.
    assert_eq!(channel_label("\u{e9}\u{e9}\u{e9}\u{e9}\u{e9}", 1, 6), "\u{e9} (1)");
}

#[test]
fn label_without_suffix_passes_through() {
    assert_eq!(channel_label("longlonglong", 0, 4), "longlonglong");
}

#[test]
fn user_color_is_stable_and_follows_formula() {
    // Byte sum of "alice" modulo 7 terms: 6+3+0+1+3 = 13; 13 % 7 = 6.
    let palette = [
        Color::Red,
        Color::Green,
        Color::Yellow,
        Color::Blue,
        Color::Magenta,
        Color::Cyan,
        Color::Gray,
    ];
    let mut sum = 0usize;
    for b in "alice".bytes() {
        sum += (b as usize) % 7;
    }
    assert_eq!(user_color("alice"), palette[sum % 7]);
    assert_eq!(user_color("alice"), Color::Gray);
    assert_eq!(user_color("alice"), user_color("alice"));
}

#[test]
fn split_without_members_gives_quarter_and_rest() {
    let r = split_regions(rect(0, 0, 80, 24), false);
    assert_eq!(r.len(), 2);
    assert_eq!((r[0].x, r[0].width), (0, 20));
    assert_eq!((r[1].x, r[1].width), (20, 60));
    assert!(r.iter().all(|c| c.height == 24 && c.y == 0));
}

#[test]
fn split_with_members_gives_eighth_member_pane() {
    let r = split_regions(rect(0, 0, 80, 24), true);
    assert_eq!(r.len(), 3);
    assert_eq!((r[0].x, r[0].width), (0, 20));
    assert_eq!((r[1].x, r[1].width), (20, 50));
    assert_eq!((r[2].x, r[2].width), (70, 10));
}

#[test]
fn input_wraps_into_fixed_width_chunks() {
    let lines = wrap_input("hello world", 4);
    assert_eq!(lines, vec!["hell", "o wo", "rld"]);
    // ceil(11 / 4) == 3
    assert_eq!(lines.len(), 3);
}

#[test]
fn empty_input_still_gets_one_line_box() {
    assert_eq!(wrap_input("", 4).len(), 0);
    // one visual line plus two borders
    assert_eq!(input_box_height("", 0, 4), 3);
}

#[test]
fn full_line_cursor_reserves_extra_line() {
    assert_eq!(input_box_height("abcd", 4, 4), 4);
    assert_eq!(input_box_height("abcd", 3, 4), 3);
}

#[test]
fn cursor_cell_follows_div_mod_rule() {
    let area = rect(5, 10, 20, 5);
    assert_eq!(cursor_cell(area, 9, 4), (5 + 1 + 1, 10 + 1 + 2));
    assert_eq!(cursor_cell(area, 0, 4), (6, 11));
}

fn five_messages() -> Vec<Message> {
    vec![
        msg("anna banana", "first message", 1),
        msg("bo", "second message", 2),
        msg("carl", "third message", 3),
        msg("dee", "fourth message", 4),
        msg("eve", "fifth message", 5),
    ]
}

fn block_count(items: &[MessageItem]) -> usize {
    items.iter().filter(|i| matches!(i, MessageItem::Block(_))).count()
}

#[test]
fn all_messages_render_when_they_fit() {
    let p = render_messages(&five_messages(), 0, "room", rect(0, 0, 40, 10));
    assert_eq!(p.title, "room");
    assert_eq!(block_count(&p.items), 5);
    assert_eq!(p.items.len(), 5);
}

#[test]
fn message_count_caps_at_pane_height() {
    let p = render_messages(&five_messages(), 0, "", rect(0, 0, 40, 3));
    assert_eq!(p.title, "Messages");
    assert_eq!(block_count(&p.items), 3);
}

#[test]
fn divider_sits_at_unread_position() {
    let p = render_messages(&five_messages(), 3, "room", rect(0, 0, 40, 10));
    assert_eq!(p.items.len(), 6);
    match &p.items[3] {
        MessageItem::Divider(text) => {
            // widest first name is "anna" (4 cells): 4 + 8 = 12 dashes,
            // then the label, then dashes out to the interior width 38.
            let expected =
                format!("{}new messages{}", "-".repeat(12), "-".repeat(38 - 12 - 12));
            assert_eq!(text, &expected);
        }
        MessageItem::Block(_) => panic!("expected the divider at position 3"),
    }
    for (i, item) in p.items.iter().enumerate() {
        if i != 3 {
            assert!(matches!(item, MessageItem::Block(_)));
        }
    }
}

#[test]
fn no_divider_when_unread_is_zero_or_stale() {
    let p = render_messages(&five_messages(), 0, "", rect(0, 0, 40, 10));
    assert_eq!(p.items.len(), 5);
    assert_eq!(block_count(&p.items), 5);
    let p = render_messages(&five_messages(), 5, "", rect(0, 0, 40, 10));
    assert_eq!(block_count(&p.items), p.items.len());
    let p = render_messages(&five_messages(), 9, "", rect(0, 0, 40, 10));
    assert_eq!(block_count(&p.items), p.items.len());
}

#[test]
fn newest_message_comes_first_with_padded_sender() {
    let p = render_messages(&five_messages(), 0, "", rect(0, 0, 40, 10));
    match &p.items[0] {
        MessageItem::Block(lines) => {
            let spans = &lines[0].spans;
            assert_eq!(spans.len(), 4);
            // time is HH:MM plus a space
            assert_eq!(spans[0].text.len(), 6);
            assert_eq!(&spans[0].text[2..3], ":");
            assert_eq!(spans[0].color, Color::Yellow);
            // "eve" padded to the widest first name, "anna"
            assert_eq!(spans[1].text, " eve");
            assert_eq!(spans[2].text, ": ");
            assert_eq!(spans[3].text, "fifth message");
        }
        MessageItem::Divider(_) => panic!("expected a block first"),
    }
}

#[test]
fn long_body_wraps_with_indented_continuations() {
    let m = vec![msg("al", "aaa bbb ccc ddd eee fff ggg hhh", 7)];
    let p = render_messages(&m, 0, "", rect(0, 0, 20, 10));
    match &p.items[0] {
        MessageItem::Block(lines) => {
            assert!(lines.len() > 1);
            // prefix: 6 (time) + 2 (name "al") + 2 (": ") = 10 cells
            let first_body = &lines[0].spans[3].text;
            assert!(first_body.chars().count() <= 8);
            for line in &lines[1..] {
                assert_eq!(line.spans.len(), 1);
                assert!(line.spans[0].text.starts_with(&" ".repeat(10)));
                assert!(line.spans[0].text.chars().count() <= 18);
            }
        }
        MessageItem::Divider(_) => panic!("expected a block"),
    }
}

#[test]
fn members_render_presence_colors_for_all_roles() {
    let members = vec![
        Member { hash: 1, role: Role::Admin },
        Member { hash: 2, role: Role::Member },
        Member { hash: 3, role: Role::Invited },
    ];
    let names = vec![(1u64, "Alice".to_string()), (2u64, "Bob".to_string())];
    let presences = vec![(1u64, true), (2u64, false)];
    let lines = render_members(&members, &names, &presences, rect(0, 0, 10, 10));
    assert_eq!(lines.len(), 3);
    // newest-appended-first: hash 3, then 2, then 1
    assert_eq!(lines[0].text, "\u{23F3} ");
    assert_eq!(lines[0].color, Color::Red);
    assert_eq!(lines[1].text, "- Bob");
    assert_eq!(lines[1].color, Color::Red);
    assert_eq!(lines[2].text, "\u{1F451} Alice");
    assert_eq!(lines[2].color, Color::White);
}

#[test]
fn member_pane_caps_at_height() {
    let members = vec![
        Member { hash: 1, role: Role::Member },
        Member { hash: 2, role: Role::Member },
        Member { hash: 3, role: Role::Member },
    ];
    let lines = render_members(&members, &vec![], &vec![], rect(0, 0, 10, 2));
    assert_eq!(lines.len(), 2);
}

#[test]
fn displayed_name_takes_first_name() {
    assert_eq!(displayed_name("John Smith", true), "John");
    assert_eq!(displayed_name("John Smith", false), "John Smith");
    assert_eq!(displayed_name("mononym", true), "mononym");
}

fn channel(name: &str, with_members: bool) -> Channel {
    Channel {
        name: name.to_string(),
        description: String::new(),
        messages: five_messages(),
        members: if with_members {
            vec![Member { hash: 1, role: Role::Member }]
        } else {
            vec![]
        },
        unread_messages: 0,
    }
}

#[test]
fn draw_with_members_yields_three_regions() {
    let state = AppState {
        channels: vec![channel("general", true)],
        selected: Some(0),
        input: "hi".to_string(),
        input_cursor: 2,
        presences: vec![(1u64, true)],
        names: vec![(1u64, "Ann".to_string())],
    };
    let f = draw(&state, rect(0, 0, 80, 24));
    assert_eq!(f.channels.area.width, 20);
    let members = f.members.expect("member pane expected");
    assert_eq!(members.area.width, 10);
    assert_eq!(members.area.x, 70);
    assert_eq!(f.chat.messages_area.width, 50);
    assert_eq!(members.lines.len(), 1);
    assert_eq!(f.channels.labels, vec!["general"]);
}

#[test]
fn draw_without_members_yields_two_regions() {
    let state = AppState {
        channels: vec![channel("general", false)],
        selected: Some(0),
        input: String::new(),
        input_cursor: 0,
        presences: vec![],
        names: vec![],
    };
    let f = draw(&state, rect(0, 0, 80, 24));
    assert!(f.members.is_none());
    assert_eq!(f.channels.area.width, 20);
    assert_eq!(f.chat.messages_area.width, 60);
}

#[test]
fn draw_with_nothing_selected_renders_empty_panes() {
    let state = AppState {
        channels: vec![channel("general", true)],
        selected: None,
        input: String::new(),
        input_cursor: 0,
        presences: vec![],
        names: vec![],
    };
    let f = draw(&state, rect(0, 0, 80, 24));
    assert!(f.members.is_none());
    assert_eq!(f.chat.messages.title, "Messages");
    assert_eq!(f.chat.messages.items.len(), 0);
}

#[test]
fn input_box_sits_at_the_bottom_of_the_chat_column() {
    let state = AppState {
        channels: vec![channel("general", false)],
        selected: Some(0),
        input: "hello".to_string(),
        input_cursor: 5,
        presences: vec![],
        names: vec![],
    };
    let f = draw(&state, rect(0, 0, 80, 24));
    // one input line plus two borders
    assert_eq!(f.chat.input_area.height, 3);
    assert_eq!(f.chat.input_area.y, 21);
    assert_eq!(f.chat.messages_area.height, 21);
    assert_eq!(f.chat.input_lines, vec!["hello"]);
    // cursor: column 1 + 5, row one below the input border
    assert_eq!(f.chat.cursor, (26, 22));
}

#[test]
fn input_wraps_by_characters_not_bytes() {
    let lines = wrap_input("\u{e9}\u{e9}\u{e9}\u{e9}\u{e9}", 2);
    assert_eq!(lines, vec!["\u{e9}\u{e9}", "\u{e9}\u{e9}", "\u{e9}"]);
}

#[test]
fn width_one_input_box_puts_each_character_on_its_own_line() {
    let lines = wrap_input("abc", 1);
    assert_eq!(lines, vec!["a", "b", "c"]);
    assert_eq!(input_box_height("abc", 3, 1), 3 + 2 + 1);
}

#[test]
fn display_width_matches_unicode_tables() {
    assert_eq!(display_width("hello"), 5);
    // KHMER SIGN BEYYAL is the one three-cell character in the tables.
    assert_eq!(display_width("\u{17D8}"), 3);
    // control characters occupy no cells
    assert_eq!(display_width("a\u{7}b"), 2);
}
