use viktor::image::{Image, TermDimension};
use viktor::terminal::{inline_image, inline_image_if_any, to_base_64, user_terminal, TerminalInUse};

fn picture(width: TermDimension, height: TermDimension) -> Image {
    Image::new(String::from("/images/head.png"), width, height).unwrap()
}

#[test]
fn terminal_is_plain_without_a_type() {
    assert_eq!(user_terminal(&None), TerminalInUse::StandardTerminal);
}

#[test]
fn terminal_is_plain_for_ordinary_types() {
    assert_eq!(user_terminal(&Some(String::from("xterm-256color"))), TerminalInUse::StandardTerminal);
    assert_eq!(user_terminal(&Some(String::new())), TerminalInUse::StandardTerminal);
    assert_eq!(user_terminal(&Some(String::from("tmux"))), TerminalInUse::StandardTerminal);
    assert_eq!(user_terminal(&Some(String::from("SCREEN"))), TerminalInUse::StandardTerminal);
}

#[test]
fn terminal_is_a_multiplexer_where_the_type_says_screen() {
    assert_eq!(user_terminal(&Some(String::from("screen"))), TerminalInUse::TmuxOrScreen);
    assert_eq!(user_terminal(&Some(String::from("screen-256color"))), TerminalInUse::TmuxOrScreen);
    assert_eq!(user_terminal(&Some(String::from("xterm-screen"))), TerminalInUse::TmuxOrScreen);
}

#[test]
fn inline_image_on_a_plain_terminal() {
    let i = picture(TermDimension::Dimension(120), TermDimension::Auto);
    assert_eq!(
        inline_image(TerminalInUse::StandardTerminal, &i, "aGVsbG8="),
        "\x1B]1337;File=inline=1;width=120px;height=autopx:aGVsbG8=\x07"
    );
}

#[test]
fn inline_image_through_a_multiplexer() {
    let i = picture(TermDimension::Auto, TermDimension::Dimension(7));
    assert_eq!(
        inline_image(TerminalInUse::TmuxOrScreen, &i, "aGVsbG8="),
        "\x1BPtmux;\x1B\x1B]1337;File=inline=1;width=autopx;height=7px:aGVsbG8=\x07\x1B\\"
    );
}

#[test]
fn inline_image_without_data_still_has_its_frame() {
    let i = picture(TermDimension::Dimension(0), TermDimension::Dimension(255));
    assert_eq!(
        inline_image(TerminalInUse::StandardTerminal, &i, ""),
        "\x1B]1337;File=inline=1;width=0px;height=255px:\x07"
    );
}

#[test]
fn nothing_is_written_for_a_picture_without_bytes() {
    let i = picture(TermDimension::Auto, TermDimension::Auto);
    assert_eq!(inline_image_if_any(TerminalInUse::StandardTerminal, &i, &None), None);
    assert_eq!(inline_image_if_any(TerminalInUse::TmuxOrScreen, &i, &None), None);
}

#[test]
fn the_sequence_is_written_for_a_picture_with_bytes() {
    let i = picture(TermDimension::Auto, TermDimension::Auto);
    let data = Some(to_base_64(b"png"));
    assert_eq!(
        inline_image_if_any(TerminalInUse::StandardTerminal, &i, &data),
        Some(String::from("\x1B]1337;File=inline=1;width=autopx;height=autopx:cG5n\x07"))
    );
}

#[test]
fn base_64_of_the_usual_examples() {
    assert_eq!(to_base_64(b""), "");
    assert_eq!(to_base_64(b"f"), "Zg==");
    assert_eq!(to_base_64(b"fo"), "Zm8=");
    assert_eq!(to_base_64(b"foo"), "Zm9v");
    assert_eq!(to_base_64(b"foob"), "Zm9vYg==");
    assert_eq!(to_base_64(b"fooba"), "Zm9vYmE=");
    assert_eq!(to_base_64(b"foobar"), "Zm9vYmFy");
}

#[test]
fn base_64_uses_the_standard_alphabet() {
    assert_eq!(to_base_64(&[0xfb, 0xff, 0xbf]), "+/+/");
    assert_eq!(to_base_64(&[0x00, 0x10, 0x83]), "ABCD");
    assert_eq!(to_base_64(&[0xff, 0xfe, 0xfd]), "//79");
    assert_eq!(to_base_64(&[0x00]), "AA==");
    assert_eq!(to_base_64(&[0xff, 0xff]), "//8=");
}

#[test]
fn base_64_stays_on_one_line() {
    let bytes = vec![0x5a_u8; 300];
    let text = to_base_64(&bytes);
    assert_eq!(text.len(), 400);
    assert!(!text.contains('\n'));
    assert!(!text.contains('\r'));
}
