//! Pictures on the terminal: the escape sequences that show an image
//! inline.

use rustc_serialize::base64::{CharacterSet, Config, Newline, ToBase64};
use vstd::prelude::*;
use vstd::string::StringExecFns;
use crate::image::{dimension_text, Image};
use crate::text::{contains, text_contains, text_of};

verus! {

/// What the sequences are written to: a terminal, or a multiplexer
/// between the program and the terminal.
#[derive(Debug, Clone, Copy, PartialEq, Eq, Structural)]
pub enum TerminalInUse {
    TmuxOrScreen,
    StandardTerminal,
}

/// The terminal that the type of terminal names: a multiplexer where the
/// type has `screen` in it, a plain terminal otherwise and where no type is
/// known.
pub open spec fn terminal_of(term: Option<Seq<char>>) -> TerminalInUse {
    match term {
        Some(name) => if contains(name, "screen"@) {
            TerminalInUse::TmuxOrScreen
        } else {
            TerminalInUse::StandardTerminal
        },
        None => TerminalInUse::StandardTerminal,
    }
}

/// Tells the terminal in use from the type of terminal that the
/// environment names, if it names one.
pub fn user_terminal(term: &Option<String>) -> (terminal: TerminalInUse)
    ensures
        terminal == terminal_of(text_of(*term)),
{
    match term {
        None => TerminalInUse::StandardTerminal,
        Some(name) => {
            if text_contains(name.as_str(), "screen") {
                return TerminalInUse::TmuxOrScreen;
            }
            TerminalInUse::StandardTerminal
        },
    }
}

/// What opens an inline image: the start of an operating system command,
/// inside the envelope that passes it through a multiplexer where there is
/// one.
pub open spec fn opening(terminal: TerminalInUse) -> Seq<char> {
    match terminal {
        TerminalInUse::TmuxOrScreen => "\x1BPtmux;\x1B\x1B]"@,
        TerminalInUse::StandardTerminal => "\x1B]"@,
    }
}

/// What closes an inline image: the bell, and the end of the envelope
/// where there is one.
pub open spec fn closing(terminal: TerminalInUse) -> Seq<char> {
    match terminal {
        TerminalInUse::TmuxOrScreen => "\x07\x1B\\"@,
        TerminalInUse::StandardTerminal => "\x07"@,
    }
}

/// The sequence that shows a picture of the given size inline, `data`
/// being its bytes in base 64.
pub open spec fn inline_image_text(
    terminal: TerminalInUse,
    width: Seq<char>,
    height: Seq<char>,
    data: Seq<char>,
) -> Seq<char> {
    opening(terminal) + "1337;File=inline=1;width="@ + width + "px;height="@ + height + "px:"@
        + data + closing(terminal)
}

/// Writes the sequence that shows `img_info` inline on `terminal`, `data`
/// being the bytes of the picture in base 64.
pub fn inline_image(terminal: TerminalInUse, img_info: &Image, data: &str) -> (sequence: String)
    ensures
        sequence@ == inline_image_text(
            terminal,
            dimension_text(img_info@.width),
            dimension_text(img_info@.height),
            data@,
        ),
{
    let (initial_seq, final_seq) = match terminal {
        TerminalInUse::TmuxOrScreen => ("\x1BPtmux;\x1B\x1B]", "\x07\x1B\\"),
        TerminalInUse::StandardTerminal => ("\x1B]", "\x07"),
    };
    let mut sequence = String::from_str(initial_seq);
    sequence.append("1337;File=inline=1;width=");
    sequence.append(img_info.width().to_string().as_str());
    sequence.append("px;height=");
    sequence.append(img_info.height().to_string().as_str());
    sequence.append("px:");
    sequence.append(data);
    sequence.append(final_seq);
    sequence
}

/// What to write for a picture whose bytes may be missing: the sequence
/// that shows it, or nothing where they are.
pub fn inline_image_if_any(terminal: TerminalInUse, img_info: &Image, img_mb: &Option<String>) -> (sequence:
    Option<String>)
    ensures
        text_of(sequence) == match img_mb {
            Some(data) => Some(
                inline_image_text(
                    terminal,
                    dimension_text(img_info@.width),
                    dimension_text(img_info@.height),
                    data@,
                ),
            ),
            None => None,
        },
{
    match img_mb {
        None => None,
        Some(data) => Some(inline_image(terminal, img_info, data.as_str())),
    }
}

/// The character that stands for six bits in base 64: `A` to `Z`, `a` to
/// `z`, `0` to `9`, `+` and `/`.
pub open spec fn base64_char(six: int) -> char {
    if six < 26 {
        (0x41 + six) as u8 as char
    } else if six < 52 {
        (0x61 + six - 26) as u8 as char
    } else if six < 62 {
        (0x30 + six - 52) as u8 as char
    } else if six == 62 {
        '+'
    } else {
        '/'
    }
}

/// The bytes `img` in base 64: four characters for every three bytes, most
/// significant bits first, on one line; what is left of the last four
/// characters is filled with `=`.
pub open spec fn base64_text(img: Seq<u8>) -> Seq<char>
    decreases img.len(),
{
    if img.len() == 0 {
        Seq::empty()
    } else if img.len() == 1 {
        let a = img[0] as int;
        seq![base64_char(a / 4), base64_char(a % 4 * 16), '=', '=']
    } else if img.len() == 2 {
        let a = img[0] as int;
        let b = img[1] as int;
        seq![base64_char(a / 4), base64_char(a % 4 * 16 + b / 16), base64_char(b % 16 * 4), '=']
    } else {
        let a = img[0] as int;
        let b = img[1] as int;
        let c = img[2] as int;
        seq![
            base64_char(a / 4),
            base64_char(a % 4 * 16 + b / 16),
            base64_char(b % 16 * 4 + c / 64),
            base64_char(c % 64),
        ] + base64_text(img.skip(3))
    }
}

/// `[u8]::to_base64` of `rustc_serialize::base64::ToBase64`, with the
/// standard character set, padding and no line length: the bytes in base
/// 64 as `base64_text` states it.
#[verifier::external_body]
fn encode_base64(img: &[u8]) -> (text: String)
    ensures
        text@ == base64_text(img@),
{
    let cfg = Config {
        char_set: CharacterSet::Standard,
        newline: Newline::LF,
        pad: true,
        line_length: None,
    };
    img.to_base64(cfg)
}

/// Encodes the bytes of a picture in base 64.
pub fn to_base_64(img: &[u8]) -> (text: String)
    ensures
        text@ == base64_text(img@),
{
    encode_base64(img)
}

/// Base 64 writes four characters for every three bytes begun.
pub proof fn lemma_base64_len(img: Seq<u8>)
    ensures
        base64_text(img).len() == (img.len() + 2) / 3 * 4,
    decreases img.len(),
{
    if img.len() > 2 {
        lemma_base64_len(img.skip(3));
    }
}

} // verus!
