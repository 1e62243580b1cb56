//! Sizes on the screen of the front-end: the smallest window the layout
//! fits in, the width of a message box, and where a view scrolls to.

use crate::frontend::{MessageContent, MessageContentView};
use crate::tui_state::{ChatMessage, ChatMessageView};
use unicode_width::UnicodeWidthStr;
use vstd::prelude::*;

verus! {

/// Smallest height of the room list.
pub const ROOM_SELECT_MIN_HEIGHT: u16 = 10;

/// Height of the name box.
pub const NAME_SET_HEIGHT: u16 = 3;

/// Height of the help box.
pub const INFO_HEIGHT: u16 = 9;

/// Smallest width of the left column: name box, room list and help box.
pub const LEFT_MAIN_H_SPLIT_MIN_WIDTH: u16 = 32;

/// Smallest height of the left column.
pub const LEFT_MAIN_H_SPLIT_MIN_HEIGHT: u16 = 22;

/// Smallest width of the middle column: the chat list.
pub const CENTER_MAIN_H_SPLIT_MIN_WIDTH: u16 = 28;

/// Smallest height of the middle column.
pub const CENTER_MAIN_H_SPLIT_MIN_HEIGHT: u16 = 15;

/// Height of the message editor.
pub const TEXT_EDIT_HEIGHT: u16 = 7;

/// Smallest height of the chat.
pub const CHAT_MIN_HEIGHT: u16 = 20;

/// Smallest width of the right column: chat and message editor.
pub const RIGHT_MAIN_H_SPLIT_MIN_WIDTH: u16 = 42;

/// Smallest height of the right column.
pub const RIGHT_MAIN_H_SPLIT_MIN_HEIGHT: u16 = 27;

/// Smallest width of the window.
pub const MIN_WIDTH: u16 = 102;

/// Smallest height of the window.
pub const MIN_HEIGHT: u16 = 27;

/// Width of the box of a message without content.
pub const DELETED_MESSAGE_WIDTH: u16 = 21;

/// Number of lines of the message editor that show text.
pub const EDITOR_LINES: usize = 4;

/// The sizes fit together: each column is as high as its parts, and the
/// window is as wide as the columns side by side and as high as the highest
/// of them.
pub proof fn lemma_sizes_fit()
    ensures
        LEFT_MAIN_H_SPLIT_MIN_HEIGHT == ROOM_SELECT_MIN_HEIGHT + NAME_SET_HEIGHT + INFO_HEIGHT,
        RIGHT_MAIN_H_SPLIT_MIN_HEIGHT == TEXT_EDIT_HEIGHT + CHAT_MIN_HEIGHT,
        MIN_WIDTH == LEFT_MAIN_H_SPLIT_MIN_WIDTH + CENTER_MAIN_H_SPLIT_MIN_WIDTH
            + RIGHT_MAIN_H_SPLIT_MIN_WIDTH,
        MIN_HEIGHT >= LEFT_MAIN_H_SPLIT_MIN_HEIGHT,
        MIN_HEIGHT >= CENTER_MAIN_H_SPLIT_MIN_HEIGHT,
        MIN_HEIGHT >= RIGHT_MAIN_H_SPLIT_MIN_HEIGHT,
        MIN_HEIGHT == LEFT_MAIN_H_SPLIT_MIN_HEIGHT || MIN_HEIGHT == CENTER_MAIN_H_SPLIT_MIN_HEIGHT
            || MIN_HEIGHT == RIGHT_MAIN_H_SPLIT_MIN_HEIGHT,
{
}

/// Whether a window of `width` columns and `height` lines holds the layout.
pub fn fits_window(width: u16, height: u16) -> (res: bool)
    ensures
        res == (width >= MIN_WIDTH && height >= MIN_HEIGHT),
{
    width >= MIN_WIDTH && height >= MIN_HEIGHT
}

/// Number of columns that `text` takes on a terminal.
pub uninterp spec fn display_width(text: Seq<char>) -> usize;

/// `UnicodeWidthStr::width`: the number of columns that `text` takes on a
/// terminal, which depends on the characters of the text alone.
#[verifier::external_body]
fn text_width(text: &str) -> (res: usize)
    ensures
        res == display_width(text@),
{
    UnicodeWidthStr::width(text)
}

/// Width of the box of the message `m` in a chat of `w` columns. A box takes
/// four fifths of the chat at most. A text that needs less gets a box as
/// wide as the text and its frame; a message without content gets a box of
/// [`DELETED_MESSAGE_WIDTH`] columns.
pub open spec fn message_width(m: ChatMessageView, w: u16) -> u16 {
    let widest = (w * 80 / 100) as u16;
    match m.content {
        Some(MessageContentView::TextMessage(text)) => if display_width(text) + 2 < widest {
            (display_width(text) + 2) as u16
        } else {
            widest
        },
        Some(MessageContentView::Drawing(_)) => widest,
        None => DELETED_MESSAGE_WIDTH,
    }
}

/// Computes the width of the box of the message `m`: see [`message_width`].
pub fn get_msg_width(m: &ChatMessage, w: u16) -> (res: u16)
    ensures
        res == message_width(m@, w),
{
    let widest: u16 = ((w as u32) * 80 / 100) as u16;
    match &m.content {
        Some(MessageContent::TextMessage(text)) => {
            let len = text_width(text.as_str());
            if len < widest as usize && len + 2 < widest as usize {
                (len + 2) as u16
            } else {
                widest
            }
        },
        Some(MessageContent::Drawing(_)) => widest,
        None => DELETED_MESSAGE_WIDTH,
    }
}

/// Where a chat of `content_height` lines, shown in `area_height` lines,
/// scrolls to when it is to be shown from its end: to the line that brings
/// the last line to the bottom, unless the chat fits as it is.
pub fn bottom_offset(go_to_chat_bottom: bool, area_height: u16, content_height: u16) -> (res:
    Option<u16>)
    ensures
        res == (if go_to_chat_bottom && area_height < content_height {
            Some((content_height - area_height) as u16)
        } else {
            None
        }),
{
    if go_to_chat_bottom && area_height < content_height {
        Some(content_height - area_height)
    } else {
        None
    }
}

/// Number of lines that the frame of the message editor adds to what its
/// text takes.
pub const EDITOR_FRAME_LINES: usize = 3;

/// How many lines the message editor scrolls down so that the end of its
/// text shows: the lines of text beyond [`EDITOR_LINES`]. `rendered` is the
/// number of lines that the editor takes with its frame; an empty text
/// counts as no line.
pub open spec fn editor_overflow(rendered: usize, empty: bool) -> usize {
    let lines = if empty || rendered < EDITOR_FRAME_LINES {
        0
    } else {
        rendered - EDITOR_FRAME_LINES
    };
    if lines > EDITOR_LINES {
        (lines - EDITOR_LINES) as usize
    } else {
        0
    }
}

/// Computes how far the message editor scrolls down: see
/// [`editor_overflow`].
pub fn editor_scroll(rendered: usize, empty: bool) -> (res: usize)
    ensures
        res == editor_overflow(rendered, empty),
{
    let lines = if empty || rendered < EDITOR_FRAME_LINES {
        0
    } else {
        rendered - EDITOR_FRAME_LINES
    };
    if lines > EDITOR_LINES {
        lines - EDITOR_LINES
    } else {
        0
    }
}

} // verus!
