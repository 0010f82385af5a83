//! The status bar: a row near the bottom of the screen describing the
//! document.
use vstd::prelude::*;
use vstd::utf8::{decode_utf8, encode_utf8, is_char_boundary};

use crate::documentstatus::{status_text, DocumentStatus};
use crate::location::saturating_sub_spec;
use crate::terminal::Size;

verus! {

/// The text `s` cut to its first `n` bytes of UTF-8 (all of it where it is
/// no longer).
pub open spec fn truncated(s: Seq<char>, n: usize) -> Seq<char> {
    if n >= encode_utf8(s).len() {
        s
    } else {
        decode_utf8(encode_utf8(s).take(n as int))
    }
}

/// Cutting `s` to `n` bytes keeps whole characters: `n` is past the end or
/// falls between two characters.
pub open spec fn cut_fits(s: Seq<char>, n: usize) -> bool {
    n >= encode_utf8(s).len() || is_char_boundary(encode_utf8(s), n as int)
}

/// `s` cut to its first `n` bytes (`String::truncate`).
fn truncate_bytes(s: String, n: usize) -> (r: String)
    requires
        cut_fits(s@, n),
    ensures
        r@ == truncated(s@, n),
{
    broadcast use vstd::utf8::group_utf8_lib;

    let byte_len = s.as_str().as_bytes().len();
    if n >= byte_len {
        s
    } else {
        let (head, _) = s.as_str().split_at(n);
        let r = head.to_owned();
        proof {
            assert(encode_utf8(r@) == encode_utf8(s@).take(n as int));
            assert(decode_utf8(encode_utf8(r@)) == r@);
        }
        r
    }
}

/// The status bar.
pub struct StatusBar {
    status: DocumentStatus,
    needs_redraw: bool,
    margin_bottom: usize,
    width: usize,
    position_y: usize,
}

/// The state of a status bar, as values.
pub struct StatusBarState {
    pub status: DocumentStatus,
    pub needs_redraw: bool,
    pub margin_bottom: usize,
    pub width: usize,
    pub position_y: usize,
}

/// The bar's row can be drawn: cutting its text to the width keeps whole
/// characters (where a redraw is pending).
pub open spec fn render_fits(s: StatusBarState) -> bool {
    s.needs_redraw ==> cut_fits(status_text(s.status), s.width)
}

impl vstd::view::View for StatusBar {
    type V = StatusBarState;

    closed spec fn view(&self) -> StatusBarState {
        StatusBarState {
            status: self.status,
            needs_redraw: self.needs_redraw,
            margin_bottom: self.margin_bottom,
            width: self.width,
            position_y: self.position_y,
        }
    }
}

impl StatusBar {
    /// A status bar `margin_bottom` rows above the last row of a screen of
    /// `size`, with the default status and no redraw pending.
    pub fn new(margin_bottom: usize, size: Size) -> (r: Self)
        ensures
            r@.status.lines == 0,
            r@.status.current_line == 0,
            !r@.status.is_modified,
            r@.status.file_name is None,
            !r@.needs_redraw,
            r@.margin_bottom == margin_bottom,
            r@.width == size.width,
            r@.position_y == saturating_sub_spec(
                saturating_sub_spec(size.height, margin_bottom),
                1,
            ),
    {
        Self {
            status: DocumentStatus::default(),
            needs_redraw: false,
            margin_bottom: margin_bottom,
            width: size.width,
            position_y: size.height.saturating_sub(margin_bottom).saturating_sub(1),
        }
    }

    /// Takes a new screen size: the bar spans its width and stands
    /// `margin_bottom` rows above its bottom; a redraw is pending.
    pub fn resize(&mut self, size: Size)
        ensures
            final(self)@ == (StatusBarState {
                width: size.width,
                position_y: saturating_sub_spec(size.height, old(self)@.margin_bottom),
                needs_redraw: true,
                ..old(self)@
            }),
    {
        self.width = size.width;
        self.position_y = size.height.saturating_sub(self.margin_bottom);
        self.needs_redraw = true;
    }

    /// Takes a new status; a redraw is pending.
    pub fn update_status(&mut self, new_status: DocumentStatus)
        ensures
            final(self)@ == (StatusBarState {
                status: new_status,
                needs_redraw: true,
                ..old(self)@
            }),
    {
        self.status = new_status;
        self.needs_redraw = true;
    }

    /// The row to draw and its text, where a redraw is pending: the status's
    /// `Debug` rendering cut to the bar's width in bytes. Drawing clears the
    /// pending redraw.
    pub fn render(&mut self) -> (r: Option<(usize, String)>)
        requires
            render_fits(old(self)@),
        ensures
            !old(self)@.needs_redraw ==> r is None && final(self)@ == old(self)@,
            old(self)@.needs_redraw ==> (r matches Some((row, text)) && row == old(self)@.position_y && text@ == truncated(status_text(old(self)@.status), old(self)@.width))
                && final(self)@ == (StatusBarState { needs_redraw: false, ..old(self)@ }),
    {
        if !self.needs_redraw {
            return None;
        }
        let status = self.status.debug_text();
        let status = truncate_bytes(status, self.width);
        self.needs_redraw = false;
        Some((self.position_y, status))
    }

    /// `render`, where the cut keeps whole characters; `None`, with the bar
    /// unchanged, where it would split a character.
    pub fn render_checked(&mut self) -> (r: Option<Option<(usize, String)>>)
        ensures
            r is None <==> !render_fits(old(self)@),
            r is None ==> final(self)@ == old(self)@,
            !old(self)@.needs_redraw ==> r == Some(None::<(usize, String)>) && final(self)@ == old(self)@,
            old(self)@.needs_redraw && render_fits(old(self)@) ==> (r matches Some(
                Some((row, text)),
            ) && row == old(self)@.position_y && text@ == truncated(
                status_text(old(self)@.status),
                old(self)@.width,
            )) && final(self)@ == (StatusBarState { needs_redraw: false, ..old(self)@ }),
    {
        broadcast use vstd::utf8::group_utf8_lib;

        if self.needs_redraw {
            let status = self.status.debug_text();
            let byte_len = status.as_str().as_bytes().len();
            let fits = self.width >= byte_len || status.as_str().is_char_boundary(
                self.width,
            );
            if !fits {
                return None;
            }
        }
        Some(self.render())
    }
}

} // verus!
