//! Conversation-list presentation helpers: unread dots, two-line message
//! previews, file sizes, and content types from file extensions.

use vstd::prelude::*;

use crate::model::{opt_view, ContentModel, MessageModel};
use crate::text::{push_char, str_eq};
use crate::view::{loaded_msgs, ConversationView};

verus! {

/// Whether any loaded message is incoming and unread.
pub open spec fn spec_has_unread(s: Seq<MessageModel>) -> bool {
    exists|i: int| 0 <= i < s.len() && !(#[trigger] s[i]).is_read && !s[i].is_outgoing
}

/// Whether the view holds an unread incoming message.
#[verifier::loop_isolation(false)]
pub fn has_unread(conv_view: &ConversationView) -> (r: bool)
    ensures
        r == match conv_view.messages {
            Some(m) => spec_has_unread(crate::model::msgs_view(m@)),
            None => false,
        },
{
    let msgs = match &conv_view.messages {
        Some(m) => m,
        None => {
            return false;
        },
    };
    let ghost mv = crate::model::msgs_view(msgs@);
    let mut i: usize = 0;
    while i < msgs.len()
        invariant
            i <= msgs@.len(),
            forall|k: int| 0 <= k < i ==> (#[trigger] mv[k]).is_read || mv[k].is_outgoing,
        decreases msgs@.len() - i,
    {
        proof {
            assert(mv[i as int] == msgs@[i as int]@);
        }
        if !msgs[i].is_read && !msgs[i].is_outgoing {
            return true;
        }
        i = i + 1;
    }
    false
}

/// The decimal digit character for `d`.
pub open spec fn digit_char(d: int) -> char {
    if d == 0 {
        '0'
    } else if d == 1 {
        '1'
    } else if d == 2 {
        '2'
    } else if d == 3 {
        '3'
    } else if d == 4 {
        '4'
    } else if d == 5 {
        '5'
    } else if d == 6 {
        '6'
    } else if d == 7 {
        '7'
    } else if d == 8 {
        '8'
    } else {
        '9'
    }
}

/// The decimal representation of a non-negative number.
pub open spec fn dec_str(n: int) -> Seq<char>
    decreases n,
{
    if n < 10 {
        seq![digit_char(n)]
    } else {
        dec_str(n / 10).push(digit_char(n % 10))
    }
}

/// Writes a number in decimal.
#[verifier::loop_isolation(false)]
pub fn u64_to_string(n: u64) -> (r: String)
    ensures
        r@ == dec_str(n as int),
{
    let mut digits: Vec<char> = Vec::new();
    let mut rest: u64 = n;
    while rest >= 10
        invariant
            dec_str(n as int) == dec_str(rest as int) + digits@.reverse(),
        decreases rest,
    {
        let d = rest % 10;
        let ghost digits_pre = digits@;
        digits.push(digit_of(d));
        rest = rest / 10;
        proof {
            assert(digits@.reverse() =~= seq![digit_char(d as int)] + digits_pre.reverse());
            assert(dec_str(rest as int).push(digit_char(d as int)) + digits_pre.reverse()
                =~= dec_str(rest as int) + digits@.reverse());
        }
    }
    let mut out = String::new();
    push_char(&mut out, digit_of(rest));
    proof {
        assert(out@ =~= dec_str(rest as int));
    }
    let mut k: usize = digits.len();
    while k > 0
        invariant
            k <= digits@.len(),
            out@ == dec_str(rest as int) + digits@.reverse().take(digits@.len() - k),
        decreases k,
    {
        k = k - 1;
        push_char(&mut out, digits[k]);
        proof {
            let rev = digits@.reverse();
            let pos = digits@.len() - 1 - k;
            assert(rev[pos] == digits@[k as int]);
            assert(rev.take(pos + 1) =~= rev.take(pos).push(digits@[k as int]));
        }
    }
    proof {
        assert(digits@.reverse().take(digits@.len() as int) =~= digits@.reverse());
    }
    out
}

/// The decimal digit character for `d`, executably.
fn digit_of(d: u64) -> (r: char)
    requires
        d < 10,
    ensures
        r == digit_char(d as int),
{
    if d == 0 {
        '0'
    } else if d == 1 {
        '1'
    } else if d == 2 {
        '2'
    } else if d == 3 {
        '3'
    } else if d == 4 {
        '4'
    } else if d == 5 {
        '5'
    } else if d == 6 {
        '6'
    } else if d == 7 {
        '7'
    } else if d == 8 {
        '8'
    } else {
        '9'
    }
}

/// A size shown as bytes, or as tenths of K/M/G (rounded half up).
pub open spec fn spec_format_size(size: int) -> Seq<char> {
    if size < 1024 {
        dec_str(size) + "B"@
    } else if size < 1024int * 1024 {
        size_scaled(size, 1024) + "K"@
    } else if size < 1024int * 1024 * 1024 {
        size_scaled(size, 1024int * 1024) + "M"@
    } else {
        size_scaled(size, 1024int * 1024 * 1024) + "G"@
    }
}

/// Whole part, a dot, and one rounded decimal of `size / unit`.
pub open spec fn size_scaled(size: int, unit: int) -> Seq<char> {
    let tenths = (size * 10 + unit / 2) / unit;
    dec_str(tenths / 10) + "."@ + dec_str(tenths % 10)
}

/// Formats a byte count the way the attachment picker shows it.
pub fn format_size(size: u64) -> (r: String)
    ensures
        r@ == spec_format_size(size as int),
{
    if size < 1024 {
        let mut out = u64_to_string(size);
        out.append("B");
        out
    } else {
        let unit: u64 = if size < 1024 * 1024 {
            1024
        } else if size < 1024 * 1024 * 1024 {
            1024 * 1024
        } else {
            1024 * 1024 * 1024
        };
        let tenths_wide = (size as u128 * 10 + (unit / 2) as u128) / unit as u128;
        proof {
            assert((size as int * 10 + unit as int / 2) / unit as int <= size as int)
                by (nonlinear_arith)
                requires
                    unit >= 1024,
                    size >= 0,
            ;
        }
        let tenths = tenths_wide as u64;
        let mut out = u64_to_string(tenths / 10);
        out.append(".");
        let frac = u64_to_string(tenths % 10);
        out.append(frac.as_str());
        if size < 1024 * 1024 {
            out.append("K");
        } else if size < 1024 * 1024 * 1024 {
            out.append("M");
        } else {
            out.append("G");
        }
        out
    }
}

/// A body with line breaks flattened to spaces.
pub open spec fn flatten_newlines(s: Seq<char>) -> Seq<char> {
    s.map_values(
        |c: char|
            if c == '\n' {
                ' '
            } else {
                c
            },
    )
}

/// Replaces line breaks with spaces.
#[verifier::loop_isolation(false)]
fn replace_newlines(s: &str) -> (r: String)
    ensures
        r@ == flatten_newlines(s@),
{
    let n = s.unicode_len();
    let mut out = String::new();
    let mut i: usize = 0;
    while i < n
        invariant
            i <= n,
            n == s@.len(),
            out@ == flatten_newlines(s@).take(i as int),
        decreases n - i,
    {
        let c = s.get_char(i);
        let mapped: char = if c == '\n' {
            ' '
        } else {
            c
        };
        push_char(&mut out, mapped);
        proof {
            assert(flatten_newlines(s@).take(i as int + 1) =~= flatten_newlines(s@).take(
                i as int,
            ).push(mapped));
        }
        i = i + 1;
    }
    proof {
        assert(flatten_newlines(s@).take(n as int) =~= flatten_newlines(s@));
    }
    out
}

/// The one-line rendering of a message for the conversation list.
pub open spec fn spec_preview_content(m: MessageModel) -> Seq<char> {
    match m.content {
        ContentModel::Text { body } => flatten_newlines(body),
        ContentModel::Attachment { attachments } => {
            if attachments.len() == 1 {
                "📎 "@ + match attachments[0].filename {
                    Some(f) => f,
                    None => "Attachment"@,
                }
            } else {
                "📎 "@ + dec_str(attachments.len() as int) + " attachments"@
            }
        },
        ContentModel::Sticker { pack_id, sticker_id } => "🖼 Sticker"@,
        ContentModel::RemoteDeleted => "Message deleted"@,
    }
}

/// The full preview line: a "You: " prefix for outgoing messages, then the
/// content.
pub open spec fn spec_preview_line(m: MessageModel) -> Seq<char> {
    (if m.is_outgoing {
        "You: "@
    } else {
        Seq::empty()
    }) + spec_preview_content(m)
}

/// Splits a preview into at most two lines of `max_width` characters; a
/// second line that still overflows loses its tail to one ellipsis
/// character, so neither line ever exceeds `max_width`.
pub open spec fn spec_split_lines(s: Seq<char>, max_width: int) -> (Seq<char>, Seq<char>) {
    if s.len() <= max_width {
        (s, Seq::empty())
    } else {
        let line1 = s.take(max_width);
        let rem = s.skip(max_width);
        let line2 = if rem.len() <= max_width {
            rem
        } else if max_width > 1 {
            rem.take(max_width - 1).push('…')
        } else {
            Seq::empty()
        };
        (line1, line2)
    }
}

/// Splits text into at most two preview lines.
pub fn split_into_lines(s: &str, max_width: usize) -> (r: (String, String))
    ensures
        r.0@ == spec_split_lines(s@, max_width as int).0,
        r.1@ == spec_split_lines(s@, max_width as int).1,
{
    let n = s.unicode_len();
    if n <= max_width {
        return (s.to_owned(), String::new());
    }
    let line1 = s.substring_char(0, max_width).to_owned();
    let rem = s.substring_char(max_width, n);
    let rem_len = rem.unicode_len();
    let line2: String = if rem_len <= max_width {
        rem.to_owned()
    } else if max_width > 1 {
        let mut t = rem.substring_char(0, max_width - 1).to_owned();
        push_char(&mut t, '…');
        t
    } else {
        String::new()
    };
    (line1, line2)
}

/// The two preview lines for a conversation: drawn from the stored preview
/// message, falling back to the newest loaded message.
pub fn format_message_preview(conv_view: &ConversationView, max_width: usize) -> (r: (
    String,
    String,
))
    ensures
        ({
            let src = match conv_view.last_message_preview {
                Some(p) => Some(p@),
                None => match conv_view.messages {
                    Some(m) => if m@.len() > 0 {
                        Some(loaded_msgs(*conv_view).last())
                    } else {
                        None
                    },
                    None => None,
                },
            };
            match src {
                Some(m) => r.0@ == spec_split_lines(spec_preview_line(m), max_width as int).0
                    && r.1@ == spec_split_lines(spec_preview_line(m), max_width as int).1,
                None => r.0@.len() == 0 && r.1@.len() == 0,
            }
        }),
{
    let last: &crate::model::Message = match &conv_view.last_message_preview {
        Some(p) => p,
        None => {
            match &conv_view.messages {
                Some(m) => {
                    if m.len() > 0 {
                        proof {
                            assert(loaded_msgs(*conv_view).last() == m@[m@.len() - 1]@);
                        }
                        &m[m.len() - 1]
                    } else {
                        return (String::new(), String::new());
                    }
                },
                None => {
                    return (String::new(), String::new());
                },
            }
        },
    };
    let content: String = match &last.content {
        crate::model::MessageContent::Text { body } => replace_newlines(body.as_str()),
        crate::model::MessageContent::Attachment { attachments } => {
            let mut t: String = "📎 ".to_owned();
            if attachments.len() == 1 {
                match &attachments[0].filename {
                    Some(f) => t.append(f.as_str()),
                    None => t.append("Attachment"),
                }
                proof {
                    assert(attachments@.map_values(|a: crate::model::AttachmentInfo| a@)[0]
                        == attachments@[0]@);
                }
            } else {
                let count = u64_to_string(attachments.len() as u64);
                t.append(count.as_str());
                t.append(" attachments");
            }
            t
        },
        crate::model::MessageContent::Sticker { pack_id, sticker_id } => "🖼 Sticker".to_owned(),
        crate::model::MessageContent::RemoteDeleted => "Message deleted".to_owned(),
    };
    let full: String = if last.is_outgoing {
        let mut t: String = "You: ".to_owned();
        t.append(content.as_str());
        t
    } else {
        content
    };
    proof {
        if !last.is_outgoing {
            assert(Seq::<char>::empty() + spec_preview_content(last@) =~= spec_preview_content(
                last@,
            ));
        }
    }
    split_into_lines(full.as_str(), max_width)
}

/// The content type the sender declares for a file extension, when the
/// extension is a known one (compared lowercased by the caller).
pub fn mime_from_extension(ext: &str) -> (r: Option<String>)
    ensures
        opt_view(r) == spec_mime(ext@),
{
    if str_eq(ext, "jpg") || str_eq(ext, "jpeg") {
        Some("image/jpeg".to_owned())
    } else if str_eq(ext, "png") {
        Some("image/png".to_owned())
    } else if str_eq(ext, "gif") {
        Some("image/gif".to_owned())
    } else if str_eq(ext, "webp") {
        Some("image/webp".to_owned())
    } else if str_eq(ext, "svg") {
        Some("image/svg+xml".to_owned())
    } else if str_eq(ext, "bmp") {
        Some("image/bmp".to_owned())
    } else if str_eq(ext, "ico") {
        Some("image/x-icon".to_owned())
    } else if str_eq(ext, "tiff") || str_eq(ext, "tif") {
        Some("image/tiff".to_owned())
    } else if str_eq(ext, "mp4") {
        Some("video/mp4".to_owned())
    } else if str_eq(ext, "webm") {
        Some("video/webm".to_owned())
    } else if str_eq(ext, "mov") {
        Some("video/quicktime".to_owned())
    } else if str_eq(ext, "avi") {
        Some("video/x-msvideo".to_owned())
    } else if str_eq(ext, "mp3") {
        Some("audio/mpeg".to_owned())
    } else if str_eq(ext, "wav") {
        Some("audio/wav".to_owned())
    } else if str_eq(ext, "ogg") {
        Some("audio/ogg".to_owned())
    } else if str_eq(ext, "flac") {
        Some("audio/flac".to_owned())
    } else if str_eq(ext, "pdf") {
        Some("application/pdf".to_owned())
    } else if str_eq(ext, "txt") {
        Some("text/plain".to_owned())
    } else if str_eq(ext, "json") {
        Some("application/json".to_owned())
    } else if str_eq(ext, "xml") {
        Some("application/xml".to_owned())
    } else if str_eq(ext, "zip") {
        Some("application/zip".to_owned())
    } else if str_eq(ext, "tar") {
        Some("application/x-tar".to_owned())
    } else {
        None
    }
}

/// The extension-to-content-type table as a spec relation.
pub open spec fn spec_mime(ext: Seq<char>) -> Option<Seq<char>> {
    if ext == "jpg"@ || ext == "jpeg"@ {
        Some("image/jpeg"@)
    } else if ext == "png"@ {
        Some("image/png"@)
    } else if ext == "gif"@ {
        Some("image/gif"@)
    } else if ext == "webp"@ {
        Some("image/webp"@)
    } else if ext == "svg"@ {
        Some("image/svg+xml"@)
    } else if ext == "bmp"@ {
        Some("image/bmp"@)
    } else if ext == "ico"@ {
        Some("image/x-icon"@)
    } else if ext == "tiff"@ || ext == "tif"@ {
        Some("image/tiff"@)
    } else if ext == "mp4"@ {
        Some("video/mp4"@)
    } else if ext == "webm"@ {
        Some("video/webm"@)
    } else if ext == "mov"@ {
        Some("video/quicktime"@)
    } else if ext == "avi"@ {
        Some("video/x-msvideo"@)
    } else if ext == "mp3"@ {
        Some("audio/mpeg"@)
    } else if ext == "wav"@ {
        Some("audio/wav"@)
    } else if ext == "ogg"@ {
        Some("audio/ogg"@)
    } else if ext == "flac"@ {
        Some("audio/flac"@)
    } else if ext == "pdf"@ {
        Some("application/pdf"@)
    } else if ext == "txt"@ {
        Some("text/plain"@)
    } else if ext == "json"@ {
        Some("application/json"@)
    } else if ext == "xml"@ {
        Some("application/xml"@)
    } else if ext == "zip"@ {
        Some("application/zip"@)
    } else if ext == "tar"@ {
        Some("application/x-tar"@)
    } else {
        None
    }
}

} // verus!
