//! A single-line text editor state. The cursor is a character index, never a
//! byte offset, so every operation lands on a character boundary.

use vstd::prelude::*;

use crate::text::push_char;

verus! {

/// What inserting one character does: the text gains `c` at the cursor and
/// the cursor steps past it (a text at the address-space limit is left
/// alone).
pub open spec fn insert_post(pre: InputState, post: InputState, c: char) -> bool {
    &&& (pre.text@.len() < usize::MAX ==> post.text@ == pre.text@.subrange(
        0,
        pre.cursor as int,
    ).push(c) + pre.text@.subrange(pre.cursor as int, pre.text@.len() as int) && post.cursor
        == pre.cursor + 1)
    &&& (pre.text@.len() == usize::MAX ==> post == pre)
}

/// What deleting backwards does: the character before the cursor goes.
pub open spec fn delete_back_post(pre: InputState, post: InputState) -> bool {
    &&& (pre.cursor > 0 ==> post.text@ == pre.text@.subrange(0, pre.cursor - 1)
        + pre.text@.subrange(pre.cursor as int, pre.text@.len() as int) && post.cursor
        == pre.cursor - 1)
    &&& (pre.cursor == 0 ==> post == pre)
}

/// What deleting forwards does: the character under the cursor goes.
pub open spec fn delete_forward_post(pre: InputState, post: InputState) -> bool {
    &&& post.cursor == pre.cursor
    &&& (pre.cursor < pre.text@.len() ==> post.text@ == pre.text@.subrange(0, pre.cursor as int)
        + pre.text@.subrange(pre.cursor + 1, pre.text@.len() as int))
    &&& (pre.cursor >= pre.text@.len() ==> post == pre)
}

/// Where the cursor lands after each plain movement key.
pub open spec fn moved_cursor(pre: InputState, post: InputState, cursor: int) -> bool {
    post.text == pre.text && post.cursor == cursor
}

/// Editable text with a character-indexed cursor.
#[derive(Debug)]
pub struct InputState {
    pub text: String,
    pub cursor: usize,
}

impl InputState {
    /// The cursor sits on a character boundary inside the text.
    pub open spec fn wf(&self) -> bool {
        self.cursor <= self.text@.len()
    }

    /// Inserts one character at the cursor and moves the cursor past it.
    /// (A text already at the address-space limit is left unchanged.)
    pub fn insert(&mut self, c: char)
        requires
            old(self).wf(),
        ensures
            final(self).wf(),
            insert_post(*old(self), *final(self), c),
    {
        let len = self.text.unicode_len();
        if len == usize::MAX {
            return ;
        }
        let mut prefix = self.text.substring_char(0, self.cursor).to_owned();
        push_char(&mut prefix, c);
        let suffix = self.text.substring_char(self.cursor, len).to_owned();
        prefix.append(suffix.as_str());
        self.text = prefix;
        self.cursor = self.cursor + 1;
    }

    /// Deletes the character before the cursor, when there is one.
    pub fn delete_back(&mut self)
        requires
            old(self).wf(),
        ensures
            final(self).wf(),
            delete_back_post(*old(self), *final(self)),
    {
        if self.cursor > 0 {
            let len = self.text.unicode_len();
            let mut prefix = self.text.substring_char(0, self.cursor - 1).to_owned();
            let suffix = self.text.substring_char(self.cursor, len).to_owned();
            prefix.append(suffix.as_str());
            self.text = prefix;
            self.cursor = self.cursor - 1;
        }
    }

    /// Deletes the character under the cursor, when there is one.
    pub fn delete_forward(&mut self)
        requires
            old(self).wf(),
        ensures
            final(self).wf(),
            delete_forward_post(*old(self), *final(self)),
    {
        let len = self.text.unicode_len();
        if self.cursor < len {
            let mut prefix = self.text.substring_char(0, self.cursor).to_owned();
            let suffix = self.text.substring_char(self.cursor + 1, len).to_owned();
            prefix.append(suffix.as_str());
            self.text = prefix;
        }
    }

    /// Moves the cursor one character left, stopping at the start.
    pub fn move_left(&mut self)
        requires
            old(self).wf(),
        ensures
            final(self).wf(),
            final(self).text == old(self).text,
            final(self).cursor == if old(self).cursor > 0 {
                old(self).cursor - 1
            } else {
                0int
            },
    {
        if self.cursor > 0 {
            self.cursor = self.cursor - 1;
        }
    }

    /// Moves the cursor one character right, stopping at the end.
    pub fn move_right(&mut self)
        requires
            old(self).wf(),
        ensures
            final(self).wf(),
            final(self).text == old(self).text,
            final(self).cursor == if old(self).cursor < old(self).text@.len() {
                old(self).cursor + 1
            } else {
                old(self).cursor as int
            },
    {
        let len = self.text.unicode_len();
        if self.cursor < len {
            self.cursor = self.cursor + 1;
        }
    }

    /// Moves the cursor to the start of the text.
    pub fn move_start(&mut self)
        ensures
            final(self).wf(),
            final(self).text == old(self).text,
            final(self).cursor == 0,
    {
        self.cursor = 0;
    }

    /// Moves the cursor to the end of the text.
    pub fn move_end(&mut self)
        ensures
            final(self).wf(),
            final(self).text == old(self).text,
            final(self).cursor == old(self).text@.len(),
    {
        self.cursor = self.text.unicode_len();
    }

    /// Empties the editor and hands the text back.
    pub fn clear(&mut self) -> (r: String)
        ensures
            final(self).wf(),
            r@ == old(self).text@,
            final(self).text@.len() == 0,
            final(self).cursor == 0,
    {
        self.cursor = 0;
        let mut taken = String::new();
        core::mem::swap(&mut taken, &mut self.text);
        taken
    }
}

impl Default for InputState {
    /// An empty editor with the cursor at the start.
    fn default() -> (r: InputState)
        ensures
            r.text@.len() == 0,
            r.cursor == 0,
            r.wf(),
    {
        InputState { text: String::new(), cursor: 0 }
    }
}

} // verus!
