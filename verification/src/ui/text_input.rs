//! Editing helpers for single-line prompts.
use vstd::prelude::*;

use crate::std_calls::{char_is_whitespace, is_unicode_whitespace};
use crate::strings::{owned, string_from_chars};
use crate::utf8::str_chars;

verus! {

/// `s` without its trailing whitespace.
pub open spec fn trim_trailing_ws(s: Seq<char>) -> Seq<char>
    decreases s.len(),
{
    if s.len() > 0 && is_unicode_whitespace(s.last()) {
        trim_trailing_ws(s.drop_last())
    } else {
        s
    }
}

/// `s` without the run of non-whitespace characters at its end.
pub open spec fn trim_trailing_word(s: Seq<char>) -> Seq<char>
    decreases s.len(),
{
    if s.len() > 0 && !is_unicode_whitespace(s.last()) {
        trim_trailing_word(s.drop_last())
    } else {
        s
    }
}

/// What deleting the previous word leaves: trailing whitespace goes first,
/// then the word before it.
pub open spec fn without_prev_word(s: Seq<char>) -> Seq<char> {
    trim_trailing_word(trim_trailing_ws(s))
}

proof fn lemma_trim_ws_prefix(s: Seq<char>, k: int)
    requires
        0 <= k <= s.len(),
        forall|i: int| k <= i < s.len() ==> is_unicode_whitespace(#[trigger] s[i]),
        k == 0 || !is_unicode_whitespace(s[k - 1]),
    ensures
        trim_trailing_ws(s) == s.take(k),
    decreases s.len(),
{
    if s.len() > k {
        lemma_trim_ws_prefix(s.drop_last(), k);
        assert(s.drop_last().take(k) =~= s.take(k));
    } else {
        assert(s.take(k) =~= s);
    }
}

proof fn lemma_trim_word_prefix(s: Seq<char>, k: int)
    requires
        0 <= k <= s.len(),
        forall|i: int| k <= i < s.len() ==> !is_unicode_whitespace(#[trigger] s[i]),
        k == 0 || is_unicode_whitespace(s[k - 1]),
    ensures
        trim_trailing_word(s) == s.take(k),
    decreases s.len(),
{
    if s.len() > k {
        lemma_trim_word_prefix(s.drop_last(), k);
        assert(s.drop_last().take(k) =~= s.take(k));
    } else {
        assert(s.take(k) =~= s);
    }
}

/// Deletes the word before the end of `input` (Ctrl-w): first any trailing
/// whitespace, then the characters back to the previous whitespace.
pub fn delete_prev_word_input(input: &mut String)
    ensures
        final(input)@ == without_prev_word(old(input)@),
{
    let chars = str_chars(input.as_str());
    let mut end = chars.len();
    while end > 0 && char_is_whitespace(chars[end - 1])
        invariant
            end <= chars@.len(),
            forall|i: int| end <= i < chars@.len() ==> is_unicode_whitespace(#[trigger] chars@[i]),
        decreases end,
    {
        end = end - 1;
    }
    let ghost trimmed = chars@.take(end as int);
    proof {
        lemma_trim_ws_prefix(chars@, end as int);
    }
    let mut start = end;
    while start > 0 && !char_is_whitespace(chars[start - 1])
        invariant
            start <= end <= chars@.len(),
            trimmed == chars@.take(end as int),
            forall|i: int| start <= i < end ==> !is_unicode_whitespace(#[trigger] chars@[i]),
        decreases start,
    {
        start = start - 1;
    }
    proof {
        assert forall|i: int| start <= i < trimmed.len() implies !is_unicode_whitespace(
            #[trigger] trimmed[i],
        ) by {
            assert(trimmed[i] == chars@[i]);
        }
        if start > 0 {
            assert(trimmed[start - 1] == chars@[start - 1]);
        }
        lemma_trim_word_prefix(trimmed, start as int);
        assert(trimmed.take(start as int) =~= chars@.take(start as int));
    }
    let mut kept: Vec<char> = Vec::new();
    let mut k: usize = 0;
    while k < start
        invariant
            k <= start <= chars@.len(),
            kept@ == chars@.take(k as int),
        decreases start - k,
    {
        kept.push(chars[k]);
        k = k + 1;
        proof {
            assert(kept@ =~= chars@.take(k as int));
        }
    }
    *input = string_from_chars(&kept);
}


/// An edit of a text field's text or cursor.
#[derive(Debug, Clone, Copy, PartialEq, Eq)]
pub enum InputEdit {
    Left,
    Right,
    Start,
    End,
    Backspace,
    DeleteToEnd,
    DeleteWord,
    Insert(char),
}

/// The text and cursor after `e`.
pub open spec fn edit_result(text: Seq<char>, cursor: int, e: InputEdit) -> (Seq<char>, int) {
    match e {
        InputEdit::Left => (text, if cursor > 0 { cursor - 1 } else { 0 }),
        InputEdit::Right => (text, if cursor < text.len() { cursor + 1 } else { cursor }),
        InputEdit::Start => (text, 0),
        InputEdit::End => (text, text.len() as int),
        InputEdit::Backspace => if cursor > 0 {
            (text.take(cursor - 1) + text.skip(cursor), cursor - 1)
        } else {
            (text, cursor)
        },
        InputEdit::DeleteToEnd => (text.take(cursor), cursor),
        InputEdit::DeleteWord => (
            without_prev_word(text.take(cursor)) + text.skip(cursor),
            without_prev_word(text.take(cursor)).len() as int,
        ),
        InputEdit::Insert(c) => (text.take(cursor).push(c) + text.skip(cursor), cursor + 1),
    }
}

/// Whether `e` reports that it changed the text.
pub open spec fn edit_changed(text: Seq<char>, cursor: int, e: InputEdit) -> bool {
    match e {
        InputEdit::Backspace => cursor > 0,
        InputEdit::DeleteToEnd => cursor < text.len(),
        InputEdit::DeleteWord => without_prev_word(text.take(cursor)).len() != cursor,
        InputEdit::Insert(_) => true,
        _ => false,
    }
}


/// The first position at or after `c` that does not hold whitespace.
pub open spec fn skip_ws_from(t: Seq<char>, c: int) -> int
    decreases t.len() - c,
{
    if 0 <= c < t.len() && is_unicode_whitespace(t[c]) {
        skip_ws_from(t, c + 1)
    } else {
        c
    }
}

/// The first position at or after `c` that holds whitespace, or the end.
pub open spec fn skip_word_from(t: Seq<char>, c: int) -> int
    decreases t.len() - c,
{
    if 0 <= c < t.len() && !is_unicode_whitespace(t[c]) {
        skip_word_from(t, c + 1)
    } else {
        c
    }
}

/// Where a move one word right from `c` stops: past the whitespace, then
/// past the word after it.
pub open spec fn word_right(t: Seq<char>, c: int) -> int {
    skip_word_from(t, skip_ws_from(t, c))
}

proof fn lemma_skip_ws_bounds(t: Seq<char>, c: int)
    requires
        0 <= c <= t.len(),
    ensures
        c <= skip_ws_from(t, c) <= t.len(),
    decreases t.len() - c,
{
    if c < t.len() && is_unicode_whitespace(t[c]) {
        lemma_skip_ws_bounds(t, c + 1);
    }
}

proof fn lemma_skip_word_bounds(t: Seq<char>, c: int)
    requires
        0 <= c <= t.len(),
    ensures
        c <= skip_word_from(t, c) <= t.len(),
    decreases t.len() - c,
{
    if c < t.len() && !is_unicode_whitespace(t[c]) {
        lemma_skip_word_bounds(t, c + 1);
    }
}

/// A single-line text field: its text and a cursor between characters.
pub struct TextInput {
    pub text: String,
    /// Cursor position, in characters from the start.
    pub cursor: usize,
}

/// The characters of `a` followed by those of `b`.
fn concat_chars(Ghost(a): Ghost<Seq<char>>, b: &Vec<char>, lo: usize, hi: usize, out: Vec<char>) -> (r: Vec<char>)
    requires
        out@ == a,
        lo <= hi <= b@.len(),
    ensures
        r@ == a + b@.subrange(lo as int, hi as int),
{
    let mut r = out;
    let mut k = lo;
    while k < hi
        invariant
            lo <= k <= hi <= b@.len(),
            r@ == a + b@.subrange(lo as int, k as int),
        decreases hi - k,
    {
        r.push(b[k]);
        k = k + 1;
        proof {
            assert(r@ =~= a + b@.subrange(lo as int, k as int));
        }
    }
    r
}

impl TextInput {
    /// The cursor lies within the text.
    pub open spec fn wf(self) -> bool {
        self.cursor <= self.text@.len()
    }

    /// An empty field.
    pub fn new() -> (t: Self)
        ensures
            t.wf(),
            t.text@.len() == 0,
            t.cursor == 0,
    {
        TextInput { text: String::new(), cursor: 0 }
    }

    /// A field holding `text`, the cursor at its end.
    pub fn with_text(text: &str) -> (t: Self)
        ensures
            t.wf(),
            t.text@ == text@,
            t.cursor == text@.len(),
    {
        let chars = str_chars(text);
        TextInput { text: owned(text), cursor: chars.len() }
    }

    /// Replaces the text, moving the cursor to its end.
    pub fn set_text(&mut self, text: String)
        ensures
            final(self).wf(),
            final(self).text@ == text@,
            final(self).cursor == text@.len(),
    {
        let chars = str_chars(text.as_str());
        self.cursor = chars.len();
        self.text = text;
    }

    /// Inserts `s` at the cursor and moves the cursor past it.
    pub fn insert_text(&mut self, s: &str)
        requires
            old(self).wf(),
        ensures
            final(self).wf(),
            final(self).text@ == old(self).text@.take(old(self).cursor as int) + s@ + old(self).text@.skip(
                old(self).cursor as int,
            ),
            final(self).cursor == old(self).cursor + s@.len(),
    {
        let chars = str_chars(self.text.as_str());
        let added = str_chars(s);
        let cur = self.cursor;
        let front = concat_chars(Ghost(Seq::empty()), &chars, 0, cur, Vec::new());
        let mid = concat_chars(Ghost(front@), &added, 0, added.len(), front);
        let all = concat_chars(Ghost(mid@), &chars, cur, chars.len(), mid);
        proof {
            assert(chars@.subrange(0, cur as int) =~= chars@.take(cur as int));
            assert(added@.subrange(0, added@.len() as int) =~= s@);
            assert(chars@.subrange(cur as int, chars@.len() as int) =~= chars@.skip(cur as int));
            assert(Seq::<char>::empty() + chars@.take(cur as int) =~= chars@.take(cur as int));
        }
        let total = all.len();
        proof {
            assert(cur + added@.len() <= total);
        }
        self.text = string_from_chars(&all);
        self.cursor = cur + added.len();
    }

    /// Inserts one character at the cursor and moves the cursor past it.
    pub fn insert_char(&mut self, c: char)
        requires
            old(self).wf(),
        ensures
            final(self).wf(),
            final(self).text@ == old(self).text@.take(old(self).cursor as int).push(c) + old(
                self,
            ).text@.skip(old(self).cursor as int),
            final(self).cursor == old(self).cursor + 1,
    {
        let mut one = String::new();
        crate::std_calls::string_push(&mut one, c);
        self.insert_text(one.as_str());
        proof {
            assert(one@ =~= seq![c]);
            assert(old(self).text@.take(old(self).cursor as int) + seq![c] =~= old(self).text@.take(
                old(self).cursor as int,
            ).push(c));
        }
    }

    /// Moves the cursor one character left, if it can.
    pub fn move_left(&mut self)
        requires
            old(self).wf(),
        ensures
            final(self).wf(),
            final(self).text == old(self).text,
            final(self).cursor == if old(self).cursor > 0 { old(self).cursor - 1 } else { 0 },
    {
        if self.cursor > 0 {
            self.cursor = self.cursor - 1;
        }
    }

    /// Moves the cursor one character right, if it can.
    pub fn move_right(&mut self)
        requires
            old(self).wf(),
        ensures
            final(self).wf(),
            final(self).text == old(self).text,
            final(self).cursor == if old(self).cursor < old(self).text@.len() {
                old(self).cursor + 1
            } else {
                old(self).cursor as int
            },
    {
        let len = str_chars(self.text.as_str()).len();
        if self.cursor < len {
            self.cursor = self.cursor + 1;
        }
    }

    /// Moves the cursor to the start.
    pub fn move_start(&mut self)
        ensures
            final(self).wf(),
            final(self).text == old(self).text,
            final(self).cursor == 0,
    {
        self.cursor = 0;
    }

    /// Moves the cursor to the end.
    pub fn move_end(&mut self)
        ensures
            final(self).wf(),
            final(self).text == old(self).text,
            final(self).cursor == old(self).text@.len(),
    {
        self.cursor = str_chars(self.text.as_str()).len();
    }

    /// Deletes the character before the cursor; whether there was one.
    pub fn backspace(&mut self) -> (changed: bool)
        requires
            old(self).wf(),
        ensures
            final(self).wf(),
            changed == (old(self).cursor > 0),
            changed ==> final(self).text@ == old(self).text@.take(old(self).cursor - 1) + old(
                self,
            ).text@.skip(old(self).cursor as int) && final(self).cursor == old(self).cursor - 1,
            !changed ==> final(self).text == old(self).text && final(self).cursor == old(self).cursor,
    {
        if self.cursor == 0 {
            return false;
        }
        let chars = str_chars(self.text.as_str());
        let cur = self.cursor;
        let front = concat_chars(Ghost(Seq::empty()), &chars, 0, cur - 1, Vec::new());
        let all = concat_chars(Ghost(front@), &chars, cur, chars.len(), front);
        proof {
            assert(Seq::<char>::empty() + chars@.subrange(0, cur - 1) =~= chars@.take(cur - 1));
            assert(chars@.subrange(cur as int, chars@.len() as int) =~= chars@.skip(cur as int));
        }
        self.text = string_from_chars(&all);
        self.cursor = cur - 1;
        true
    }

    /// Deletes everything after the cursor; whether there was anything.
    pub fn delete_to_end(&mut self) -> (changed: bool)
        requires
            old(self).wf(),
        ensures
            final(self).wf(),
            changed == (old(self).cursor < old(self).text@.len()),
            final(self).text@ == old(self).text@.take(old(self).cursor as int),
            final(self).cursor == old(self).cursor,
    {
        let chars = str_chars(self.text.as_str());
        if self.cursor >= chars.len() {
            proof {
                assert(old(self).text@.take(old(self).cursor as int) =~= old(self).text@);
            }
            return false;
        }
        let front = concat_chars(Ghost(Seq::empty()), &chars, 0, self.cursor, Vec::new());
        proof {
            assert(Seq::<char>::empty() + chars@.subrange(0, self.cursor as int) =~= chars@.take(
                self.cursor as int,
            ));
        }
        self.text = string_from_chars(&front);
        true
    }

    /// Applies an edit; whether it changed the text.
    pub fn apply_edit(&mut self, e: InputEdit) -> (changed: bool)
        requires
            old(self).wf(),
        ensures
            final(self).wf(),
            (final(self).text@, final(self).cursor as int) == edit_result(
                old(self).text@,
                old(self).cursor as int,
                e,
            ),
            changed == edit_changed(old(self).text@, old(self).cursor as int, e),
    {
        match e {
            InputEdit::Left => {
                self.move_left();
                false
            },
            InputEdit::Right => {
                self.move_right();
                false
            },
            InputEdit::Start => {
                self.move_start();
                false
            },
            InputEdit::End => {
                self.move_end();
                false
            },
            InputEdit::Backspace => self.backspace(),
            InputEdit::DeleteToEnd => self.delete_to_end(),
            InputEdit::DeleteWord => self.delete_prev_word(),
            InputEdit::Insert(c) => {
                self.insert_char(c);
                true
            },
        }
    }


    /// Moves the cursor back over whitespace, then over the word before it.
    pub fn move_word_left(&mut self)
        requires
            old(self).wf(),
        ensures
            final(self).wf(),
            final(self).text == old(self).text,
            final(self).cursor == without_prev_word(old(self).text@.take(old(self).cursor as int)).len(),
    {
        let chars = str_chars(self.text.as_str());
        let cur = self.cursor;
        let mut before = string_from_chars(&concat_chars(Ghost(Seq::empty()), &chars, 0, cur, Vec::new()));
        proof {
            assert(Seq::<char>::empty() + chars@.subrange(0, cur as int) =~= chars@.take(cur as int));
        }
        delete_prev_word_input(&mut before);
        proof {
            lemma_without_prev_word_prefix(chars@.take(cur as int));
        }
        self.cursor = str_chars(before.as_str()).len();
    }

    /// Moves the cursor forward over whitespace, then over the next word.
    pub fn move_word_right(&mut self)
        requires
            old(self).wf(),
        ensures
            final(self).wf(),
            final(self).text == old(self).text,
            final(self).cursor == word_right(old(self).text@, old(self).cursor as int),
    {
        let chars = str_chars(self.text.as_str());
        let mut c = self.cursor;
        while c < chars.len() && char_is_whitespace(chars[c])
            invariant
                c <= chars@.len(),
                chars@ == old(self).text@,
                old(self).cursor <= c,
                skip_ws_from(chars@, c as int) == skip_ws_from(chars@, old(self).cursor as int),
            decreases chars@.len() - c,
        {
            c = c + 1;
        }
        let ghost mid = c;
        while c < chars.len() && !char_is_whitespace(chars[c])
            invariant
                c <= chars@.len(),
                chars@ == old(self).text@,
                mid <= c,
                skip_word_from(chars@, c as int) == skip_word_from(chars@, mid as int),
                mid == skip_ws_from(chars@, old(self).cursor as int),
            decreases chars@.len() - c,
        {
            c = c + 1;
        }
        self.cursor = c;
    }

    /// Deletes the word before the cursor (trailing whitespace, then the
    /// word); whether anything was deleted.
    pub fn delete_prev_word(&mut self) -> (changed: bool)
        requires
            old(self).wf(),
        ensures
            final(self).wf(),
            final(self).text@ == without_prev_word(old(self).text@.take(old(self).cursor as int))
                + old(self).text@.skip(old(self).cursor as int),
            final(self).cursor == without_prev_word(old(self).text@.take(old(self).cursor as int)).len(),
            changed == (final(self).cursor != old(self).cursor),
    {
        let chars = str_chars(self.text.as_str());
        let cur = self.cursor;
        let mut before = string_from_chars(&concat_chars(Ghost(Seq::empty()), &chars, 0, cur, Vec::new()));
        proof {
            assert(Seq::<char>::empty() + chars@.subrange(0, cur as int) =~= chars@.take(cur as int));
        }
        delete_prev_word_input(&mut before);
        let kept = str_chars(before.as_str());
        proof {
            lemma_without_prev_word_prefix(chars@.take(cur as int));
        }
        let all = concat_chars(Ghost(kept@), &chars, cur, chars.len(), kept);
        proof {
            assert(chars@.subrange(cur as int, chars@.len() as int) =~= chars@.skip(cur as int));
        }
        let new_cursor = str_chars(before.as_str()).len();
        self.text = string_from_chars(&all);
        self.cursor = new_cursor;
        new_cursor != cur
    }
}

/// Deleting the previous word leaves a prefix of the text.
pub proof fn lemma_without_prev_word_prefix(s: Seq<char>)
    ensures
        without_prev_word(s).len() <= s.len(),
        s.take(without_prev_word(s).len() as int) == without_prev_word(s),
{
    lemma_trim_ws_is_prefix(s);
    lemma_trim_word_is_prefix(trim_trailing_ws(s));
    let t = trim_trailing_ws(s);
    let w = trim_trailing_word(t);
    assert(s.take(w.len() as int) =~= t.take(w.len() as int));
}

proof fn lemma_trim_ws_is_prefix(s: Seq<char>)
    ensures
        trim_trailing_ws(s).len() <= s.len(),
        s.take(trim_trailing_ws(s).len() as int) == trim_trailing_ws(s),
    decreases s.len(),
{
    if s.len() > 0 && is_unicode_whitespace(s.last()) {
        lemma_trim_ws_is_prefix(s.drop_last());
        let t = trim_trailing_ws(s.drop_last());
        assert(s.take(t.len() as int) =~= s.drop_last().take(t.len() as int));
    } else {
        assert(s.take(s.len() as int) =~= s);
    }
}

proof fn lemma_trim_word_is_prefix(s: Seq<char>)
    ensures
        trim_trailing_word(s).len() <= s.len(),
        s.take(trim_trailing_word(s).len() as int) == trim_trailing_word(s),
    decreases s.len(),
{
    if s.len() > 0 && !is_unicode_whitespace(s.last()) {
        lemma_trim_word_is_prefix(s.drop_last());
        let t = trim_trailing_word(s.drop_last());
        assert(s.take(t.len() as int) =~= s.drop_last().take(t.len() as int));
    } else {
        assert(s.take(s.len() as int) =~= s);
    }
}

/// Typing a character and then deleting it with Backspace gives back the
/// text and the cursor as they were.
pub proof fn law_insert_then_backspace_restores(text: Seq<char>, cursor: int, c: char)
    requires
        0 <= cursor <= text.len(),
    ensures
        ({
            let (t1, c1) = edit_result(text, cursor, InputEdit::Insert(c));
            edit_result(t1, c1, InputEdit::Backspace) == (text, cursor)
        }),
{
    let (t1, c1) = edit_result(text, cursor, InputEdit::Insert(c));
    assert(t1.take(c1 - 1) + t1.skip(c1) =~= text);
}

/// Every edit keeps the cursor within the text.
pub proof fn law_edit_keeps_cursor_in_text(text: Seq<char>, cursor: int, e: InputEdit)
    requires
        0 <= cursor <= text.len(),
    ensures
        ({
            let (t1, c1) = edit_result(text, cursor, e);
            0 <= c1 <= t1.len()
        }),
{
    if let InputEdit::DeleteWord = e {
        lemma_without_prev_word_prefix(text.take(cursor));
    }
}

} // verus!
