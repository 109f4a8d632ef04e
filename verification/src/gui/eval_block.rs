use crate::ast::{token_text, tokens_view, Token, TokenView};
use crate::text::{chars_of, string_from_chars, string_push};
use vstd::prelude::*;

verus! {

/// What a block of the editor is to a contract: its text, the place of the
/// cursor in it, counted in characters, and whether the block is selected.
pub struct BlockView {
    pub text: Seq<char>,
    pub cursor: nat,
    pub is_selected: bool,
}

/// What a key or a piece of typed text asks of a block.
#[derive(Debug)]
pub enum EditEvent {
    Backspace,
    Left,
    Right,
    /// Empties the block.
    Clear,
    Text(String),
}

/// The closer that is typed together with an opener.
pub open spec fn partner_of(c: char) -> Option<char> {
    if c == '(' {
        Some(')')
    } else if c == '[' {
        Some(']')
    } else if c == '{' {
        Some('}')
    } else if c == '"' {
        Some('"')
    } else {
        None
    }
}

pub open spec fn is_closing(c: char) -> bool {
    c == ')' || c == ']' || c == '}'
}

/// The block after `ch` is typed at the cursor. An opener brings its
/// closer and the cursor stands between the two; a closer typed before
/// the same closer steps over it; anything else is put in.
pub open spec fn insert_char_spec(b: BlockView, ch: char) -> BlockView {
    let at = b.cursor as int;
    match partner_of(ch) {
        Some(closer) => BlockView {
            text: b.text.insert(at, ch).insert(at + 1, closer),
            cursor: b.cursor + 1,
            is_selected: b.is_selected,
        },
        None => if is_closing(ch) && at < b.text.len() && b.text[at] == ch {
            BlockView { cursor: b.cursor + 1, ..b }
        } else {
            BlockView {
                text: b.text.insert(at, ch),
                cursor: b.cursor + 1,
                is_selected: b.is_selected,
            }
        },
    }
}

/// The block after every character of `s` is typed, in order.
pub open spec fn insert_text_spec(b: BlockView, s: Seq<char>) -> BlockView
    decreases s.len(),
{
    if s.len() == 0 {
        b
    } else {
        insert_char_spec(insert_text_spec(b, s.drop_last()), s.last())
    }
}

/// The block after the character before the cursor is deleted. Between an
/// opener and its closer, both go.
pub open spec fn backspace_spec(b: BlockView) -> BlockView {
    let at = b.cursor as int;
    if at == 0 {
        b
    } else if at < b.text.len() && partner_of(b.text[at - 1]) == Some(b.text[at]) {
        BlockView {
            text: b.text.remove(at).remove(at - 1),
            cursor: (b.cursor - 1) as nat,
            is_selected: b.is_selected,
        }
    } else {
        BlockView {
            text: b.text.remove(at - 1),
            cursor: (b.cursor - 1) as nat,
            is_selected: b.is_selected,
        }
    }
}

pub open spec fn handle_input_spec(b: BlockView, event: EditEvent) -> BlockView {
    match event {
        EditEvent::Backspace => backspace_spec(b),
        EditEvent::Left => if b.cursor > 0 {
            BlockView { cursor: (b.cursor - 1) as nat, ..b }
        } else {
            b
        },
        EditEvent::Right => if b.cursor < b.text.len() {
            BlockView { cursor: b.cursor + 1, ..b }
        } else {
            b
        },
        EditEvent::Clear => BlockView { text: Seq::empty(), cursor: 0, is_selected: b.is_selected },
        EditEvent::Text(s) => insert_text_spec(b, s@),
    }
}

pub open spec fn is_opener(t: TokenView) -> bool {
    t is LParen || t is LCurly || t is LBracket
}

pub open spec fn is_closer(t: TokenView) -> bool {
    t is RParen || t is RCurly || t is RBracket
}

/// How the token at `i` is drawn: its text, and a space after it unless
/// it is the last token, an opener, or stands before a closer.
pub open spec fn token_str_spec(i: int, tokens: Seq<TokenView>) -> Seq<char> {
    if i + 1 < tokens.len() && !is_opener(tokens[i]) && !is_closer(tokens[i + 1]) {
        token_text(tokens[i]) + seq![' ']
    } else {
        token_text(tokens[i])
    }
}

/// One block of the editor: a line of text with a cursor.
pub struct LispEvalBlock {
    is_selected: bool,
    input_text: Vec<char>,
    cursor_pos: usize,
}

impl View for LispEvalBlock {
    type V = BlockView;

    closed spec fn view(&self) -> BlockView {
        BlockView {
            text: self.input_text@,
            cursor: self.cursor_pos as nat,
            is_selected: self.is_selected,
        }
    }
}

impl Default for LispEvalBlock {
    fn default() -> (r: Self)
        ensures
            r@ == (BlockView { text: Seq::empty(), cursor: 0, is_selected: false }),
            r.wf(),
    {
        LispEvalBlock { is_selected: false, input_text: Vec::new(), cursor_pos: 0 }
    }
}

impl LispEvalBlock {
    /// Whether the cursor stands inside the text or at its end.
    pub open spec fn wf(&self) -> bool {
        self@.cursor <= self@.text.len()
    }

    pub fn set_selected(&mut self, b: bool)
        ensures
            final(self)@ == (BlockView { is_selected: b, ..old(self)@ }),
            old(self).wf() ==> final(self).wf(),
    {
        self.is_selected = b;
    }

    pub fn is_selected(&self) -> (r: bool)
        ensures
            r == self@.is_selected,
    {
        self.is_selected
    }

    /// Replaces the text. The cursor stays where it is, or goes to the end
    /// of the new text where that is shorter.
    pub fn set_input_text(&mut self, t: String)
        ensures
            final(self).wf(),
            final(self)@.text == t@,
            final(self)@.is_selected == old(self)@.is_selected,
            final(self)@.cursor == (if old(self)@.cursor <= t@.len() {
                old(self)@.cursor
            } else {
                t@.len()
            }),
    {
        let chars = chars_of(t.as_str());
        let cursor = if self.cursor_pos <= chars.len() {
            self.cursor_pos
        } else {
            chars.len()
        };
        self.input_text = chars;
        self.cursor_pos = cursor;
    }

    pub fn get_input_text(&self) -> (r: String)
        ensures
            r@ == self@.text,
    {
        let r = string_from_chars(&self.input_text, 0, self.input_text.len());
        assert(self.input_text@.subrange(0, self.input_text@.len() as int) =~= self.input_text@);
        r
    }

    /// The place of the cursor, counted in characters.
    pub fn cursor_pos(&self) -> (r: usize)
        ensures
            r == self@.cursor,
    {
        self.cursor_pos
    }

    pub fn insert_char(&mut self, ch: char)
        requires
            old(self).wf(),
            old(self)@.text.len() + 2 <= usize::MAX,
        ensures
            final(self).wf(),
            final(self)@ == insert_char_spec(old(self)@, ch),
            final(self)@.text.len() <= old(self)@.text.len() + 2,
    {
        let at = self.cursor_pos;
        if ch == '(' {
            self.input_text.insert(at, '(');
            self.input_text.insert(at + 1, ')');
        } else if ch == '[' {
            self.input_text.insert(at, '[');
            self.input_text.insert(at + 1, ']');
        } else if ch == '{' {
            self.input_text.insert(at, '{');
            self.input_text.insert(at + 1, '}');
        } else if ch == '"' {
            self.input_text.insert(at, '"');
            self.input_text.insert(at + 1, '"');
        } else if (ch == ')' || ch == ']' || ch == '}') && at < self.input_text.len()
            && self.input_text[at] == ch {
        } else {
            self.input_text.insert(at, ch);
        }
        self.cursor_pos = at + 1;
    }

    pub fn handle_backspace(&mut self)
        requires
            old(self).wf(),
        ensures
            final(self).wf(),
            final(self)@ == backspace_spec(old(self)@),
    {
        if self.cursor_pos == 0 {
            return ;
        }
        let at = self.cursor_pos;
        let before = self.input_text[at - 1];
        let is_matching_pair = at < self.input_text.len() && ((before == '('
            && self.input_text[at] == ')') || (before == '{' && self.input_text[at] == '}') || (
        before == '[' && self.input_text[at] == ']') || (before == '"' && self.input_text[at]
            == '"'));
        self.cursor_pos = at - 1;
        if is_matching_pair {
            let _ = self.input_text.remove(at);
            let _ = self.input_text.remove(at - 1);
        } else {
            let _ = self.input_text.remove(at - 1);
        }
    }

    /// Types every character of `s`, in order.
    pub fn insert_text(&mut self, s: &str)
        requires
            old(self).wf(),
            old(self)@.text.len() + 2 * s@.len() <= usize::MAX,
        ensures
            final(self).wf(),
            final(self)@ == insert_text_spec(old(self)@, s@),
    {
        let chars = chars_of(s);
        let mut i: usize = 0;
        assert(s@.subrange(0, 0) =~= Seq::<char>::empty());
        while i < chars.len()
            invariant
                i <= chars.len(),
                chars@ == s@,
                self.wf(),
                self@ == insert_text_spec(old(self)@, s@.subrange(0, i as int)),
                self@.text.len() <= old(self)@.text.len() + 2 * i,
                old(self)@.text.len() + 2 * s@.len() <= usize::MAX,
            decreases chars.len() - i,
        {
            assert(s@.subrange(0, i + 1).drop_last() =~= s@.subrange(0, i as int));
            self.insert_char(chars[i]);
            i += 1;
        }
        assert(s@.subrange(0, i as int) =~= s@);
    }

    pub fn handle_input(&mut self, event: EditEvent)
        requires
            old(self).wf(),
            event is Text ==> old(self)@.text.len() + 2 * event->Text_0@.len() <= usize::MAX,
        ensures
            final(self).wf(),
            final(self)@ == handle_input_spec(old(self)@, event),
    {
        match event {
            EditEvent::Backspace => self.handle_backspace(),
            EditEvent::Left => {
                if self.cursor_pos > 0 {
                    self.cursor_pos = self.cursor_pos - 1;
                }
            },
            EditEvent::Right => {
                if self.cursor_pos < self.input_text.len() {
                    self.cursor_pos = self.cursor_pos + 1;
                }
            },
            EditEvent::Clear => {
                self.input_text = Vec::new();
                self.cursor_pos = 0;
            },
            EditEvent::Text(s) => self.insert_text(s.as_str()),
        }
    }

    pub fn token_str(i: usize, tokens: &Vec<Token>) -> (r: String)
        requires
            i < tokens.len(),
        ensures
            r@ == token_str_spec(i as int, tokens_view(tokens@)),
    {
        let current = &tokens[i];
        let opens = match current {
            Token::LParen => true,
            Token::LCurly => true,
            Token::LBracket => true,
            _ => false,
        };
        let needs_space_after = if i + 1 < tokens.len() {
            let closes = match &tokens[i + 1] {
                Token::RParen => true,
                Token::RCurly => true,
                Token::RBracket => true,
                _ => false,
            };
            !opens && !closes
        } else {
            false
        };
        let mut result = current.to_text();
        if needs_space_after {
            string_push(&mut result, ' ');
        }
        result
    }
}

} // verus!
