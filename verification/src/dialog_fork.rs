//! The fork dialog: branch the conversation at a message into a new session, or cancel.
use vstd::prelude::*;
use crate::keys::KeyCode;
use crate::text::{byte_len, decimal, first_chars, push_char, push_decimal, split_words, str_byte_len, take_chars, views, words_of};

verus! {

/// The outcome of a fork: the new session's id.
#[derive(Debug, Clone)]
pub struct ForkResult {
    pub session_id: String,
}

/// The state of the fork dialog: the message to fork at, and the highlighted choice (0 fork,
/// 1 cancel).
pub struct ForkDialogState {
    pub open: bool,
    pub message_idx: usize,
    pub message_preview: String,
    pub selected: usize,
}

/// Calls `SystemTime::now` and gives the microseconds since the Unix epoch (0 when the clock
/// is before the epoch). Nothing is promised of the value: it is the time.
#[verifier::external_body]
fn now_micros() -> (t: u128) {
    std::time::SystemTime::now().duration_since(std::time::UNIX_EPOCH).unwrap_or_default().as_micros()
}

/// `n` written with at least four digits, zeros first.
pub open spec fn padded4(n: nat) -> Seq<char> {
    let d = decimal(n);
    if d.len() >= 4 { d } else { Seq::new((4 - d.len()) as nat, |i: int| '0') + d }
}

/// The varying part of a session id made at `micros` microseconds: mixes the time's bits
/// and keeps four decimal digits.
pub open spec fn mixed_digits(micros: u128) -> u64 {
    ((micros ^ (micros >> 16u128)) as u64 % 10000) as u64
}

/// The id of a session made at `micros` microseconds since the epoch: the milliseconds, `-`,
/// then the mixed digits on four places.
pub open spec fn session_id_for(micros: u128) -> Seq<char> {
    decimal((micros / 1000) as nat) + "-"@ + padded4(mixed_digits(micros) as nat)
}

/// The id of a session made at `micros` microseconds since the epoch.
pub fn session_id_at(micros: u128) -> (s: String)
    ensures
        s@ == session_id_for(micros),
{
    let millis = micros / 1000;
    let rand_part: u64 = (micros ^ (micros >> 16u128)) as u64 % 10000;
    let mut s = String::new();
    push_decimal(&mut s, millis);
    s.append("-");
    let digits = crate::text::decimal_string(rand_part as u128);
    let n = digits.unicode_len();
    let need: usize = if n < 4 {
        4 - n
    } else {
        0
    };
    let ghost before = s@;
    let mut k: usize = 0;
    while k < need
        invariant
            k <= need,
            s@ == before + Seq::new(k as nat, |i: int| '0'),
        decreases need - k,
    {
        crate::text::push_char(&mut s, '0');
        k = k + 1;
        assert(s@ =~= before + Seq::new(k as nat, |i: int| '0'));
    }
    s.append(digits.as_str());
    proof {
        reveal_strlit("-");
        let d = decimal(rand_part as nat);
        assert(digits@ == d);
        assert(rand_part == mixed_digits(micros));
        if d.len() < 4 {
            assert(Seq::new(need as nat, |i: int| '0') =~= Seq::new((4 - d.len()) as nat, |i: int| '0'));
            assert(s@ =~= decimal((micros / 1000) as nat) + "-"@ + padded4(mixed_digits(micros) as nat));
        } else {
            assert(Seq::new(need as nat, |i: int| '0') =~= Seq::<char>::empty());
            assert(s@ =~= decimal((micros / 1000) as nat) + "-"@ + padded4(mixed_digits(micros) as nat));
        }
    }
    s
}

/// What a key does to the dialog, given a fresh session id: the new highlighted choice,
/// whether the dialog closes, and whether it forks.
pub open spec fn fork_key(selected: usize, key: KeyCode) -> (usize, bool, bool) {
    match key {
        KeyCode::Esc | KeyCode::Char('q') => (selected, true, false),
        KeyCode::Up | KeyCode::Left => (0, false, false),
        KeyCode::Down | KeyCode::Right => (1, false, false),
        KeyCode::Enter => (selected, true, selected == 0),
        KeyCode::Char('1') => (selected, true, true),
        KeyCode::Char('2') => (selected, true, false),
        _ => (selected, false, false),
    }
}

impl ForkDialogState {
    /// A closed dialog.
    pub fn new() -> (s: Self)
        ensures
            !s.open && s.message_idx == 0 && s.message_preview@.len() == 0 && s.selected == 0,
    {
        ForkDialogState { open: false, message_idx: 0, message_preview: String::new(), selected: 0 }
    }

    /// Opens the dialog on message `msg_idx`, with fork highlighted.
    pub fn open(&mut self, msg_idx: usize, msg_preview: String)
        ensures
            final(self).open && final(self).message_idx == msg_idx,
            final(self).message_preview == msg_preview && final(self).selected == 0,
    {
        self.open = true;
        self.message_idx = msg_idx;
        self.message_preview = msg_preview;
        self.selected = 0;
    }

    /// Closes the dialog.
    pub fn close(&mut self)
        ensures
            *final(self) == (ForkDialogState { open: false, ..*old(self) }),
    {
        self.open = false;
    }

    /// Handles a key at time `micros` (see `fork_key`): a fork gives the session id made at
    /// that time.
    pub fn handle_key_at(&mut self, key: KeyCode, micros: u128) -> (r: Option<ForkResult>)
        ensures
            ({
                let (sel, closes, forks) = fork_key(old(self).selected, key);
                &&& final(self).selected == sel
                &&& final(self).open == (old(self).open && !closes)
                &&& forks ==> (r matches Some(f) && f.session_id@ == session_id_for(micros))
                &&& !forks ==> r is None
            }),
            final(self).message_idx == old(self).message_idx,
            final(self).message_preview == old(self).message_preview,
    {
        match key {
            KeyCode::Esc | KeyCode::Char('q') => {
                self.close();
                None
            },
            KeyCode::Up | KeyCode::Left => {
                self.selected = 0;
                None
            },
            KeyCode::Down | KeyCode::Right => {
                self.selected = 1;
                None
            },
            KeyCode::Enter => {
                if self.selected == 0 {
                    let session_id = session_id_at(micros);
                    self.close();
                    Some(ForkResult { session_id })
                } else {
                    self.close();
                    None
                }
            },
            KeyCode::Char('1') => {
                let session_id = session_id_at(micros);
                self.close();
                Some(ForkResult { session_id })
            },
            KeyCode::Char('2') => {
                self.close();
                None
            },
            _ => None,
        }
    }

    /// Handles a key now (see `handle_key_at`).
    pub fn handle_key(&mut self, key: KeyCode) -> (r: Option<ForkResult>)
        ensures
            ({
                let (sel, closes, forks) = fork_key(old(self).selected, key);
                &&& final(self).selected == sel
                &&& final(self).open == (old(self).open && !closes)
                &&& forks ==> exists|t: u128| (r matches Some(f) && f.session_id@ == #[trigger] session_id_for(t))
                &&& !forks ==> r is None
            }),
    {
        let micros = now_micros();
        self.handle_key_at(key, micros)
    }
}

/// The height of the dialog.
pub fn dialog_height(screen_height: u16) -> (h: u16)
    ensures
        h == 14,
{
    14
}


/// Whole words of `words` joined by spaces, for as long as they fit in `max` bytes, and
/// whether a word did not fit.
pub open spec fn words_fitting(words: Seq<Seq<char>>, max: nat) -> (Seq<char>, bool)
    decreases words.len(),
{
    if words.len() == 0 {
        (Seq::empty(), false)
    } else {
        let (r, full) = words_fitting(words.drop_last(), max);
        let w = words.last();
        if full || byte_len(r) + byte_len(w) + 1 > max {
            (r, true)
        } else if r.len() == 0 {
            (w, false)
        } else {
            (r + " "@ + w, false)
        }
    }
}

/// A preview of `text` in at most `max` bytes: the text itself when it fits, else its
/// whole words while they fit, else (when not even the first word fits) its first `max`
/// characters.
pub open spec fn preview_of(text: Seq<char>, max: nat) -> Seq<char> {
    if byte_len(text) <= max {
        text
    } else {
        let r = words_fitting(words_of(text), max).0;
        if r.len() == 0 && text.len() > 0 {
            first_chars(text, max)
        } else {
            r
        }
    }
}

/// A preview of `text` in at most `max_chars` bytes (see `preview_of`).
pub fn truncate_to_words(text: &str, max_chars: usize) -> (r: String)
    ensures
        r@ == preview_of(text@, max_chars as nat),
{
    if str_byte_len(text) <= max_chars {
        return String::from_str(text);
    }
    let words = split_words(text);
    let ghost ws = views(words@);
    let mut result = String::new();
    let mut full = false;
    let mut i: usize = 0;
    assert(ws.take(0) =~= Seq::<Seq<char>>::empty());
    while i < words.len()
        invariant
            i <= words@.len(),
            ws == views(words@),
            (result@, full) == words_fitting(ws.take(i as int), max_chars as nat),
        decreases words@.len() - i,
    {
        assert(ws.take(i + 1).drop_last() =~= ws.take(i as int));
        assert(ws.take(i + 1).last() == words@[i as int]@);
        if !full {
            let rlen = str_byte_len(result.as_str());
            let wlen = str_byte_len(words[i].as_str());
            if (rlen as u128) + (wlen as u128) + 1 > max_chars as u128 {
                full = true;
            } else {
                let ghost r0 = result@;
                if result.unicode_len() > 0 {
                    push_char(&mut result, ' ');
                    proof {
                        reveal_strlit(" ");
                        assert(r0.push(' ') =~= r0 + " "@);
                    }
                }
                result.append(words[i].as_str());
            }
        }
        i = i + 1;
    }
    assert(ws.take(words@.len() as int) =~= ws);
    if result.unicode_len() == 0 && text.unicode_len() > 0 {
        return take_chars(text, max_chars);
    }
    result
}
} // verus!
