//! The in-game chat: a bounded history of received lines and the line being typed.
use std::collections::VecDeque;
use std::time::Instant;
use vstd::prelude::*;

use crate::clock::{instant_now, millis_since};

verus! {

/// How many received lines the history keeps.
pub const MAX_MESSAGES: usize = 100;

/// How many lines the chat shows at once.
pub const VISIBLE_MESSAGES: usize = 10;

/// How long a received line stays visible while the chat is closed.
pub const MESSAGE_LIFETIME_MILLIS: u128 = 10000;

struct ChatLine {
    text: String,
    received: Instant,
}

/// Chat history and input line.
pub struct ChatState {
    messages: VecDeque<ChatLine>,
    input: String,
    open: bool,
    cursor_blink: Instant,
}

/// The history after one more line arrives: the line is appended and the
/// oldest line is dropped once more than `MAX_MESSAGES` are held.
pub open spec fn history_after_push(lines: Seq<Seq<char>>, text: Seq<char>) -> Seq<Seq<char>> {
    let grown = lines.push(text);
    if grown.len() > MAX_MESSAGES {
        grown.drop_first()
    } else {
        grown
    }
}

/// The input line after typing `typed` and, if `backspace`, deleting the last character.
pub open spec fn edited_input(input: Seq<char>, typed: Seq<char>, backspace: bool) -> Seq<char> {
    let t = input + typed;
    if backspace && t.len() > 0 {
        t.drop_last()
    } else {
        t
    }
}

/// The contents of a sequence of strings.
pub open spec fn texts(v: Seq<String>) -> Seq<Seq<char>> {
    v.map_values(|s: String| s@)
}

/// The first `n` items of `s`, or all of them when there are fewer.
pub open spec fn first_n(s: Seq<Seq<char>>, n: nat) -> Seq<Seq<char>> {
    if s.len() > n {
        s.take(n as int)
    } else {
        s
    }
}

/// The lines of `lines` whose flag in `keep` (one flag per line) is set, in order.
pub open spec fn kept(lines: Seq<Seq<char>>, keep: Seq<bool>) -> Seq<Seq<char>>
    decreases lines.len(),
{
    if lines.len() == 0 || keep.len() == 0 {
        Seq::empty()
    } else {
        let rest = kept(lines.drop_last(), keep.drop_last());
        if keep.last() {
            rest.push(lines.last())
        } else {
            rest
        }
    }
}

impl ChatState {
    /// The received lines, oldest first.
    pub closed spec fn lines(&self) -> Seq<Seq<char>> {
        self.messages@.map_values(|l: ChatLine| l.text@)
    }

    /// The line being typed.
    pub closed spec fn typed(&self) -> Seq<char> {
        self.input@
    }

    /// Whether the input line is open.
    pub closed spec fn opened(&self) -> bool {
        self.open
    }

    /// When the input cursor's blink last restarted: it restarts, at the
    /// clock's reading then, when the line opens and on each key that edits
    /// it, and stays otherwise.
    pub closed spec fn blink_start(&self) -> Instant {
        self.cursor_blink
    }

    /// The history never holds more than `MAX_MESSAGES` lines.
    pub closed spec fn wf(&self) -> bool {
        self.messages@.len() <= MAX_MESSAGES
    }

    /// An empty, closed chat.
    pub fn new() -> (c: Self)
        ensures
            c.wf(),
            c.lines() == Seq::<Seq<char>>::empty(),
            c.typed() == Seq::<char>::empty(),
            !c.opened(),
    {
        let c = ChatState {
            messages: VecDeque::new(),
            input: String::new(),
            open: false,
            cursor_blink: instant_now(),
        };
        assert(c.messages@.map_values(|l: ChatLine| l.text@) =~= Seq::<Seq<char>>::empty());
        c
    }

    /// Records a received line, forgetting the oldest beyond `MAX_MESSAGES`.
    pub fn push_message(&mut self, text: String)
        requires
            old(self).wf(),
        ensures
            final(self).wf(),
            final(self).lines() == history_after_push(old(self).lines(), text@),
            final(self).typed() == old(self).typed(),
            final(self).opened() == old(self).opened(),
    {
        let ghost t = text@;
        let line = ChatLine { text, received: instant_now() };
        self.messages.push_back(line);
        assert(self.messages@.map_values(|l: ChatLine| l.text@) =~= old(self).lines().push(t));
        if self.messages.len() > MAX_MESSAGES {
            let ghost before = self.messages@;
            self.messages.pop_front();
            assert(self.messages@.map_values(|l: ChatLine| l.text@)
                =~= before.map_values(|l: ChatLine| l.text@).drop_first());
        }
    }

    /// Whether the input line is open.
    pub fn is_open(&self) -> (b: bool)
        ensures
            b == self.opened(),
    {
        self.open
    }

    /// Opens the input line, empty.
    pub fn open(&mut self)
        requires
            old(self).wf(),
        ensures
            final(self).wf(),
            final(self).opened(),
            final(self).typed() == Seq::<char>::empty(),
            final(self).lines() == old(self).lines(),
    {
        self.open = true;
        self.input.clear();
        self.cursor_blink = instant_now();
    }

    /// Opens the input line holding a single `/`, to start a command.
    pub fn open_with_slash(&mut self)
        requires
            old(self).wf(),
        ensures
            final(self).wf(),
            final(self).opened(),
            final(self).typed() == seq!['/'],
            final(self).lines() == old(self).lines(),
    {
        self.open = true;
        let mut s = String::new();
        s.push('/');
        self.input = s;
        self.cursor_blink = instant_now();
    }

    /// Closes the input line, keeping what was typed.
    pub fn close(&mut self)
        requires
            old(self).wf(),
        ensures
            final(self).wf(),
            !final(self).opened(),
            final(self).typed() == old(self).typed(),
            final(self).lines() == old(self).lines(),
            final(self).blink_start() == old(self).blink_start(),
    {
        self.open = false;
    }

    /// Applies one frame of keyboard input to the open input line: the typed
    /// characters are appended, then `backspace` deletes the last character,
    /// then `enter` closes the line and hands back its text unless it is empty.
    /// A closed chat ignores the input.
    pub fn handle_key_input(&mut self, typed_chars: &[char], backspace: bool, enter: bool) -> (r: Option<String>)
        requires
            old(self).wf(),
        ensures
            final(self).wf(),
            final(self).lines() == old(self).lines(),
            !(old(self).opened() && (typed_chars@.len() > 0 || backspace)) ==> final(self).blink_start()
                == old(self).blink_start(),
            !old(self).opened() ==> r is None && final(self).typed() == old(self).typed()
                && !final(self).opened(),
            old(self).opened() && !enter ==> r is None && final(self).opened()
                && final(self).typed() == edited_input(old(self).typed(), typed_chars@, backspace),
            old(self).opened() && enter ==> {
                let e = edited_input(old(self).typed(), typed_chars@, backspace);
                &&& !final(self).opened()
                &&& final(self).typed() == Seq::<char>::empty()
                &&& (e.len() == 0 ==> r is None)
                &&& (e.len() > 0 ==> r is Some && r->0@ == e)
            },
    {
        if !self.open {
            return None;
        }
        let mut i: usize = 0;
        while i < typed_chars.len()
            invariant
                i <= typed_chars.len(),
                self.input@ == old(self).input@ + typed_chars@.take(i as int),
                self.messages == old(self).messages,
                self.open == old(self).open,
                i == 0 ==> self.cursor_blink == old(self).cursor_blink,
            decreases typed_chars.len() - i,
        {
            self.input.push(typed_chars[i]);
            self.cursor_blink = instant_now();
            i = i + 1;
            assert(typed_chars@.take(i as int) == typed_chars@.take(i - 1).push(typed_chars@[i - 1]));
        }
        assert(typed_chars@.take(typed_chars.len() as int) == typed_chars@);
        if backspace {
            self.input.pop();
            self.cursor_blink = instant_now();
        }
        if enter {
            let msg = if self.input.as_str().is_empty() {
                None
            } else {
                Some(self.input.clone())
            };
            self.input.clear();
            self.open = false;
            return msg;
        }
        None
    }

    /// The lines to show, newest first, given the age in milliseconds of
    /// each held line (`ages`, oldest line first, one per line): the newest
    /// `VISIBLE_MESSAGES` of the lines that are shown, where every line is
    /// shown while the input line is open and, while it is closed, only the
    /// lines younger than `MESSAGE_LIFETIME_MILLIS`.
    pub fn visible_lines_at(&self, ages: &Vec<u128>) -> (v: Vec<String>)
        requires
            self.wf(),
            ages.len() == self.lines().len(),
        ensures
            texts(v@) == first_n(
                kept(self.lines().reverse(), shown(ages@.reverse(), self.opened())),
                VISIBLE_MESSAGES as nat,
            ),
            self.opened() ==> texts(v@) == first_n(self.lines().reverse(), VISIBLE_MESSAGES as nat),
    {
        let mut v: Vec<String> = Vec::new();
        let n = self.messages.len();
        let ghost lines = self.lines();
        let ghost r = lines.reverse();
        let ghost f = shown(ages@.reverse(), self.open);
        let mut k: usize = 0;
        while k < n && v.len() < VISIBLE_MESSAGES
            invariant
                n == self.messages@.len(),
                n == ages@.len(),
                lines == self.lines(),
                r == lines.reverse(),
                f == shown(ages@.reverse(), self.open),
                r.len() == n,
                f.len() == n,
                k <= n,
                v.len() <= VISIBLE_MESSAGES,
                texts(v@) == kept(r.take(k as int), f.take(k as int)),
            decreases n - k,
        {
            let line = &self.messages[n - 1 - k];
            let show = self.open || ages[n - 1 - k] < MESSAGE_LIFETIME_MILLIS;
            let ghost old_v = texts(v@);
            assert(r[k as int] == line.text@);
            assert(f[k as int] == show);
            if show {
                v.push(line.text.clone());
            }
            proof {
                assert(r.take(k + 1).drop_last() =~= r.take(k as int));
                assert(f.take(k + 1).drop_last() =~= f.take(k as int));
                assert(r.take(k + 1).last() == r[k as int]);
                assert(f.take(k + 1).last() == show);
                if show {
                    assert(texts(v@) =~= old_v.push(line.text@));
                } else {
                    assert(texts(v@) =~= old_v);
                }
            }
            k = k + 1;
        }
        proof {
            let p = kept(r.take(k as int), f.take(k as int));
            lemma_kept_prefix(r, f, k as nat);
            if k == n {
                assert(r.take(n as int) =~= r);
                assert(f.take(n as int) =~= f);
            } else {
                assert(p.len() == VISIBLE_MESSAGES);
                assert(kept(r, f).take(VISIBLE_MESSAGES as int) =~= p);
            }
            if self.open {
                lemma_kept_all(r, f);
            }
        }
        v
    }

    /// The lines to show at `now`, newest first: `visible_lines_at` with
    /// each line's age measured from its arrival to `now`. The ages come
    /// from the clock, so the result is stated for the ages whatever they are.
    pub fn visible_lines(&self, now: &Instant) -> (v: Vec<String>)
        requires
            self.wf(),
        ensures
            exists|ages: Seq<u128>|
                ages.len() == self.lines().len() && texts(v@) == first_n(
                    kept(self.lines().reverse(), #[trigger] shown(ages.reverse(), self.opened())),
                    VISIBLE_MESSAGES as nat,
                ),
            self.opened() ==> texts(v@) == first_n(self.lines().reverse(), VISIBLE_MESSAGES as nat),
    {
        let mut ages: Vec<u128> = Vec::new();
        let n = self.messages.len();
        let mut i: usize = 0;
        while i < n
            invariant
                n == self.messages@.len(),
                i <= n,
                ages.len() == i,
            decreases n - i,
        {
            ages.push(millis_since(&self.messages[i].received, now));
            i = i + 1;
        }
        self.visible_lines_at(&ages)
    }
}

/// Which lines are shown, given their ages in the same order: all of them
/// while the input line is open, else those younger than `MESSAGE_LIFETIME_MILLIS`.
pub open spec fn shown(ages: Seq<u128>, open: bool) -> Seq<bool> {
    Seq::new(ages.len(), |i: int| open || ages[i] < MESSAGE_LIFETIME_MILLIS)
}

/// What is kept of the first `k` lines is the start of what is kept of them all.
proof fn lemma_kept_prefix(s: Seq<Seq<char>>, keep: Seq<bool>, k: nat)
    requires
        s.len() == keep.len(),
        k <= s.len(),
    ensures
        kept(s.take(k as int), keep.take(k as int)).len() <= kept(s, keep).len(),
        kept(s, keep).take(kept(s.take(k as int), keep.take(k as int)).len() as int)
            == kept(s.take(k as int), keep.take(k as int)),
    decreases s.len(),
{
    if k == s.len() {
        assert(s.take(k as int) =~= s);
        assert(keep.take(k as int) =~= keep);
        assert(kept(s, keep).take(kept(s, keep).len() as int) =~= kept(s, keep));
    } else {
        lemma_kept_prefix(s.drop_last(), keep.drop_last(), k);
        assert(s.drop_last().take(k as int) =~= s.take(k as int));
        assert(keep.drop_last().take(k as int) =~= keep.take(k as int));
        let rest = kept(s.drop_last(), keep.drop_last());
        let p = kept(s.take(k as int), keep.take(k as int));
        if keep.last() {
            assert(rest.push(s.last()).take(p.len() as int) =~= rest.take(p.len() as int));
        }
    }
}

/// Keeping every line keeps them all.
proof fn lemma_kept_all(s: Seq<Seq<char>>, keep: Seq<bool>)
    requires
        s.len() == keep.len(),
        forall|i: int| 0 <= i < keep.len() ==> keep[i],
    ensures
        kept(s, keep) == s,
    decreases s.len(),
{
    if s.len() > 0 {
        lemma_kept_all(s.drop_last(), keep.drop_last());
        assert(keep.last());
        assert(s.drop_last().push(s.last()) =~= s);
    }
}

} // verus!
