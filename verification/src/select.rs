//! Type-to-select in pickers, and the messages shown when a generated row leads back to its
//! source.
use crate::text::{starts_with_spec, text_starts_with, to_lowercase, unicode_lowercase};
use vstd::prelude::*;

verus! {

/// How long, in milliseconds, a pause between keystrokes may last before the typed prefix
/// starts over.
pub const TYPE_TO_SELECT_TIMEOUT_MS: u64 = 1000;

/// The prefix typed so far in a picker, and when its last character came.
pub struct TypeToSelect {
    buffer: String,
    last_type_time: Option<u64>,
    timeout: u64,
}

/// The position of the first label that starts with `prefix`, both compared in lower case.
pub open spec fn first_match(labels: Seq<String>, prefix: Seq<char>) -> Option<int>
    decreases labels.len(),
{
    if labels.len() == 0 {
        None
    } else {
        match first_match(labels.drop_last(), prefix) {
            Some(i) => Some(i),
            None => if starts_with_spec(unicode_lowercase(labels.last()@), unicode_lowercase(prefix)) {
                Some(labels.len() - 1)
            } else {
                None
            },
        }
    }
}

/// The prefix kept when a key comes at `now`: it starts over after a pause longer than the
/// timeout (a clock that went backwards counts as no pause).
pub open spec fn kept_prefix(typed: Seq<char>, last: Option<u64>, now: u64, timeout: u64) -> Seq<
    char,
> {
    match last {
        Some(t) => if now > t && now - t > timeout {
            Seq::empty()
        } else {
            typed
        },
        None => typed,
    }
}

impl TypeToSelect {
    /// The prefix typed so far.
    pub closed spec fn typed(&self) -> Seq<char> {
        self.buffer@
    }

    /// When the last key came, in milliseconds of the caller's clock.
    pub closed spec fn last_key_time(&self) -> Option<u64> {
        self.last_type_time
    }

    /// How long a pause resets the prefix.
    pub closed spec fn pause_limit(&self) -> u64 {
        self.timeout
    }

    /// Nothing typed yet, with the standard one-second pause.
    pub fn new() -> (r: Self)
        ensures
            r.typed().len() == 0,
            r.last_key_time() is None,
            r.pause_limit() == TYPE_TO_SELECT_TIMEOUT_MS,
    {
        TypeToSelect { buffer: String::new(), last_type_time: None, timeout: TYPE_TO_SELECT_TIMEOUT_MS }
    }

    /// Forgets the typed prefix.
    pub fn clear(&mut self)
        ensures
            final(self).typed().len() == 0,
            final(self).last_key_time() is None,
            final(self).pause_limit() == old(self).pause_limit(),
    {
        self.buffer = String::new();
        self.last_type_time = None;
    }

    /// Adds the character `c`, typed at `now` (milliseconds of a monotonic clock), to the prefix
    /// and returns the position of the first label that starts with it, ignoring case.
    pub fn handle_char(&mut self, c: char, now: u64, labels: &[String]) -> (r: Option<usize>)
        ensures
            final(self).typed() == kept_prefix(
                old(self).typed(),
                old(self).last_key_time(),
                now,
                old(self).pause_limit(),
            ).push(c),
            final(self).last_key_time() == Some(now),
            final(self).pause_limit() == old(self).pause_limit(),
            r == (match first_match(labels@, final(self).typed()) {
                Some(i) => Some(i as usize),
                None => None::<usize>,
            }),
    {
        if let Some(last_time) = self.last_type_time {
            if now > last_time && now - last_time > self.timeout {
                self.buffer = String::new();
            }
        }
        self.buffer.push(c);
        self.last_type_time = Some(now);
        find_label(labels, self.buffer.as_str())
    }
}

/// The position of the first label that starts with `typed`, ignoring case.
fn find_label(labels: &[String], typed: &str) -> (r: Option<usize>)
    ensures
        r == (match first_match(labels@, typed@) {
            Some(i) => Some(i as usize),
            None => None::<usize>,
        }),
{
    let search_term = to_lowercase(typed);
    let mut i: usize = 0;
    while i < labels.len()
        invariant
            i <= labels@.len(),
            search_term@ == unicode_lowercase(typed@),
            first_match(labels@.take(i as int), typed@) is None,
        decreases labels@.len() - i,
    {
        proof {
            assert(labels@.take(i + 1).drop_last() =~= labels@.take(i as int));
        }
        let label = to_lowercase(labels[i].as_str());
        if text_starts_with(label.as_str(), search_term.as_str()) {
            proof {
                lemma_first_match_prefix(labels@, typed@, i + 1);
            }
            return Some(i);
        }
        i = i + 1;
    }
    proof {
        assert(labels@.take(labels@.len() as int) =~= labels@);
    }
    None
}

proof fn lemma_first_match_prefix(labels: Seq<String>, prefix: Seq<char>, n: int)
    requires
        0 <= n <= labels.len(),
        first_match(labels.take(n), prefix) is Some,
    ensures
        first_match(labels, prefix) == first_match(labels.take(n), prefix),
    decreases labels.len() - n,
{
    if n < labels.len() {
        assert(labels.take(n + 1).drop_last() =~= labels.take(n));
        lemma_first_match_prefix(labels, prefix, n + 1);
    } else {
        assert(labels.take(n) =~= labels);
    }
}

impl Default for TypeToSelect {
    fn default() -> (r: Self)
        ensures
            r.typed().len() == 0,
            r.last_key_time() is None,
            r.pause_limit() == TYPE_TO_SELECT_TIMEOUT_MS,
    {
        TypeToSelect::new()
    }
}

/// Which action a jump back to a generated row's source was made for.
#[derive(Debug, Clone, Copy, PartialEq, Eq, Structural)]
pub enum JumpToOriginalAction {
    Edit,
    Delete,
    RecurringSettings,
}

pub open spec fn jump_message(a: JumpToOriginalAction) -> Seq<char> {
    match a {
        JumpToOriginalAction::Edit => "Jumped to original recurring transaction for editing."@,
        JumpToOriginalAction::Delete => "Jumped to original recurring transaction for deletion."@,
        JumpToOriginalAction::RecurringSettings =>
            "Jumped to original recurring transaction for settings."@,
    }
}

impl JumpToOriginalAction {
    /// The status line shown after the jump.
    pub fn message(&self) -> (r: &'static str)
        ensures
            r@ == jump_message(*self),
    {
        match self {
            JumpToOriginalAction::Edit => "Jumped to original recurring transaction for editing.",
            JumpToOriginalAction::Delete => "Jumped to original recurring transaction for deletion.",
            JumpToOriginalAction::RecurringSettings =>
                "Jumped to original recurring transaction for settings.",
        }
    }
}

} // verus!
