//! The spotlight search overlay: a fixed entry list filtered and
//! ranked against a live text query.

use vstd::prelude::*;

verus! {

use vstd::string::StringExecFns;
use crate::event::{InputEvent, KeyInput};
use crate::shell::WindowUpdate;
use crate::rank::{
    spec_score,
    spec_ranked,
    lemma_all_ones_identity,
    lemma_ranked_membership,
    lemma_ranked_stable,
};
use crate::text::lower_of;

/// One searchable entry: a category and a title. Selecting an entry is
/// not wired to any key, so an entry carries nothing to invoke.
pub struct SpotlightEntry {
    /// The category shown before the title.
    pub category: String,
    /// The title of what the entry stands for.
    pub title: String,
}

/// The score of an entry against the raw query: with an empty query a
/// fixed score of 1 (every entry shows), otherwise the number of
/// whitespace-separated query tokens that occur in the lowercased
/// category or title.
pub open spec fn spec_entry_score(category: Seq<char>, title: Seq<char>, input: Seq<char>) -> nat {
    if input.len() == 0 {
        1
    } else {
        spec_score(lower_of(category), lower_of(title), lower_of(input))
    }
}

impl SpotlightEntry {
    /// The entry the spotlight lists for an open window: the fixed
    /// category label and the window's title.
    pub fn from_title(title: String) -> (e: SpotlightEntry)
        ensures
            e.category@ == "Windows"@,
            e.title == title,
    {
        SpotlightEntry { category: String::from_str("Windows"), title }
    }

    /// The score of this entry against `input`; see [`spec_entry_score`].
    ///
    /// The result is returned as a `u16`, so the caller owes a score
    /// that fits; [`Self::matches_checked`] establishes that bound.
    pub fn matches(&self, input: &str) -> (r: u16)
        requires
            input@.len() == 0 || spec_score(
                lower_of(self.category@),
                lower_of(self.title@),
                lower_of(input@),
            ) <= u16::MAX,
        ensures
            r == spec_entry_score(self.category@, self.title@, input@),
    {
        if input.is_empty() {
            1
        } else {
            let cat = crate::text::lower_chars(self.category.as_str());
            let title = crate::text::lower_chars(self.title.as_str());
            let q = crate::text::lower_chars(input);
            let s = crate::rank::score_chars(&cat, &title, &q);
            s as u16
        }
    }

    /// The score of this entry against `input`, or `None` on the
    /// degenerate queries whose score exceeds `u16::MAX`.
    pub fn matches_checked(&self, input: &str) -> (r: Option<u16>)
        ensures
            match r {
                Some(n) => n == spec_entry_score(self.category@, self.title@, input@),
                None => spec_entry_score(self.category@, self.title@, input@) > u16::MAX,
            },
    {
        if input.is_empty() {
            Some(self.matches(input))
        } else {
            let cat = crate::text::lower_chars(self.category.as_str());
            let title = crate::text::lower_chars(self.title.as_str());
            let q = crate::text::lower_chars(input);
            let s = crate::rank::score_chars(&cat, &title, &q);
            if s <= u16::MAX as usize {
                Some(self.matches(input))
            } else {
                None
            }
        }
    }
}

/// The display line of an entry: `category > title`.
pub open spec fn spec_line(e: SpotlightEntry) -> Seq<char> {
    e.category@ + " > "@ + e.title@
}

/// The spotlight dialog's state: the live query buffer and the fixed
/// entry list, set once at construction.
pub struct SpotlightDialog {
    /// The query, as typed so far.
    pub search_input: Vec<char>,
    /// The entries searched; fixed for the dialog's lifetime.
    pub entries: Vec<SpotlightEntry>,
}

impl Default for SpotlightDialog {
    /// An empty dialog: no query, no entries.
    fn default() -> (d: SpotlightDialog)
        ensures
            d.search_input@ == Seq::<char>::empty(),
            d.entries@ == Seq::<SpotlightEntry>::empty(),
    {
        SpotlightDialog { search_input: Vec::new(), entries: Vec::new() }
    }
}

impl SpotlightDialog {
    /// The scores of all entries against the current query.
    pub open spec fn spec_scores(&self) -> Seq<nat> {
        Seq::new(
            self.entries@.len(),
            |i: int|
                spec_entry_score(
                    self.entries@[i].category@,
                    self.entries@[i].title@,
                    self.search_input@,
                ),
        )
    }

    /// A dialog over the given entries, with an empty query.
    pub fn new(entries: Vec<SpotlightEntry>) -> (d: Box<SpotlightDialog>)
        ensures
            d.search_input@ == Seq::<char>::empty(),
            d.entries == entries,
    {
        Box::new(SpotlightDialog { search_input: Vec::new(), entries })
    }

    /// The dialog's own title.
    pub fn get_title(&self) -> (t: String)
        ensures
            t@ == "Spotlight"@,
    {
        String::from_str("Spotlight")
    }

    /// The query as text, for display.
    pub fn input_text(&self) -> (s: String)
        ensures
            s@ == self.search_input@,
    {
        crate::text::collect_string(&self.search_input)
    }

    /// Edit the query by one event: backspace removes the last
    /// character (and leaves an empty query empty), a printable
    /// character is appended, every key asks for a redraw; other events
    /// do nothing. The entries never change.
    pub fn handle<W>(&mut self, event: &InputEvent) -> (u: WindowUpdate<W>)
        ensures
            final(self).entries == old(self).entries,
            match *event {
                InputEvent::Key(key) => (u matches WindowUpdate::Draw) && match key {
                    KeyInput::Backspace => final(self).search_input@ == (if old(
                        self,
                    ).search_input@.len() > 0 {
                        old(self).search_input@.drop_last()
                    } else {
                        old(self).search_input@
                    }),
                    KeyInput::Char(c) => final(self).search_input@ == old(
                        self,
                    ).search_input@.push(c),
                    _ => final(self).search_input@ == old(self).search_input@,
                },
                _ => (u matches WindowUpdate::Idle) && final(self).search_input@ == old(
                    self,
                ).search_input@,
            },
    {
        match event {
            InputEvent::Key(key) => {
                match key {
                    KeyInput::Backspace => {
                        let _ = self.search_input.pop();
                    },
                    KeyInput::Char(c) => {
                        self.search_input.push(*c);
                    },
                    _ => {},
                }
                WindowUpdate::Draw
            },
            _ => WindowUpdate::Idle,
        }
    }

    /// The indices of the entries shown, in display order: zero scores
    /// dropped, the rest by descending score, stable within a score;
    /// see [`spec_ranked`].
    pub fn ranked_indices(&self) -> (r: Vec<usize>)
        ensures
            r@.map_values(|u: usize| u as int) == spec_ranked(self.spec_scores()),
            forall|k: int| 0 <= k < r@.len() ==> #[trigger] r@[k] < self.entries@.len(),
    {
        let n = self.entries.len();
        let mut scores: Vec<usize> = Vec::new();
        if self.search_input.len() == 0 {
            let mut i: usize = 0;
            while i < n
                invariant
                    i <= n,
                    n == self.entries@.len(),
                    self.search_input@.len() == 0,
                    scores@.len() == i,
                    forall|t: int| 0 <= t < i ==> #[trigger] scores@[t] == 1usize,
                decreases n - i,
            {
                scores.push(1);
                i += 1;
            }
        } else {
            let qs = crate::text::collect_string(&self.search_input);
            let q = crate::text::lower_chars(qs.as_str());
            let mut i: usize = 0;
            while i < n
                invariant
                    i <= n,
                    n == self.entries@.len(),
                    self.search_input@.len() > 0,
                    q@ == lower_of(self.search_input@),
                    scores@.len() == i,
                    forall|t: int|
                        0 <= t < i ==> #[trigger] scores@[t] == self.spec_scores()[t],
                decreases n - i,
            {
                let cat = crate::text::lower_chars(self.entries[i].category.as_str());
                let title = crate::text::lower_chars(self.entries[i].title.as_str());
                let s = crate::rank::score_chars(&cat, &title, &q);
                scores.push(s);
                i += 1;
            }
        }
        proof {
            assert(scores@.map_values(|s: usize| s as nat) =~= self.spec_scores());
        }
        crate::rank::ranked_by_scores(&scores)
    }

    /// The lines shown, in display order: `category > title` for each
    /// ranked entry.
    pub fn ranked_lines(&self) -> (r: Vec<String>)
        ensures
            r@.len() == spec_ranked(self.spec_scores()).len(),
            forall|k: int|
                0 <= k < r@.len() ==> (#[trigger] r@[k])@ == spec_line(
                    self.entries@[spec_ranked(self.spec_scores())[k]],
                ),
    {
        let idxs = self.ranked_indices();
        let mut r: Vec<String> = Vec::new();
        let mut k: usize = 0;
        while k < idxs.len()
            invariant
                idxs@.map_values(|u: usize| u as int) == spec_ranked(self.spec_scores()),
                forall|t: int| 0 <= t < idxs@.len() ==> #[trigger] idxs@[t] < self.entries@.len(),
                k <= idxs@.len(),
                r@.len() == k,
                forall|t: int|
                    0 <= t < k ==> (#[trigger] r@[t])@ == spec_line(
                        self.entries@[idxs@[t] as int],
                    ),
            decreases idxs@.len() - k,
        {
            let idx = idxs[k];
            let mut line = self.entries[idx].category.clone();
            line.append(" > ");
            line.append(self.entries[idx].title.as_str());
            r.push(line);
            proof {
                assert(idxs@.map_values(|u: usize| u as int)[k as int] == idxs@[k as int] as int);
            }
            k += 1;
        }
        proof {
            assert forall|t: int| 0 <= t < r@.len() implies (#[trigger] r@[t])@ == spec_line(
                self.entries@[spec_ranked(self.spec_scores())[t]],
            ) by {
                assert(idxs@.map_values(|u: usize| u as int)[t] == idxs@[t] as int);
            }
        }
        r
    }

    /// Filtering law: with a non-empty query an entry scoring zero is
    /// never shown, and an entry scoring above zero always is; with an
    /// empty query every entry scores 1 and is shown.
    pub proof fn lemma_filtering(self, x: int)
        requires
            0 <= x < self.entries@.len(),
        ensures
            spec_ranked(self.spec_scores()).contains(x) <==> self.spec_scores()[x] > 0,
            self.search_input@.len() == 0 ==> spec_ranked(self.spec_scores()).contains(x),
    {
        lemma_ranked_membership(self.spec_scores(), x);
    }

    /// Empty-query law: with an empty query every entry scores 1 and
    /// the ranked output is all entries, in their original order.
    pub proof fn lemma_empty_query_identity(self)
        requires
            self.search_input@.len() == 0,
        ensures
            spec_ranked(self.spec_scores()) == Seq::new(self.entries@.len(), |x: int| x),
    {
        assert forall|x: int| 0 <= x < self.spec_scores().len() implies self.spec_scores()[x]
            == 1 by {}
        lemma_all_ones_identity(self.spec_scores());
    }

    /// Stability law: two entries with the same score appear in the
    /// ranked output in their original relative order, whatever the
    /// query.
    pub proof fn lemma_stability(self, i: int, j: int, p: int, q: int)
        requires
            0 <= i < j < self.entries@.len(),
            self.spec_scores()[i] == self.spec_scores()[j],
            0 <= p < spec_ranked(self.spec_scores()).len(),
            0 <= q < spec_ranked(self.spec_scores()).len(),
            spec_ranked(self.spec_scores())[p] == i,
            spec_ranked(self.spec_scores())[q] == j,
        ensures
            p < q,
    {
        lemma_ranked_stable(self.spec_scores(), i, j, p, q);
    }
}

} // verus!
