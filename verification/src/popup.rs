//! The list of agents that pops up while the user writes a mention: which names
//! it shows, and which of them is selected.

use vstd::prelude::*;

use crate::text;

verus! {

/// How a name fits what the user wrote.
#[derive(Debug, PartialEq, Eq)]
pub struct AliasMatch {
    /// The places in the name that fit, if they are to be shown.
    pub indices: Option<Vec<usize>>,
    /// The smaller, the better.
    pub score: i32,
}

/// The mathematical value of an `AliasMatch`.
#[verifier::ext_equal]
pub struct MatchView {
    pub indices: Option<Seq<usize>>,
    pub score: i32,
}

impl DeepView for AliasMatch {
    type V = MatchView;

    open spec fn deep_view(&self) -> MatchView {
        MatchView {
            indices: match self.indices {
                Some(indices) => Some(indices@),
                None => None,
            },
            score: self.score,
        }
    }
}

/// A line of the list.
#[derive(Debug, PartialEq, Eq)]
pub struct AliasRow {
    pub name: String,
    pub match_indices: Option<Vec<usize>>,
}

/// The mathematical value of an `AliasRow`.
#[verifier::ext_equal]
pub struct RowView {
    pub name: Seq<char>,
    pub match_indices: Option<Seq<usize>>,
}

impl DeepView for AliasRow {
    type V = RowView;

    open spec fn deep_view(&self) -> RowView {
        RowView {
            name: self.name@,
            match_indices: match self.match_indices {
                Some(indices) => Some(indices@),
                None => None,
            },
        }
    }
}

/// The list of agents that pops up.
pub struct AgentMentionPopup {
    query: String,
    aliases: Vec<String>,
    /// How each name fits the query, if it does.
    matches: Vec<Option<AliasMatch>>,
    selected_idx: Option<usize>,
    scroll_top: usize,
    max_rows: u16,
}

/// The mathematical value of an `AgentMentionPopup`.
pub struct PopupView {
    /// What the user wrote.
    pub query: Seq<char>,
    /// The names of the agents.
    pub aliases: Seq<Seq<char>>,
    /// How each name fits the query, if it does.
    pub matches: Seq<Option<MatchView>>,
    /// The line that is selected.
    pub selected_idx: Option<usize>,
    /// The first line that is shown.
    pub scroll_top: usize,
    /// How many lines can be shown at once.
    pub max_rows: u16,
}

impl View for AgentMentionPopup {
    type V = PopupView;

    closed spec fn view(&self) -> PopupView {
        PopupView {
            query: self.query@,
            aliases: text::views(self.aliases@),
            matches: self.matches.deep_view(),
            selected_idx: self.selected_idx,
            scroll_top: self.scroll_top,
            max_rows: self.max_rows,
        }
    }
}

// ---------------------------------------------------------------------------
// Which names are shown
// ---------------------------------------------------------------------------

/// A name that is shown, by its place, and how well it fits.
pub struct Found {
    pub place: usize,
    pub score: i32,
}

impl PopupView {
    /// How a name fits, if it does.
    pub open spec fn match_at(self, place: int) -> Option<MatchView> {
        if 0 <= place < self.matches.len() {
            self.matches[place]
        } else {
            None
        }
    }

    /// Whether a name stands before another one: it fits better, or it fits as
    /// well and comes first in the alphabet.
    pub open spec fn stands_before(self, a: Found, b: Found) -> bool {
        a.score < b.score || (a.score == b.score && text::less(
            self.aliases[a.place as int],
            self.aliases[b.place as int],
        ))
    }

    /// The names with one more, behind all that do not stand after it.
    pub open spec fn with_found(self, found: Seq<Found>, new: Found) -> Seq<Found>
        decreases found.len(),
    {
        if found.len() > 0 && self.stands_before(new, found.last()) {
            self.with_found(found.drop_last(), new).push(found.last())
        } else {
            found.push(new)
        }
    }

    /// Those of the first `n` names that fit, the best first.
    pub open spec fn fitting(self, n: int) -> Seq<Found>
        decreases n,
    {
        if n <= 0 {
            seq![]
        } else {
            match self.match_at(n - 1) {
                Some(found) => self.with_found(
                    self.fitting(n - 1),
                    Found { place: (n - 1) as usize, score: found.score },
                ),
                None => self.fitting(n - 1),
            }
        }
    }

    /// The names that are shown, by their places: all of them, until something is
    /// written.
    pub open spec fn shown(self) -> Seq<usize> {
        if text::is_blank(self.query) {
            Seq::new(self.aliases.len(), |i: int| i as usize)
        } else {
            let found = self.fitting(self.aliases.len() as int);
            Seq::new(found.len(), |i: int| found[i].place)
        }
    }

    /// The lines of the list.
    pub open spec fn rows(self) -> Seq<RowView> {
        let shown = self.shown();
        Seq::new(
            shown.len(),
            |i: int|
                RowView {
                    name: self.aliases[shown[i] as int],
                    match_indices: if text::is_blank(self.query) {
                        None
                    } else {
                        match self.match_at(shown[i] as int) {
                            Some(found) => found.indices,
                            None => None,
                        }
                    },
                },
        )
    }

    /// The name that is selected.
    pub open spec fn selected(self) -> Option<Seq<char>> {
        match self.selected_idx {
            Some(i) => if i < self.shown().len() {
                Some(self.aliases[self.shown()[i as int] as int])
            } else {
                None
            },
            None => None,
        }
    }

    /// How many lines the list takes, with the hint below it.
    pub open spec fn height(self) -> u16 {
        let lines = self.shown().len();
        let visible = if lines < 1 {
            1
        } else if lines > self.max_rows {
            self.max_rows as int
        } else {
            lines as int
        };
        if visible + 2 > u16::MAX {
            u16::MAX
        } else {
            (visible + 2) as u16
        }
    }

    // -----------------------------------------------------------------------
    // Which one is selected
    // -----------------------------------------------------------------------

    /// How many lines can be seen at once.
    pub open spec fn visible_rows(self) -> int {
        let lines = self.shown().len();
        if lines < self.max_rows {
            lines as int
        } else {
            self.max_rows as int
        }
    }

    /// With the selected line in sight.
    pub open spec fn in_sight(self) -> PopupView {
        let visible = self.visible_rows();
        PopupView {
            scroll_top: match self.selected_idx {
                Some(selected) if visible > 0 => if selected < self.scroll_top {
                    selected
                } else if selected >= self.scroll_top + visible {
                    (selected + 1 - visible) as usize
                } else {
                    self.scroll_top
                },
                _ => 0,
            },
            ..self
        }
    }

    /// With a line selected that is there.
    pub open spec fn clamped(self) -> PopupView {
        let lines = self.shown().len();
        (PopupView {
            selected_idx: if lines == 0 {
                None
            } else {
                match self.selected_idx {
                    Some(selected) => if selected < lines {
                        Some(selected)
                    } else {
                        Some((lines - 1) as usize)
                    },
                    None => Some(0),
                }
            },
            ..self
        }).in_sight()
    }

    /// With the line above selected; the last one follows the first.
    pub open spec fn up(self) -> PopupView {
        let lines = self.shown().len();
        (PopupView {
            selected_idx: if lines == 0 {
                None
            } else {
                match self.selected_idx {
                    Some(selected) => if selected > 0 {
                        Some((selected - 1) as usize)
                    } else {
                        Some((lines - 1) as usize)
                    },
                    None => Some(0),
                }
            },
            ..self
        }).in_sight()
    }

    /// With the line below selected; the first one follows the last.
    pub open spec fn down(self) -> PopupView {
        let lines = self.shown().len();
        (PopupView {
            selected_idx: if lines == 0 {
                None
            } else {
                match self.selected_idx {
                    Some(selected) => if selected + 1 < lines {
                        Some((selected + 1) as usize)
                    } else {
                        Some(0)
                    },
                    None => Some(0),
                }
            },
            ..self
        }).in_sight()
    }

    /// What holds of a list at any time: the selected line is there.
    pub open spec fn wf(self) -> bool {
        &&& self.max_rows > 0
        &&& self.aliases.len() <= usize::MAX
        &&& self.selected_idx matches Some(selected) ==> selected < self.shown().len()
    }
}

proof fn lemma_with_found(popup: PopupView, found: Seq<Found>, new: Found, n: int)
    requires
        0 <= n <= found.len(),
        forall|i: int| n <= i < found.len() ==> popup.stands_before(new, #[trigger] found[i]),
        n > 0 ==> !popup.stands_before(new, found[n - 1]),
    ensures
        popup.with_found(found, new) == found.insert(n, new),
    decreases found.len(),
{
    if n < found.len() {
        let rest = found.drop_last();
        assert forall|i: int| n <= i < rest.len() implies popup.stands_before(
            new,
            #[trigger] rest[i],
        ) by {
            assert(rest[i] == found[i]);
        }
        if n > 0 {
            assert(rest[n - 1] == found[n - 1]);
        }
        lemma_with_found(popup, rest, new, n);
        assert(found.last() == found[found.len() - 1]);
        assert(rest.insert(n, new).push(found.last()) =~= found.insert(n, new));
    } else {
        if found.len() > 0 {
            assert(found.last() == found[n - 1]);
        }
        assert(found.push(new) =~= found.insert(n, new));
    }
}

proof fn lemma_with_found_places(popup: PopupView, found: Seq<Found>, new: Found, n: int)
    requires
        new.place < n,
        forall|i: int| 0 <= i < found.len() ==> (#[trigger] found[i]).place < n,
    ensures
        popup.with_found(found, new).len() == found.len() + 1,
        forall|i: int|
            0 <= i < popup.with_found(found, new).len() ==> (#[trigger] popup.with_found(
                found,
                new,
            )[i]).place < n,
    decreases found.len(),
{
    if found.len() > 0 && popup.stands_before(new, found.last()) {
        let rest = found.drop_last();
        assert forall|i: int| 0 <= i < rest.len() implies (#[trigger] rest[i]).place < n by {
            assert(rest[i] == found[i]);
        }
        assert(found.last() == found[found.len() - 1]);
        lemma_with_found_places(popup, rest, new, n);
    }
}

proof fn lemma_fitting(popup: PopupView, n: int)
    requires
        0 <= n <= popup.aliases.len() <= usize::MAX,
    ensures
        popup.fitting(n).len() <= n,
        forall|i: int| 0 <= i < popup.fitting(n).len() ==> (#[trigger] popup.fitting(n)[i]).place < n,
    decreases n,
{
    if n > 0 {
        lemma_fitting(popup, n - 1);
        if let Some(found) = popup.match_at(n - 1) {
            let new = Found { place: (n - 1) as usize, score: found.score };
            let before = popup.fitting(n - 1);
            assert forall|i: int| 0 <= i < before.len() implies (#[trigger] before[i]).place < n by {
            }
            lemma_with_found_places(popup, before, new, n);
        }
    }
}

proof fn lemma_shown(popup: PopupView)
    requires
        popup.aliases.len() <= usize::MAX,
    ensures
        popup.shown().len() <= popup.aliases.len(),
        forall|i: int|
            0 <= i < popup.shown().len() ==> (#[trigger] popup.shown()[i]) < popup.aliases.len(),
{
    lemma_fitting(popup, popup.aliases.len() as int);
}

fn copy_indices(indices: &Option<Vec<usize>>) -> (r: Option<Vec<usize>>)
    ensures
        (match r {
            Some(r) => Some(r@),
            None => None,
        }) == (match *indices {
            Some(indices) => Some(indices@),
            None => None,
        }),
{
    match indices {
        Some(indices) => {
            let mut r: Vec<usize> = Vec::new();
            for i in 0..indices.len()
                invariant
                    r@ == indices@.take(i as int),
            {
                r.push(indices[i]);
                proof {
                    assert(indices@.take(i + 1) =~= indices@.take(i as int).push(
                        indices@[i as int],
                    ));
                }
            }
            proof {
                assert(indices@.take(indices@.len() as int) =~= indices@);
            }
            Some(r)
        },
        None => None,
    }
}

proof fn lemma_lines(a: PopupView, b: PopupView)
    requires
        a.query == b.query,
        a.aliases == b.aliases,
        a.matches == b.matches,
    ensures
        a.shown() == b.shown(),
{
    lemma_fitting_same(a, b, a.aliases.len() as int);
}

impl AgentMentionPopup {
    /// A list of these names, of which at most `max_rows` lines are shown at once.
    pub fn new(aliases: Vec<String>, max_rows: u16) -> (r: AgentMentionPopup)
        requires
            max_rows > 0,
        ensures
            r@.wf(),
            r@ == (PopupView {
                query: seq![],
                aliases: text::views(aliases@),
                matches: seq![],
                selected_idx: None,
                scroll_top: 0,
                max_rows,
            }),
    {
        let r = AgentMentionPopup {
            query: String::new(),
            aliases,
            matches: Vec::new(),
            selected_idx: None,
            scroll_top: 0,
            max_rows,
        };
        proof {
            assert(r.query@ =~= seq![]);
            assert(r.matches.deep_view() =~= seq![]);
            assert(r.aliases@.len() <= usize::MAX) by {
                let n = r.aliases.len();
            }
        }
        r
    }

    fn score_at(&self, place: usize) -> (r: Option<i32>)
        ensures
            r == match self@.match_at(place as int) {
                Some(found) => Some(found.score),
                None => None,
            },
    {
        if place < self.matches.len() {
            proof {
                assert(self@.matches[place as int] == self.matches@[place as int].deep_view());
            }
            match &self.matches[place] {
                Some(found) => Some(found.score),
                None => None,
            }
        } else {
            None
        }
    }

    fn insert_found(&self, found: &mut Vec<Found>, new: Found)
        requires
            new.place < self@.aliases.len(),
            forall|i: int|
                0 <= i < old(found)@.len() ==> (#[trigger] old(found)@[i]).place
                    < self@.aliases.len(),
        ensures
            final(found)@ == self@.with_found(old(found)@, new),
    {
        let mut n: usize = found.len();
        let ghost all = found@;
        while n > 0 && self.is_before(&new, &found[n - 1])
            invariant
                all == found@,
                n <= found@.len(),
                new.place < self@.aliases.len(),
                forall|i: int|
                    0 <= i < found@.len() ==> (#[trigger] found@[i]).place < self@.aliases.len(),
                forall|i: int| n <= i < all.len() ==> self@.stands_before(new, #[trigger] all[i]),
            decreases n,
        {
            n = n - 1;
        }
        proof {
            lemma_with_found(self@, all, new, n as int);
        }
        found.insert(n, new);
    }

    fn is_before(&self, a: &Found, b: &Found) -> (r: bool)
        requires
            a.place < self@.aliases.len(),
            b.place < self@.aliases.len(),
        ensures
            r == self@.stands_before(*a, *b),
    {
        proof {
            assert(self@.aliases[a.place as int] == self.aliases@[a.place as int]@);
            assert(self@.aliases[b.place as int] == self.aliases@[b.place as int]@);
        }
        a.score < b.score || (a.score == b.score && text::is_less(
            self.aliases[a.place].as_str(),
            self.aliases[b.place].as_str(),
        ))
    }

    fn filtered_items(&self) -> (r: Vec<usize>)
        ensures
            r@ == self@.shown(),
            self@.aliases.len() <= usize::MAX,
    {
        let count: usize = self.aliases.len();
        proof {
            assert(self@.aliases.len() == count);
        }
        let mut r: Vec<usize> = Vec::new();
        if text::blank(self.query.as_str()) {
            for i in 0..count
                invariant
                    r@ == Seq::new(i as nat, |i: int| i as usize),
            {
                r.push(i);
                proof {
                    assert(r@ =~= Seq::new((i + 1) as nat, |i: int| i as usize));
                }
            }
            proof {
                assert(r@ =~= self@.shown());
            }
            return r;
        }
        let mut found: Vec<Found> = Vec::new();
        for i in 0..count
            invariant
                count == self@.aliases.len(),
                found@ == self@.fitting(i as int),
        {
            proof {
                lemma_fitting(self@, i as int);
            }
            if let Some(score) = self.score_at(i) {
                self.insert_found(&mut found, Found { place: i, score });
            }
        }
        for i in 0..found.len()
            invariant
                r@ == Seq::new(i as nat, |i: int| found@[i].place),
        {
            r.push(found[i].place);
            proof {
                assert(r@ =~= Seq::new((i + 1) as nat, |i: int| found@[i].place));
            }
        }
        proof {
            assert(r@ =~= self@.shown());
        }
        r
    }

    fn ensure_visible(&mut self, lines: usize)
        requires
            lines == old(self)@.shown().len(),
            old(self)@.selected_idx matches Some(selected) ==> selected < lines,
        ensures
            final(self)@ == old(self)@.in_sight(),
    {
        let max_rows: usize = self.max_rows as usize;
        let visible: usize = if lines < max_rows {
            lines
        } else {
            max_rows
        };
        match self.selected_idx {
            Some(selected) => {
                if visible == 0 {
                    self.scroll_top = 0;
                } else if selected < self.scroll_top {
                    self.scroll_top = selected;
                } else if selected - self.scroll_top >= visible {
                    self.scroll_top = selected - (visible - 1);
                }
            },
            None => {
                self.scroll_top = 0;
            },
        }
    }

    fn clamp_selection(&mut self)
        requires
            old(self)@.max_rows > 0,
        ensures
            final(self)@ == old(self)@.clamped(),
            final(self)@.wf(),
    {
        let lines: usize = self.filtered_items().len();
        self.selected_idx = if lines == 0 {
            None
        } else {
            match self.selected_idx {
                Some(selected) => {
                    if selected < lines {
                        Some(selected)
                    } else {
                        Some(lines - 1)
                    }
                },
                None => Some(0),
            }
        };
        proof {
            lemma_lines(old(self)@, self@);
        }
        self.ensure_visible(lines);
        proof {
            lemma_lines(old(self)@, self@);
        }
    }

    /// Takes in the names; `matches` tells how each fits what was written.
    pub fn set_aliases(&mut self, aliases: Vec<String>, matches: Vec<Option<AliasMatch>>)
        requires
            old(self)@.wf(),
        ensures
            final(self)@.wf(),
            final(self)@ == (PopupView {
                aliases: text::views(aliases@),
                matches: matches.deep_view(),
                ..old(self)@
            }).clamped(),
    {
        self.aliases = aliases;
        self.matches = matches;
        self.clamp_selection();
    }

    /// Takes in what was written; `matches` tells how each name fits it.
    pub fn set_query(&mut self, query: &str, matches: Vec<Option<AliasMatch>>)
        requires
            old(self)@.wf(),
        ensures
            final(self)@.wf(),
            final(self)@ == (PopupView {
                query: query@,
                matches: matches.deep_view(),
                ..old(self)@
            }).clamped(),
    {
        self.query = query.to_owned();
        self.matches = matches;
        self.clamp_selection();
    }

    /// Selects the line above.
    pub fn move_up(&mut self)
        requires
            old(self)@.wf(),
        ensures
            final(self)@.wf(),
            final(self)@ == old(self)@.up(),
    {
        let lines: usize = self.filtered_items().len();
        self.selected_idx = if lines == 0 {
            None
        } else {
            match self.selected_idx {
                Some(selected) => {
                    if selected > 0 {
                        Some(selected - 1)
                    } else {
                        Some(lines - 1)
                    }
                },
                None => Some(0),
            }
        };
        proof {
            lemma_lines(old(self)@, self@);
        }
        self.ensure_visible(lines);
        proof {
            lemma_lines(old(self)@, self@);
        }
    }

    /// Selects the line below.
    pub fn move_down(&mut self)
        requires
            old(self)@.wf(),
        ensures
            final(self)@.wf(),
            final(self)@ == old(self)@.down(),
    {
        let lines: usize = self.filtered_items().len();
        self.selected_idx = if lines == 0 {
            None
        } else {
            match self.selected_idx {
                Some(selected) => {
                    if selected < lines - 1 {
                        Some(selected + 1)
                    } else {
                        Some(0)
                    }
                },
                None => Some(0),
            }
        };
        proof {
            lemma_lines(old(self)@, self@);
        }
        self.ensure_visible(lines);
        proof {
            lemma_lines(old(self)@, self@);
        }
    }

    /// The name that is selected.
    pub fn selected_alias(&self) -> (r: Option<&str>)
        ensures
            r.deep_view() == self@.selected(),
    {
        let shown = self.filtered_items();
        proof {
            lemma_shown(self@);
        }
        match self.selected_idx {
            Some(i) => {
                if i < shown.len() {
                    let place = shown[i];
                    proof {
                        assert(self@.shown()[i as int] < self@.aliases.len());
                        assert(self@.aliases[place as int] == self.aliases@[place as int]@);
                    }
                    Some(self.aliases[place].as_str())
                } else {
                    None
                }
            },
            None => None,
        }
    }

    /// The lines of the list.
    pub fn rows(&self) -> (r: Vec<AliasRow>)
        ensures
            r.deep_view() == self@.rows(),
    {
        let shown = self.filtered_items();
        let all_shown = text::blank(self.query.as_str());
        let ghost view = self@;
        let ghost lines = self@.rows();
        proof {
            lemma_shown(view);
        }
        let mut r: Vec<AliasRow> = Vec::new();
        proof {
            assert(r.deep_view() =~= lines.take(0));
        }
        for i in 0..shown.len()
            invariant
                view == self@,
                lines == view.rows(),
                shown@ == view.shown(),
                all_shown == text::is_blank(view.query),
                forall|i: int|
                    0 <= i < shown@.len() ==> (#[trigger] view.shown()[i]) < view.aliases.len(),
                r.deep_view() == lines.take(i as int),
        {
            let place = shown[i];
            proof {
                assert(view.shown()[i as int] < view.aliases.len());
                assert(view.aliases[place as int] == self.aliases@[place as int]@);
            }
            let match_indices = if all_shown || place >= self.matches.len() {
                None
            } else {
                proof {
                    assert(view.matches[place as int] == self.matches@[place as int].deep_view());
                }
                match &self.matches[place] {
                    Some(found) => copy_indices(&found.indices),
                    None => None,
                }
            };
            let row = AliasRow { name: self.aliases[place].clone(), match_indices };
            let ghost row_view = row.deep_view();
            let ghost before = r.deep_view();
            proof {
                assert(row_view == lines[i as int]);
            }
            r.push(row);
            proof {
                assert(r.deep_view() =~= before.push(row_view));
                assert(lines.take(i + 1) =~= lines.take(i as int).push(lines[i as int]));
            }
        }
        proof {
            assert(lines.take(lines.len() as int) =~= lines);
        }
        r
    }

    /// How many lines the list takes, with the hint below it.
    pub fn calculate_required_height(&self) -> (r: u16)
        requires
            self@.wf(),
        ensures
            r == self@.height(),
    {
        let lines: usize = self.filtered_items().len();
        let max_rows: usize = self.max_rows as usize;
        let visible: u16 = if lines < 1 {
            1
        } else if lines > max_rows {
            self.max_rows
        } else {
            lines as u16
        };
        visible.saturating_add(2)
    }
}

// ---------------------------------------------------------------------------
// Laws
// ---------------------------------------------------------------------------

/// As soon as there is a line, one is selected and in sight.
pub proof fn law_the_selected_line_is_in_sight(popup: PopupView)
    requires
        popup.max_rows > 0,
        0 < popup.shown().len() <= usize::MAX,
    ensures
        popup.clamped().selected_idx is Some,
        popup.clamped().scroll_top <= popup.clamped().selected_idx->0,
        popup.clamped().selected_idx->0 < popup.clamped().scroll_top + popup.visible_rows(),
{
    let selected = PopupView { selected_idx: popup.clamped().selected_idx, ..popup };
    lemma_lines(popup, selected);
    assert(popup.clamped() == selected.in_sight());
}

/// Down and up again leads back to the same line.
pub proof fn law_down_and_up_leads_back(popup: PopupView)
    requires
        popup.wf(),
        popup.selected_idx is Some,
        popup.shown().len() <= usize::MAX,
    ensures
        popup.down().up().selected_idx == popup.selected_idx,
        popup.up().down().selected_idx == popup.selected_idx,
{
    lemma_lines(popup, popup.down());
    lemma_lines(popup, popup.up());
}

proof fn lemma_with_found_same(a: PopupView, b: PopupView, found: Seq<Found>, new: Found)
    requires
        a.aliases == b.aliases,
    ensures
        a.with_found(found, new) == b.with_found(found, new),
    decreases found.len(),
{
    if found.len() > 0 && a.stands_before(new, found.last()) {
        lemma_with_found_same(a, b, found.drop_last(), new);
    }
}

proof fn lemma_fitting_same(a: PopupView, b: PopupView, n: int)
    requires
        a.aliases == b.aliases,
        a.matches == b.matches,
    ensures
        a.fitting(n) == b.fitting(n),
    decreases n,
{
    if n > 0 {
        lemma_fitting_same(a, b, n - 1);
        if let Some(found) = a.match_at(n - 1) {
            lemma_with_found_same(
                a,
                b,
                a.fitting(n - 1),
                Found { place: (n - 1) as usize, score: found.score },
            );
        }
    }
}

impl PopupView {
    /// Whether a name fits, and that well.
    spec fn fits(self, found: Found) -> bool {
        match self.match_at(found.place as int) {
            Some(m) => m.score == found.score,
            None => false,
        }
    }

    /// Whether names that fit stand in order: each once, with its own score, and
    /// none before one that fits better, or as well with an earlier name.
    spec fn in_order(self, found: Seq<Found>) -> bool {
        &&& forall|i: int, j: int|
            0 <= i < j < found.len() ==> (#[trigger] found[i]).place != (
            #[trigger] found[j]).place && !self.stands_before(found[j], found[i])
        &&& forall|i: int| 0 <= i < found.len() ==> self.fits(#[trigger] found[i])
    }
}

proof fn lemma_stands_before(popup: PopupView, a: Found, b: Found, c: Found)
    requires
        !popup.stands_before(b, a),
        popup.stands_before(c, a) || !popup.stands_before(c, b),
    ensures
        popup.stands_before(c, a) ==> popup.stands_before(c, b),
{
    let x = popup.aliases[a.place as int];
    let y = popup.aliases[b.place as int];
    let z = popup.aliases[c.place as int];
    text::law_less_is_an_order(x, y);
    text::law_less_is_an_order(y, z);
    text::law_less_is_an_order(x, z);
    if !text::less(y, x) && !text::less(z, y) {
        text::lemma_less_transitive(x, y, z);
    }
}

proof fn lemma_not_before_itself(popup: PopupView, a: Found, b: Found)
    requires
        popup.stands_before(a, b),
    ensures
        !popup.stands_before(b, a),
{
    text::law_less_is_an_order(popup.aliases[a.place as int], popup.aliases[b.place as int]);
}

proof fn lemma_with_found_in_order(popup: PopupView, found: Seq<Found>, new: Found)
    requires
        popup.in_order(found),
        forall|i: int| 0 <= i < found.len() ==> (#[trigger] found[i]).place != new.place,
        popup.fits(new),
    ensures
        popup.in_order(popup.with_found(found, new)),
        popup.with_found(found, new).len() == found.len() + 1,
        forall|x: Found| #[trigger]
            popup.with_found(found, new).contains(x) <==> x == new || found.contains(x),
    decreases found.len(),
{
    let all = popup.with_found(found, new);
    if found.len() > 0 && popup.stands_before(new, found.last()) {
        let front = found.drop_last();
        assert forall|i: int, j: int| 0 <= i < j < front.len() implies (
        #[trigger] front[i]).place != (#[trigger] front[j]).place && !popup.stands_before(
            front[j],
            front[i],
        ) by {
            assert(front[i] == found[i] && front[j] == found[j]);
        }
        assert forall|i: int| 0 <= i < front.len() implies (#[trigger] front[i]).place
            != new.place && popup.fits(front[i]) by {
            assert(front[i] == found[i]);
        }
        lemma_with_found_in_order(popup, front, new);
        let before = popup.with_found(front, new);
        let last = found.last();
        assert(found[found.len() - 1] == last);
        assert forall|i: int| 0 <= i < before.len() implies (#[trigger] before[i]).place
            != last.place && !popup.stands_before(last, before[i]) by {
            assert(before.contains(before[i]));
            if before[i] == new {
                lemma_not_before_itself(popup, new, last);
            } else {
                let k = choose|k: int| 0 <= k < front.len() && front[k] == before[i];
                assert(found[k] == before[i]);
            }
        }
        assert forall|x: Found| #[trigger] all.contains(x) <==> x == new || found.contains(x) by {
            if all.contains(x) {
                let k = choose|k: int| 0 <= k < all.len() && all[k] == x;
                if k < before.len() {
                    assert(before[k] == x);
                    assert(before.contains(x));
                    if x != new {
                        let m = choose|m: int| 0 <= m < front.len() && front[m] == x;
                        assert(found[m] == x);
                    }
                } else {
                    assert(found[found.len() - 1] == x);
                }
            }
            if x == new || found.contains(x) {
                if x == new {
                    assert(before.contains(x));
                } else {
                    let m = choose|m: int| 0 <= m < found.len() && found[m] == x;
                    if m < front.len() {
                        assert(front[m] == x);
                        assert(before.contains(x));
                    } else {
                        assert(all[before.len() as int] == x);
                    }
                }
                if before.contains(x) {
                    let k = choose|k: int| 0 <= k < before.len() && before[k] == x;
                    assert(all[k] == x);
                }
            }
        }
    } else {
        assert forall|i: int| 0 <= i < found.len() implies !popup.stands_before(
            new,
            #[trigger] found[i],
        ) by {
            if i < found.len() - 1 {
                assert(!popup.stands_before(found[found.len() - 1], found[i]));
                lemma_stands_before(popup, found[i], found[found.len() - 1], new);
            }
        }
        assert forall|x: Found| #[trigger] all.contains(x) <==> x == new || found.contains(x) by {
            if all.contains(x) {
                let k = choose|k: int| 0 <= k < all.len() && all[k] == x;
                if k < found.len() {
                    assert(found[k] == x);
                }
            }
            if found.contains(x) {
                let k = choose|k: int| 0 <= k < found.len() && found[k] == x;
                assert(all[k] == x);
            }
            if x == new {
                assert(all[found.len() as int] == x);
            }
        }
    }
}

proof fn lemma_fitting_in_order(popup: PopupView, n: int)
    requires
        0 <= n <= popup.aliases.len() <= usize::MAX,
    ensures
        popup.in_order(popup.fitting(n)),
        forall|x: Found| #[trigger]
            popup.fitting(n).contains(x) <==> x.place < n && popup.fits(x),
    decreases n,
{
    if n > 0 {
        lemma_fitting_in_order(popup, n - 1);
        lemma_fitting(popup, n - 1);
        if let Some(found) = popup.match_at(n - 1) {
            let new = Found { place: (n - 1) as usize, score: found.score };
            lemma_with_found_in_order(popup, popup.fitting(n - 1), new);
        }
    }
}

/// Every name that fits is shown once, and none that does not: all of them until
/// something is written, and after that the best first, and of those that fit as
/// well, the first in the alphabet.
pub proof fn law_the_best_stand_first(popup: PopupView)
    requires
        popup.aliases.len() <= usize::MAX,
    ensures
        forall|i: int, j: int|
            0 <= i < j < popup.shown().len() ==> #[trigger] popup.shown()[i]
                != #[trigger] popup.shown()[j],
        forall|place: usize| #[trigger]
            popup.shown().contains(place) <==> place < popup.aliases.len() && (text::is_blank(
                popup.query,
            ) || popup.match_at(place as int) is Some),
        !text::is_blank(popup.query) ==> forall|i: int, j: int|
            0 <= i < j < popup.shown().len() ==> ({
                let a = #[trigger] popup.shown()[i] as int;
                let b = #[trigger] popup.shown()[j] as int;
                let first = popup.match_at(a)->0.score;
                let second = popup.match_at(b)->0.score;
                first < second || first == second && !text::less(
                    popup.aliases[b],
                    popup.aliases[a],
                )
            }),
{
    let n = popup.aliases.len() as int;
    let shown = popup.shown();
    lemma_fitting_in_order(popup, n);
    let found = popup.fitting(n);
    if text::is_blank(popup.query) {
        assert forall|place: usize| #[trigger] shown.contains(place) <==> place < n by {
            if place < n {
                assert(shown[place as int] == place);
            }
        }
    } else {
        assert forall|place: usize| #[trigger] shown.contains(place) <==> place < n
            && popup.match_at(place as int) is Some by {
            if shown.contains(place) {
                let k = choose|k: int| 0 <= k < shown.len() && shown[k] == place;
                assert(found.contains(found[k]));
            }
            if place < n && popup.match_at(place as int) is Some {
                let x = Found { place, score: popup.match_at(place as int)->0.score };
                assert(found.contains(x));
                let k = choose|k: int| 0 <= k < found.len() && found[k] == x;
                assert(shown[k] == place);
            }
        }
        assert forall|i: int, j: int| 0 <= i < j < shown.len() implies ({
            let a = #[trigger] shown[i] as int;
            let b = #[trigger] shown[j] as int;
            let first = popup.match_at(a)->0.score;
            let second = popup.match_at(b)->0.score;
            first < second || first == second && !text::less(popup.aliases[b], popup.aliases[a])
        }) by {
            assert(!popup.stands_before(found[j], found[i]));
            assert(found.contains(found[i]) && found.contains(found[j]));
        }
    }
}

/// Without a query every name is shown, in the order of the list, and nothing of it is
/// marked.
pub proof fn law_without_a_query_all_names_are_shown(popup: PopupView)
    requires
        popup.aliases.len() <= usize::MAX,
        forall|i: int| 0 <= i < popup.query.len() ==> text::is_space(#[trigger] popup.query[i]),
    ensures
        popup.rows().len() == popup.aliases.len(),
        forall|i: int|
            0 <= i < popup.aliases.len() ==> (#[trigger] popup.rows()[i]).name == popup.aliases[i]
                && popup.rows()[i].match_indices is None,
{
    text::law_white_space_counts_as_nothing(popup.query);
}

/// The line that is selected is the one that counts, and each row shows what fits of its
/// own name.
pub proof fn law_the_selected_line_counts(popup: PopupView)
    requires
        popup.aliases.len() <= usize::MAX,
    ensures
        popup.rows().len() == popup.shown().len(),
        popup.selected_idx matches Some(i) ==> i < popup.rows().len() ==> popup.selected() == Some(
            popup.rows()[i as int].name,
        ),
        popup.selected_idx is None ==> popup.selected() is None,
        !text::is_blank(popup.query) ==> forall|i: int|
            0 <= i < popup.rows().len() ==> {
                let place = popup.shown()[i] as int;
                &&& (#[trigger] popup.rows()[i]).name == popup.aliases[place]
                &&& 0 <= place < popup.matches.len()
                &&& popup.matches[place] is Some
                &&& popup.rows()[i].match_indices == popup.matches[place]->0.indices
            },
{
    law_the_best_stand_first(popup);
    if !text::is_blank(popup.query) {
        assert forall|i: int| 0 <= i < popup.rows().len() implies {
            let place = popup.shown()[i] as int;
            &&& (#[trigger] popup.rows()[i]).name == popup.aliases[place]
            &&& 0 <= place < popup.matches.len()
            &&& popup.matches[place] is Some
            &&& popup.rows()[i].match_indices == popup.matches[place]->0.indices
        } by {
            let place = popup.shown()[i];
            assert(popup.shown().contains(place));
        }
    }
}

/// A step down goes to the next line and from the last one to the first, a step up the
/// other way round; the first step of all selects the first line.
pub proof fn law_steps_go_around(popup: PopupView)
    requires
        popup.aliases.len() <= usize::MAX,
        popup.shown().len() <= usize::MAX,
    ensures
        popup.shown().len() == 0 ==> popup.down().selected_idx is None && popup.up().selected_idx
            is None,
        popup.shown().len() > 0 && popup.selected_idx is None ==> popup.down().selected_idx == Some(
            0usize,
        ) && popup.up().selected_idx == Some(0usize),
        popup.selected_idx matches Some(i) ==> i < popup.shown().len() ==> {
            let n = popup.shown().len() as int;
            &&& popup.down().selected_idx matches Some(j) && j == (i + 1) % n
            &&& popup.up().selected_idx matches Some(j) && j == (i + n - 1) % n
        },
{
    if let Some(i) = popup.selected_idx {
        let n = popup.shown().len() as int;
        if i < n {
            if i + 1 < n {
                vstd::arithmetic::div_mod::lemma_small_mod((i + 1) as nat, n as nat);
            } else {
                vstd::arithmetic::div_mod::lemma_mod_self_0(n);
            }
            if i > 0 {
                vstd::arithmetic::div_mod::lemma_mod_add_multiples_vanish(i - 1, n);
                vstd::arithmetic::div_mod::lemma_small_mod((i - 1) as nat, n as nat);
                assert(i + n - 1 == n + (i - 1));
            } else {
                vstd::arithmetic::div_mod::lemma_small_mod((n - 1) as nat, n as nat);
            }
        }
    }
}

/// There is room for every line as far as the rows go, and for the two below them.
pub proof fn law_the_lines_have_room(popup: PopupView)
    requires
        popup.max_rows > 0,
        popup.max_rows < u16::MAX - 2,
    ensures
        popup.shown().len() == 0 ==> popup.height() == 3,
        1 <= popup.shown().len() <= popup.max_rows ==> popup.height() == popup.shown().len() + 2,
        popup.shown().len() > popup.max_rows ==> popup.height() == popup.max_rows + 2,
{
}

/// After the list or the query has changed, the selection stays where it can, and a line
/// is selected wherever there is one.
pub proof fn law_the_selection_stays_where_it_can(popup: PopupView)
    requires
        popup.shown().len() <= usize::MAX,
    ensures
        popup.shown().len() == 0 ==> popup.clamped().selected_idx is None,
        popup.shown().len() > 0 && popup.selected_idx is None ==> popup.clamped().selected_idx
            == Some(0usize),
        popup.selected_idx matches Some(i) ==> i < popup.shown().len()
            ==> popup.clamped().selected_idx == Some(i),
        popup.selected_idx matches Some(i) ==> popup.shown().len() > 0 && i >= popup.shown().len()
            ==> popup.clamped().selected_idx == Some((popup.shown().len() - 1) as usize),
{
}

} // verus!
