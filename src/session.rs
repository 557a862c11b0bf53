use crate::candidates::{is_candidate_list, sort_candidates, sorted_ci, ties_in_order};
use crate::filter::{filter_executables, lemma_filter_empty_query, spec_filter, strings_view};
use crate::viewport::{recenter, spec_view_end, spec_view_start};
use vstd::prelude::*;

verus! {

/// How a session stands: still taking input, or ended one way or the other.
#[derive(Debug, PartialEq, Eq)]
pub enum Outcome {
    Running,
    Cancelled,
    Confirmed(String),
}

/// One discrete input event, already decoded from the window system.
#[derive(Debug, PartialEq, Eq)]
pub enum Event {
    /// Quit, Escape or Ctrl-C.
    Cancel,
    Backspace,
    /// Text typed by the user.
    Text(String),
    Down,
    Up,
    /// Tab: take the selected row as the query.
    Complete,
    /// Enter: choose the selected row.
    Confirm,
    /// Any other key: ignored.
    Other,
}

/// The state of one menu session: the candidates, the query typed so far,
/// the candidates that match it, the selected row and how the session stands.
pub struct Session {
    pub candidates: Vec<String>,
    pub query: String,
    pub filtered: Vec<String>,
    pub selection: usize,
    pub outcome: Outcome,
}

impl Session {
    /// While running, the filtered list follows the query; the selection is a row of it (or
    /// 0 when it is empty), the candidates are distinct and ordered, and a
    /// confirmed session holds its query.
    pub open spec fn wf(&self) -> bool {
        &&& (self.outcome is Running ==> strings_view(self.filtered@) == spec_filter(
            strings_view(self.candidates@),
            self.query@,
        ))
        &&& (self.filtered@.len() == 0 ==> self.selection == 0)
        &&& (self.filtered@.len() > 0 ==> self.selection < self.filtered@.len())
        &&& is_candidate_list(strings_view(self.candidates@))
        &&& (self.outcome is Confirmed ==> self.outcome->Confirmed_0@ == self.query@)
    }

    /// A running session over `names`, deduplicated and ordered by lower-case
    /// form, with an empty query that shows every candidate.
    pub fn new(names: &Vec<String>) -> (r: Session)
        ensures
            r.wf(),
            strings_view(r.candidates@).to_set() == strings_view(names@).to_set(),
            sorted_ci(strings_view(r.candidates@)),
            ties_in_order(strings_view(r.candidates@), strings_view(names@)),
            r.query@.len() == 0,
            strings_view(r.filtered@) == strings_view(r.candidates@),
            r.selection == 0,
            r.outcome is Running,
    {
        let candidates = sort_candidates(names);
        let query = String::new();
        let filtered = filter_executables(&query, &candidates);
        proof {
            lemma_filter_empty_query(strings_view(candidates@));
        }
        let r = Session { candidates, query, filtered, selection: 0, outcome: Outcome::Running };
        assert(strings_view(r.filtered@) == strings_view(r.candidates@));
        assert(r.filtered@.len() > 0 ==> r.selection < r.filtered@.len());
        assert(r.outcome is Running ==> strings_view(r.filtered@) == spec_filter(
            strings_view(r.candidates@),
            r.query@,
        ));
        assert(is_candidate_list(strings_view(r.candidates@)));
        assert(r.outcome is Confirmed ==> r.outcome->Confirmed_0@ == r.query@);
        r
    }

    /// Sets the query and recomputes the filtered list, selecting its first row.
    fn set_query(&mut self, query: String)
        requires
            old(self).wf(),
            old(self).outcome is Running,
        ensures
            final(self).wf(),
            final(self).query@ == query@,
            final(self).selection == 0,
            final(self).candidates == old(self).candidates,
            final(self).outcome is Running,
    {
        self.filtered = filter_executables(&query, &self.candidates);
        self.query = query;
        self.selection = 0;
    }

    /// Applies one input event. A session that has ended ignores events.
    pub fn handle(&mut self, event: Event)
        requires
            old(self).wf(),
        ensures
            final(self).wf(),
            final(self).candidates == old(self).candidates,
            final(self).filtered@.len() == 0 ==> final(self).selection == 0,
            final(self).filtered@.len() > 0 ==> final(self).selection < final(self).filtered@.len(),
            !(old(self).outcome is Running) ==> *final(self) == *old(self),
            old(self).outcome is Running ==> match event {
                Event::Cancel => {
                    &&& final(self).query@.len() == 0
                    &&& final(self).filtered == old(self).filtered
                    &&& final(self).selection == old(self).selection
                    &&& final(self).outcome is Cancelled
                },
                Event::Backspace => if old(self).query@.len() > 0 {
                    &&& final(self).query@ == old(self).query@.drop_last()
                    &&& final(self).selection == 0
                    &&& final(self).outcome is Running
                } else {
                    *final(self) == *old(self)
                },
                Event::Text(t) => {
                    &&& final(self).query@ == old(self).query@ + t@
                    &&& final(self).selection == 0
                    &&& final(self).outcome is Running
                },
                Event::Down => {
                    &&& final(self).query == old(self).query
                    &&& final(self).filtered == old(self).filtered
                    &&& final(self).selection == if old(self).selection + 1 < old(
                        self,
                    ).filtered@.len() {
                        old(self).selection + 1
                    } else {
                        old(self).selection as int
                    }
                    &&& final(self).outcome is Running
                },
                Event::Up => {
                    &&& final(self).query == old(self).query
                    &&& final(self).filtered == old(self).filtered
                    &&& final(self).selection == if old(self).selection > 0 {
                        old(self).selection - 1
                    } else {
                        0
                    }
                    &&& final(self).outcome is Running
                },
                Event::Complete => if old(self).filtered@.len() > 0 {
                    &&& final(self).query@ == old(self).filtered@[old(self).selection as int]@
                    &&& final(self).selection == 0
                    &&& final(self).outcome is Running
                } else {
                    *final(self) == *old(self)
                },
                Event::Confirm => if old(self).filtered@.len() > 0 {
                    &&& final(self).query@ == old(self).filtered@[old(self).selection as int]@
                    &&& final(self).filtered == old(self).filtered
                    &&& final(self).selection == old(self).selection
                    &&& final(self).outcome is Confirmed
                } else {
                    *final(self) == *old(self)
                },
                Event::Other => *final(self) == *old(self),
            },
    {
        if !matches!(self.outcome, Outcome::Running) {
            return;
        }
        match event {
            Event::Cancel => {
                self.query = String::new();
                self.outcome = Outcome::Cancelled;
            },
            Event::Backspace => {
                let n = self.query.as_str().unicode_len();
                if n > 0 {
                    let shorter = self.query.as_str().substring_char(0, n - 1).to_string();
                    proof {
                        assert(shorter@ =~= old(self).query@.drop_last());
                    }
                    self.set_query(shorter);
                }
            },
            Event::Text(t) => {
                let mut longer = self.query.clone();
                longer.append(t.as_str());
                self.set_query(longer);
            },
            Event::Down => {
                if self.filtered.len() > 0 && self.selection < self.filtered.len() - 1 {
                    self.selection = self.selection + 1;
                }
            },
            Event::Up => {
                if self.selection > 0 {
                    self.selection = self.selection - 1;
                }
            },
            Event::Complete => {
                if self.filtered.len() > 0 {
                    let chosen = self.filtered[self.selection].clone();
                    self.set_query(chosen);
                }
            },
            Event::Confirm => {
                if self.filtered.len() > 0 {
                    let chosen = self.filtered[self.selection].clone();
                    self.query = chosen.clone();
                    self.outcome = Outcome::Confirmed(chosen);
                }
            },
            Event::Other => {},
        }
    }

    /// The rows shown when `rows` of them fit: see [`recenter`].
    pub fn viewport(&self, rows: usize) -> (r: (usize, usize))
        ensures
            r.0 == spec_view_start(self.filtered@.len() as int, rows as int, self.selection as int),
            r.1 == spec_view_end(self.filtered@.len() as int, rows as int, self.selection as int),
    {
        recenter(self.filtered.len(), rows, self.selection)
    }

    /// What the session hands back: the chosen string once confirmed, and
    /// nothing while running or once cancelled.
    pub fn result(&self) -> (r: Option<String>)
        ensures
            self.outcome is Confirmed ==> r is Some && r->0@ == self.outcome->Confirmed_0@,
            !(self.outcome is Confirmed) ==> r is None,
    {
        match &self.outcome {
            Outcome::Confirmed(s) => Some(s.clone()),
            _ => None,
        }
    }
}

} // verus!
