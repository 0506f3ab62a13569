//! The statistic events of a run and the tally that the aggregator keeps of them.
use vstd::prelude::*;

verus! {

/// What happened to one source document during a run.
#[derive(Debug, Clone, Copy, PartialEq, Eq, Structural)]
pub enum Statistic {
    /// A file with a recognised extension was found under a documents directory.
    FoundSrcDocument,
    /// A file of that name already existed at the destination, so it was left alone.
    NotCopiedBecauseAlreadyExistedAtDest,
    /// A copy was dispatched.
    Copied,
}

/// The three counts of a run, as mathematical integers.
pub struct TallyView {
    pub found: nat,
    pub skipped: nat,
    pub copied: nat,
}

/// The tally before any event.
pub open spec fn empty_tally() -> TallyView {
    TallyView { found: 0, skipped: 0, copied: 0 }
}

/// The tally after one more event of kind `s`.
pub open spec fn count(t: TallyView, s: Statistic) -> TallyView {
    match s {
        Statistic::FoundSrcDocument => TallyView { found: t.found + 1, ..t },
        Statistic::NotCopiedBecauseAlreadyExistedAtDest => TallyView { skipped: t.skipped + 1, ..t },
        Statistic::Copied => TallyView { copied: t.copied + 1, ..t },
    }
}

/// The counters that the aggregator keeps.
pub struct Tally {
    pub found_src_documents: usize,
    pub not_copied: usize,
    pub copied: usize,
}

impl View for Tally {
    type V = TallyView;

    open spec fn view(&self) -> TallyView {
        TallyView {
            found: self.found_src_documents as nat,
            skipped: self.not_copied as nat,
            copied: self.copied as nat,
        }
    }
}

impl Tally {
    /// A tally with every count at zero.
    pub fn new() -> (r: Tally)
        ensures
            r@ == empty_tally(),
    {
        Tally { found_src_documents: 0, not_copied: 0, copied: 0 }
    }

    /// Whether the counter for `s` can take one more event.
    pub open spec fn has_room(&self, s: Statistic) -> bool {
        match s {
            Statistic::FoundSrcDocument => self.found_src_documents < usize::MAX,
            Statistic::NotCopiedBecauseAlreadyExistedAtDest => self.not_copied < usize::MAX,
            Statistic::Copied => self.copied < usize::MAX,
        }
    }

    /// Counts one event. Returns false, and leaves the tally as it was, where
    /// the counter of that kind is already at its largest value.
    pub fn record(&mut self, s: Statistic) -> (ok: bool)
        ensures
            ok == old(self).has_room(s),
            ok ==> final(self)@ == count(old(self)@, s),
            !ok ==> final(self)@ == old(self)@,
    {
        match s {
            Statistic::FoundSrcDocument => {
                if self.found_src_documents == usize::MAX {
                    return false;
                }
                self.found_src_documents = self.found_src_documents + 1;
            },
            Statistic::NotCopiedBecauseAlreadyExistedAtDest => {
                if self.not_copied == usize::MAX {
                    return false;
                }
                self.not_copied = self.not_copied + 1;
            },
            Statistic::Copied => {
                if self.copied == usize::MAX {
                    return false;
                }
                self.copied = self.copied + 1;
            },
        }
        true
    }
}

} // verus!
