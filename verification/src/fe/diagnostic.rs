//! Diagnostics: messages for the user that go away by themselves.

use vstd::prelude::*;
use vstd::string::StringExecFns;

verus! {

/// What went wrong, by the part of the world that it went wrong in. The
/// text is what the shell reported.
#[derive(Debug, PartialEq, Eq)]
pub enum FeError {
    /// A directory could not be listed, or a file or directory could not
    /// be created, removed or moved.
    Io(String),
    /// The bookmark store failed.
    Persistence(String),
    /// A process could not be started.
    Spawn(String),
    /// What was asked for cannot be done in the present state.
    Logic(String),
}

impl FeError {
    /// The text of the error.
    pub open spec fn detail(self) -> Seq<char> {
        match self {
            FeError::Io(text) => text@,
            FeError::Persistence(text) => text@,
            FeError::Spawn(text) => text@,
            FeError::Logic(text) => text@,
        }
    }

    /// The text of the error.
    pub fn text(&self) -> (text: &String)
        ensures
            text@ == self.detail(),
    {
        match self {
            FeError::Io(text) => text,
            FeError::Persistence(text) => text,
            FeError::Spawn(text) => text,
            FeError::Logic(text) => text,
        }
    }
}

/// A message for the user, with the time at which it goes away.
#[derive(Debug, PartialEq, Eq)]
pub struct Diagnostic {
    /// The number under which a queue holds the diagnostic; 0 while no
    /// queue holds it.
    pub id: u64,
    pub message: String,
    pub expires_at: u64,
    pub start_time: u64,
}

/// The mathematical value of a [`Diagnostic`].
pub struct DiagnosticView {
    pub id: u64,
    pub message: Seq<char>,
    pub expires_at: u64,
    pub start_time: u64,
}

impl View for Diagnostic {
    type V = DiagnosticView;

    open spec fn view(&self) -> DiagnosticView {
        DiagnosticView {
            id: self.id,
            message: self.message@,
            expires_at: self.expires_at,
            start_time: self.start_time,
        }
    }
}

impl DeepView for Diagnostic {
    type V = DiagnosticView;

    open spec fn deep_view(&self) -> DiagnosticView {
        self.view()
    }
}

impl Clone for Diagnostic {
    fn clone(&self) -> (copy: Self)
        ensures
            copy@ == self@,
    {
        Diagnostic {
            id: self.id,
            message: self.message.clone(),
            expires_at: self.expires_at,
            start_time: self.start_time,
        }
    }
}

/// How long a diagnostic stays where nothing else is said, in the unit
/// that the clock counts in.
pub const DEFAULT_DURATION: u64 = 5;

/// The time at which a diagnostic made at `now` to last `duration` goes
/// away. Time ends at the largest value of the clock.
pub open spec fn expiry(now: u64, duration: u64) -> u64 {
    if now + duration <= u64::MAX {
        (now + duration) as u64
    } else {
        u64::MAX
    }
}

/// The diagnostic with the text `message`, made at `now` to last
/// `duration`.
pub open spec fn diagnostic_at(message: Seq<char>, now: u64, duration: u64) -> DiagnosticView {
    DiagnosticView { id: 0, message, expires_at: expiry(now, duration), start_time: now }
}

/// The message that reports an error with the text `detail`.
pub open spec fn error_message(detail: Seq<char>) -> Seq<char> {
    "error: "@ + detail
}

impl DiagnosticView {
    /// Whether the diagnostic is still to be shown at `now`.
    pub open spec fn live_at(self, now: u64) -> bool {
        self.expires_at > now
    }
}

impl Diagnostic {
    /// A diagnostic with the text `message`, made at `now` to last
    /// `duration`.
    pub fn new(message: String, now: u64, duration: u64) -> (diagnostic: Diagnostic)
        ensures
            diagnostic@ == diagnostic_at(message@, now, duration),
    {
        Diagnostic {
            id: 0,
            message,
            expires_at: now.saturating_add(duration),
            start_time: now,
        }
    }

    /// A diagnostic with the text `message`, made at `now` to last the
    /// default duration.
    pub fn default(message: String, now: u64) -> (diagnostic: Diagnostic)
        ensures
            diagnostic@ == diagnostic_at(message@, now, DEFAULT_DURATION),
    {
        Diagnostic::new(message, now, DEFAULT_DURATION)
    }

    /// A diagnostic that reports `err`, made at `now` to last the default
    /// duration.
    pub fn from_err(err: &FeError, now: u64) -> (diagnostic: Diagnostic)
        ensures
            diagnostic@ == diagnostic_at(error_message(err.detail()), now, DEFAULT_DURATION),
    {
        let message = String::from_str("error: ").concat(err.text().as_str());
        Diagnostic::default(message, now)
    }

    /// Whether the diagnostic is still to be shown at `now`.
    pub fn is_live(&self, now: u64) -> (live: bool)
        ensures
            live == self@.live_at(now),
    {
        self.expires_at > now
    }
}

/// The values of the diagnostics that a vector holds, in order.
pub open spec fn diagnostic_views(diagnostics: Seq<Diagnostic>) -> Seq<DiagnosticView> {
    Seq::new(diagnostics.len(), |i: int| diagnostics[i]@)
}

/// The number that follows `id` in the numbering of a queue. The
/// numbering leaves out 0, which stands for a diagnostic that no queue
/// holds, and starts again at 1 after the largest number.
pub open spec fn id_after(id: u64) -> u64 {
    if id == u64::MAX {
        1
    } else {
        (id + 1) as u64
    }
}

/// The diagnostics that are shown, oldest first.
pub struct DiagnosticsQueue {
    entries: Vec<Diagnostic>,
    next_id: u64,
}

/// The mathematical value of a [`DiagnosticsQueue`].
pub struct QueueView {
    pub entries: Seq<DiagnosticView>,
    /// The number that the next diagnostic is held under.
    pub next_id: u64,
}

impl QueueView {
    /// The queue after `diagnostic` was pushed.
    pub open spec fn push(self, diagnostic: DiagnosticView) -> QueueView {
        QueueView {
            entries: self.entries.push(DiagnosticView { id: self.next_id, ..diagnostic }),
            next_id: id_after(self.next_id),
        }
    }

    /// The queue after a diagnostic with the text `message` was made at
    /// `now` and pushed.
    pub open spec fn push_message(self, message: Seq<char>, now: u64) -> QueueView {
        self.push(diagnostic_at(message, now, DEFAULT_DURATION))
    }

    /// The queue after an error with the text `detail` was reported at
    /// `now`.
    pub open spec fn push_error(self, detail: Seq<char>, now: u64) -> QueueView {
        self.push_message(error_message(detail), now)
    }

    /// The queue after the diagnostics that have expired at `now` were
    /// removed.
    pub open spec fn prune(self, now: u64) -> QueueView {
        QueueView {
            entries: self.entries.filter(|d: DiagnosticView| d.live_at(now)),
            next_id: self.next_id,
        }
    }

    /// The queue after the diagnostics held under `id` were removed.
    pub open spec fn dismiss(self, id: u64) -> QueueView {
        QueueView {
            entries: self.entries.filter(|d: DiagnosticView| d.id != id),
            next_id: self.next_id,
        }
    }
}

impl View for DiagnosticsQueue {
    type V = QueueView;

    closed spec fn view(&self) -> QueueView {
        QueueView { entries: diagnostic_views(self.entries@), next_id: self.next_id }
    }
}

impl DiagnosticsQueue {
    /// A queue that holds nothing.
    pub fn new() -> (queue: DiagnosticsQueue)
        ensures
            queue@ == (QueueView { entries: Seq::empty(), next_id: 1 }),
    {
        let queue = DiagnosticsQueue { entries: Vec::new(), next_id: 1 };
        assert(diagnostic_views(queue.entries@) =~= Seq::empty());
        queue
    }

    /// Appends `diagnostic` and returns the number that it is held
    /// under.
    pub fn push(&mut self, diagnostic: Diagnostic) -> (id: u64)
        ensures
            id == old(self)@.next_id,
            final(self)@ == old(self)@.push(diagnostic@),
    {
        let ghost before = diagnostic_views(self.entries@);
        let id = self.next_id;
        let mut held = diagnostic;
        held.id = id;
        self.entries.push(held);
        self.next_id = if id == u64::MAX {
            1
        } else {
            id + 1
        };
        assert(diagnostic_views(self.entries@) =~= before.push(
            DiagnosticView { id, ..diagnostic@ },
        ));
        id
    }

    /// Appends a diagnostic with the text `message`, made at `now` to
    /// last the default duration, and returns the number that it is held
    /// under.
    pub fn push_message(&mut self, message: String, now: u64) -> (id: u64)
        ensures
            id == old(self)@.next_id,
            final(self)@ == old(self)@.push_message(message@, now),
    {
        self.push(Diagnostic::default(message, now))
    }

    /// Appends a diagnostic that reports `err`, made at `now` to last the
    /// default duration, and returns the number that it is held under.
    pub fn push_error(&mut self, err: &FeError, now: u64) -> (id: u64)
        ensures
            id == old(self)@.next_id,
            final(self)@ == old(self)@.push_error(err.detail(), now),
    {
        self.push(Diagnostic::from_err(err, now))
    }

    /// Removes the diagnostics that have expired at `now`. The others
    /// stay, in their order.
    pub fn prune(&mut self, now: u64)
        ensures
            final(self)@ == old(self)@.prune(now),
    {
        let ghost before = diagnostic_views(self.entries@);
        let ghost live = |d: DiagnosticView| d.live_at(now);
        let mut all: Vec<Diagnostic> = Vec::new();
        std::mem::swap(&mut all, &mut self.entries);
        let mut kept: Vec<Diagnostic> = Vec::new();
        let mut i: usize = 0;
        proof {
            reveal(Seq::filter);
            assert(before.take(0) =~= Seq::empty());
            assert(diagnostic_views(kept@) =~= before.take(0).filter(live));
        }
        while i < all.len()
            invariant
                i <= all.len(),
                before == diagnostic_views(all@),
                live == |d: DiagnosticView| d.live_at(now),
                diagnostic_views(kept@) == before.take(i as int).filter(live),
                self.next_id == old(self).next_id,
            decreases all.len() - i,
        {
            let ghost kept_before = diagnostic_views(kept@);
            proof {
                assert(before.take(i + 1) =~= before.take(i as int).push(before[i as int]));
                before.take(i as int).lemma_filter_push(before[i as int], live);
            }
            if all[i].is_live(now) {
                kept.push(all[i].clone());
                assert(diagnostic_views(kept@) =~= kept_before.push(before[i as int]));
            }
            i += 1;
        }
        assert(before.take(i as int) =~= before);
        self.entries = kept;
    }

    /// Removes the diagnostics held under `id` and says whether there
    /// was one. The others stay, in their order.
    pub fn dismiss(&mut self, id: u64) -> (found: bool)
        ensures
            final(self)@ == old(self)@.dismiss(id),
            found == (exists|i: int|
                0 <= i < old(self)@.entries.len() && old(self)@.entries[i].id == id),
    {
        let ghost before = diagnostic_views(self.entries@);
        let ghost other = |d: DiagnosticView| d.id != id;
        let mut all: Vec<Diagnostic> = Vec::new();
        std::mem::swap(&mut all, &mut self.entries);
        let mut kept: Vec<Diagnostic> = Vec::new();
        let mut found = false;
        let mut i: usize = 0;
        proof {
            reveal(Seq::filter);
            assert(before.take(0) =~= Seq::empty());
            assert(diagnostic_views(kept@) =~= before.take(0).filter(other));
        }
        while i < all.len()
            invariant
                i <= all.len(),
                before == diagnostic_views(all@),
                other == |d: DiagnosticView| d.id != id,
                diagnostic_views(kept@) == before.take(i as int).filter(other),
                found == (exists|j: int| 0 <= j < i && before[j].id == id),
                self.next_id == old(self).next_id,
            decreases all.len() - i,
        {
            let ghost kept_before = diagnostic_views(kept@);
            proof {
                assert(before.take(i + 1) =~= before.take(i as int).push(before[i as int]));
                before.take(i as int).lemma_filter_push(before[i as int], other);
            }
            if all[i].id != id {
                kept.push(all[i].clone());
                assert(diagnostic_views(kept@) =~= kept_before.push(before[i as int]));
            } else {
                assert(before[i as int].id == id);
                found = true;
            }
            i += 1;
        }
        assert(before.take(i as int) =~= before);
        assert(before == old(self)@.entries);
        assert(found == (exists|j: int| 0 <= j < before.len() && before[j].id == id));
        self.entries = kept;
        found
    }

    /// The number of diagnostics in the queue.
    pub fn len(&self) -> (count: usize)
        ensures
            count == self@.entries.len(),
    {
        self.entries.len()
    }

    /// The diagnostics in the queue, oldest first.
    pub fn entries(&self) -> (entries: &Vec<Diagnostic>)
        ensures
            diagnostic_views(entries@) == self@.entries,
    {
        &self.entries
    }
}

/// What stays after a prune is what was live: every diagnostic that has
/// not expired is kept, in its place among the others, and no other is.
pub proof fn lemma_prune_keeps_the_live(queue: QueueView, now: u64)
    ensures
        forall|d: DiagnosticView|
            queue.prune(now).entries.contains(d) <==> queue.entries.contains(d) && d.live_at(now),
        queue.prune(now).entries.len() <= queue.entries.len(),
        (forall|i: int| 0 <= i < queue.entries.len() ==> (#[trigger] queue.entries[i]).live_at(now))
            ==> queue.prune(now) == queue,
{
    let live = |d: DiagnosticView| d.live_at(now);
    let kept = queue.entries.filter(live);
    queue.entries.lemma_filter_len(live);
    assert forall|d: DiagnosticView| kept.contains(d) <==> queue.entries.contains(d) && d.live_at(
        now,
    ) by {
        if kept.contains(d) {
            let j = choose|j: int| 0 <= j < kept.len() && kept[j] == d;
            queue.entries.lemma_filter_pred(live, j);
            queue.entries.lemma_filter_contains_rev(live, d);
        }
        if queue.entries.contains(d) && d.live_at(now) {
            let i = choose|i: int| 0 <= i < queue.entries.len() && queue.entries[i] == d;
            queue.entries.lemma_filter_contains(live, i);
        }
    }
    if forall|i: int| 0 <= i < queue.entries.len() ==> (#[trigger] queue.entries[i]).live_at(now) {
        crate::seqs::lemma_filter_all(queue.entries, live);
    }
}

/// A push adds one diagnostic at the end and removes none; the one that
/// is added expires the default duration after it was made.
pub proof fn lemma_push_keeps_all(queue: QueueView, message: Seq<char>, now: u64)
    ensures
        queue.push_message(message, now).entries.len() == queue.entries.len() + 1,
        queue.push_message(message, now).entries.drop_last() == queue.entries,
        queue.push_message(message, now).entries.last().message == message,
        queue.push_message(message, now).entries.last().expires_at == expiry(now, DEFAULT_DURATION),
        queue.push_message(message, now).entries.last().id == queue.next_id,
{
    assert(queue.push_message(message, now).entries.drop_last() =~= queue.entries);
}

} // verus!
