//! The bookkeeping behind the global connection: the log of recent statements and the
//! nesting of transactions.

use vstd::prelude::*;

use std::collections::VecDeque;

use crate::error::Error;
use crate::text::{decimal, is_white_space, join_strings, joined, push_char, push_decimal, strings_view, white_space};

verus! {

/// How many statements the query log keeps.
pub const QUERY_LOG_CAPACITY: usize = 100;

/// The words of `s`: its maximal runs of characters that are not white space, in order.
pub open spec fn words(s: Seq<char>) -> Seq<Seq<char>>
    decreases s.len(),
{
    if s.len() == 0 {
        Seq::empty()
    } else {
        let w = words(s.drop_last());
        let c = s.last();
        if is_white_space(c) {
            w
        } else if s.len() >= 2 && !is_white_space(s[s.len() - 2]) && w.len() > 0 {
            w.update(w.len() - 1, w.last().push(c))
        } else {
            w.push(seq![c])
        }
    }
}

/// A statement with its white space collapsed: its words separated by single spaces.
pub open spec fn normalized_query(s: Seq<char>) -> Seq<char> {
    joined(words(s), " "@)
}

/// Collapses the white space of a statement for the log.
pub fn normalize_query(query: &str) -> (r: String)
    ensures
        r@ == normalized_query(query@),
{
    let n = query.unicode_len();
    let mut done: Vec<String> = Vec::new();
    let mut cur = String::new();
    let mut i: usize = 0;
    while i < n
        invariant
            n == query@.len(),
            i <= n,
            cur@.len() == 0 ==> strings_view(done@) == words(query@.take(i as int)),
            cur@.len() > 0 ==> strings_view(done@).push(cur@) == words(query@.take(i as int)),
            cur@.len() > 0 <==> (i > 0 && !is_white_space(query@[i - 1])),
        decreases n - i,
    {
        let c = query.get_char(i);
        let ghost t = query@.take(i + 1);
        assert(t.drop_last() =~= query@.take(i as int));
        assert(t.last() == c);
        if white_space(c) {
            if cur.as_str().unicode_len() > 0 {
                let ghost before = done@;
                let ghost cv = cur@;
                done.push(cur);
                cur = String::new();
                assert(strings_view(done@) =~= strings_view(before).push(cv));
            }
        } else {
            let ghost before = cur@;
            push_char(&mut cur, c);
            proof {
                if before.len() > 0 {
                    assert(t[t.len() - 2] == query@[i - 1]);
                    let w = words(query@.take(i as int));
                    assert(strings_view(done@).push(cur@) =~= w.update(w.len() - 1, w.last().push(c)));
                } else {
                    assert(i > 0 ==> is_white_space(t[t.len() - 2]));
                    assert(cur@ =~= seq![c]);
                    assert(strings_view(done@).push(cur@) =~= words(query@.take(i as int)).push(seq![c]));
                }
            }
        }
        i = i + 1;
    }
    assert(query@.take(n as int) =~= query@);
    if cur.as_str().unicode_len() > 0 {
        let ghost before = done@;
        let ghost cv = cur@;
        done.push(cur);
        assert(strings_view(done@) =~= strings_view(before).push(cv));
    }
    join_strings(&done, " ")
}

/// The bound parameters as the log shows them: `?1=...`, `?2=...`, separated by commas.
pub open spec fn params_text(rendered: Seq<Seq<char>>) -> Seq<char> {
    joined(Seq::new(rendered.len(), |i: int| "?"@ + decimal((i + 1) as nat) + "="@ + rendered[i]), ", "@)
}

/// The log entry of a statement with its rendered parameters: nothing for a blank
/// statement, the normalized statement alone without parameters, and otherwise the
/// statement followed by ` -- [` and the parameters.
pub open spec fn log_entry_text(query: Seq<char>, rendered: Seq<Seq<char>>) -> Option<Seq<char>> {
    let q = normalized_query(query);
    if q.len() == 0 {
        None
    } else if rendered.len() == 0 {
        Some(q)
    } else {
        Some(q + " -- ["@ + params_text(rendered) + "]"@)
    }
}

/// Builds the log entry of a statement and its rendered parameters.
pub fn log_entry(query: &str, rendered: &Vec<String>) -> (r: Option<String>)
    requires
        rendered@.len() < u64::MAX,
    ensures
        match log_entry_text(query@, strings_view(rendered@)) {
            Some(t) => r matches Some(s) && s@ == t,
            None => r is None,
        },
{
    let q = normalize_query(query);
    if q.unicode_len() == 0 {
        return None;
    }
    if rendered.len() == 0 {
        return Some(q);
    }
    let ghost rv = strings_view(rendered@);
    let ghost items = Seq::new(rv.len(), |i: int| "?"@ + decimal((i + 1) as nat) + "="@ + rv[i]);
    let mut parts: Vec<String> = Vec::new();
    let mut i: usize = 0;
    while i < rendered.len()
        invariant
            i <= rendered@.len(),
            rendered@.len() < u64::MAX,
            rv == strings_view(rendered@),
            items == Seq::new(rv.len(), |i: int| "?"@ + decimal((i + 1) as nat) + "="@ + rv[i]),
            strings_view(parts@) =~= items.take(i as int),
        decreases rendered@.len() - i,
    {
        let mut p = String::from_str("?");
        push_decimal(&mut p, (i as u128) + 1);
        p.append("=");
        p.append(rendered[i].as_str());
        let ghost before = parts@;
        let ghost pv = p@;
        parts.push(p);
        assert(strings_view(parts@) =~= strings_view(before).push(pv));
        assert(items.take(i + 1) =~= items.take(i as int).push(pv));
        i = i + 1;
    }
    assert(items.take(rendered@.len() as int) =~= items);
    let mut out = q;
    out.append(" -- [");
    out.append(join_strings(&parts, ", ").as_str());
    out.append("]");
    Some(out)
}

/// The most recent statements, oldest first, at most [`QUERY_LOG_CAPACITY`] of them.
pub struct QueryLog {
    entries: VecDeque<String>,
}

/// The log after one more entry: an empty entry is not kept, and a full log forgets its
/// oldest entry first.
pub open spec fn logged(log: Seq<Seq<char>>, entry: Seq<char>) -> Seq<Seq<char>> {
    if entry.len() == 0 {
        log
    } else if log.len() >= QUERY_LOG_CAPACITY {
        log.drop_first().push(entry)
    } else {
        log.push(entry)
    }
}

/// The log after a run of entries, recorded in order.
pub open spec fn logged_all(log: Seq<Seq<char>>, entries: Seq<Seq<char>>) -> Seq<Seq<char>>
    decreases entries.len(),
{
    if entries.len() == 0 {
        log
    } else {
        logged(logged_all(log, entries.drop_last()), entries.last())
    }
}

/// The entries of a run that are not empty, in order.
pub open spec fn nonempty_entries(entries: Seq<Seq<char>>) -> Seq<Seq<char>>
    decreases entries.len(),
{
    if entries.len() == 0 {
        Seq::empty()
    } else if entries.last().len() == 0 {
        nonempty_entries(entries.drop_last())
    } else {
        nonempty_entries(entries.drop_last()).push(entries.last())
    }
}

/// The last `n` elements of `s`, or all of them when there are fewer.
pub open spec fn latest<A>(s: Seq<A>, n: nat) -> Seq<A> {
    if s.len() <= n {
        s
    } else {
        s.skip(s.len() - n)
    }
}

/// A log that starts empty (new, or just cleared) holds, after any run of entries, each
/// added by a call of [`QueryLog::push`] (one [`logged`] step), the most recent non-empty
/// entries, oldest first, and at most [`QUERY_LOG_CAPACITY`] of them.
pub proof fn lemma_log_keeps_latest(entries: Seq<Seq<char>>)
    ensures
        logged_all(Seq::empty(), entries) == latest(
            nonempty_entries(entries),
            QUERY_LOG_CAPACITY as nat,
        ),
    decreases entries.len(),
{
    if entries.len() > 0 {
        let prefix = entries.drop_last();
        let e = entries.last();
        lemma_log_keeps_latest(prefix);
        let k = nonempty_entries(prefix);
        let cap = QUERY_LOG_CAPACITY as nat;
        if e.len() > 0 {
            let l = latest(k, cap);
            if k.len() >= cap {
                assert(l.drop_first().push(e) =~= k.push(e).skip(k.push(e).len() - cap));
            } else {
                assert(l.push(e) =~= k.push(e));
            }
        }
    }
}

impl View for QueryLog {
    type V = Seq<Seq<char>>;

    closed spec fn view(&self) -> Seq<Seq<char>> {
        self.entries@.map_values(|s: String| s@)
    }
}

impl QueryLog {
    /// The log never holds more than its capacity.
    #[verifier::type_invariant]
    closed spec fn within_capacity(&self) -> bool {
        self.entries@.len() <= QUERY_LOG_CAPACITY
    }

    /// An empty log.
    pub fn new() -> (r: Self)
        ensures
            r@ == Seq::<Seq<char>>::empty(),
    {
        let r = QueryLog { entries: VecDeque::new() };
        assert(r@ =~= Seq::<Seq<char>>::empty());
        r
    }

    /// Records one entry.
    pub fn push(&mut self, entry: String)
        ensures
            final(self)@ == logged(old(self)@, entry@),
            final(self)@.len() <= QUERY_LOG_CAPACITY,
    {
        proof {
            use_type_invariant(&*self);
        }
        if entry.unicode_len() == 0 {
            return;
        }
        let ghost before = self.entries@;
        let ghost ev = entry@;
        let mut entries = VecDeque::new();
        std::mem::swap(&mut entries, &mut self.entries);
        if entries.len() >= QUERY_LOG_CAPACITY {
            entries.pop_front();
        }
        entries.push_back(entry);
        self.entries = entries;
        assert(self@ =~= logged(before.map_values(|s: String| s@), ev));
    }

    /// The recorded entries, oldest first.
    pub fn recent(&self) -> (r: Vec<String>)
        ensures
            strings_view(r@) == self@,
            r@.len() <= QUERY_LOG_CAPACITY,
    {
        proof {
            use_type_invariant(self);
        }
        let mut out: Vec<String> = Vec::new();
        let mut i: usize = 0;
        while i < self.entries.len()
            invariant
                i <= self.entries@.len(),
                self.entries@.len() <= QUERY_LOG_CAPACITY,
                strings_view(out@) =~= self@.take(i as int),
            decreases self.entries@.len() - i,
        {
            let s = self.entries[i].clone();
            let ghost before = out@;
            let ghost sv = s@;
            out.push(s);
            assert(strings_view(out@) =~= strings_view(before).push(sv));
            i = i + 1;
        }
        assert(self@.take(self.entries@.len() as int) =~= self@);
        out
    }

    /// Forgets every entry.
    pub fn clear(&mut self)
        ensures
            final(self)@ == Seq::<Seq<char>>::empty(),
    {
        self.entries = VecDeque::new();
        assert(self@ =~= Seq::<Seq<char>>::empty());
    }

    /// Records a statement without parameters, with its white space collapsed.
    pub fn record(&mut self, query: &str)
        ensures
            final(self)@ == logged(old(self)@, normalized_query(query@)),
            final(self)@.len() <= QUERY_LOG_CAPACITY,
    {
        self.push(normalize_query(query));
    }

    /// Records a statement with its rendered parameters; a blank statement is not kept.
    pub fn record_with_params(&mut self, query: &str, rendered: &Vec<String>)
        requires
            rendered@.len() < u64::MAX,
        ensures
            final(self)@ == match log_entry_text(query@, strings_view(rendered@)) {
                Some(t) => logged(old(self)@, t),
                None => old(self)@,
            },
            final(self)@.len() <= QUERY_LOG_CAPACITY,
    {
        proof {
            use_type_invariant(&*self);
        }
        match log_entry(query, rendered) {
            Some(entry) => self.push(entry),
            None => {},
        }
    }
}

/// Asks the enclosing transaction to roll its work back: the result is always
/// [`Error::Rollback`].
pub fn rollback<T>() -> (r: Result<T, Error>)
    ensures
        r matches Err(Error::Rollback),
{
    Err(Error::Rollback)
}

/// The nesting of the current thread's transaction: how deep it is and how many
/// savepoints it has opened.
pub struct TransactionDepth {
    pub depth: usize,
    pub next_savepoint: usize,
}

/// The name of the savepoint numbered `n`.
pub open spec fn savepoint_name(n: nat) -> Seq<char> {
    "__seekwel_savepoint_"@ + decimal(n)
}

impl TransactionDepth {
    /// The state of a freshly begun outer transaction.
    pub fn outer() -> (r: Self)
        ensures
            r.depth == 1,
            r.next_savepoint == 0,
    {
        TransactionDepth { depth: 1, next_savepoint: 0 }
    }

    /// Opens a nested level and names its savepoint with the next number.
    pub fn begin_savepoint(&mut self) -> (r: String)
        requires
            old(self).depth < usize::MAX,
            old(self).next_savepoint < usize::MAX,
        ensures
            final(self).depth == old(self).depth + 1,
            final(self).next_savepoint == old(self).next_savepoint + 1,
            r@ == savepoint_name(final(self).next_savepoint as nat),
    {
        self.depth = self.depth + 1;
        self.next_savepoint = self.next_savepoint + 1;
        let mut name = String::from_str("__seekwel_savepoint_");
        push_decimal(&mut name, self.next_savepoint as u128);
        name
    }

    /// Closes a nested level.
    pub fn finish_savepoint(&mut self)
        requires
            old(self).depth > 0,
        ensures
            final(self).depth == old(self).depth - 1,
            final(self).next_savepoint == old(self).next_savepoint,
    {
        self.depth = self.depth - 1;
    }
}

/// `SAVEPOINT` for a savepoint name.
pub fn savepoint_sql(name: &str) -> (r: String)
    ensures
        r@ == "SAVEPOINT "@ + name@,
{
    let mut out = String::from_str("SAVEPOINT ");
    out.append(name);
    out
}

/// `RELEASE SAVEPOINT` for a savepoint name.
pub fn release_savepoint_sql(name: &str) -> (r: String)
    ensures
        r@ == "RELEASE SAVEPOINT "@ + name@,
{
    let mut out = String::from_str("RELEASE SAVEPOINT ");
    out.append(name);
    out
}

/// `ROLLBACK TO SAVEPOINT` for a savepoint name.
pub fn rollback_to_savepoint_sql(name: &str) -> (r: String)
    ensures
        r@ == "ROLLBACK TO SAVEPOINT "@ + name@,
{
    let mut out = String::from_str("ROLLBACK TO SAVEPOINT ");
    out.append(name);
    out
}

/// Where a transaction (the outer one, or a nested one on its savepoint) stands.
pub enum TxState {
    /// Its opening statement (`BEGIN IMMEDIATE` or `SAVEPOINT`) is running.
    Opening,
    /// The body is running.
    Running,
    /// The outer transaction's `COMMIT` is running.
    Committing,
    /// `ROLLBACK` after a failed `COMMIT`; the commit's error is returned whatever comes.
    UndoingCommit(Error),
    /// `ROLLBACK` after the body failed; a failure of it replaces the body's error.
    UndoingFailure(Error),
    /// `ROLLBACK` after the body panicked.
    UndoingPanic,
    /// A nested transaction's `RELEASE SAVEPOINT` after its body succeeded.
    Releasing,
    /// `ROLLBACK TO SAVEPOINT` after the body failed (with its error) or panicked (`None`).
    UndoingSavepoint(Option<Error>),
    /// `RELEASE SAVEPOINT` after the rollback to it.
    ReleasingUndone(Option<Error>),
    /// The transaction has ended.
    Finished,
}

/// What came of the last action.
pub enum TxEvent {
    /// The statement ran, or failed with the error.
    Executed(Result<(), Error>),
    /// The body returned its value (`Ok`) or an error.
    BodyDone(Result<(), Error>),
    /// The body panicked.
    BodyPanicked,
}

/// What the driver does next.
pub enum TxAction {
    /// Run this statement on the transaction's connection.
    Execute(String),
    /// Run the body.
    RunBody,
    /// End, returning the body's value.
    ReturnValue,
    /// End with this error.
    ReturnError(Error),
    /// End by continuing the body's panic.
    ResumePanic,
}

/// The content of a [`TxAction`].
pub enum TxActionView {
    Execute(Seq<char>),
    RunBody,
    ReturnValue,
    ReturnError(Error),
    ResumePanic,
}

impl View for TxAction {
    type V = TxActionView;

    open spec fn view(&self) -> TxActionView {
        match self {
            TxAction::Execute(s) => TxActionView::Execute(s@),
            TxAction::RunBody => TxActionView::RunBody,
            TxAction::ReturnValue => TxActionView::ReturnValue,
            TxAction::ReturnError(e) => TxActionView::ReturnError(*e),
            TxAction::ResumePanic => TxActionView::ResumePanic,
        }
    }
}

/// Whether an event is one that the state waits for: a statement's result while a
/// statement runs, the body's outcome while it runs, and nothing once finished.
pub open spec fn event_fits(state: TxState, event: TxEvent) -> bool {
    match state {
        TxState::Running => !(event is Executed),
        TxState::Finished => false,
        _ => event is Executed,
    }
}

/// The rollback statement of a transaction: `ROLLBACK` for the outer one, `ROLLBACK TO
/// SAVEPOINT` for a nested one.
pub open spec fn undo_sql(savepoint: Option<Seq<char>>) -> Seq<char> {
    match savepoint {
        None => "ROLLBACK"@,
        Some(s) => "ROLLBACK TO SAVEPOINT "@ + s,
    }
}

/// The next state and action of a transaction (`savepoint` is `None` for the outer one):
/// the body runs once its opening statement succeeded; then the outer transaction commits
/// (rolling back if that fails) and a nested one releases its savepoint; after a failure
/// or a panic of the body the work is rolled back (and a savepoint released) before the
/// error is returned or the panic continued.
pub open spec fn tx_next(savepoint: Option<Seq<char>>, state: TxState, event: TxEvent) -> (TxState, TxActionView) {
    match (state, event) {
        (TxState::Opening, TxEvent::Executed(Ok(_))) => (TxState::Running, TxActionView::RunBody),
        (TxState::Opening, TxEvent::Executed(Err(e))) => (TxState::Finished, TxActionView::ReturnError(e)),
        (TxState::Running, TxEvent::BodyDone(Ok(_))) => match savepoint {
            None => (TxState::Committing, TxActionView::Execute("COMMIT"@)),
            Some(s) => (TxState::Releasing, TxActionView::Execute("RELEASE SAVEPOINT "@ + s)),
        },
        (TxState::Running, TxEvent::BodyDone(Err(e))) => match savepoint {
            None => (TxState::UndoingFailure(e), TxActionView::Execute(undo_sql(savepoint))),
            Some(_) => (TxState::UndoingSavepoint(Some(e)), TxActionView::Execute(undo_sql(savepoint))),
        },
        (TxState::Running, TxEvent::BodyPanicked) => match savepoint {
            None => (TxState::UndoingPanic, TxActionView::Execute(undo_sql(savepoint))),
            Some(_) => (TxState::UndoingSavepoint(None), TxActionView::Execute(undo_sql(savepoint))),
        },
        (TxState::Committing, TxEvent::Executed(Ok(_))) => (TxState::Finished, TxActionView::ReturnValue),
        (TxState::Committing, TxEvent::Executed(Err(e))) => (
            TxState::UndoingCommit(e),
            TxActionView::Execute("ROLLBACK"@),
        ),
        (TxState::UndoingCommit(e), _) => (TxState::Finished, TxActionView::ReturnError(e)),
        (TxState::UndoingFailure(e), TxEvent::Executed(Ok(_))) => (TxState::Finished, TxActionView::ReturnError(e)),
        (TxState::UndoingFailure(_), TxEvent::Executed(Err(e))) => (TxState::Finished, TxActionView::ReturnError(e)),
        (TxState::UndoingPanic, _) => (TxState::Finished, TxActionView::ResumePanic),
        (TxState::Releasing, TxEvent::Executed(Ok(_))) => (TxState::Finished, TxActionView::ReturnValue),
        (TxState::Releasing, TxEvent::Executed(Err(e))) => (TxState::Finished, TxActionView::ReturnError(e)),
        (TxState::UndoingSavepoint(x), _) => (
            TxState::ReleasingUndone(x),
            TxActionView::Execute("RELEASE SAVEPOINT "@ + savepoint->0),
        ),
        (TxState::ReleasingUndone(Some(e)), _) => (TxState::Finished, TxActionView::ReturnError(e)),
        (TxState::ReleasingUndone(None), _) => (TxState::Finished, TxActionView::ResumePanic),
        _ => (TxState::Finished, TxActionView::ResumePanic),
    }
}

/// The opening step of a transaction: `BEGIN IMMEDIATE` for the outer one, `SAVEPOINT`
/// for a nested one.
pub fn tx_start(savepoint: &Option<String>) -> (r: (TxState, TxAction))
    ensures
        r.0 is Opening,
        r.1@ == TxActionView::Execute(
            match savepoint {
                None => "BEGIN IMMEDIATE"@,
                Some(s) => "SAVEPOINT "@ + s@,
            },
        ),
{
    match savepoint {
        None => (TxState::Opening, TxAction::Execute(String::from_str("BEGIN IMMEDIATE"))),
        Some(s) => (TxState::Opening, TxAction::Execute(savepoint_sql(s.as_str()))),
    }
}

/// The state a transaction moves to on an event, and what the driver does next (see
/// [`tx_next`]).
pub fn tx_step(savepoint: &Option<String>, state: TxState, event: TxEvent) -> (r: (TxState, TxAction))
    requires
        event_fits(state, event),
        state is UndoingSavepoint || state is ReleasingUndone || state is Releasing ==> savepoint is Some,
    ensures
        (r.0, r.1@) == tx_next(
            match savepoint {
                None => None,
                Some(s) => Some(s@),
            },
            state,
            event,
        ),
{
    let undo = match savepoint {
        None => String::from_str("ROLLBACK"),
        Some(s) => rollback_to_savepoint_sql(s.as_str()),
    };
    match (state, event) {
        (TxState::Opening, TxEvent::Executed(Ok(_))) => (TxState::Running, TxAction::RunBody),
        (TxState::Opening, TxEvent::Executed(Err(e))) => (TxState::Finished, TxAction::ReturnError(e)),
        (TxState::Running, TxEvent::BodyDone(Ok(_))) => match savepoint {
            None => (TxState::Committing, TxAction::Execute(String::from_str("COMMIT"))),
            Some(s) => (TxState::Releasing, TxAction::Execute(release_savepoint_sql(s.as_str()))),
        },
        (TxState::Running, TxEvent::BodyDone(Err(e))) => match savepoint {
            None => (TxState::UndoingFailure(e), TxAction::Execute(undo)),
            Some(_) => (TxState::UndoingSavepoint(Some(e)), TxAction::Execute(undo)),
        },
        (TxState::Running, TxEvent::BodyPanicked) => match savepoint {
            None => (TxState::UndoingPanic, TxAction::Execute(undo)),
            Some(_) => (TxState::UndoingSavepoint(None), TxAction::Execute(undo)),
        },
        (TxState::Committing, TxEvent::Executed(Ok(_))) => (TxState::Finished, TxAction::ReturnValue),
        (TxState::Committing, TxEvent::Executed(Err(e))) => (
            TxState::UndoingCommit(e),
            TxAction::Execute(String::from_str("ROLLBACK")),
        ),
        (TxState::UndoingCommit(e), _) => (TxState::Finished, TxAction::ReturnError(e)),
        (TxState::UndoingFailure(e), TxEvent::Executed(Ok(_))) => (TxState::Finished, TxAction::ReturnError(e)),
        (TxState::UndoingFailure(_), TxEvent::Executed(Err(e))) => (TxState::Finished, TxAction::ReturnError(e)),
        (TxState::UndoingPanic, _) => (TxState::Finished, TxAction::ResumePanic),
        (TxState::Releasing, TxEvent::Executed(Ok(_))) => (TxState::Finished, TxAction::ReturnValue),
        (TxState::Releasing, TxEvent::Executed(Err(e))) => (TxState::Finished, TxAction::ReturnError(e)),
        (TxState::UndoingSavepoint(x), _) => {
            let s = match savepoint {
                Some(s) => s,
                None => {
                    return (TxState::Finished, TxAction::ResumePanic);
                },
            };
            (TxState::ReleasingUndone(x), TxAction::Execute(release_savepoint_sql(s.as_str())))
        },
        (TxState::ReleasingUndone(Some(e)), _) => (TxState::Finished, TxAction::ReturnError(e)),
        (TxState::ReleasingUndone(None), _) => (TxState::Finished, TxAction::ResumePanic),
        _ => (TxState::Finished, TxAction::ResumePanic),
    }
}

/// The outer transaction runs `COMMIT` only once its body has returned a value, and a
/// nested one releases its savepoint only after its body ended or its rollback ran.
pub proof fn lemma_commit_only_after_success(savepoint: Option<Seq<char>>, state: TxState, event: TxEvent)
    ensures
        tx_next(savepoint, state, event).1 == TxActionView::Execute("COMMIT"@) && savepoint is None ==> (state is Running
            && event matches TxEvent::BodyDone(Ok(_))),
        tx_next(savepoint, state, event).1 == TxActionView::ReturnValue ==> (state is Committing || state is Releasing)
            && event matches TxEvent::Executed(Ok(_)),
{
    reveal_strlit("COMMIT");
    reveal_strlit("ROLLBACK");
    reveal_strlit("RELEASE SAVEPOINT ");
    assert("COMMIT"@.len() == 6);
}

/// After a failure or a panic of the body, the transaction's next statement is its
/// rollback, and whatever that statement gives, the one after a nested rollback releases
/// the savepoint; an ending after the body failed returns an error, never the value.
pub proof fn lemma_failure_rolls_back(savepoint: Option<Seq<char>>, e: Error, r: Result<(), Error>)
    ensures
        tx_next(savepoint, TxState::Running, TxEvent::BodyDone(Err(e))).1 == TxActionView::Execute(undo_sql(savepoint)),
        tx_next(savepoint, TxState::Running, TxEvent::BodyPanicked).1 == TxActionView::Execute(undo_sql(savepoint)),
        savepoint matches Some(s) ==> tx_next(
            savepoint,
            tx_next(savepoint, TxState::Running, TxEvent::BodyDone(Err(e))).0,
            TxEvent::Executed(r),
        ) == (TxState::ReleasingUndone(Some(e)), TxActionView::Execute("RELEASE SAVEPOINT "@ + s)),
        savepoint is None ==> tx_next(
            savepoint,
            tx_next(savepoint, TxState::Running, TxEvent::BodyDone(Err(e))).0,
            TxEvent::Executed(r),
        ).1 is ReturnError,
{
}

} // verus!
