//! History paging: cursors over commit lists, request limits, the
//! repeated-author cache and the per-file line statistics helpers.
use vstd::prelude::*;
use std::sync::Arc;
use crate::find::first_n;
use crate::text::{
    chars_of, contains_seq, find_seq, is_blank_str, str_eq, to_lowercase, trim, trim_end, trimmed_end,
    unicode_lowercase,
};
use crate::model::{Commit, CommitView, commits_view, opt_str_view};

verus! {

/// The largest number of recent commit messages offered at once.
pub const RECENT_COMMIT_MESSAGES_MAX_LIMIT: usize = 100;

/// `(limit, scan_limit)` for a recent-commit-messages request: the limit is
/// capped at the maximum; up to five times as many commits are scanned (also
/// capped, never fewer than the limit). `None` when nothing is asked for.
pub open spec fn recent_limits_spec(limit: usize) -> Option<(usize, usize)> {
    let l = if limit < 100 { limit } else { 100usize };
    if l == 0 {
        None
    } else {
        let scan = if 5 * l < 100 { 5 * l } else { 100 };
        Some((l, (if scan > l { scan } else { l as int }) as usize))
    }
}

pub fn recent_commit_message_limits(limit: usize) -> (res: Option<(usize, usize)>)
    ensures
        res == recent_limits_spec(limit),
{
    let limit = if limit < RECENT_COMMIT_MESSAGES_MAX_LIMIT {
        limit
    } else {
        RECENT_COMMIT_MESSAGES_MAX_LIMIT
    };
    if limit == 0 {
        return None;
    }
    // `limit <= 100`, so five times it cannot overflow
    let scan = limit * 5;
    let scan = if scan < RECENT_COMMIT_MESSAGES_MAX_LIMIT {
        scan
    } else {
        RECENT_COMMIT_MESSAGES_MAX_LIMIT
    };
    let scan = if scan > limit {
        scan
    } else {
        limit
    };
    Some((limit, scan))
}

/// Where a history page continues from.
#[derive(Clone, Debug, PartialEq, Eq)]
pub struct LogCursor {
    pub last_seen: String,
    pub resume_from: Option<String>,
    pub resume_token: Option<String>,
}

pub struct LogCursorView {
    pub last_seen: Seq<char>,
    pub resume_from: Option<Seq<char>>,
    pub resume_token: Option<Seq<char>>,
}

impl View for LogCursor {
    type V = LogCursorView;

    open spec fn view(&self) -> LogCursorView {
        LogCursorView {
            last_seen: self.last_seen@,
            resume_from: opt_str_view(self.resume_from),
            resume_token: opt_str_view(self.resume_token),
        }
    }
}

/// One page of history.
#[derive(Clone, Debug, PartialEq, Eq)]
pub struct LogPage {
    pub commits: Vec<Commit>,
    pub next_cursor: Option<LogCursor>,
}

pub struct LogPageView {
    pub commits: Seq<CommitView>,
    pub next_cursor: Option<LogCursorView>,
}

impl View for LogPage {
    type V = LogPageView;

    open spec fn view(&self) -> LogPageView {
        LogPageView {
            commits: commits_view(self.commits@),
            next_cursor: match self.next_cursor {
                Some(c) => Some(c@),
                None => None,
            },
        }
    }
}

pub fn empty_log_page() -> (res: LogPage)
    ensures
        res@.commits.len() == 0,
        res@.next_cursor is None,
{
    LogPage { commits: Vec::new(), next_cursor: None }
}

/// Skips commits up to and including the one a cursor last saw.
pub struct CursorGate {
    pub last_seen: Option<String>,
    pub started: bool,
}

pub struct CursorGateView {
    pub last_seen: Option<Seq<char>>,
    pub started: bool,
}

impl View for CursorGate {
    type V = CursorGateView;

    open spec fn view(&self) -> CursorGateView {
        CursorGateView { last_seen: opt_str_view(self.last_seen), started: self.started }
    }
}

/// One step of the cursor filter: `(skip, next state)` for commit `id`.
pub open spec fn gate_step(g: CursorGateView, id: Seq<char>) -> (bool, CursorGateView) {
    if g.started {
        (false, g)
    } else {
        match g.last_seen {
            None => (false, CursorGateView { started: true, ..g }),
            Some(last) => if last == id {
                (true, CursorGateView { started: true, ..g })
            } else {
                (true, g)
            },
        }
    }
}

impl CursorGate {
    /// A cursor filter that passes everything when there is no cursor, and otherwise
    /// skips up to and including the cursor's last seen commit.
    pub fn new(cursor: Option<&LogCursor>) -> (res: CursorGate)
        ensures
            res@.last_seen == (match cursor {
                Some(c) => Some(c.last_seen@),
                None => None,
            }),
            res@.started == cursor.is_none(),
            res@ == gate_for(res@.last_seen),
    {
        CursorGate {
            last_seen: match cursor {
                Some(c) => Some(c.last_seen.clone()),
                None => None,
            },
            started: cursor.is_none(),
        }
    }

    pub fn should_skip(&mut self, id: &str) -> (skip: bool)
        ensures
            (skip, final(self)@) == gate_step(old(self)@, id@),
    {
        self.should_skip_hex(id)
    }

    pub fn should_skip_hex(&mut self, id: &str) -> (skip: bool)
        ensures
            (skip, final(self)@) == gate_step(old(self)@, id@),
    {
        if self.started {
            return false;
        }
        let matched = match &self.last_seen {
            None => {
                self.started = true;
                return false;
            },
            Some(last_seen) => str_eq(last_seen.as_str(), id),
        };
        if matched {
            self.started = true;
        }
        true
    }
}

/// The filter state `CursorGate::new` builds for a cursor that last saw `cursor`.
pub open spec fn gate_for(cursor: Option<Seq<char>>) -> CursorGateView {
    CursorGateView { last_seen: cursor, started: cursor is None }
}

/// The answers a cursor filter gives for each id of `ids` in turn.
pub open spec fn gate_skips(g: CursorGateView, ids: Seq<Seq<char>>) -> Seq<bool>
    decreases ids.len(),
{
    if ids.len() == 0 {
        Seq::empty()
    } else {
        let step = gate_step(g, ids[0]);
        seq![step.0] + gate_skips(step.1, ids.drop_first())
    }
}

proof fn lemma_started_gate_skips_nothing(g: CursorGateView, ids: Seq<Seq<char>>)
    requires
        g.started,
    ensures
        gate_skips(g, ids).len() == ids.len(),
        forall|i: int| 0 <= i < ids.len() ==> !#[trigger] gate_skips(g, ids)[i],
    decreases ids.len(),
{
    if ids.len() > 0 {
        lemma_started_gate_skips_nothing(g, ids.drop_first());
        assert forall|i: int| 0 <= i < ids.len() implies !#[trigger] gate_skips(g, ids)[i] by {
            if i > 0 {
                assert(gate_skips(g, ids)[i] == gate_skips(g, ids.drop_first())[i - 1]);
            }
        }
    }
}

proof fn lemma_waiting_gate_skips_through_last(last: Seq<char>, ids: Seq<Seq<char>>)
    ensures
        gate_skips(gate_for(Some(last)), ids).len() == ids.len(),
        forall|i: int|
            0 <= i < ids.len() ==> #[trigger] gate_skips(gate_for(Some(last)), ids)[i] == (i
                < page_start(ids, Some(last))),
    decreases ids.len(),
{
    let g = gate_for(Some(last));
    if ids.len() > 0 {
        let rest = ids.drop_first();
        if ids[0] == last {
            let g2 = CursorGateView { started: true, ..g };
            lemma_started_gate_skips_nothing(g2, rest);
            assert(first_id_at(ids, last, 0));
            lemma_first_id_unique(ids, last, 0, first_id_index(ids, last));
            assert forall|i: int| 0 <= i < ids.len() implies #[trigger] gate_skips(g, ids)[i] == (i
                < page_start(ids, Some(last))) by {
                if i > 0 {
                    assert(gate_skips(g, ids)[i] == gate_skips(g2, rest)[i - 1]);
                }
            }
        } else {
            lemma_waiting_gate_skips_through_last(last, rest);
            if has_id(rest, last) {
                let j = first_id_index(rest, last);
                assert(first_id_at(rest, last, j));
                assert(first_id_at(ids, last, j + 1)) by {
                    assert forall|k: int| 0 <= k < j + 1 implies ids[k] != last by {
                        if k > 0 {
                            assert(ids[k] == rest[k - 1]);
                        }
                    }
                }
                lemma_first_id_unique(ids, last, j + 1, first_id_index(ids, last));
            } else {
                assert(!has_id(ids, last)) by {
                    if has_id(ids, last) {
                        let k = first_id_index(ids, last);
                        assert(first_id_at(ids, last, k));
                        assert(k > 0);
                        assert(first_id_at(rest, last, k - 1)) by {
                            assert forall|m: int| 0 <= m < k - 1 implies rest[m] != last by {
                                assert(rest[m] == ids[m + 1]);
                            }
                        }
                    }
                }
            }
            assert forall|i: int| 0 <= i < ids.len() implies #[trigger] gate_skips(g, ids)[i] == (i
                < page_start(ids, Some(last))) by {
                if i > 0 {
                    assert(gate_skips(g, ids)[i] == gate_skips(g, rest)[i - 1]);
                }
            }
        }
    }
}

/// The cursor filter and the page agree on where history resumes: fed the ids in
/// order, a filter built from a cursor skips exactly the commits before the
/// position the page after that cursor starts at.
pub proof fn law_gate_skips_exactly_before_page_start(ids: Seq<Seq<char>>, cursor: Option<Seq<char>>)
    ensures
        gate_skips(gate_for(cursor), ids).len() == ids.len(),
        forall|i: int|
            0 <= i < ids.len() ==> #[trigger] gate_skips(gate_for(cursor), ids)[i] == (i
                < page_start(ids, cursor)),
{
    match cursor {
        None => {
            lemma_started_gate_skips_nothing(gate_for(cursor), ids);
        },
        Some(last) => {
            lemma_waiting_gate_skips_through_last(last, ids);
        },
    }
}

/// The position a page starts at: 0 without a cursor, just after the first
/// commit the cursor last saw, or the end when that commit is absent.
pub open spec fn page_start(ids: Seq<Seq<char>>, cursor: Option<Seq<char>>) -> int {
    match cursor {
        None => 0,
        Some(last) => if has_id(ids, last) {
            first_id_index(ids, last) + 1
        } else {
            ids.len() as int
        },
    }
}

/// Some commit has id `last`, and so there is a first one.
pub open spec fn has_id(ids: Seq<Seq<char>>, last: Seq<char>) -> bool {
    exists|i: int| #[trigger] first_id_at(ids, last, i)
}

/// The position of the first commit with id `last`.
pub open spec fn first_id_index(ids: Seq<Seq<char>>, last: Seq<char>) -> int {
    choose|i: int| #[trigger] first_id_at(ids, last, i)
}

pub open spec fn first_id_at(ids: Seq<Seq<char>>, last: Seq<char>, i: int) -> bool {
    &&& 0 <= i < ids.len()
    &&& ids[i] == last
    &&& forall|j: int| 0 <= j < i ==> ids[j] != last
}

pub open spec fn commit_ids(commits: Seq<CommitView>) -> Seq<Seq<char>> {
    commits.map_values(|c: CommitView| c.id)
}

/// The page `paginate_commits` builds: after the cursor, at most `limit`
/// commits, and a cursor at the last of them when more commits follow.
pub open spec fn page_spec(commits: Seq<CommitView>, limit: nat, cursor: Option<Seq<char>>) -> LogPageView {
    let start = page_start(commit_ids(commits), cursor);
    if limit == 0 {
        LogPageView { commits: Seq::empty(), next_cursor: None }
    } else {
        let end = if start + limit < commits.len() { start + limit } else { commits.len() as int };
        let page = commits.subrange(start, end);
        LogPageView {
            commits: page,
            next_cursor: if start + limit < commits.len() {
                Some(LogCursorView { last_seen: page.last().id, resume_from: None, resume_token: None })
            } else {
                None
            },
        }
    }
}

proof fn lemma_first_id_unique(ids: Seq<Seq<char>>, last: Seq<char>, i: int, j: int)
    requires
        first_id_at(ids, last, i),
        first_id_at(ids, last, j),
    ensures
        i == j,
{
}

fn clone_commit(c: &Commit) -> (res: Commit)
    ensures
        res@ == c@,
{
    Commit {
        id: c.id.clone(),
        parent_ids: c.parent_ids.clone(),
        summary: c.summary.clone(),
        author: c.author.clone(),
    }
}

/// Takes the page of `commits` that follows `cursor`, at most `limit` long.
pub fn paginate_commits(commits: &Vec<Commit>, limit: usize, cursor: Option<&LogCursor>) -> (res: LogPage)
    ensures
        res@ == page_spec(
            commits_view(commits@),
            limit as nat,
            match cursor {
                Some(c) => Some(c.last_seen@),
                None => None,
            },
        ),
{
    let ghost cv = commits_view(commits@);
    let ghost ids = commit_ids(cv);
    let ghost cur = match cursor {
        Some(c) => Some(c.last_seen@),
        None => None::<Seq<char>>,
    };
    if limit == 0 {
        let p = empty_log_page();
        assert(p@.commits =~= Seq::<CommitView>::empty());
        return p;
    }
    let mut gate = CursorGate::new(cursor);
    let mut result: Vec<Commit> = Vec::new();
    let mut next_cursor: Option<LogCursor> = None;
    // the position the page starts at, once the filter has opened
    let ghost mut start: int = 0;
    let mut i: usize = 0;
    let mut done = false;
    while i < commits.len() && !done
        invariant
            cv == commits_view(commits@),
            ids == commit_ids(cv),
            0 < limit,
            i <= commits.len(),
            gate@.last_seen == cur,
            !gate@.started ==> cur is Some && forall|j: int| 0 <= j < i ==> ids[j] != cur->0,
            gate@.started ==> {
                &&& 0 <= start
                &&& start == page_start(ids, cur)
                &&& start <= i
                &&& commits_view(result@) == cv.subrange(start, i as int)
            },
            !gate@.started ==> result@.len() == 0,
            !done ==> result@.len() <= limit,
            !done ==> next_cursor is None,
            done ==> gate@.started && start + limit < commits.len() && result@.len() == limit
                && commits_view(result@) == cv.subrange(start, start + limit) && next_cursor
                == Some(LogCursor {
                    last_seen: next_cursor->0.last_seen,
                    resume_from: None,
                    resume_token: None,
                }) && next_cursor->0.last_seen@ == cv[start + limit - 1].id,
        decreases commits.len() - i, if done { 0int } else { 1int },
    {
        let was_started = gate.started;
        let skip = gate.should_skip(commits[i].id.as_str());
        if skip {
            proof {
                if gate@.started {
                    // the cursor's commit is at `i`, the first time it appears
                    assert(first_id_at(ids, cur->0, i as int));

                    lemma_first_id_unique(ids, cur->0, i as int, first_id_index(ids, cur->0));
                    start = i + 1;
                    assert(cv.subrange(start, i + 1) =~= Seq::<CommitView>::empty());
                }
            }
            i += 1;
        } else {
            proof {
                if !was_started {
                    // no cursor: the page starts at the beginning
                    assert(i == 0);
                    start = 0;
                    assert(cv.subrange(0, 0) =~= Seq::<CommitView>::empty());
                }
            }
            if result.len() >= limit {
                proof {
                    assert(commits_view(result@).len() == result@.len());
                    assert(result@.len() == i - start);
                    assert(commits_view(result@)[limit - 1] == result@[limit - 1]@);
                    assert(cv.subrange(start, i as int)[limit - 1] == cv[start + limit - 1]);
                }
                let last = &result[result.len() - 1];
                next_cursor = Some(LogCursor {
                    last_seen: last.id.clone(),
                    resume_from: None,
                    resume_token: None,
                });
                done = true;
            } else {
                let c = clone_commit(&commits[i]);
                result.push(c);
                i += 1;
                assert(commits_view(result@) =~= cv.subrange(start, i as int));
            }
        }
    }
    proof {
        let want = page_spec(cv, limit as nat, cur);
        if !gate@.started {
            // the cursor's commit never appeared: everything was skipped
            assert(!has_id(ids, cur->0));
            assert(commits_view(result@) =~= want.commits);
        } else if done {
            assert(commits_view(result@) =~= want.commits);
        } else {
            assert(i == commits.len());
            assert(commits_view(result@).len() == result@.len());
            assert(commits_view(result@) =~= want.commits);
        }
    }
    LogPage { commits: result, next_cursor }
}

/// The author filter of a history page: the commit's author contains the
/// filter text, both taken in Unicode lowercase.
pub open spec fn author_matches(c: CommitView, author: Option<Seq<char>>) -> bool {
    match author {
        Some(a) => contains_seq(unicode_lowercase(c.author), unicode_lowercase(a)),
        None => true,
    }
}

/// Which commits a history view walks and shows.
#[derive(Clone, Copy, Debug, PartialEq, Eq, Structural)]
pub enum HistoryMode {
    FirstParent,
    FullReachable,
    NoMerges,
    MergesOnly,
    AllBranches,
}

/// Whether a walk in `mode` shows a commit with `parent_count` parents:
/// merges are left out of `NoMerges` and are all `MergesOnly` shows.
pub open spec fn mode_includes(mode: HistoryMode, parent_count: nat) -> bool {
    match mode {
        HistoryMode::NoMerges => parent_count < 2,
        HistoryMode::MergesOnly => parent_count > 1,
        _ => true,
    }
}

pub fn history_mode_includes(mode: HistoryMode, parent_count: usize) -> (res: bool)
    ensures
        res == mode_includes(mode, parent_count as nat),
{
    match mode {
        HistoryMode::NoMerges => parent_count < 2,
        HistoryMode::MergesOnly => parent_count > 1,
        _ => true,
    }
}

/// The commits after the cursor that the mode and the author filter keep,
/// in walk order.
pub open spec fn walk_kept_in(
    commits: Seq<CommitView>,
    cursor: Option<Seq<char>>,
    author: Option<Seq<char>>,
    mode: HistoryMode,
) -> Seq<CommitView> {
    commits.skip(page_start(commit_ids(commits), cursor)).filter(
        |c: CommitView| mode_includes(mode, c.parent_ids.len()) && author_matches(c, author),
    )
}

/// The commits after the cursor that the author filter keeps, in walk order.
pub open spec fn walk_kept(
    commits: Seq<CommitView>,
    cursor: Option<Seq<char>>,
    author: Option<Seq<char>>,
) -> Seq<CommitView> {
    commits.skip(page_start(commit_ids(commits), cursor)).filter(
        |c: CommitView| author_matches(c, author),
    )
}

/// The page of a filtered history walk: of the commits after the cursor
/// that the mode and the author filter keep, at most `limit`, and a cursor
/// at the last of them when more are kept.
pub open spec fn walk_page_spec_in(
    commits: Seq<CommitView>,
    limit: nat,
    cursor: Option<Seq<char>>,
    author: Option<Seq<char>>,
    mode: HistoryMode,
) -> LogPageView {
    let kept = walk_kept_in(commits, cursor, author, mode);
    if limit == 0 {
        LogPageView { commits: Seq::empty(), next_cursor: None }
    } else {
        LogPageView {
            commits: first_n(kept, limit as int),
            next_cursor: if kept.len() > limit {
                Some(LogCursorView { last_seen: kept[limit - 1].id, resume_from: None, resume_token: None })
            } else {
                None
            },
        }
    }
}

/// The page a history walk yields: of the commits after the cursor that the
/// author filter keeps, at most `limit`, and a cursor at the last of them
/// when more are kept.
pub open spec fn walk_page_spec(
    commits: Seq<CommitView>,
    limit: nat,
    cursor: Option<Seq<char>>,
    author: Option<Seq<char>>,
) -> LogPageView {
    let kept = walk_kept(commits, cursor, author);
    if limit == 0 {
        LogPageView { commits: Seq::empty(), next_cursor: None }
    } else {
        LogPageView {
            commits: first_n(kept, limit as int),
            next_cursor: if kept.len() > limit {
                Some(LogCursorView { last_seen: kept[limit - 1].id, resume_from: None, resume_token: None })
            } else {
                None
            },
        }
    }
}

fn author_text_matches(author: &str, filter_lower: &Option<Vec<char>>) -> (res: bool)
    ensures
        res == match filter_lower {
            Some(f) => contains_seq(unicode_lowercase(author@), f@),
            None => true,
        },
{
    match filter_lower {
        Some(f) => {
            let lower = to_lowercase(author);
            let chars = chars_of(lower.as_str());
            match find_seq(&chars, f) {
                Some(_) => true,
                None => false,
            }
        },
        None => true,
    }
}

/// The page a filtered history walk yields from the commits it walks, in
/// walk order: the commits up to and including the cursor's are skipped,
/// then those `mode` leaves out, then those whose author does not contain
/// `author` (in lowercase).
pub fn log_page_from_walk_filtered(
    commits: &Vec<Commit>,
    limit: usize,
    cursor: Option<&LogCursor>,
    author: Option<&str>,
    mode: HistoryMode,
) -> (res: LogPage)
    ensures
        res@ == walk_page_spec_in(
            commits_view(commits@),
            limit as nat,
            match cursor {
                Some(c) => Some(c.last_seen@),
                None => None,
            },
            match author {
                Some(a) => Some(a@),
                None => None,
            },
            mode,
        ),
{
    let ghost cv = commits_view(commits@);
    let ghost ids = commit_ids(cv);
    let ghost cur = match cursor {
        Some(c) => Some(c.last_seen@),
        None => None::<Seq<char>>,
    };
    let ghost av = match author {
        Some(a) => Some(a@),
        None => None::<Seq<char>>,
    };
    let ghost m = |c: CommitView| mode_includes(mode, c.parent_ids.len()) && author_matches(c, av);
    if limit == 0 {
        let p = empty_log_page();
        assert(p@.commits =~= Seq::<CommitView>::empty());
        return p;
    }
    let filter_lower: Option<Vec<char>> = match author {
        Some(a) => {
            let lower = to_lowercase(a);
            Some(chars_of(lower.as_str()))
        },
        None => None,
    };
    let mut gate = CursorGate::new(cursor);
    let mut result: Vec<Commit> = Vec::new();
    let mut next_cursor: Option<LogCursor> = None;
    let ghost mut start: int = 0;
    let mut i: usize = 0;
    let mut done = false;
    while i < commits.len() && !done
        invariant
            cv == commits_view(commits@),
            cv.len() == commits@.len(),
            ids == commit_ids(cv),
            m == (|c: CommitView| mode_includes(mode, c.parent_ids.len()) && author_matches(c, av)),
            match filter_lower {
                Some(f) => av matches Some(a) && f@ == unicode_lowercase(a),
                None => av is None,
            },
            0 < limit,
            i <= commits.len(),
            gate@.last_seen == cur,
            !gate@.started ==> cur is Some && forall|j: int| 0 <= j < i ==> ids[j] != cur->0,
            gate@.started ==> {
                &&& 0 <= start
                &&& start == page_start(ids, cur)
                &&& start <= i
                &&& commits_view(result@) == cv.subrange(start, i as int).filter(m)
            },
            !gate@.started ==> result@.len() == 0,
            !done ==> result@.len() <= limit,
            !done ==> next_cursor is None,
            done ==> {
                &&& gate@.started
                &&& result@.len() == limit
                &&& walk_kept_in(cv, cur, av, mode).len() > limit
                &&& commits_view(result@) == walk_kept_in(cv, cur, av, mode).take(limit as int)
                &&& next_cursor matches Some(nc) && nc.resume_from is None && nc.resume_token is None
                    && nc.last_seen@ == walk_kept_in(cv, cur, av, mode)[limit - 1].id
            },
        decreases commits.len() - i, if done { 0int } else { 1int },
    {
        let was_started = gate.started;
        let skip = gate.should_skip(commits[i].id.as_str());
        if skip {
            proof {
                if gate@.started {
                    assert(first_id_at(ids, cur->0, i as int));
                    lemma_first_id_unique(ids, cur->0, i as int, first_id_index(ids, cur->0));
                    start = i + 1;
                    assert(cv.subrange(start, i + 1) =~= Seq::<CommitView>::empty());
                    assert(cv.subrange(start, i + 1).filter(m) =~= Seq::<CommitView>::empty());
                }
            }
            i += 1;
        } else {
            proof {
                if !was_started {
                    assert(i == 0);
                    start = 0;
                    assert(cv.subrange(0, 0) =~= Seq::<CommitView>::empty());
                    assert(cv.subrange(0, 0).filter(m) =~= Seq::<CommitView>::empty());
                }
                assert(cv[i as int] == commits@[i as int]@);
                assert(cv.subrange(start, i + 1) =~= cv.subrange(start, i as int).push(cv[i as int]));
                cv.subrange(start, i as int).lemma_filter_push(cv[i as int], m);
            }
            let included = history_mode_includes(mode, commits[i].parent_ids.len());
            let keep = included && author_text_matches(commits[i].author.as_str(), &filter_lower);
            assert(cv[i as int].parent_ids.len() == commits@[i as int].parent_ids@.len());
            assert(keep == m(cv[i as int]));
            if !keep {
                i += 1;
            } else if result.len() >= limit {
                proof {
                    let kept = walk_kept_in(cv, cur, av, mode);
                    let before = cv.subrange(start, i as int);
                    let after = cv.skip(i as int);
                    assert(cv.skip(start) =~= before + after);
                    Seq::filter_distributes_over_add(before, after, m);
                    assert(kept == before.filter(m) + after.filter(m));
                    assert(after =~= seq![cv[i as int]] + after.skip(1));
                    Seq::filter_distributes_over_add(seq![cv[i as int]], after.skip(1), m);
                    assert(seq![cv[i as int]].filter(m) =~= seq![cv[i as int]]) by {
                        Seq::<CommitView>::empty().lemma_filter_push(cv[i as int], m);
                        assert(seq![cv[i as int]] =~= Seq::<CommitView>::empty().push(cv[i as int]));
                    }
                    assert(after.filter(m).len() >= 1);
                    assert(commits_view(result@).len() == result@.len());
                    assert(kept.len() > limit);
                    assert(kept.take(limit as int) =~= commits_view(result@));
                    assert(commits_view(result@)[limit - 1] == result@[limit - 1]@);
                }
                let last = &result[result.len() - 1];
                next_cursor = Some(LogCursor { last_seen: last.id.clone(), resume_from: None, resume_token: None });
                done = true;
            } else {
                let c = clone_commit(&commits[i]);
                result.push(c);
                i += 1;
                assert(commits_view(result@) =~= cv.subrange(start, i as int).filter(m));
            }
        }
    }
    proof {
        let want = walk_page_spec_in(cv, limit as nat, cur, av, mode);
        let kept = walk_kept_in(cv, cur, av, mode);
        if !gate@.started {
            assert(!has_id(ids, cur->0));
            assert(cv.skip(ids.len() as int) =~= Seq::<CommitView>::empty());
            assert(kept =~= Seq::<CommitView>::empty());
            assert(commits_view(result@) =~= want.commits);
        } else if done {
            assert(commits_view(result@) =~= want.commits);
        } else {
            assert(i == commits.len());
            assert(cv.subrange(start, i as int) =~= cv.skip(start));
            assert(commits_view(result@).len() == result@.len());
            assert(commits_view(result@) =~= want.commits);
        }
    }
    LogPage { commits: result, next_cursor }
}

/// The page a history walk yields from the commits it walks, in walk order:
/// the commits up to and including the cursor's are skipped, then those
/// whose author does not contain `author` (in lowercase) are passed over.
pub fn log_page_from_walk(
    commits: &Vec<Commit>,
    limit: usize,
    cursor: Option<&LogCursor>,
    author: Option<&str>,
) -> (res: LogPage)
    ensures
        res@ == walk_page_spec(
            commits_view(commits@),
            limit as nat,
            match cursor {
                Some(c) => Some(c.last_seen@),
                None => None,
            },
            match author {
                Some(a) => Some(a@),
                None => None,
            },
        ),
{
    let res = log_page_from_walk_filtered(commits, limit, cursor, author, HistoryMode::FullReachable);
    proof {
        let av = match author {
            Some(a) => Some(a@),
            None => None::<Seq<char>>,
        };
        let p1 = |c: CommitView| mode_includes(HistoryMode::FullReachable, c.parent_ids.len())
            && author_matches(c, av);
        let p2 = |c: CommitView| author_matches(c, av);
        assert(p1 =~= p2);
    }
    res
}

proof fn lemma_filter_keeps_all(s: Seq<CommitView>, p: spec_fn(CommitView) -> bool)
    requires
        forall|c: CommitView| #[trigger] p(c),
    ensures
        s.filter(p) == s,
    decreases s.len(),
{
    if s.len() > 0 {
        lemma_filter_keeps_all(s.drop_last(), p);
        assert(s =~= s.drop_last().push(s.last()));
        s.drop_last().lemma_filter_push(s.last(), p);
    } else {
        assert(s.filter(p) =~= s) by {
            s.lemma_filter_len(p);
        }
    }
}

/// Without an author filter, a history walk pages exactly as the plain
/// pager does.
pub proof fn law_walk_without_author_pages_like_paginate(
    commits: Seq<CommitView>,
    limit: nat,
    cursor: Option<Seq<char>>,
)
    ensures
        walk_page_spec(commits, limit, cursor, None) == page_spec(commits, limit, cursor),
{
    let ids = commit_ids(commits);
    let start = page_start(ids, cursor);
    match cursor {
        Some(last) => {
            if has_id(ids, last) {
                assert(first_id_at(ids, last, first_id_index(ids, last)));
            }
        },
        None => {},
    }
    assert(0 <= start <= commits.len());
    let p = |c: CommitView| author_matches(c, None);
    lemma_filter_keeps_all(commits.skip(start), p);
    let kept = walk_kept(commits, cursor, None);
    assert(kept == commits.skip(start));
    let want = page_spec(commits, limit, cursor);
    let got = walk_page_spec(commits, limit, cursor, None);
    if limit > 0 {
        let end = if start + limit < commits.len() { start + limit } else { commits.len() as int };
        assert(got.commits =~= commits.subrange(start, end));
        assert(got.commits == want.commits);
        if start + limit < commits.len() {
            assert(kept[limit - 1] == commits.subrange(start, end).last());
        }
        assert(got.next_cursor == want.next_cursor);
    }
    assert(got == want);
}

/// How a page of history is read.
#[derive(Clone, Copy, Debug, PartialEq, Eq, Structural)]
pub enum HistoryWalkPlan {
    /// Nothing to read: the limit is zero, or there is no HEAD to walk from.
    Empty,
    /// Every branch tip is walked together.
    AllBranches,
    /// First parents only, from the commit the cursor resumes from; the
    /// cursor's last id is then not used to skip.
    FirstParentFromResume,
    /// First parents only, from HEAD, skipping up to the cursor.
    FirstParentFromHead,
    /// A shallow clone walks all of HEAD's history again, filtered by mode.
    FullWalk,
    /// A paged walk from HEAD is continued (or started again), filtered by
    /// mode.
    PagedWalk,
}

pub open spec fn history_walk_plan_spec(
    mode: HistoryMode,
    limit: nat,
    has_resume_tip: bool,
    has_head: bool,
    shallow: bool,
) -> HistoryWalkPlan {
    if limit == 0 {
        HistoryWalkPlan::Empty
    } else {
        match mode {
            HistoryMode::AllBranches => HistoryWalkPlan::AllBranches,
            HistoryMode::FirstParent => if has_resume_tip {
                HistoryWalkPlan::FirstParentFromResume
            } else if has_head {
                HistoryWalkPlan::FirstParentFromHead
            } else {
                HistoryWalkPlan::Empty
            },
            _ => if !has_head {
                HistoryWalkPlan::Empty
            } else if shallow {
                HistoryWalkPlan::FullWalk
            } else {
                HistoryWalkPlan::PagedWalk
            },
        }
    }
}

/// How a history page in `mode` is read: `has_resume_tip` says the cursor
/// names a commit to resume a first-parent walk from, `has_head` that HEAD
/// points at a commit, `shallow` that the clone is shallow.
pub fn history_walk_plan(
    mode: HistoryMode,
    limit: usize,
    has_resume_tip: bool,
    has_head: bool,
    shallow: bool,
) -> (res: HistoryWalkPlan)
    ensures
        res == history_walk_plan_spec(mode, limit as nat, has_resume_tip, has_head, shallow),
{
    if limit == 0 {
        return HistoryWalkPlan::Empty;
    }
    match mode {
        HistoryMode::AllBranches => HistoryWalkPlan::AllBranches,
        HistoryMode::FirstParent => if has_resume_tip {
            HistoryWalkPlan::FirstParentFromResume
        } else if has_head {
            HistoryWalkPlan::FirstParentFromHead
        } else {
            HistoryWalkPlan::Empty
        },
        _ => if !has_head {
            HistoryWalkPlan::Empty
        } else if shallow {
            HistoryWalkPlan::FullWalk
        } else {
            HistoryWalkPlan::PagedWalk
        },
    }
}

/// A paged walk, one commit at a time over the commits the mode keeps after
/// the cursor: once `limit` commits are taken, any further kept commit ends
/// the page with more to come (whatever its author); before that, commits
/// the author filter keeps are taken.
pub open spec fn paged_step(
    taken: Seq<CommitView>,
    rest: Seq<CommitView>,
    limit: nat,
    author: Option<Seq<char>>,
) -> (Seq<CommitView>, bool)
    decreases rest.len(),
{
    if rest.len() == 0 {
        (taken, false)
    } else if taken.len() >= limit {
        (taken, true)
    } else if author_matches(rest[0], author) {
        paged_step(taken.push(rest[0]), rest.drop_first(), limit, author)
    } else {
        paged_step(taken, rest.drop_first(), limit, author)
    }
}

pub open spec fn mode_pred(mode: HistoryMode) -> spec_fn(CommitView) -> bool {
    |c: CommitView| mode_includes(mode, c.parent_ids.len())
}

/// The commits after the cursor (all of them without one) that `mode` keeps.
pub open spec fn paged_kept(
    commits: Seq<CommitView>,
    cursor: Option<Seq<char>>,
    mode: HistoryMode,
) -> Seq<CommitView> {
    commits.skip(page_start(commit_ids(commits), cursor)).filter(mode_pred(mode))
}

proof fn lemma_filter_front(s: Seq<CommitView>, p: spec_fn(CommitView) -> bool)
    requires
        s.len() > 0,
    ensures
        p(s[0]) ==> s.filter(p) == seq![s[0]] + s.drop_first().filter(p),
        !p(s[0]) ==> s.filter(p) == s.drop_first().filter(p),
{
    assert(s =~= seq![s[0]] + s.drop_first());
    Seq::filter_distributes_over_add(seq![s[0]], s.drop_first(), p);
    assert(seq![s[0]] =~= Seq::<CommitView>::empty().push(s[0]));
    Seq::<CommitView>::empty().lemma_filter_push(s[0], p);
    assert(Seq::<CommitView>::empty().filter(p) =~= Seq::<CommitView>::empty()) by {
        Seq::<CommitView>::empty().lemma_filter_len(p);
    }
}

/// The commits of one page of a paged walk, and whether the walk has more:
/// see `paged_step`.
pub fn log_page_from_paged_walk_state(
    commits: &Vec<Commit>,
    limit: usize,
    cursor: Option<&LogCursor>,
    author: Option<&str>,
    mode: HistoryMode,
) -> (res: (Vec<Commit>, bool))
    ensures
        (commits_view(res.0@), res.1) == paged_step(
            Seq::empty(),
            paged_kept(
                commits_view(commits@),
                match cursor {
                    Some(c) => Some(c.last_seen@),
                    None => None,
                },
                mode,
            ),
            limit as nat,
            match author {
                Some(a) => Some(a@),
                None => None,
            },
        ),
{
    let ghost cv = commits_view(commits@);
    let ghost ids = commit_ids(cv);
    let ghost cur = match cursor {
        Some(c) => Some(c.last_seen@),
        None => None::<Seq<char>>,
    };
    let ghost av = match author {
        Some(a) => Some(a@),
        None => None::<Seq<char>>,
    };
    let ghost p = mode_pred(mode);
    let ghost goal = paged_step(Seq::empty(), paged_kept(cv, cur, mode), limit as nat, av);
    let filter_lower: Option<Vec<char>> = match author {
        Some(a) => {
            let lower = to_lowercase(a);
            Some(chars_of(lower.as_str()))
        },
        None => None,
    };
    let mut gate = CursorGate::new(cursor);
    let mut result: Vec<Commit> = Vec::new();
    let ghost mut start: int = 0;
    proof {
        assert(cv.skip(0) =~= cv);
        assert(commits_view(result@) =~= Seq::<CommitView>::empty());
        if gate@.started {
            assert(cur is None);
            assert(page_start(ids, cur) == 0);
        }
    }
    let mut i: usize = 0;
    while i < commits.len()
        invariant
            cv == commits_view(commits@),
            cv.len() == commits@.len(),
            ids == commit_ids(cv),
            p == mode_pred(mode),
            cur == match cursor {
                Some(c) => Some(c.last_seen@),
                None => None::<Seq<char>>,
            },
            av == match author {
                Some(a) => Some(a@),
                None => None::<Seq<char>>,
            },
            goal == paged_step(Seq::empty(), paged_kept(cv, cur, mode), limit as nat, av),
            match filter_lower {
                Some(f) => av matches Some(a) && f@ == unicode_lowercase(a),
                None => av is None,
            },
            i <= commits.len(),
            gate@.last_seen == cur,
            !gate@.started ==> cur is Some && forall|j: int| 0 <= j < i ==> ids[j] != cur->0,
            !gate@.started ==> result@.len() == 0,
            gate@.started ==> {
                &&& 0 <= start <= i
                &&& start == page_start(ids, cur)
                &&& goal == paged_step(commits_view(result@), cv.skip(i as int).filter(p), limit as nat, av)
            },
        decreases commits.len() - i,
    {
        let was_started = gate.started;
        let skip = gate.should_skip(commits[i].id.as_str());
        proof {
            if !skip && !was_started {
                assert(i == 0);
                start = 0;
                assert(cv.skip(0) =~= cv);
            }
            if skip && gate@.started {
                assert(first_id_at(ids, cur->0, i as int));
                lemma_first_id_unique(ids, cur->0, i as int, first_id_index(ids, cur->0));
                start = i + 1;
                assert(commits_view(result@) =~= Seq::<CommitView>::empty());
            }
        }
        if !skip {
            proof {
                assert(cv[i as int] == commits@[i as int]@);
                assert(cv.skip(i as int).drop_first() =~= cv.skip(i + 1));
                lemma_filter_front(cv.skip(i as int), p);
            }
            let included = history_mode_includes(mode, commits[i].parent_ids.len());
            assert(cv[i as int].parent_ids.len() == commits@[i as int].parent_ids@.len());
            if included {
                proof {
                    let kept = cv.skip(i as int).filter(p);
                    assert(kept[0] == cv[i as int]);
                    assert(kept.drop_first() =~= cv.skip(i + 1).filter(p));
                    assert(commits_view(result@).len() == result@.len());
                }
                if result.len() >= limit {
                    proof {
                        let kept = cv.skip(i as int).filter(p);
                        assert(kept.len() > 0);
                        assert(goal == paged_step(commits_view(result@), kept, limit as nat, av));
                        assert(commits_view(result@).len() >= limit);
                        assert(paged_step(commits_view(result@), kept, limit as nat, av) == (
                            commits_view(result@),
                            true,
                        ));
                    }
                    return (result, true);
                }
                let keep = author_text_matches(commits[i].author.as_str(), &filter_lower);
                assert(keep == author_matches(cv[i as int], av));
                if keep {
                    let c = clone_commit(&commits[i]);
                    let ghost before = result@;
                    result.push(c);
                    assert(commits_view(result@) =~= commits_view(before).push(cv[i as int]));
                }
            }
        }
        i += 1;
    }
    proof {
        if !gate@.started {
            assert(!has_id(ids, cur->0));
            assert(cv.skip(ids.len() as int) =~= Seq::<CommitView>::empty());
            assert(paged_kept(cv, cur, mode) =~= Seq::<CommitView>::empty()) by {
                Seq::<CommitView>::empty().lemma_filter_len(p);
            }
            assert(commits_view(result@) =~= Seq::<CommitView>::empty());
        } else {
            assert(cv.skip(i as int) =~= Seq::<CommitView>::empty());
            Seq::<CommitView>::empty().lemma_filter_len(p);
            assert(cv.skip(i as int).filter(p) =~= Seq::<CommitView>::empty());
        }
    }
    (result, false)
}

proof fn lemma_paged_step_without_author(taken: Seq<CommitView>, rest: Seq<CommitView>, limit: nat)
    requires
        taken.len() <= limit,
    ensures
        paged_step(taken, rest, limit, None) == (
            taken + first_n(rest, limit - taken.len()),
            rest.len() > limit - taken.len(),
        ),
    decreases rest.len(),
{
    if rest.len() == 0 {
        assert(taken + first_n(rest, limit - taken.len()) =~= taken);
    } else if taken.len() >= limit {
        assert(first_n(rest, 0) =~= Seq::<CommitView>::empty());
        assert(taken + first_n(rest, limit - taken.len()) =~= taken);
    } else {
        assert(author_matches(rest[0], None));
        lemma_paged_step_without_author(taken.push(rest[0]), rest.drop_first(), limit);
        let k = limit - taken.len();
        assert(taken.push(rest[0]) + first_n(rest.drop_first(), k - 1) =~= taken + first_n(rest, k));
    }
}

/// Without an author filter, a paged walk takes the same commits as a plain
/// walk in the same mode, and has more exactly when the plain walk hands out
/// a next cursor.
pub proof fn law_paged_walk_without_author_matches_walk(
    commits: Seq<CommitView>,
    limit: nat,
    cursor: Option<Seq<char>>,
    mode: HistoryMode,
)
    requires
        limit > 0,
    ensures
        paged_step(Seq::empty(), paged_kept(commits, cursor, mode), limit, None) == (
            walk_page_spec_in(commits, limit, cursor, None, mode).commits,
            walk_page_spec_in(commits, limit, cursor, None, mode).next_cursor is Some,
        ),
{
    let p1 = mode_pred(mode);
    let p2 = |c: CommitView| mode_includes(mode, c.parent_ids.len()) && author_matches(c, None);
    assert(p1 =~= p2);
    assert(paged_kept(commits, cursor, mode) == walk_kept_in(commits, cursor, None, mode));
    lemma_paged_step_without_author(Seq::empty(), paged_kept(commits, cursor, mode), limit);
    assert(Seq::<CommitView>::empty() + first_n(paged_kept(commits, cursor, mode), limit as int)
        =~= first_n(paged_kept(commits, cursor, mode), limit as int));
}

/// The next cursor, if any, resumes from the first parent of the page's last commit.
pub fn apply_first_parent_resume_hint(page: &mut LogPage)
    ensures
        final(page)@.commits == old(page)@.commits,
        final(page)@.next_cursor == (match old(page)@.next_cursor {
            None => None,
            Some(c) => Some(
                LogCursorView {
                    resume_from: if old(page)@.commits.len() > 0
                        && old(page)@.commits.last().parent_ids.len() > 0 {
                        Some(old(page)@.commits.last().parent_ids[0])
                    } else {
                        None
                    },
                    ..c
                },
            ),
        }),
{
    let n = page.commits.len();
    let hint: Option<String> = if n > 0 && page.commits[n - 1].parent_ids.len() > 0 {
        Some(page.commits[n - 1].parent_ids[0].clone())
    } else {
        None
    };
    match &mut page.next_cursor {
        Some(cursor) => {
            cursor.resume_from = hint;
        },
        None => {},
    }
}

/// The UTF-8 decoding `String::from_utf8_lossy` gives (invalid sequences
/// become U+FFFD).
pub uninterp spec fn utf8_lossy(bytes: Seq<u8>) -> Seq<char>;

/// `String::from_utf8_lossy`: the decoded text, which for valid UTF-8 is
/// exactly the encoded characters.
#[verifier::external_body]
fn text_from_utf8_lossy(bytes: &[u8]) -> (res: String)
    ensures
        res@ == utf8_lossy(bytes@),
        vstd::utf8::valid_utf8(bytes@) ==> res@ == vstd::utf8::decode_utf8(bytes@),
{
    String::from_utf8_lossy(bytes).into_owned()
}

/// `Arc::clone`: another handle to the same value.
#[verifier::external_body]
fn share(a: &Arc<String>) -> (res: Arc<String>)
    ensures
        res == *a,
{
    Arc::clone(a)
}

/// A commit message offered for reuse: the commit's id and summary, and its
/// full message without trailing whitespace.
#[derive(Clone, Debug, PartialEq, Eq)]
pub struct RecentCommitMessage {
    pub id: String,
    pub summary: String,
    pub message: String,
}

pub struct RecentCommitMessageView {
    pub id: Seq<char>,
    pub summary: Seq<char>,
    pub message: Seq<char>,
}

impl View for RecentCommitMessage {
    type V = RecentCommitMessageView;

    open spec fn view(&self) -> RecentCommitMessageView {
        RecentCommitMessageView { id: self.id@, summary: self.summary@, message: self.message@ }
    }
}

pub open spec fn recent_view(v: Seq<RecentCommitMessage>) -> Seq<RecentCommitMessageView> {
    v.map_values(|m: RecentCommitMessage| m@)
}

pub open spec fn scanned_view(v: Seq<(Commit, String)>) -> Seq<(CommitView, Seq<char>)> {
    v.map_values(|p: (Commit, String)| (p.0@, p.1@))
}

/// The scanned commits' messages, each trimmed at the end, skipping blank
/// ones and ones already taken, in scan order.
pub open spec fn distinct_messages(s: Seq<(CommitView, Seq<char>)>) -> Seq<RecentCommitMessageView>
    decreases s.len(),
{
    if s.len() == 0 {
        Seq::empty()
    } else {
        let prev = distinct_messages(s.drop_last());
        let c = s.last().0;
        let msg = trim_end(s.last().1);
        if trim(msg).len() == 0 || prev.map_values(|r: RecentCommitMessageView| r.message).contains(msg) {
            prev
        } else {
            prev.push(RecentCommitMessageView { id: c.id, summary: c.summary, message: msg })
        }
    }
}

proof fn lemma_distinct_messages_grow(s: Seq<(CommitView, Seq<char>)>, j: int, k: int)
    requires
        0 <= j <= k <= s.len(),
    ensures
        distinct_messages(s.take(j)).len() <= distinct_messages(s.take(k)).len(),
        distinct_messages(s.take(k)).take(distinct_messages(s.take(j)).len() as int) == distinct_messages(
            s.take(j),
        ),
    decreases k - j,
{
    if j < k {
        lemma_distinct_messages_grow(s, j, k - 1);
        assert(s.take(k).drop_last() =~= s.take(k - 1));
        let a = distinct_messages(s.take(j));
        let b = distinct_messages(s.take(k - 1));
        let c = distinct_messages(s.take(k));
        assert(c.take(a.len() as int) =~= b.take(a.len() as int));
    } else {
        assert(distinct_messages(s.take(k)).take(distinct_messages(s.take(j)).len() as int)
            =~= distinct_messages(s.take(j)));
    }
}

/// The recent messages a request for `limit` offers, from the commits of
/// the first-parent history scanned for it (each with its raw message): none
/// when nothing is asked for, else the first distinct messages, as many as
/// the capped limit.
pub open spec fn recent_messages_spec(limit: usize, scanned: Seq<(CommitView, Seq<char>)>) -> Seq<
    RecentCommitMessageView,
> {
    match recent_limits_spec(limit) {
        Some((l, _)) => first_n(distinct_messages(scanned), l as int),
        None => Seq::empty(),
    }
}

proof fn lemma_distinct_messages_distinct(s: Seq<(CommitView, Seq<char>)>)
    ensures
        forall|i: int, j: int|
            0 <= i < j < distinct_messages(s).len() ==> #[trigger] distinct_messages(s)[i].message
                != #[trigger] distinct_messages(s)[j].message,
        forall|i: int|
            0 <= i < distinct_messages(s).len() ==> trim(#[trigger] distinct_messages(s)[i].message).len()
                > 0,
    decreases s.len(),
{
    if s.len() > 0 {
        lemma_distinct_messages_distinct(s.drop_last());
        let prev = distinct_messages(s.drop_last());
        let msg = trim_end(s.last().1);
        let msgs = prev.map_values(|r: RecentCommitMessageView| r.message);
        if !(trim(msg).len() == 0 || msgs.contains(msg)) {
            let cur = distinct_messages(s);
            assert forall|i: int, j: int| 0 <= i < j < cur.len() implies #[trigger] cur[i].message
                != #[trigger] cur[j].message by {
                if j == prev.len() {
                    assert(msgs[i] == prev[i].message);
                }
            }
        }
    }
}

/// The messages offered for reuse are told apart: no two are the same, and
/// none is blank.
pub proof fn law_recent_messages_are_distinct_and_not_blank(limit: usize, scanned: Seq<(CommitView, Seq<char>)>)
    ensures
        forall|i: int, j: int|
            0 <= i < j < recent_messages_spec(limit, scanned).len() ==> #[trigger] recent_messages_spec(
                limit,
                scanned,
            )[i].message != #[trigger] recent_messages_spec(limit, scanned)[j].message,
        forall|i: int|
            0 <= i < recent_messages_spec(limit, scanned).len() ==> trim(
                #[trigger] recent_messages_spec(limit, scanned)[i].message,
            ).len() > 0,
{
    lemma_distinct_messages_distinct(scanned);
    let d = distinct_messages(scanned);
    let r = recent_messages_spec(limit, scanned);
    match recent_limits_spec(limit) {
        Some((l, _)) => {
            assert forall|i: int| 0 <= i < r.len() implies #[trigger] r[i] == d[i] by {}
            assert forall|i: int, j: int| 0 <= i < j < r.len() implies #[trigger] r[i].message
                != #[trigger] r[j].message by {
                assert(r[i] == d[i] && r[j] == d[j]);
            }
            assert forall|i: int| 0 <= i < r.len() implies trim(#[trigger] r[i].message).len() > 0 by {
                assert(r[i] == d[i]);
            }
        },
        None => {},
    }
}

fn message_taken(taken: &Vec<RecentCommitMessage>, msg: &String) -> (res: bool)
    ensures
        res == recent_view(taken@).map_values(|r: RecentCommitMessageView| r.message).contains(msg@),
{
    let ghost msgs = recent_view(taken@).map_values(|r: RecentCommitMessageView| r.message);
    let mut i: usize = 0;
    while i < taken.len()
        invariant
            i <= taken.len(),
            msgs == recent_view(taken@).map_values(|r: RecentCommitMessageView| r.message),
            msgs.len() == taken.len(),
            forall|j: int| 0 <= j < i ==> msgs[j] != msg@,
        decreases taken.len() - i,
    {
        assert(msgs[i as int] == taken@[i as int].message@);
        if str_eq(taken[i].message.as_str(), msg.as_str()) {
            return true;
        }
        i += 1;
    }
    false
}

/// The recent commit messages a request for `limit` offers, from the
/// commits of the scanned first-parent history paired with their raw
/// messages.
pub fn recent_commit_messages(limit: usize, scanned: &Vec<(Commit, String)>) -> (res: Vec<RecentCommitMessage>)
    ensures
        recent_view(res@) == recent_messages_spec(limit, scanned_view(scanned@)),
{
    let cap = match recent_commit_message_limits(limit) {
        Some((cap, _scan_limit)) => cap,
        None => {
            return Vec::new();
        },
    };
    let ghost sv = scanned_view(scanned@);
    let ghost d = distinct_messages(sv);
    let mut messages: Vec<RecentCommitMessage> = Vec::new();
    let mut i: usize = 0;
    while i < scanned.len()
        invariant
            i <= scanned.len(),
            0 < cap,
            recent_limits_spec(limit) matches Some((l, _)) && l == cap,
            sv == scanned_view(scanned@),
            d == distinct_messages(sv),
            sv.len() == scanned.len(),
            recent_view(messages@) == distinct_messages(sv.take(i as int)),
            messages@.len() < cap,
        decreases scanned.len() - i,
    {
        let entry = &scanned[i];
        let message = trimmed_end(entry.1.as_str());
        proof {
            assert(sv[i as int] == (entry.0@, entry.1@));
            assert(sv.take(i + 1).drop_last() =~= sv.take(i as int));
            assert(sv.take(i + 1).last() == sv[i as int]);
        }
        if is_blank_str(message.as_str()) || message_taken(&messages, &message) {
            i += 1;
        } else {
            let item = RecentCommitMessage {
                id: entry.0.id.clone(),
                summary: entry.0.summary.clone(),
                message,
            };
            let ghost before = messages@;
            messages.push(item);
            assert(recent_view(messages@) =~= recent_view(before).push(item@));
            i += 1;
            if messages.len() >= cap {
                proof {
                    lemma_distinct_messages_grow(sv, i as int, sv.len() as int);
                    assert(sv.take(sv.len() as int) =~= sv);
                    assert(recent_view(messages@).len() == messages@.len());
                    assert(messages@.len() == cap);
                    assert(d.take(cap as int) == recent_view(messages@));
                    assert(first_n(d, cap as int) =~= recent_view(messages@));
                }
                return messages;
            }
        }
    }
    assert(sv.take(sv.len() as int) =~= sv);
    assert(recent_view(messages@).len() == messages@.len());
    assert(first_n(d, cap as int) =~= recent_view(messages@));
    messages
}

/// Remembers the last author name decoded, so runs of commits by the same
/// author share one allocation.
pub struct RepeatedAuthorCache {
    pub raw_name: Vec<u8>,
    pub value: Option<Arc<String>>,
}

impl Default for RepeatedAuthorCache {
    fn default() -> (res: RepeatedAuthorCache)
        ensures
            res.raw_name@.len() == 0,
            res.value is None,
    {
        RepeatedAuthorCache { raw_name: Vec::new(), value: None }
    }
}

impl RepeatedAuthorCache {
    pub fn new() -> (res: RepeatedAuthorCache)
        ensures
            res.raw_name@.len() == 0,
            res.value is None,
    {
        RepeatedAuthorCache { raw_name: Vec::new(), value: None }
    }

    /// The cache holds the decoding of the name it remembers.
    pub open spec fn consistent(&self) -> bool {
        self.value matches Some(v) ==> (*v)@ == utf8_lossy(self.raw_name@)
    }

    /// The decoded name; the cached value is handed out again (the same
    /// allocation) when `name` is the remembered one.
    pub fn intern(&mut self, name: &[u8]) -> (res: Arc<String>)
        requires
            old(self).consistent(),
        ensures
            (*res)@ == utf8_lossy(name@),
            final(self).consistent(),
            final(self).raw_name@ == name@,
            final(self).value == Some(res),
            (old(self).value is Some && old(self).raw_name@ == name@) ==> res == old(self).value->0,
    {
        let same = bytes_eq(&self.raw_name, name);
        if same {
            match &self.value {
                Some(v) => {
                    return share(v);
                },
                None => {},
            }
        }
        self.raw_name = slice_to_vec(name);
        let value = Arc::new(text_from_utf8_lossy(name));
        self.value = Some(share(&value));
        value
    }
}

fn bytes_eq(a: &Vec<u8>, b: &[u8]) -> (res: bool)
    ensures
        res == (a@ == b@),
{
    if a.len() != b.len() {
        return false;
    }
    let mut i: usize = 0;
    while i < a.len()
        invariant
            i <= a.len() == b@.len(),
            forall|j: int| 0 <= j < i ==> a@[j] == b@[j],
        decreases a.len() - i,
    {
        if a[i] != b[i] {
            return false;
        }
        i += 1;
    }
    assert(a@ =~= b@);
    true
}

fn slice_to_vec(b: &[u8]) -> (res: Vec<u8>)
    ensures
        res@ == b@,
{
    let mut out: Vec<u8> = Vec::new();
    let mut i: usize = 0;
    while i < b.len()
        invariant
            i <= b@.len(),
            out@ == b@.take(i as int),
        decreases b@.len() - i,
    {
        out.push(b[i]);
        i += 1;
        assert(out@ =~= b@.take(i as int));
    }
    assert(b@.take(b@.len() as int) =~= b@);
    out
}

/// Remembers the id of the first parent of the commit just decoded: walking
/// down a first-parent chain, the next commit decoded is that parent, and it
/// takes the remembered id instead of formatting a new one.
pub struct NextCommitIdCache {
    pub raw_id: Vec<u8>,
    pub value: Option<Arc<String>>,
}

impl Default for NextCommitIdCache {
    fn default() -> (res: NextCommitIdCache)
        ensures
            res.raw_id@.len() == 0,
            res.value is None,
    {
        NextCommitIdCache { raw_id: Vec::new(), value: None }
    }
}

impl NextCommitIdCache {
    /// The cache holds an id for the object `oid`.
    pub open spec fn holds(&self, oid: Seq<u8>) -> bool {
        self.value is Some && self.raw_id@ == oid
    }

    /// The remembered id when `oid` is the remembered object, else a new one
    /// from `make`.
    pub fn reuse_or_new<F: FnOnce() -> Arc<String>>(&self, oid: &[u8], make: F) -> (res: Arc<String>)
        requires
            make.requires(()),
        ensures
            self.holds(oid@) ==> res == self.value->0,
            !self.holds(oid@) ==> make.ensures((), res),
    {
        if bytes_eq(&self.raw_id, oid) {
            match &self.value {
                Some(v) => {
                    return share(v);
                },
                None => {},
            }
        }
        make()
    }

    /// Remembers `value` as the id of the object `oid`.
    pub fn remember(&mut self, oid: &[u8], value: &Arc<String>)
        ensures
            final(self).raw_id@ == oid@,
            final(self).value == Some(*value),
    {
        self.raw_id = slice_to_vec(oid);
        self.value = Some(share(value));
    }

    /// Forgets the remembered id (after a root commit, nothing follows).
    pub fn clear(&mut self)
        ensures
            final(self).raw_id@.len() == 0,
            final(self).value is None,
    {
        self.raw_id = Vec::new();
        self.value = None;
    }
}

/// Git's binary heuristic looks for a NUL byte within this leading window.
pub const COMMIT_STATS_BINARY_SNIFF_BYTES: usize = 8000;

/// A NUL byte within the first 8000 bytes.
pub fn commit_stats_looks_binary(bytes: &[u8]) -> (res: bool)
    ensures
        res == exists|i: int| 0 <= i < bytes@.len() && i < 8000 && bytes@[i] == 0u8,
{
    let n = if bytes.len() < COMMIT_STATS_BINARY_SNIFF_BYTES {
        bytes.len()
    } else {
        COMMIT_STATS_BINARY_SNIFF_BYTES
    };
    let mut i: usize = 0;
    while i < n
        invariant
            n <= bytes@.len(),
            n <= 8000,
            n == bytes@.len() || n == 8000,
            i <= n,
            forall|j: int| 0 <= j < i ==> bytes@[j] != 0u8,
        decreases n - i,
    {
        if bytes[i] == 0 {
            return true;
        }
        i += 1;
    }
    false
}

/// The number of `\n` bytes among the first `n`.
pub open spec fn newline_count(bytes: Seq<u8>, n: int) -> nat
    decreases n,
{
    if n <= 0 {
        0
    } else {
        newline_count(bytes, n - 1) + if bytes[n - 1] == 10u8 {
            1nat
        } else {
            0nat
        }
    }
}

/// Lines of text: newlines, plus one for an unterminated last line.
pub open spec fn line_count_spec(bytes: Seq<u8>) -> nat {
    if bytes.len() == 0 {
        0
    } else {
        newline_count(bytes, bytes.len() as int) + if bytes.last() != 10u8 {
            1nat
        } else {
            0nat
        }
    }
}

proof fn lemma_newline_count_bound(bytes: Seq<u8>, n: int)
    requires
        0 <= n,
    ensures
        newline_count(bytes, n) <= n,
    decreases n,
{
    if n > 0 {
        lemma_newline_count_bound(bytes, n - 1);
    }
}

/// The line count, saturating at `u32::MAX`.
pub fn commit_stats_line_count(bytes: &[u8]) -> (res: u32)
    ensures
        res == (if line_count_spec(bytes@) > u32::MAX {
            u32::MAX as nat
        } else {
            line_count_spec(bytes@)
        }),
{
    if bytes.len() == 0 {
        return 0;
    }
    let mut newlines: usize = 0;
    let mut i: usize = 0;
    while i < bytes.len()
        invariant
            i <= bytes@.len(),
            newlines == newline_count(bytes@, i as int),
            newlines <= i,
        decreases bytes@.len() - i,
    {
        if bytes[i] == 10 {
            newlines += 1;
        }
        i += 1;
    }
    let trailing: usize = if bytes[bytes.len() - 1] != 10 {
        1
    } else {
        0
    };
    proof {
        lemma_newline_count_bound(bytes@, bytes@.len() as int);
    }
    if newlines >= u32::MAX as usize || newlines + trailing > u32::MAX as usize {
        u32::MAX
    } else {
        (newlines + trailing) as u32
    }
}


/// Blobs larger than this have no line stats.
pub const COMMIT_STATS_MAX_BLOB_BYTES: usize = 4 * 1024 * 1024;

pub open spec fn looks_binary(bytes: Seq<u8>) -> bool {
    exists|i: int| 0 <= i < bytes.len() && i < 8000 && bytes[i] == 0u8
}

pub open spec fn saturated_line_count(bytes: Seq<u8>) -> u32 {
    if line_count_spec(bytes) > u32::MAX {
        u32::MAX
    } else {
        line_count_spec(bytes) as u32
    }
}

/// How a file's added and removed line counts come about.
#[derive(Clone, Copy, Debug, PartialEq, Eq, Structural)]
pub enum LineStatsPlan {
    /// No stats: a side is unreadable, too large or binary.
    Unknown,
    /// One side is empty, so every line of the other changed: the lines
    /// added and the lines removed.
    Counted { added: u32, removed: u32 },
    /// Both sides have text: the counts come from a line diff of the two.
    Diff,
}

/// The line-stats plan for a file's old and new blob contents (`None` for a
/// side that could not be read as a blob; an absent side reads as empty).
pub open spec fn line_stats_plan_spec(old: Option<Seq<u8>>, new: Option<Seq<u8>>) -> LineStatsPlan {
    match (old, new) {
        (Some(o), Some(n)) => if o.len() > COMMIT_STATS_MAX_BLOB_BYTES || n.len()
            > COMMIT_STATS_MAX_BLOB_BYTES || looks_binary(o) || looks_binary(n) {
            LineStatsPlan::Unknown
        } else if o.len() == 0 || n.len() == 0 {
            LineStatsPlan::Counted { added: saturated_line_count(n), removed: saturated_line_count(o) }
        } else {
            LineStatsPlan::Diff
        },
        _ => LineStatsPlan::Unknown,
    }
}

/// Decides how a file's line stats are had from its two blob contents.
pub fn commit_file_line_stats(old: Option<&[u8]>, new: Option<&[u8]>) -> (res: LineStatsPlan)
    ensures
        res == line_stats_plan_spec(
            match old {
                Some(o) => Some(o@),
                None => None,
            },
            match new {
                Some(n) => Some(n@),
                None => None,
            },
        ),
{
    let (o, n) = match (old, new) {
        (Some(o), Some(n)) => (o, n),
        _ => {
            return LineStatsPlan::Unknown;
        },
    };
    if o.len() > COMMIT_STATS_MAX_BLOB_BYTES || n.len() > COMMIT_STATS_MAX_BLOB_BYTES
        || commit_stats_looks_binary(o) || commit_stats_looks_binary(n) {
        return LineStatsPlan::Unknown;
    }
    if o.len() == 0 || n.len() == 0 {
        let added = commit_stats_line_count(n);
        let removed = commit_stats_line_count(o);
        return LineStatsPlan::Counted { added, removed };
    }
    LineStatsPlan::Diff
}

proof fn lemma_first_index_of_distinct(ids: Seq<Seq<char>>, i: int)
    requires
        0 <= i < ids.len(),
        forall|a: int, b: int| 0 <= a < b < ids.len() ==> ids[a] != ids[b],
    ensures
        first_id_at(ids, ids[i], i),
{
}

/// Loading more history continues exactly where the previous page stopped:
/// when commit ids are distinct, the page after a full page starts at the
/// commit right after the last one shown.
pub proof fn law_next_page_continues(commits: Seq<CommitView>, limit: nat, cursor: Option<Seq<char>>)
    requires
        forall|a: int, b: int| 0 <= a < b < commits.len() ==> commits[a].id != commits[b].id,
        page_spec(commits, limit, cursor).next_cursor is Some,
    ensures
        page_start(
            commit_ids(commits),
            Some(page_spec(commits, limit, cursor).next_cursor->0.last_seen),
        ) == page_start(commit_ids(commits), cursor) + limit,
{
    let ids = commit_ids(commits);
    let start = page_start(ids, cursor);
    match cursor {
        None => {},
        Some(last) => {
            if has_id(ids, last) {
                assert(first_id_at(ids, last, first_id_index(ids, last)));
            }
        },
    }
    assert(start >= 0);
    assert(limit > 0);
    assert(start + limit < commits.len());
    let k = start + limit - 1;
    let page = commits.subrange(start, start + limit);
    assert(page.last() == commits[k]);
    assert(ids[k] == commits[k].id);
    assert forall|a: int, b: int| 0 <= a < b < ids.len() implies ids[a] != ids[b] by {}
    lemma_first_index_of_distinct(ids, k);
    assert(page_spec(commits, limit, cursor).next_cursor->0.last_seen == ids[k]);
    let x = ids[k];
    assert(first_id_at(ids, x, k));
    assert(has_id(ids, x));
    lemma_first_id_unique(ids, x, k, first_id_index(ids, x));
}
} // verus!
