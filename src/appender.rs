use crate::date::Date;
use crate::template::{dir_of, dir_of_str, render_path, render_path_str};
use crate::trigger::DateTrigger;
use vstd::prelude::*;

verus! {

/// What the caller must open before it writes: the rendered file path, the
/// directory to create first (if the path has one), and the open policy.
#[derive(Debug)]
pub struct OpenRequest {
    pub path: String,
    pub dir: Option<String>,
    pub append: bool,
    pub truncate: bool,
}

impl OpenRequest {
    /// The directory to create, as characters.
    pub open spec fn dir_view(&self) -> Option<Seq<char>> {
        match self.dir {
            Some(d) => Some(d@),
            None => None,
        }
    }
}

/// A configuration option that was not set before `finalize`.
#[derive(Clone, Copy, Debug, PartialEq, Eq, Structural)]
pub enum BuildError {
    MissingPath,
    MissingTrigger,
    MissingAppend,
}

/// The state of an appender as the contracts see it, the handle left out.
pub struct AppenderView {
    /// The date the cached handle was opened for, if one is cached.
    pub opened_for: Option<Date>,
    /// The date of an open that was asked for and not yet installed.
    pub pending: Option<Date>,
    /// The day of month the trigger last saw.
    pub last_day: u32,
    /// The path template.
    pub path: Seq<char>,
    /// Whether files are opened for append (else truncated).
    pub append: bool,
}

impl AppenderView {
    /// A cached handle and a pending open both belong to the trigger's day,
    /// and an open is pending only while no handle is cached.
    pub open spec fn wf(self) -> bool {
        &&& (self.opened_for matches Some(d) ==> d.day == self.last_day)
        &&& (self.pending matches Some(d) ==> d.day == self.last_day && self.opened_for is None)
    }

    /// Whether the trigger fires for `today`.
    pub open spec fn fires(self, today: Date) -> bool {
        today.day != self.last_day
    }

    /// The state after the trigger is consulted for `today`: the handle is
    /// dropped if it fired, and an open of today's file is pending if no
    /// handle is left.
    pub open spec fn begin(self, today: Date) -> AppenderView {
        let kept = if self.fires(today) {
            None
        } else {
            self.opened_for
        };
        AppenderView {
            opened_for: kept,
            pending: if kept is None {
                Some(today)
            } else {
                None
            },
            last_day: today.day,
            ..self
        }
    }

    /// The state after a handle opened for the pending date is cached.
    pub open spec fn install(self) -> AppenderView {
        match self.pending {
            Some(d) => AppenderView { opened_for: Some(d), pending: None, ..self },
            None => self,
        }
    }

    /// The file that a handle opened for `d` writes to.
    pub open spec fn file_for(self, d: Date) -> Seq<char> {
        render_path(self.path, d)
    }
}

/// Sends records to a file named after today's date; a new file is opened
/// when the day changes. The handle type `W` is opened and written by the
/// caller; the appender decides when it must be dropped or opened.
pub struct DateRollingAppender<W> {
    writer: Option<W>,
    opened_for: Option<Date>,
    pending: Option<Date>,
    path: String,
    append: bool,
    trigger: DateTrigger,
}

impl<W> DateRollingAppender<W> {
    pub closed spec fn view(&self) -> AppenderView {
        AppenderView {
            opened_for: self.opened_for,
            pending: self.pending,
            last_day: self.trigger.last_day(),
            path: self.path@,
            append: self.append,
        }
    }

    /// The cached handle.
    pub closed spec fn handle(&self) -> Option<W> {
        self.writer
    }

    /// A handle is cached exactly when the view says it was opened, and the
    /// view is well formed.
    pub closed spec fn wf(&self) -> bool {
        &&& self.view().wf()
        &&& (self.writer is Some <==> self.opened_for is Some)
    }

    pub fn builder() -> (r: DateRollingAppenderBuilder)
        ensures
            r.path_opt() is None,
            r.trigger_opt() is None,
            r.append_opt() is None,
    {
        DateRollingAppenderBuilder { path: None, trigger: None, append: None }
    }

    /// Consults the trigger for `today`. If it fires, the cached handle is
    /// dropped. If no handle is left, the file for `today` must be opened
    /// and handed to `install`: the request says which file and how.
    pub fn begin_append(&mut self, today: &Date) -> (r: Option<OpenRequest>)
        requires
            old(self).wf(),
        ensures
            final(self).wf(),
            final(self).view().wf(),
            final(self).view() == old(self).view().begin(*today),
            final(self).view().opened_for is Some ==> final(self).handle() == old(self).handle(),
            match r {
                Some(q) => {
                    &&& final(self).view().opened_for is None
                    &&& final(self).handle() is None
                    &&& q.path@ == render_path(old(self).view().path, *today)
                    &&& q.dir_view() == dir_of(q.path@)
                    &&& q.append == old(self).view().append
                    &&& q.truncate == !old(self).view().append
                },
                None => final(self).view().opened_for is Some,
            },
    {
        if self.trigger.check_day(today.day) {
            self.writer = None;
            self.opened_for = None;
        }
        if self.writer.is_none() {
            self.pending = Some(*today);
            let path = render_path_str(self.path.as_str(), today);
            let dir = dir_of_str(path.as_str());
            Some(OpenRequest { path, dir, append: self.append, truncate: !self.append })
        } else {
            self.pending = None;
            None
        }
    }

    /// Caches `handle` as the one opened for the pending date. Where no open
    /// is pending, the handle is dropped and false is returned.
    pub fn install(&mut self, handle: W) -> (installed: bool)
        requires
            old(self).wf(),
        ensures
            final(self).wf(),
            final(self).view().wf(),
            installed == old(self).view().pending is Some,
            final(self).view() == old(self).view().install(),
            installed ==> final(self).handle() == Some(handle),
            !installed ==> final(self).handle() == old(self).handle(),
    {
        match self.pending {
            Some(d) => {
                self.writer = Some(handle);
                self.opened_for = Some(d);
                self.pending = None;
                true
            },
            None => false,
        }
    }

    /// Whether a handle is cached.
    pub fn has_writer(&self) -> (r: bool)
        requires
            self.wf(),
        ensures
            r == self.handle() is Some,
            r == self.view().opened_for is Some,
            self.view().wf(),
    {
        self.writer.is_some()
    }

    /// The cached handle, to write through.
    pub fn writer_mut(&mut self) -> (w: &mut W)
        requires
            old(self).handle() is Some,
        ensures
            *w == old(self).handle().unwrap(),
            final(self).handle() == Some(*final(w)),
            final(self).view() == old(self).view(),
            final(self).wf() == old(self).wf(),
    {
        self.writer.as_mut().unwrap()
    }

    /// The date the cached handle was opened for.
    pub fn opened_for(&self) -> (r: Option<Date>)
        ensures
            r == self.view().opened_for,
    {
        self.opened_for
    }

    /// The path template.
    pub fn path(&self) -> (r: &str)
        ensures
            r@ == self.view().path,
    {
        self.path.as_str()
    }

    /// Whether files are opened for append.
    pub fn append_mode(&self) -> (r: bool)
        ensures
            r == self.view().append,
    {
        self.append
    }

    /// The day of month the trigger last saw.
    pub fn trigger_day(&self) -> (r: u32)
        ensures
            r == self.view().last_day,
    {
        self.trigger.day()
    }
}

/// Collects the options of a `DateRollingAppender`; all three must be set.
pub struct DateRollingAppenderBuilder {
    path: Option<String>,
    trigger: Option<DateTrigger>,
    append: Option<bool>,
}

impl DateRollingAppenderBuilder {
    pub closed spec fn path_opt(&self) -> Option<Seq<char>> {
        match self.path {
            Some(p) => Some(p@),
            None => None,
        }
    }

    pub closed spec fn trigger_opt(&self) -> Option<u32> {
        match self.trigger {
            Some(t) => Some(t.last_day()),
            None => None,
        }
    }

    pub closed spec fn append_opt(&self) -> Option<bool> {
        self.append
    }

    /// Sets the path template; `{year}`, `{month}` and `{day}` in its base
    /// name are replaced by the date.
    pub fn path(self, path: &str) -> (r: Self)
        ensures
            r.path_opt() == Some(path@),
            r.trigger_opt() == self.trigger_opt(),
            r.append_opt() == self.append_opt(),
    {
        DateRollingAppenderBuilder { path: Some(String::from_str(path)), ..self }
    }

    pub fn trigger(self, trigger: DateTrigger) -> (r: Self)
        ensures
            r.path_opt() == self.path_opt(),
            r.trigger_opt() == Some(trigger.last_day()),
            r.append_opt() == self.append_opt(),
    {
        DateRollingAppenderBuilder { trigger: Some(trigger), ..self }
    }

    /// Sets whether an existing file is extended (else truncated) on open.
    pub fn append(self, append: bool) -> (r: Self)
        ensures
            r.path_opt() == self.path_opt(),
            r.trigger_opt() == self.trigger_opt(),
            r.append_opt() == Some(append),
    {
        DateRollingAppenderBuilder { append: Some(append), ..self }
    }

    /// Builds the appender, with no handle cached. Fails, naming the first
    /// missing option (path, trigger, append), where one was not set.
    pub fn finalize<W>(self) -> (r: Result<DateRollingAppender<W>, BuildError>)
        ensures
            match r {
                Ok(a) => {
                    &&& self.path_opt() is Some
                    &&& self.trigger_opt() is Some
                    &&& self.append_opt() is Some
                    &&& a.wf()
                    &&& a.view().wf()
                    &&& a.handle() is None
                    &&& a.view() == (AppenderView {
                        opened_for: None,
                        pending: None,
                        last_day: self.trigger_opt().unwrap(),
                        path: self.path_opt().unwrap(),
                        append: self.append_opt().unwrap(),
                    })
                },
                Err(e) => e == (if self.path_opt() is None {
                    BuildError::MissingPath
                } else if self.trigger_opt() is None {
                    BuildError::MissingTrigger
                } else {
                    BuildError::MissingAppend
                }) && !(self.path_opt() is Some && self.trigger_opt() is Some
                    && self.append_opt() is Some),
            },
    {
        match (self.path, self.trigger, self.append) {
            (Some(path), Some(trigger), Some(append)) => Ok(
                DateRollingAppender {
                    writer: None,
                    opened_for: None,
                    pending: None,
                    path,
                    append,
                    trigger,
                },
            ),
            (None, _, _) => Err(BuildError::MissingPath),
            (Some(_), None, _) => Err(BuildError::MissingTrigger),
            (Some(_), Some(_), None) => Err(BuildError::MissingAppend),
        }
    }
}

/// A handle never outlives its day. When the trigger fires, the cached
/// handle is dropped, and the one installed next is opened for today; any
/// handle cached after a check belongs to the day checked; later checks on
/// the same day keep that handle; well-formedness is kept throughout.
pub proof fn lemma_handle_follows_day(s: AppenderView, today: Date, later: Date)
    requires
        s.wf(),
        later.day == today.day,
    ensures
        s.begin(today).wf(),
        s.begin(today).install().wf(),
        s.fires(today) ==> s.begin(today).opened_for is None,
        s.fires(today) ==> s.begin(today).install().opened_for == Some(today),
        s.begin(today).install().opened_for matches Some(d) ==> d.day == today.day,
        s.begin(today).install().begin(later).opened_for == s.begin(today).install().opened_for,
{
}

/// The state after records on the dates `days`, in order, each open that
/// was asked for having succeeded.
pub open spec fn after_run(s: AppenderView, days: Seq<Date>) -> AppenderView
    decreases days.len(),
{
    if days.len() == 0 {
        s
    } else {
        after_run(s, days.drop_last()).begin(days.last()).install()
    }
}

/// A run keeps the state well formed, and the trigger holds the day of the
/// last record.
pub proof fn lemma_run_wf(s: AppenderView, days: Seq<Date>)
    requires
        s.wf(),
    ensures
        after_run(s, days).wf(),
        after_run(s, days).path == s.path,
        days.len() > 0 ==> after_run(s, days).last_day == days.last().day,
    decreases days.len(),
{
    if days.len() > 0 {
        lemma_run_wf(s, days.drop_last());
    }
}

/// Every record from a day boundary on, while the day stays the same, goes
/// to the handle opened for the boundary's date: record `k` crosses the
/// boundary (or is the first record, with no handle cached yet), and records
/// `k` to `j` all share its day.
pub proof fn lemma_writes_after_boundary(s: AppenderView, days: Seq<Date>, k: int, j: int)
    requires
        s.wf(),
        0 <= k <= j < days.len(),
        (k == 0 && s.opened_for is None) || days[k].day != (if k == 0 {
            s.last_day
        } else {
            days[k - 1].day
        }),
        forall|i: int| k <= i <= j ==> #[trigger] days[i].day == days[k].day,
    ensures
        after_run(s, days.take(j + 1)).opened_for == Some(days[k]),
        s.file_for(days[k]) == after_run(s, days.take(j + 1)).file_for(days[k]),
    decreases j,
{
    let run = days.take(j + 1);
    assert(run.drop_last() =~= days.take(j));
    assert(run.last() == days[j]);
    lemma_run_wf(s, days.take(j));
    lemma_run_wf(s, run);
    if j == k {
        if k > 0 {
            assert(days.take(j).last() == days[k - 1]);
        }
    } else {
        lemma_writes_after_boundary(s, days, k, j - 1);
        assert(days.take(j).last() == days[j - 1]);
        assert(days[j - 1].day == days[k].day);
        assert(days[j].day == days[k].day);
    }
}

/// Records on one day followed by records on another go each to its own
/// day's handle: the first `n` records (all on the day of `days[0]`) to the
/// handle opened for `days[0]`, the next `m` (all on another day) to the one
/// opened for `days[n]`; none crosses over.
pub proof fn lemma_two_days_apart(s: AppenderView, days: Seq<Date>, n: int, m: int)
    requires
        s.wf(),
        s.opened_for is None,
        0 < n,
        0 < m,
        days.len() == n + m,
        forall|i: int| 0 <= i < n ==> #[trigger] days[i].day == days[0].day,
        forall|i: int| n <= i < n + m ==> #[trigger] days[i].day == days[n].day,
        days[n].day != days[0].day,
    ensures
        forall|i: int|
            0 <= i < n ==> #[trigger] after_run(s, days.take(i + 1)).opened_for == Some(days[0]),
        forall|i: int|
            n <= i < n + m ==> #[trigger] after_run(s, days.take(i + 1)).opened_for == Some(
                days[n],
            ),
{
    assert forall|i: int| 0 <= i < n implies #[trigger] after_run(s, days.take(i + 1)).opened_for
        == Some(days[0]) by {
        lemma_writes_after_boundary(s, days, 0, i);
    }
    assert forall|i: int| n <= i < n + m implies #[trigger] after_run(
        s,
        days.take(i + 1),
    ).opened_for == Some(days[n]) by {
        assert(days[n - 1].day == days[0].day);
        lemma_writes_after_boundary(s, days, n, i);
    }
}

} // verus!
