//! Bringing the pages of a session in line with the pages of the browser.
//!
//! The work is a list of tasks. A task that needs the helper script in a page stops
//! until the script was put there; afterwards the frames of the new pages are asked
//! for.
use crate::browser::{BrowserRuntimeError, RuntimeTargetEvent};
use crate::client::StagehandClientError;
use crate::context::{
    injected, law_register_keeps_session, law_remove_keeps_session, law_script_goes_in_once,
    order_holds, registered, removed, session_holds, told, AdapterCall, DomScriptStep, Session,
    StagehandAdapterError, StagehandContext, StagehandContextError, Told,
};
use crate::observe::{ids_added, law_new_pages_are_the_difference, new_ids};
use crate::table::without_key;
use crate::text::{opt_view, views};
use vstd::prelude::*;
use vstd::string::*;

verus! {

/// Something that has to be done about a page.
#[derive(Debug, PartialEq, Eq)]
pub enum PageTask {
    /// The page came: it is made known and becomes the active one.
    Attached(String),
    /// The page went: it is forgotten.
    Detached(String),
    /// The page was listed: it is made known unless it is, and becomes the active
    /// one where there is none.
    Adopt(String),
    /// The page was there at the start: it is made known and becomes the active one
    /// where there is none.
    Open(String),
}

/// Something that has to be done about a page, as characters.
pub enum Task {
    Attached(Seq<char>),
    Detached(Seq<char>),
    Adopt(Seq<char>),
    Open(Seq<char>),
}

impl View for PageTask {
    type V = Task;

    open spec fn view(&self) -> Task {
        match self {
            PageTask::Attached(id) => Task::Attached(id@),
            PageTask::Detached(id) => Task::Detached(id@),
            PageTask::Adopt(id) => Task::Adopt(id@),
            PageTask::Open(id) => Task::Open(id@),
        }
    }
}

/// The tasks of a list.
pub open spec fn tasks_of(tasks: Seq<PageTask>) -> Seq<Task> {
    tasks.map_values(|task: PageTask| task@)
}

/// The page that a task is about.
pub open spec fn task_page(task: Task) -> Seq<char> {
    match task {
        Task::Attached(id) => id,
        Task::Detached(id) => id,
        Task::Adopt(id) => id,
        Task::Open(id) => id,
    }
}

/// Where the work stands.
#[verifier::ext_equal]
pub struct Progress {
    pub session: Session,
    /// The pages whose frame has to be asked for.
    pub frames: Seq<Seq<char>>,
    /// What the adapter was told.
    pub told: Seq<Told>,
}

/// After a page has become the active one.
pub open spec fn activated(at: Progress, id: Seq<char>) -> Progress {
    Progress {
        session: Session { active: Some(id), ..at.session },
        told: at.told + seq![
            Told::Active(id),
            Told::Debug { message: "Set active page to "@ + id, category: "context"@ },
        ],
        ..at
    }
}

/// Whether a page becomes the active one by a task.
pub open spec fn activates(session: Session, task: Task) -> bool {
    match task {
        Task::Attached(_) => true,
        Task::Detached(_) => false,
        Task::Adopt(_) => session.active is None,
        Task::Open(_) => !(session.active is Some && session.pages.dom().contains(
            session.active->0,
        )),
    }
}

/// After the helper script is in the page of a task.
pub open spec fn scripted(at: Progress, task: Task) -> Progress {
    let id = task_page(task);
    let next = if activates(at.session, task) {
        activated(at, id)
    } else {
        at
    };
    Progress {
        frames: if task is Open {
            next.frames
        } else {
            next.frames.push(id)
        },
        ..next
    }
}

/// After a page has gone: where it was the active one, the first of the others is.
pub open spec fn let_go(at: Progress, id: Seq<char>) -> Progress {
    let next = Progress { session: removed(at.session, id), ..at };
    if at.session.pages.dom().contains(id) && next.session.active is None && next.session.order.len()
        > 0 {
        activated(next, next.session.order[0])
    } else {
        next
    }
}

/// Whether there is nothing to do for a task.
pub open spec fn is_idle(session: Session, task: Task) -> bool {
    task is Adopt && session.pages.dom().contains(task_page(task))
}

/// After the page of a task was made known.
pub open spec fn made_known(at: Progress, task: Task) -> Progress {
    Progress { session: registered(at.session, task_page(task), None), ..at }
}

/// Whether the helper script has to be put into the page of a task.
pub open spec fn needs_script(session: Session, task: Task) -> bool {
    &&& !(task is Detached)
    &&& !is_idle(session, task)
    &&& !registered(session, task_page(task), None).pages[task_page(task)].injected
}

/// After the helper script was put into a page.
pub open spec fn with_script(at: Progress, id: Seq<char>) -> Progress {
    Progress {
        session: injected(at.session, id),
        told: at.told.push(
            Told::Debug { message: "Injected DOM script into "@ + id, category: "context"@ },
        ),
        ..at
    }
}

/// After a task for which no script has to be put into a page.
pub open spec fn plain_done(at: Progress, task: Task) -> Progress {
    if task is Detached {
        let_go(at, task_page(task))
    } else if is_idle(at.session, task) {
        at
    } else {
        scripted(made_known(at, task), task)
    }
}

/// After a task, where the script goes into its page if it has to.
pub open spec fn task_done(at: Progress, task: Task) -> Progress {
    if needs_script(at.session, task) {
        scripted(with_script(made_known(at, task), task_page(task)), task)
    } else {
        plain_done(at, task)
    }
}

/// After all tasks.
pub open spec fn all_done(at: Progress, tasks: Seq<Task>) -> Progress
    decreases tasks.len(),
{
    if tasks.len() == 0 {
        at
    } else {
        all_done(task_done(at, tasks[0]), tasks.skip(1))
    }
}

/// How far the work gets by itself: up to the first task that needs the script in a
/// page, whose page is then known. Gives what was reached and how many tasks are
/// done.
pub open spec fn run(at: Progress, tasks: Seq<Task>) -> (Progress, int)
    decreases tasks.len(),
{
    if tasks.len() == 0 {
        (at, 0)
    } else if needs_script(at.session, tasks[0]) {
        (made_known(at, tasks[0]), 0)
    } else {
        let (reached, count) = run(plain_done(at, tasks[0]), tasks.skip(1));
        (reached, count + 1)
    }
}

/// What has to be done next.
#[derive(Debug, PartialEq, Eq)]
pub enum SyncStep {
    /// This script has to be put into this page.
    Inject { page_id: String, script: String },
    /// Nothing: every task is done.
    Done,
}

/// The work on the pages of a session.
#[derive(Debug)]
pub struct PageSync {
    tasks: Vec<PageTask>,
    next_task: usize,
    frames: Vec<String>,
    next_frame: usize,
}

impl PageSync {
    #[verifier::type_invariant]
    spec fn holds(self) -> bool {
        self.next_task <= self.tasks@.len() && self.next_frame <= self.frames@.len()
    }

    /// The tasks that are left.
    pub closed spec fn tasks(&self) -> Seq<Task> {
        tasks_of(self.tasks@).skip(self.next_task as int)
    }

    /// The pages whose frame has still to be asked for.
    pub closed spec fn frames(&self) -> Seq<Seq<char>> {
        views(self.frames@).skip(self.next_frame as int)
    }

    fn start(tasks: Vec<PageTask>) -> (out: PageSync)
        ensures
            out.tasks() == tasks_of(tasks@),
            out.frames() == Seq::<Seq<char>>::empty(),
    {
        let out = PageSync { tasks, next_task: 0, frames: Vec::new(), next_frame: 0 };
        assert(out.tasks() =~= tasks_of(tasks@));
        assert(out.frames() =~= Seq::<Seq<char>>::empty());
        out
    }

    /// The work for pages that came and went.
    pub fn for_events(events: Vec<RuntimeTargetEvent>) -> (out: PageSync)
        ensures
            out.tasks() == event_tasks(events@),
            out.frames() == Seq::<Seq<char>>::empty(),
    {
        let mut tasks: Vec<PageTask> = Vec::new();
        assert(tasks_of(tasks@) =~= event_tasks(events@.take(0)));
        for event in it: events
            invariant
                tasks_of(tasks@) == event_tasks(it.seq().take(it.index() as int)),
                it.seq() == events@,
        {
            let ghost before = tasks_of(tasks@);
            let ghost i = it.index() as int;
            let ghost added = event_task(event);
            tasks.push(
                match event {
                    RuntimeTargetEvent::Attached { target_id } => PageTask::Attached(target_id),
                    RuntimeTargetEvent::Detached { target_id } => PageTask::Detached(target_id),
                },
            );
            assert(tasks_of(tasks@) =~= before.push(added));
            assert(event_tasks(events@.take(i + 1)) =~= event_tasks(events@.take(i)).push(added));
        }
        assert(events@.take(events@.len() as int) =~= events@);
        PageSync::start(tasks)
    }

    /// The work for the pages that were there at the start.
    pub fn for_start(listed: &Vec<String>) -> (out: PageSync)
        ensures
            out.tasks() == open_tasks(views(listed@)),
            out.frames() == Seq::<Seq<char>>::empty(),
    {
        let mut tasks: Vec<PageTask> = Vec::new();
        let mut i: usize = 0;
        assert(tasks_of(tasks@) =~= open_tasks(views(listed@.take(0))));
        while i < listed.len()
            invariant
                i <= listed.len(),
                tasks_of(tasks@) == open_tasks(views(listed@.take(i as int))),
            decreases listed.len() - i,
        {
            let ghost before = tasks_of(tasks@);
            tasks.push(PageTask::Open(listed[i].clone()));
            assert(tasks_of(tasks@) =~= before.push(Task::Open(listed@[i as int]@)));
            assert(open_tasks(views(listed@.take(i + 1))) =~= before.push(
                Task::Open(listed@[i as int]@),
            ));
            i += 1;
        }
        assert(listed@.take(i as int) =~= listed@);
        PageSync::start(tasks)
    }

    /// Forgets the pages that the browser does not list, and gives the work for
    /// those it lists.
    pub fn for_listing(context: &mut StagehandContext, listed: &Vec<String>) -> (out: PageSync)
        ensures
            order_holds(old(context)@),
            final(context)@ == without_unlisted(old(context)@, views(listed@)),
            out.tasks() == adopt_tasks(views(listed@)),
            out.frames() == Seq::<Seq<char>>::empty(),
    {
        let ghost start = context@;
        let known = context.page_ids();
        let gone = ids_added(listed, &known);
        let mut i: usize = 0;
        assert(views(gone@.take(0)) =~= Seq::<Seq<char>>::empty());
        while i < gone.len()
            invariant
                i <= gone.len(),
                context@ == without_all(start, views(gone@.take(i as int))),
            decreases gone.len() - i,
        {
            context.remove_page(gone[i].as_str());
            assert(views(gone@.take(i + 1)) =~= views(gone@.take(i as int)).push(
                gone@[i as int]@,
            ));
            assert(views(gone@.take(i + 1)).drop_last() =~= views(gone@.take(i as int)));
            i += 1;
        }
        assert(gone@.take(i as int) =~= gone@);
        let mut tasks: Vec<PageTask> = Vec::new();
        let mut j: usize = 0;
        assert(tasks_of(tasks@) =~= adopt_tasks(views(listed@.take(0))));
        while j < listed.len()
            invariant
                j <= listed.len(),
                tasks_of(tasks@) == adopt_tasks(views(listed@.take(j as int))),
            decreases listed.len() - j,
        {
            let ghost before = tasks_of(tasks@);
            tasks.push(PageTask::Adopt(listed[j].clone()));
            assert(tasks_of(tasks@) =~= before.push(Task::Adopt(listed@[j as int]@)));
            assert(adopt_tasks(views(listed@.take(j + 1))) =~= before.push(
                Task::Adopt(listed@[j as int]@),
            ));
            j += 1;
        }
        assert(listed@.take(j as int) =~= listed@);
        PageSync::start(tasks)
    }

    fn note_frame(&mut self, id: &str)
        ensures
            final(self).tasks() == old(self).tasks(),
            final(self).frames() == old(self).frames().push(id@),
    {
        proof {
            use_type_invariant(&*self);
        }
        let ghost before = self.frames();
        let mut frames: Vec<String> = Vec::new();
        let at: usize = self.next_frame;
        self.next_frame = 0;
        std::mem::swap(&mut frames, &mut self.frames);
        frames.push(id.to_owned());
        self.frames = frames;
        self.next_frame = at;
        assert(self.frames() =~= before.push(id@));
    }

    fn pass_task(&mut self)
        requires
            old(self).tasks().len() > 0,
        ensures
            final(self).tasks() == old(self).tasks().skip(1),
            final(self).frames() == old(self).frames(),
    {
        proof {
            use_type_invariant(&*self);
        }
        let ghost before = self.tasks();
        let at: usize = self.next_task;
        if at < self.tasks.len() {
            self.next_task = at + 1;
        }
        assert(self.tasks() =~= before.skip(1));
    }

    /// Makes the page of a task the active one where the task says so, and notes
    /// that its frame has to be asked for.
    fn finish_attach(
        &mut self,
        context: &mut StagehandContext,
        task: &PageTask,
        calls: &mut Vec<AdapterCall>,
    )
        requires
            !(task@ is Detached),
            old(context)@.pages.dom().contains(task_page(task@)),
        ensures
            final(self).tasks() == old(self).tasks(),
            ({
                let reached = scripted(
                    Progress {
                        session: old(context)@,
                        frames: old(self).frames(),
                        told: told(old(calls)@),
                    },
                    task@,
                );
                &&& final(context)@ == reached.session
                &&& final(self).frames() == reached.frames
                &&& told(final(calls)@) == reached.told
            }),
    {
        let id = match task {
            PageTask::Attached(id) => id,
            PageTask::Detached(id) => id,
            PageTask::Adopt(id) => id,
            PageTask::Open(id) => id,
        };
        let activate = match task {
            PageTask::Attached(_) => true,
            PageTask::Detached(_) => false,
            PageTask::Adopt(_) => context.active_page_id().is_none(),
            PageTask::Open(_) => context.active_page().is_none(),
        };
        if activate {
            make_active(context, id.as_str(), calls);
        }
        match task {
            PageTask::Open(_) => {},
            _ => self.note_frame(id.as_str()),
        }
    }

    /// Does the tasks up to the first that needs the helper script in a page.
    pub fn next(&mut self, context: &mut StagehandContext, calls: &mut Vec<AdapterCall>) -> (out:
        SyncStep)
        ensures
            ({
                let start = Progress {
                    session: old(context)@,
                    frames: old(self).frames(),
                    told: told(old(calls)@),
                };
                let (reached, count) = run(start, old(self).tasks());
                &&& final(context)@ == reached.session
                &&& final(self).frames() == reached.frames
                &&& told(final(calls)@) == reached.told
                &&& 0 <= count <= old(self).tasks().len()
                &&& final(self).tasks() == old(self).tasks().skip(count)
                &&& match out {
                    SyncStep::Done => final(self).tasks().len() == 0,
                    SyncStep::Inject { page_id, script } => {
                        &&& final(self).tasks().len() > 0
                        &&& page_id@ == task_page(final(self).tasks()[0])
                        &&& script@ == final(context)@.script
                        &&& final(context)@.pages.dom().contains(page_id@)
                        &&& !final(context)@.pages[page_id@].injected
                    },
                }
            }),
    {
        let ghost start = Progress {
            session: context@,
            frames: self.frames(),
            told: told(calls@),
        };
        let ghost all = self.tasks();
        let ghost mut count: int = 0;
        assert(all.skip(0) =~= all);
        loop
            invariant
                start.session == old(context)@,
                start.frames == old(self).frames(),
                start.told == told(old(calls)@),
                all == old(self).tasks(),
                0 <= count <= all.len(),
                self.tasks() == all.skip(count),
                ({
                    let here = Progress {
                        session: context@,
                        frames: self.frames(),
                        told: told(calls@),
                    };
                    &&& run(start, all).0 == run(here, all.skip(count)).0
                    &&& run(start, all).1 == run(here, all.skip(count)).1 + count
                }),
            decreases all.len() - count,
        {
            let ghost here = Progress {
                session: context@,
                frames: self.frames(),
                told: told(calls@),
            };
            let ghost left = all.skip(count);
            proof {
                use_type_invariant(&*self);
            }
            let at: usize = self.next_task;
            if at >= self.tasks.len() {
                assert(left.len() == 0);
                assert(all.skip(count).len() == 0);
                return SyncStep::Done;
            }
            let task = copy_task(&self.tasks[at]);
            assert(task@ == left[0]);
            let mut idle: bool = false;
            match &task {
                PageTask::Detached(id) => {
                    let gone = context.remove_page(id.as_str());
                    if gone && context.active_page_id().is_none() {
                        let ids = context.page_ids();
                        if ids.len() > 0 {
                            assert(views(ids@)[0] == ids@[0]@);
                            assert(context@.order.contains(ids@[0]@));
                            make_active(context, ids[0].as_str(), calls);
                        }
                    }
                    idle = true;
                },
                PageTask::Adopt(id) => {
                    if context.page(id.as_str()).is_some() {
                        idle = true;
                    }
                },
                _ => {},
            }
            if !idle {
                let id = match &task {
                    PageTask::Attached(id) => id.clone(),
                    PageTask::Detached(id) => id.clone(),
                    PageTask::Adopt(id) => id.clone(),
                    PageTask::Open(id) => id.clone(),
                };
                context.register_page(id.as_str(), None);
                match context.ensure_dom_script(id.as_str()) {
                    Ok(DomScriptStep::Inject(script)) => {
                        return SyncStep::Inject { page_id: id, script };
                    },
                    _ => {},
                }
                self.finish_attach(context, &task, calls);
            }
            self.pass_task();
            proof {
                let now = Progress {
                    session: context@,
                    frames: self.frames(),
                    told: told(calls@),
                };
                assert(now =~= plain_done(here, left[0]));
                assert(left.skip(1) =~= all.skip(count + 1));
                count = count + 1;
            }
        }
    }

    /// Takes what came of putting the helper script into the page of the first task
    /// that is left.
    pub fn injected(
        &mut self,
        context: &mut StagehandContext,
        outcome: Result<(), StagehandAdapterError>,
        calls: &mut Vec<AdapterCall>,
    ) -> (out: Result<(), StagehandContextError>)
        requires
            old(self).tasks().len() > 0,
            !(old(self).tasks()[0] is Detached),
            old(context)@.pages.dom().contains(task_page(old(self).tasks()[0])),
        ensures
            match out {
                Ok(()) => {
                    let task = old(self).tasks()[0];
                    let before = Progress {
                        session: old(context)@,
                        frames: old(self).frames(),
                        told: told(old(calls)@),
                    };
                    let reached = scripted(with_script(before, task_page(task)), task);
                    &&& outcome is Ok
                    &&& final(context)@ == reached.session
                    &&& final(self).frames() == reached.frames
                    &&& told(final(calls)@) == reached.told
                    &&& final(self).tasks() == old(self).tasks().skip(1)
                },
                Err(error) => {
                    &&& error matches StagehandContextError::ScriptInjection { page_id, source }
                    &&& outcome == Result::<(), StagehandAdapterError>::Err(source)
                    &&& page_id@ == task_page(old(self).tasks()[0])
                    &&& final(context)@ == old(context)@
                    &&& final(self).tasks() == old(self).tasks()
                    &&& final(self).frames() == old(self).frames()
                    &&& told(final(calls)@) == told(old(calls)@)
                },
            },
    {
        proof {
            use_type_invariant(&*self);
        }
        let ghost left = self.tasks();
        let task = copy_task(&self.tasks[self.next_task]);
        assert(task@ == left[0]);
        let id = match &task {
            PageTask::Attached(id) => id.clone(),
            PageTask::Detached(id) => id.clone(),
            PageTask::Adopt(id) => id.clone(),
            PageTask::Open(id) => id.clone(),
        };
        match context.finish_dom_script(id.as_str(), outcome) {
            Ok(call) => {
                let ghost before = told(calls@);
                let ghost added = call@;
                calls.push(call);
                assert(told(calls@) =~= before.push(added));
                self.finish_attach(context, &task, calls);
                self.pass_task();
                Ok(())
            },
            Err(error) => Err(error),
        }
    }

    /// The next page whose frame has to be asked for.
    pub fn next_frame(&mut self) -> (out: Option<String>)
        ensures
            final(self).tasks() == old(self).tasks(),
            match out {
                Some(id) => {
                    &&& old(self).frames().len() > 0
                    &&& id@ == old(self).frames()[0]
                    &&& final(self).frames() == old(self).frames().skip(1)
                },
                None => old(self).frames().len() == 0 && final(self).frames() == old(self).frames(),
            },
    {
        proof {
            use_type_invariant(&*self);
        }
        let at: usize = self.next_frame;
        if at >= self.frames.len() {
            return None;
        }
        let ghost before = self.frames();
        let id = self.frames[at].clone();
        self.next_frame = at + 1;
        assert(self.frames() =~= before.skip(1));
        Some(id)
    }
}

/// The task for an event.
pub open spec fn event_task(event: RuntimeTargetEvent) -> Task {
    match event {
        RuntimeTargetEvent::Attached { target_id } => Task::Attached(target_id@),
        RuntimeTargetEvent::Detached { target_id } => Task::Detached(target_id@),
    }
}

/// The tasks for events.
pub open spec fn event_tasks(events: Seq<RuntimeTargetEvent>) -> Seq<Task> {
    events.map_values(|event: RuntimeTargetEvent| event_task(event))
}

/// The tasks for pages that were there at the start.
pub open spec fn open_tasks(ids: Seq<Seq<char>>) -> Seq<Task> {
    ids.map_values(|id: Seq<char>| Task::Open(id))
}

/// The tasks for pages that were listed.
pub open spec fn adopt_tasks(ids: Seq<Seq<char>>) -> Seq<Task> {
    ids.map_values(|id: Seq<char>| Task::Adopt(id))
}

/// A session after pages have gone, one after the other.
pub open spec fn without_all(session: Session, ids: Seq<Seq<char>>) -> Session
    decreases ids.len(),
{
    if ids.len() == 0 {
        session
    } else {
        removed(without_all(session, ids.drop_last()), ids.last())
    }
}

/// A session without the pages that are not listed.
pub open spec fn without_unlisted(session: Session, listed: Seq<Seq<char>>) -> Session {
    without_all(session, new_ids(listed, session.order))
}

fn copy_task(task: &PageTask) -> (out: PageTask)
    ensures
        out@ == task@,
{
    match task {
        PageTask::Attached(id) => PageTask::Attached(id.clone()),
        PageTask::Detached(id) => PageTask::Detached(id.clone()),
        PageTask::Adopt(id) => PageTask::Adopt(id.clone()),
        PageTask::Open(id) => PageTask::Open(id.clone()),
    }
}

fn make_active(context: &mut StagehandContext, id: &str, calls: &mut Vec<AdapterCall>)
    requires
        old(context)@.pages.dom().contains(id@),
    ensures
        final(context)@ == (Session { active: Some(id@), ..old(context)@ }),
        told(final(calls)@) == told(old(calls)@) + seq![
            Told::Active(id@),
            Told::Debug { message: "Set active page to "@ + id@, category: "context"@ },
        ],
{
    let ghost before = told(calls@);
    if let Ok(made) = context.set_active_page(id) {
        let mut made = made;
        let ghost added = told(made@);
        calls.append(&mut made);
        assert(told(calls@) =~= before + added);
    }
}

/// The frame that the browser named for a page, where naming frames is supported.
pub open spec fn named_frame(reply: Result<Option<String>, BrowserRuntimeError>) -> Option<Seq<char>> {
    match reply {
        Ok(frame) => opt_view(frame),
        Err(_) => None,
    }
}

/// A session after the browser named the frame of a page.
pub open spec fn with_named_frame(session: Session, id: Seq<char>, frame: Option<Seq<char>>) -> Session {
    if frame is Some && session.pages.dom().contains(id) && session.pages[id].frame != frame {
        registered(session, id, frame)
    } else {
        session
    }
}

fn note_named_frame(context: &mut StagehandContext, page_id: &str, frame: &str)
    ensures
        final(context)@ == with_named_frame(old(context)@, page_id@, Some(frame@)),
{
    let needs_update = match context.page(page_id) {
        Some(page) => match page.frame_id() {
            Some(existing) => !crate::text::str_eq(existing, frame),
            None => true,
        },
        None => false,
    };
    if needs_update {
        let _ = context.update_frame_id(page_id, frame);
    }
}

/// Whether the browser does not name frames at all.
pub open spec fn frames_unsupported(error: BrowserRuntimeError) -> bool {
    error is Unsupported || error is NotInitialized
}

/// Reads what the browser said when asked for the frame of a page. That it does not
/// name frames is no error.
pub fn runtime_main_frame_id_for(reply: Result<Option<String>, BrowserRuntimeError>) -> (out: Result<
    Option<String>,
    StagehandClientError,
>)
    ensures
        match out {
            Ok(frame) => {
                &&& reply matches Err(error) ==> frames_unsupported(error)
                &&& opt_view(frame) == named_frame(reply)
            },
            Err(error) => {
                &&& reply matches Err(why)
                &&& !frames_unsupported(why)
                &&& error == StagehandClientError::Browser(why)
            },
        },
{
    match reply {
        Ok(frame) => Ok(frame),
        Err(BrowserRuntimeError::Unsupported(_)) => Ok(None),
        Err(BrowserRuntimeError::NotInitialized) => Ok(None),
        Err(error) => Err(StagehandClientError::Browser(error)),
    }
}

/// Notes the frame that the browser named for a page. Where asking failed, the
/// message for the debug log is given.
pub fn frame_reply(
    context: &mut StagehandContext,
    page_id: &str,
    reply: Result<Option<String>, BrowserRuntimeError>,
) -> (out: Option<String>)
    ensures
        final(context)@ == with_named_frame(old(context)@, page_id@, named_frame(reply)),
        match out {
            Some(message) => {
                &&& reply matches Err(error)
                &&& !frames_unsupported(error)
                &&& message@ == "Skipping frame registration for "@ + page_id@ + ": "@
                    + StagehandClientError::Browser(error).text()
            },
            None => reply matches Err(error) ==> frames_unsupported(error),
        },
{
    match runtime_main_frame_id_for(reply) {
        Ok(Some(frame)) => {
            note_named_frame(context, page_id, frame.as_str());
            None
        },
        Ok(None) => None,
        Err(error) => {
            let mut message = "Skipping frame registration for ".to_owned();
            message.append(page_id);
            message.append(": ");
            let why = error.message();
            message.append(why.as_str());
            Some(message)
        },
    }
}

/// Notes the frame of a page: the given one, or else the one that the browser
/// named.
pub fn ensure_frame_registered(
    context: &mut StagehandContext,
    page_id: &str,
    candidate: Option<String>,
    reply: Result<Option<String>, BrowserRuntimeError>,
) -> (out: Result<(), StagehandClientError>)
    ensures
        match out {
            Ok(()) => {
                &&& candidate is None && reply is Err ==> frames_unsupported(reply->Err_0)
                &&& final(context)@ == with_named_frame(
                    old(context)@,
                    page_id@,
                    match opt_view(candidate) {
                        Some(frame) => Some(frame),
                        None => named_frame(reply),
                    },
                )
            },
            Err(error) => {
                &&& candidate is None
                &&& reply matches Err(why) && !frames_unsupported(why) && error
                    == StagehandClientError::Browser(why)
                &&& final(context)@ == old(context)@
            },
        },
{
    if let Some(frame) = candidate {
        note_named_frame(context, page_id, frame.as_str());
        return Ok(());
    }
    match runtime_main_frame_id_for(reply) {
        Ok(Some(frame)) => {
            note_named_frame(context, page_id, frame.as_str());
            Ok(())
        },
        Ok(None) => Ok(()),
        Err(error) => Err(error),
    }
}

/// Where the work stops for a script and goes on once the script is in the page, it
/// ends as if it had never stopped.
pub proof fn law_stops_do_not_matter(at: Progress, tasks: Seq<Task>)
    ensures
        ({
            let (reached, count) = run(at, tasks);
            &&& 0 <= count <= tasks.len()
            &&& count == tasks.len() ==> reached == all_done(at, tasks)
            &&& count < tasks.len() ==> all_done(
                scripted(with_script(reached, task_page(tasks[count])), tasks[count]),
                tasks.skip(count + 1),
            ) == all_done(at, tasks)
        }),
    decreases tasks.len(),
{
    if tasks.len() > 0 && !needs_script(at.session, tasks[0]) {
        let next = plain_done(at, tasks[0]);
        law_stops_do_not_matter(next, tasks.skip(1));
        let count = run(next, tasks.skip(1)).1;
        if count < tasks.len() - 1 {
            assert(tasks.skip(1)[count] == tasks[count + 1]);
            assert(tasks.skip(1).skip(count + 1) =~= tasks.skip(count + 2));
        }
    }
}

proof fn lemma_without(keys: Seq<Seq<char>>, key: Seq<char>)
    requires
        keys.no_duplicates(),
    ensures
        without_key(keys, key).no_duplicates(),
        forall|k: Seq<char>| #[trigger]
            without_key(keys, key).contains(k) <==> keys.contains(k) && k != key,
    decreases keys.len(),
{
    if keys.len() > 0 {
        let rest = keys.skip(1);
        assert forall|i: int, j: int| 0 <= i < rest.len() && 0 <= j < rest.len() && i
            != j implies rest[i] != rest[j] by {
            assert(keys[i + 1] != keys[j + 1]);
        }
        lemma_without(rest, key);
        let out = without_key(keys, key);
        if keys[0] == key {
            assert forall|k: Seq<char>| #[trigger] out.contains(k) <==> keys.contains(k) && k != key by {
                if out.contains(k) {
                    let i = choose|i: int| 0 <= i < out.len() && out[i] == k;
                    assert(keys[i + 1] == k);
                    assert(keys[0] != keys[i + 1]);
                }
                if keys.contains(k) && k != key {
                    let i = choose|i: int| 0 <= i < keys.len() && keys[i] == k;
                    assert(out[i - 1] == k);
                }
            }
        } else {
            let tail = without_key(rest, key);
            assert(out =~= seq![keys[0]] + tail);
            assert forall|k: Seq<char>| #[trigger] out.contains(k) <==> keys.contains(k) && k != key by {
                if out.contains(k) {
                    let i = choose|i: int| 0 <= i < out.len() && out[i] == k;
                    if i == 0 {
                        assert(keys[0] == k);
                    } else {
                        assert(tail[i - 1] == k);
                        assert(tail.contains(k));
                        assert(rest.contains(k));
                        let j = choose|j: int| 0 <= j < rest.len() && rest[j] == k;
                        assert(keys[j + 1] == k);
                    }
                }
                if keys.contains(k) && k != key {
                    let i = choose|i: int| 0 <= i < keys.len() && keys[i] == k;
                    if i == 0 {
                        assert(out[0] == k);
                    } else {
                        assert(rest[i - 1] == k);
                        assert(rest.contains(k));
                        assert(tail.contains(k));
                        let j = choose|j: int| 0 <= j < tail.len() && tail[j] == k;
                        assert(out[j + 1] == k);
                    }
                }
            }
            assert forall|i: int, j: int| 0 <= i < out.len() && 0 <= j < out.len() && i
                != j implies out[i] != out[j] by {
                if i == 0 || j == 0 {
                    let other = if i == 0 {
                        j
                    } else {
                        i
                    };
                    assert(tail[other - 1] == out[other]);
                    assert(tail.contains(out[other]));
                    assert(rest.contains(out[other]));
                    let m = choose|m: int| 0 <= m < rest.len() && rest[m] == out[other];
                    assert(keys[m + 1] != keys[0]);
                } else {
                    assert(tail[i - 1] != tail[j - 1]);
                }
            }
        }
    }
}

proof fn lemma_removed_order(session: Session, id: Seq<char>)
    requires
        order_holds(session),
    ensures
        order_holds(removed(session, id)),
        forall|k: Seq<char>| #[trigger]
            removed(session, id).pages.dom().contains(k) <==> session.pages.dom().contains(k) && k
                != id,
{
    lemma_without(session.order, id);
    let after = removed(session, id);
    assert forall|k: Seq<char>| #[trigger] after.order.contains(k) <==> after.pages.dom().contains(
        k,
    ) by {
        assert(session.order.contains(k) <==> session.pages.dom().contains(k));
    }
}

proof fn lemma_registered_order(session: Session, id: Seq<char>, frame: Option<Seq<char>>)
    requires
        order_holds(session),
    ensures
        order_holds(registered(session, id, frame)),
        forall|k: Seq<char>| #[trigger]
            registered(session, id, frame).pages.dom().contains(k) <==> session.pages.dom().contains(
                k,
            ) || k == id,
{
    let after = registered(session, id, frame);
    if !session.pages.dom().contains(id) {
        assert(!session.order.contains(id));
        assert forall|k: Seq<char>| #[trigger] after.order.contains(k) <==> after.pages.dom().contains(
            k,
        ) by {
            assert(session.order.contains(k) <==> session.pages.dom().contains(k));
            if after.order.contains(k) {
                let i = choose|i: int| 0 <= i < after.order.len() && after.order[i] == k;
                if i < session.order.len() {
                    assert(session.order[i] == k);
                }
            }
            if session.order.contains(k) {
                let i = choose|i: int| 0 <= i < session.order.len() && session.order[i] == k;
                assert(after.order[i] == k);
            }
            assert(after.order[session.order.len() as int] == id);
        }
        assert forall|i: int, j: int| 0 <= i < after.order.len() && 0 <= j < after.order.len() && i
            != j implies after.order[i] != after.order[j] by {
            if i == session.order.len() {
                assert(session.order.contains(session.order[j]));
            } else if j == session.order.len() {
                assert(session.order.contains(session.order[i]));
            }
        }
    } else {
        assert forall|k: Seq<char>| #[trigger] after.order.contains(k) <==> after.pages.dom().contains(
            k,
        ) by {
            assert(session.order.contains(k) <==> session.pages.dom().contains(k));
        }
    }
}

proof fn lemma_same_pages(before: Session, after: Session)
    requires
        order_holds(before),
        after.order == before.order,
        after.pages.dom() == before.pages.dom(),
    ensures
        order_holds(after),
{
    assert forall|k: Seq<char>| #[trigger] after.order.contains(k) <==> after.pages.dom().contains(
        k,
    ) by {
        assert(before.order.contains(k) <==> before.pages.dom().contains(k));
    }
}

/// A task keeps what holds of every session.
pub proof fn law_task_keeps_session(at: Progress, task: Task)
    requires
        session_holds(at.session),
        order_holds(at.session),
    ensures
        session_holds(task_done(at, task).session),
        order_holds(task_done(at, task).session),
{
    let id = task_page(task);
    if task is Detached {
        law_remove_keeps_session(at.session, id);
        lemma_removed_order(at.session, id);
        let after = removed(at.session, id);
        if after.order.len() > 0 {
            assert(after.order.contains(after.order[0]));
            law_script_goes_in_once(after, after.order[0]);
            lemma_same_pages(after, Session { active: Some(after.order[0]), ..after });
        }
    } else if !is_idle(at.session, task) {
        let known = registered(at.session, id, None);
        law_register_keeps_session(at.session, id, None);
        lemma_registered_order(at.session, id, None);
        law_script_goes_in_once(known, id);
        let ready = injected(known, id);
        assert(ready.pages.dom() =~= known.pages.dom());
        lemma_same_pages(known, ready);
        law_script_goes_in_once(ready, id);
        lemma_same_pages(ready, Session { active: Some(id), ..ready });
        lemma_same_pages(known, Session { active: Some(id), ..known });
    }
}

/// Whatever pages came, went or were listed, all tasks keep what holds of every
/// session.
pub proof fn law_sync_keeps_session(at: Progress, tasks: Seq<Task>)
    requires
        session_holds(at.session),
        order_holds(at.session),
    ensures
        session_holds(all_done(at, tasks).session),
        order_holds(all_done(at, tasks).session),
    decreases tasks.len(),
{
    if tasks.len() > 0 {
        law_task_keeps_session(at, tasks[0]);
        law_sync_keeps_session(task_done(at, tasks[0]), tasks.skip(1));
    }
}

proof fn lemma_without_all(session: Session, ids: Seq<Seq<char>>)
    requires
        session_holds(session),
        order_holds(session),
    ensures
        session_holds(without_all(session, ids)),
        order_holds(without_all(session, ids)),
        forall|k: Seq<char>| #[trigger]
            without_all(session, ids).pages.dom().contains(k) <==> session.pages.dom().contains(k)
                && !ids.contains(k),
    decreases ids.len(),
{
    if ids.len() > 0 {
        let front = ids.drop_last();
        lemma_without_all(session, front);
        let before = without_all(session, front);
        lemma_removed_order(before, ids.last());
        law_remove_keeps_session(before, ids.last());
        assert forall|k: Seq<char>| #[trigger] without_all(session, ids).pages.dom().contains(k) <==>
            session.pages.dom().contains(k) && !ids.contains(k) by {
            assert(ids[ids.len() - 1] == ids.last());
            if front.contains(k) {
                let i = choose|i: int| 0 <= i < front.len() && front[i] == k;
                assert(ids[i] == k);
            }
            if ids.contains(k) && k != ids.last() {
                let i = choose|i: int| 0 <= i < ids.len() && ids[i] == k;
                assert(front[i] == k);
            }
            assert(before.pages.dom().contains(k) <==> session.pages.dom().contains(k)
                && !front.contains(k));
        }
    }
}

proof fn lemma_adopted(at: Progress, ids: Seq<Seq<char>>)
    requires
        session_holds(at.session),
        order_holds(at.session),
    ensures
        forall|k: Seq<char>| #[trigger]
            all_done(at, adopt_tasks(ids)).session.pages.dom().contains(k) <==> (
            at.session.pages.dom().contains(k) || ids.contains(k)),
    decreases ids.len(),
{
    let tasks = adopt_tasks(ids);
    if ids.len() > 0 {
        let task = tasks[0];
        let next = task_done(at, task);
        assert(tasks.skip(1) =~= adopt_tasks(ids.skip(1)));
        law_task_keeps_session(at, task);
        lemma_registered_order(at.session, ids[0], None);
        lemma_adopted(next, ids.skip(1));
        assert forall|k: Seq<char>| #[trigger] all_done(at, tasks).session.pages.dom().contains(k) <==>
            (at.session.pages.dom().contains(k) || ids.contains(k)) by {
            assert(next.session.pages.dom().contains(k) <==> (at.session.pages.dom().contains(k) || k
                == ids[0])) by {
                assert(registered(at.session, ids[0], None).pages.dom().contains(k)
                    <==> at.session.pages.dom().contains(k) || k == ids[0]);
            }
            if ids.contains(k) && k != ids[0] {
                let i = choose|i: int| 0 <= i < ids.len() && ids[i] == k;
                assert(ids.skip(1)[i - 1] == k);
            }
            if ids.skip(1).contains(k) {
                let i = choose|i: int| 0 <= i < ids.skip(1).len() && ids.skip(1)[i] == k;
                assert(ids[i + 1] == k);
            }
            assert(all_done(next, adopt_tasks(ids.skip(1))).session.pages.dom().contains(k) <==> (
            next.session.pages.dom().contains(k) || ids.skip(1).contains(k)));
        }
    }
}

/// Once the pages were brought in line with a listing, the session has exactly the
/// pages that were listed.
pub proof fn law_sync_matches_listing(
    session: Session,
    listed: Seq<Seq<char>>,
    frames: Seq<Seq<char>>,
    told: Seq<Told>,
)
    requires
        session_holds(session),
        order_holds(session),
    ensures
        forall|id: Seq<char>| #[trigger]
            all_done(
                Progress { session: without_unlisted(session, listed), frames, told },
                adopt_tasks(listed),
            ).session.pages.dom().contains(id) <==> listed.contains(id),
{
    let gone = new_ids(listed, session.order);
    let kept = without_unlisted(session, listed);
    lemma_without_all(session, gone);
    law_new_pages_are_the_difference(listed, session.order);
    let start = Progress { session: kept, frames, told };
    lemma_adopted(start, listed);
    assert forall|id: Seq<char>| #[trigger]
        all_done(start, adopt_tasks(listed)).session.pages.dom().contains(id) <==> listed.contains(
            id,
        ) by {
        assert(kept.pages.dom().contains(id) <==> session.pages.dom().contains(id)
            && !gone.contains(id));
        assert(gone.contains(id) <==> session.order.contains(id) && !listed.contains(id));
        assert(session.order.contains(id) <==> session.pages.dom().contains(id));
    }
}

/// A page that came is the active one, and a page that went is not.
pub proof fn law_newest_page_is_active(at: Progress, id: Seq<char>)
    requires
        session_holds(at.session),
        order_holds(at.session),
    ensures
        task_done(at, Task::Attached(id)).session.active == Some(id),
        task_done(at, Task::Attached(id)).session.pages[id].injected,
        task_done(at, Task::Detached(id)).session.active != Some(id),
        !task_done(at, Task::Detached(id)).session.pages.dom().contains(id),
{
    lemma_removed_order(at.session, id);
    law_remove_keeps_session(at.session, id);
    let after = removed(at.session, id);
    if after.order.len() > 0 {
        assert(after.order.contains(after.order[0]));
        assert(after.pages.dom().contains(after.order[0]));
    }
}

} // verus!
