//! Window → accessible-frame correlation.
//!
//! The agent addresses windows by id, while AT-SPI addresses applications and
//! the frames inside them, so a request has to relate the two. The ladder is
//! tried in order of confidence and stops at the first hit:
//!
//! 1. **pid**: the application whose bus name resolves to the window's process;
//! 2. **title**: a top-level frame of some application whose accessible name is
//!    exactly the window's title;
//! 3. **application identity**: an application whose name is the window's
//!    `app_id` (or contains it), or contains the window's title; the window is
//!    then that application's first frame.
//!
//! Failure is reported, never guessed: a wrong tree is worse than a missing one,
//! because the agent could read and act on another application's widgets.

use vstd::prelude::*;

use crate::a11y_error::A11yError;
use crate::chars::{ascii_lower, char_ascii_lower, chars_of, str_equals};
use crate::source::WindowTarget;
use crate::text_search::{contains_ignore_case, contains_ignore_case_spec, is_substring, seq_contains};

verus! {

/// `a` and `b` are equal up to ASCII case.
pub open spec fn ascii_case_eq(a: Seq<char>, b: Seq<char>) -> bool {
    a.len() == b.len() && forall|i: int|
        0 <= i < a.len() ==> ascii_lower(#[trigger] a[i]) == ascii_lower(b[i])
}

/// Whether `a` and `b` are equal up to ASCII case.
pub fn eq_ignore_ascii_case(a: &str, b: &str) -> (r: bool)
    ensures
        r == ascii_case_eq(a@, b@),
{
    let n = a.unicode_len();
    if n != b.unicode_len() {
        return false;
    }
    let mut i: usize = 0;
    while i < n
        invariant
            n == a@.len(),
            n == b@.len(),
            i <= n,
            forall|j: int| 0 <= j < i ==> ascii_lower(#[trigger] a@[j]) == ascii_lower(b@[j]),
        decreases n - i,
    {
        if char_ascii_lower(a.get_char(i)) != char_ascii_lower(b.get_char(i)) {
            return false;
        }
        i += 1;
    }
    true
}

/// An application name identifies a desktop-file id: equal up to ASCII case, or
/// containing it case-insensitively.
pub open spec fn app_id_matches(application: Seq<char>, app_id: Seq<char>) -> bool {
    ascii_case_eq(application, app_id) || contains_ignore_case_spec(application, app_id)
}

/// Whether an application name identifies a desktop-file id.
pub fn matches_app_id(application: &str, app_id: &str) -> (r: bool)
    ensures
        r == app_id_matches(application@, app_id@),
{
    eq_ignore_ascii_case(application, app_id) || contains_ignore_case(application, app_id)
}

/// An application's accessible name is the window's application: it matches
/// the window's `app_id`, or it contains the window's non-empty title.
pub open spec fn application_matches(application: Seq<char>, target: WindowTarget) -> bool {
    ||| (target.app_id matches Some(id) && app_id_matches(application, id.0@))
    ||| (target.title matches Some(t) && t@.len() > 0 && is_substring(t@, application))
}

/// Whether an application's accessible name is the window's application.
///
/// An empty title never matches: it is contained in every name.
pub fn matches_application(application: &str, target: &WindowTarget) -> (r: bool)
    ensures
        r == application_matches(application@, *target),
{
    if let Some(app_id) = &target.app_id {
        if matches_app_id(application, app_id.0.as_str()) {
            return true;
        }
    }
    match &target.title {
        Some(title) => {
            if title.as_str().unicode_len() == 0 {
                false
            } else {
                let hay = chars_of(application);
                let needle = chars_of(title.as_str());
                seq_contains(&hay, &needle)
            }
        },
        None => false,
    }
}

/// What the correlation reads of one application on the accessibility bus.
#[derive(Debug, Clone)]
pub struct CandidateApp {
    /// The application's accessible name, when it reports one.
    pub name: Option<String>,
    /// The process id its bus name resolved to, when the bus daemon knew it.
    pub pid: Option<i32>,
    /// The accessible names of its top-level frames, in the toolkit's order.
    pub frames: Vec<Option<String>>,
}

/// The subtree a window was correlated with.
#[derive(Debug, Clone, Copy, PartialEq, Eq, Structural)]
pub enum Correlation {
    /// A top-level frame of an application.
    Frame {
        /// Index of the application among the candidates.
        app: usize,
        /// Index of the frame among the application's frames.
        frame: usize,
    },
    /// The application's own root: it publishes no frame at all.
    ApplicationRoot {
        /// Index of the application among the candidates.
        app: usize,
    },
}

/// The first index in `from..n` at which `p` holds.
pub open spec fn first_where(n: int, p: spec_fn(int) -> bool, from: int) -> Option<int>
    decreases n - from,
{
    if from < 0 || from >= n {
        None
    } else if p(from) {
        Some(from)
    } else {
        first_where(n, p, from + 1)
    }
}

/// What `first_where` answers.
pub proof fn lemma_first_where(n: int, p: spec_fn(int) -> bool, from: int)
    requires
        0 <= from,
    ensures
        match first_where(n, p, from) {
            Some(k) => from <= k < n && p(k) && forall|j: int| from <= j < k ==> !#[trigger] p(j),
            None => forall|j: int| from <= j < n ==> !#[trigger] p(j),
        },
    decreases n - from,
{
    if from < n && !p(from) {
        lemma_first_where(n, p, from + 1);
    }
}

/// The frame at `j` is named exactly `title`.
pub open spec fn frame_named(frames: Seq<Option<String>>, title: Seq<char>) -> spec_fn(int) -> bool {
    |j: int| frames[j] matches Some(n) && n@ == title
}

/// The application at `i` resolved to `pid`.
pub open spec fn app_with_pid(apps: Seq<CandidateApp>, pid: i32) -> spec_fn(int) -> bool {
    |i: int| apps[i].pid == Some(pid)
}

/// The application at `i` has a frame named exactly `title`.
pub open spec fn app_with_frame_named(apps: Seq<CandidateApp>, title: Seq<char>) -> spec_fn(
    int,
) -> bool {
    |i: int| first_where(apps[i].frames@.len() as int, frame_named(apps[i].frames@, title), 0) is Some
}

/// The application at `i` is named like the window's application and has a
/// frame.
pub open spec fn app_by_identity(apps: Seq<CandidateApp>, target: WindowTarget) -> spec_fn(
    int,
) -> bool {
    |i: int|
        apps[i].name matches Some(n) && application_matches(n@, target) && apps[i].frames@.len()
            > 0
}

/// The window's title, when it has a non-empty one.
pub open spec fn usable_title(target: WindowTarget) -> Option<Seq<char>> {
    match target.title {
        Some(t) => if t@.len() > 0 {
            Some(t@)
        } else {
            None
        },
        None => None,
    }
}

/// Inside a known application: the frame named like the window's title, else
/// its first frame, else the application's own root.
pub open spec fn within_application(app: CandidateApp, index: int, target: WindowTarget) -> Correlation {
    let frames = app.frames@;
    let by_title = match usable_title(target) {
        Some(t) => first_where(frames.len() as int, frame_named(frames, t), 0),
        None => None,
    };
    match by_title {
        Some(j) => Correlation::Frame { app: index as usize, frame: j as usize },
        None => if frames.len() > 0 {
            Correlation::Frame { app: index as usize, frame: 0 }
        } else {
            Correlation::ApplicationRoot { app: index as usize }
        },
    }
}

/// No application resolved to the window's process.
pub open spec fn no_pid_hit(apps: Seq<CandidateApp>, target: WindowTarget) -> bool {
    match target.pid {
        Some(pid) => first_where(apps.len() as int, app_with_pid(apps, pid), 0) is None,
        None => true,
    }
}

/// No application has a frame named like the window's title.
pub open spec fn no_title_hit(apps: Seq<CandidateApp>, target: WindowTarget) -> bool {
    match usable_title(target) {
        Some(t) => first_where(apps.len() as int, app_with_frame_named(apps, t), 0) is None,
        None => true,
    }
}

/// The correlation ladder over the applications on the bus.
pub open spec fn correlation(apps: Seq<CandidateApp>, target: WindowTarget) -> Option<Correlation> {
    let n = apps.len() as int;
    let by_pid = match target.pid {
        Some(pid) => first_where(n, app_with_pid(apps, pid), 0),
        None => None,
    };
    let by_title = match usable_title(target) {
        Some(t) => first_where(n, app_with_frame_named(apps, t), 0),
        None => None,
    };
    if by_pid is Some {
        Some(within_application(apps[by_pid->0], by_pid->0, target))
    } else if by_title is Some {
        let i = by_title->0;
        let t = usable_title(target)->0;
        Some(
            Correlation::Frame {
                app: i as usize,
                frame: first_where(apps[i].frames@.len() as int, frame_named(apps[i].frames@, t), 0)->0 as usize,
            },
        )
    } else {
        match first_where(n, app_by_identity(apps, target), 0) {
            Some(i) => Some(Correlation::Frame { app: i as usize, frame: 0 }),
            None => None,
        }
    }
}

/// The application a correlation names.
pub open spec fn correlated_app(c: Correlation) -> int {
    match c {
        Correlation::Frame { app, .. } => app as int,
        Correlation::ApplicationRoot { app } => app as int,
    }
}

/// The correlation names a frame of `app` whose accessible name is the
/// window's title.
pub open spec fn frame_carries_title(app: CandidateApp, c: Correlation, target: WindowTarget) -> bool {
    match c {
        Correlation::Frame { frame, .. } => match usable_title(target) {
            Some(t) => frame < app.frames@.len() && frame_named(app.frames@, t)(frame as int),
            None => false,
        },
        _ => false,
    }
}

/// A correlation is never a guess: the application it names resolved to the
/// window's process, or the frame it names carries the window's title, or the
/// application is named like the window's application.
pub proof fn lemma_correlation_is_justified(apps: Seq<CandidateApp>, target: WindowTarget)
    requires
        apps.len() <= usize::MAX,
        forall|i: int| 0 <= i < apps.len() ==> #[trigger] apps[i].frames@.len() <= usize::MAX,
        correlation(apps, target) is Some,
    ensures
        ({
            let c = correlation(apps, target)->0;
            let i = correlated_app(c);
            &&& 0 <= i < apps.len()
            &&& {
                ||| (target.pid is Some && apps[i].pid == target.pid)
                ||| frame_carries_title(apps[i], c, target)
                ||| (apps[i].name matches Some(n) && application_matches(n@, target))
            }
        }),
{
    let n = apps.len() as int;
    let c = correlation(apps, target)->0;
    let by_pid = match target.pid {
        Some(pid) => first_where(n, app_with_pid(apps, pid), 0),
        None => None,
    };
    if let Some(pid) = target.pid {
        lemma_first_where(n, app_with_pid(apps, pid), 0);
    }
    if by_pid is Some {
        let i = by_pid->0;
        assert(app_with_pid(apps, target.pid->0)(i));
        assert(correlated_app(c) == i);
        return;
    }
    if let Some(t) = usable_title(target) {
        lemma_first_where(n, app_with_frame_named(apps, t), 0);
        let by_title = first_where(n, app_with_frame_named(apps, t), 0);
        if let Some(i) = by_title {
            assert(app_with_frame_named(apps, t)(i));
            let fr = apps[i].frames@;
            lemma_first_where(fr.len() as int, frame_named(fr, t), 0);
            let j = first_where(fr.len() as int, frame_named(fr, t), 0)->0;
            assert(frame_named(fr, t)(j));
            assert(c == Correlation::Frame { app: i as usize, frame: j as usize });
            return;
        }
    }
    lemma_first_where(n, app_by_identity(apps, target), 0);
    let i = first_where(n, app_by_identity(apps, target), 0)->0;
    assert(app_by_identity(apps, target)(i));
}

/// A window with no process id, no title and no application id correlates with
/// nothing: the ladder has nothing to match on.
pub proof fn lemma_keyless_target_correlates_with_nothing(apps: Seq<CandidateApp>, target: WindowTarget)
    requires
        target.pid is None,
        target.title is None,
        target.app_id is None,
    ensures
        correlation(apps, target) is None,
{
    lemma_first_where(apps.len() as int, app_by_identity(apps, target), 0);
}

/// An empty title matches no application: it would be contained in every
/// name.
pub proof fn lemma_empty_title_matches_nothing(application: Seq<char>, target: WindowTarget)
    requires
        target.app_id is None,
        target.title matches Some(t) && t@.len() == 0,
    ensures
        !application_matches(application, target),
{
}

/// The index of the first frame named exactly `title`.
fn find_frame_named(frames: &Vec<Option<String>>, title: &str) -> (r: Option<usize>)
    ensures
        r matches Some(j) ==> first_where(frames@.len() as int, frame_named(frames@, title@), 0)
            == Some(j as int),
        r is None ==> first_where(frames@.len() as int, frame_named(frames@, title@), 0) is None,
{
    let mut j: usize = 0;
    while j < frames.len()
        invariant
            j <= frames.len(),
            first_where(frames@.len() as int, frame_named(frames@, title@), j as int) == first_where(
                frames@.len() as int,
                frame_named(frames@, title@),
                0,
            ),
        decreases frames.len() - j,
    {
        let hit = match &frames[j] {
            Some(name) => str_equals(name.as_str(), title),
            None => false,
        };
        if hit {
            return Some(j);
        }
        j += 1;
    }
    None
}

/// The usable title of a target, as a string slice.
fn title_of(target: &WindowTarget) -> (r: Option<&str>)
    ensures
        match r {
            Some(t) => usable_title(*target) == Some(t@),
            None => usable_title(*target) is None,
        },
{
    match &target.title {
        Some(t) => if t.as_str().unicode_len() == 0 {
            None
        } else {
            Some(t.as_str())
        },
        None => None,
    }
}

/// Inside a known application: the frame named like the window's title, else
/// its first frame, else the application's own root.
pub fn correlate_within(app: &CandidateApp, index: usize, target: &WindowTarget) -> (c: Correlation)
    ensures
        c == within_application(*app, index as int, *target),
{
    let by_title = match title_of(target) {
        Some(t) => find_frame_named(&app.frames, t),
        None => None,
    };
    match by_title {
        Some(j) => Correlation::Frame { app: index, frame: j },
        None => if app.frames.len() > 0 {
            Correlation::Frame { app: index, frame: 0 }
        } else {
            Correlation::ApplicationRoot { app: index }
        },
    }
}

/// Relate a window to the applications on the accessibility bus, by the
/// correlation ladder; [`A11yError::NotCorrelated`] when nothing matches.
pub fn correlate(apps: &Vec<CandidateApp>, target: &WindowTarget) -> (r: Result<Correlation, A11yError>)
    ensures
        match r {
            Ok(c) => correlation(apps@, *target) == Some(c),
            Err(e) => correlation(apps@, *target) is None && e == A11yError::NotCorrelated(
                target.window_id,
            ),
        },
{
    let ghost n = apps@.len() as int;
    if let Some(pid) = target.pid {
        let mut i: usize = 0;
        while i < apps.len()
            invariant
                n == apps@.len(),
                i <= apps.len(),
                target.pid == Some(pid),
                first_where(n, app_with_pid(apps@, pid), i as int) == first_where(
                    n,
                    app_with_pid(apps@, pid),
                    0,
                ),
            decreases apps.len() - i,
        {
            if apps[i].pid == Some(pid) {
                return Ok(correlate_within(&apps[i], i, target));
            }
            i += 1;
        }
    }
    if let Some(t) = title_of(target) {
        let mut i: usize = 0;
        while i < apps.len()
            invariant
                n == apps@.len(),
                i <= apps.len(),
                usable_title(*target) == Some(t@),
                no_pid_hit(apps@, *target),
                first_where(n, app_with_frame_named(apps@, t@), i as int) == first_where(
                    n,
                    app_with_frame_named(apps@, t@),
                    0,
                ),
            decreases apps.len() - i,
        {
            if let Some(j) = find_frame_named(&apps[i].frames, t) {
                return Ok(Correlation::Frame { app: i, frame: j });
            }
            i += 1;
        }
    }
    let mut i: usize = 0;
    while i < apps.len()
        invariant
            n == apps@.len(),
            i <= apps.len(),
            no_pid_hit(apps@, *target),
            no_title_hit(apps@, *target),
            first_where(n, app_by_identity(apps@, *target), i as int) == first_where(
                n,
                app_by_identity(apps@, *target),
                0,
            ),
        decreases apps.len() - i,
    {
        let hit = match &apps[i].name {
            Some(name) => matches_application(name.as_str(), target) && apps[i].frames.len() > 0,
            None => false,
        };
        if hit {
            return Ok(Correlation::Frame { app: i, frame: 0 });
        }
        i += 1;
    }
    Err(A11yError::NotCorrelated(target.window_id))
}

} // verus!
