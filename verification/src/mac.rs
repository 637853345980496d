//! What the sampler concludes from the state of the macOS desktop.
//!
//! Everything degrades gracefully: window titles are missing until Screen
//! Recording is granted, and nothing else needs a permission.
use vstd::prelude::*;

verus! {

/// The app that owns the menu bar.
pub struct FrontmostApp {
    /// Its bundle identifier, where it has one.
    pub bundle_id: Option<String>,
    /// Its localized name, where it has one.
    pub name: Option<String>,
    /// Its process.
    pub pid: i32,
}

/// One on-screen window, as the window server describes it. A property that is
/// absent, or that is not of its documented type, is `None`.
pub struct WindowInfo {
    /// The window's layer; ordinary windows stand on layer zero.
    pub layer: Option<i64>,
    /// The process that owns the window.
    pub owner_pid: Option<i64>,
    /// The window's title.
    pub name: Option<String>,
}

/// What the login session says of its screen lock.
pub enum SessionLock {
    /// There is no session to ask (for instance under fast user switching).
    NoSession,
    /// The session does not mention a lock.
    Unmentioned,
    /// The session mentions a lock, with something other than a boolean.
    Unreadable,
    /// The session says whether its screen is locked.
    Flag(bool),
}

/// Whether the login session's screen is locked. Errs toward `true` when the
/// session is unavailable or says something unreadable.
pub fn screen_locked(session: &SessionLock) -> (locked: bool)
    ensures
        locked == match *session {
            SessionLock::NoSession => true,
            SessionLock::Unmentioned => false,
            SessionLock::Unreadable => true,
            SessionLock::Flag(flag) => flag,
        },
{
    match session {
        SessionLock::NoSession => true,
        SessionLock::Unmentioned => false,
        SessionLock::Unreadable => true,
        SessionLock::Flag(flag) => *flag,
    }
}

/// Whether `window` is an ordinary window of the process `pid`.
pub open spec fn owned_by(window: WindowInfo, pid: i32) -> bool {
    window.layer == Some(0i64) && window.owner_pid == Some(pid as i64)
}

/// Whether the window at `i` is the frontmost ordinary window of `pid`.
pub open spec fn is_frontmost(windows: Seq<WindowInfo>, i: int, pid: i32) -> bool {
    &&& 0 <= i < windows.len()
    &&& owned_by(windows[i], pid)
    &&& forall|j: int| 0 <= j < i ==> !owned_by(#[trigger] windows[j], pid)
}

/// A title, where there is one with any text in it.
pub open spec fn shown_title(name: Option<String>) -> Option<Seq<char>> {
    match name {
        Some(title) if title@.len() > 0 => Some(title@),
        _ => None,
    }
}

/// What the title of the frontmost ordinary window of `pid` is, given the
/// on-screen windows from front to back. The frontmost one decides: where it has
/// no title, the windows behind it are not asked.
pub open spec fn frontmost_title(
    windows: Option<Seq<WindowInfo>>,
    pid: i32,
    title: Option<Seq<char>>,
) -> bool {
    match windows {
        None => title is None,
        Some(list) => {
            &&& forall|i: int| #[trigger]
                is_frontmost(list, i, pid) ==> title == shown_title(list[i].name)
            &&& (forall|i: int| 0 <= i < list.len() ==> !owned_by(#[trigger] list[i], pid))
                ==> title is None
        },
    }
}

/// Title of the frontmost (layer zero) window of `windows` owned by `pid`.
/// There is none when the window list is unavailable, when `pid` owns no such
/// window, or when that window has no title or an empty one.
pub fn frontmost_window_title(windows: &Option<Vec<WindowInfo>>, pid: i32) -> (title: Option<
    String,
>)
    ensures
        frontmost_title(
            match *windows {
                Some(list) => Some(list@),
                None => None,
            },
            pid,
            title.deep_view(),
        ),
{
    let list = match windows {
        Some(list) => list,
        None => {
            return None;
        },
    };
    let mut i: usize = 0;
    while i < list.len()
        invariant
            i <= list.len(),
            *windows == Some(*list),
            forall|j: int| 0 <= j < i ==> !owned_by(#[trigger] list@[j], pid),
        decreases list.len() - i,
    {
        let window = &list[i];
        if window.layer == Some(0i64) && window.owner_pid == Some(pid as i64) {
            let title = match &window.name {
                Some(name) => if name.as_str().is_empty() {
                    None
                } else {
                    Some(name.clone())
                },
                None => None,
            };
            assert(is_frontmost(list@, i as int, pid));
            assert forall|k: int| #[trigger]
                is_frontmost(list@, k, pid) implies title.deep_view() == shown_title(
                list@[k].name,
            ) by {
                assert(k == i);
            }
            return title;
        }
        i = i + 1;
    }
    assert forall|k: int| #[trigger] is_frontmost(list@, k, pid) implies false by {
        assert(!owned_by(list@[k], pid));
    }
    None
}

/// The screen counts as unlocked only where the session says so, by a plain flag
/// or by not mentioning a lock at all; whatever else it says, or does not say,
/// counts as locked.
pub proof fn law_doubt_counts_as_locked(session: SessionLock, locked: bool)
    requires
        call_ensures(screen_locked, (&session,), locked),
    ensures
        !locked <==> session is Unmentioned || session == SessionLock::Flag(false),
{
}

/// The first window on layer zero that belongs to the process decides about the
/// title, whatever windows stand before or behind it: its name is the title,
/// unless it has none or an empty one.
pub proof fn law_the_frontmost_window_decides(
    windows: Vec<WindowInfo>,
    pid: i32,
    i: int,
    title: Option<String>,
)
    requires
        call_ensures(frontmost_window_title, (&Some(windows), pid), title),
        0 <= i < windows@.len(),
        windows@[i].layer == Some(0i64),
        windows@[i].owner_pid == Some(pid as i64),
        forall|j: int|
            0 <= j < i ==> (#[trigger] windows@[j]).layer != Some(0i64) || windows@[j].owner_pid
                != Some(pid as i64),
    ensures
        match windows@[i].name {
            Some(name) => if name@.len() == 0 {
                title is None
            } else {
                title matches Some(title) && title@ == name@
            },
            None => title is None,
        },
{
    assert(is_frontmost(windows@, i, pid));
}

/// There is no title without a list of windows, nor with one in which no window
/// on layer zero belongs to the process.
pub proof fn law_no_window_no_title(
    windows: Option<Vec<WindowInfo>>,
    pid: i32,
    title: Option<String>,
)
    requires
        call_ensures(frontmost_window_title, (&windows, pid), title),
        windows matches Some(list) ==> forall|j: int|
            0 <= j < list@.len() ==> (#[trigger] list@[j]).layer != Some(0i64)
                || list@[j].owner_pid != Some(pid as i64),
    ensures
        title is None,
{
}

/// A list of windows gives one title.
pub proof fn lemma_one_title(
    windows: Option<Seq<WindowInfo>>,
    pid: i32,
    title: Option<Seq<char>>,
    other: Option<Seq<char>>,
)
    requires
        frontmost_title(windows, pid, title),
        frontmost_title(windows, pid, other),
    ensures
        title == other,
{
    if let Some(list) = windows {
        if exists|i: int| 0 <= i < list.len() && owned_by(#[trigger] list[i], pid) {
            let i = choose|i: int| 0 <= i < list.len() && owned_by(#[trigger] list[i], pid);
            let k = lemma_first_owned(list, pid, i);
            assert(is_frontmost(list, k, pid));
        }
    }
}

proof fn lemma_first_owned(list: Seq<WindowInfo>, pid: i32, i: int) -> (k: int)
    requires
        0 <= i < list.len(),
        owned_by(list[i], pid),
    ensures
        is_frontmost(list, k, pid),
    decreases i,
{
    if exists|j: int| 0 <= j < i && owned_by(#[trigger] list[j], pid) {
        let j = choose|j: int| 0 <= j < i && owned_by(#[trigger] list[j], pid);
        lemma_first_owned(list, pid, j)
    } else {
        i
    }
}

} // verus!
