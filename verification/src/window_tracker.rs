//! One settings window at a time.

use vstd::prelude::*;

verus! {

/// What to do where a window may already be open.
#[derive(Clone, Copy, Debug, PartialEq, Eq, Structural)]
pub enum ExistingWindowDisposition<Handle> {
    OpenNew,
    SuppressReentrantOpen,
    Activate(Handle),
    ClearStale(Handle),
}

/// What to do where a window may already be open. `is_open` says whether the
/// window of the handle is.
pub open spec fn disposition<Handle>(
    opening: bool,
    closing: bool,
    handle: Option<Handle>,
    view_is_alive: bool,
    is_open: bool,
) -> ExistingWindowDisposition<Handle> {
    if opening {
        ExistingWindowDisposition::SuppressReentrantOpen
    } else {
        match handle {
            None => ExistingWindowDisposition::OpenNew,
            Some(handle) => if view_is_alive && is_open {
                if closing {
                    ExistingWindowDisposition::SuppressReentrantOpen
                } else {
                    ExistingWindowDisposition::Activate(handle)
                }
            } else {
                ExistingWindowDisposition::ClearStale(handle)
            },
        }
    }
}

/// What to do where a window may already be open. Whether it is open is asked only
/// where it matters.
pub fn existing_window_disposition<Handle: Copy, F: FnOnce(Handle) -> bool>(
    opening: bool,
    closing: bool,
    handle: Option<Handle>,
    view_is_alive: bool,
    is_open: F,
) -> (r: ExistingWindowDisposition<Handle>)
    requires
        !opening && view_is_alive && handle is Some ==> is_open.requires((handle->0,)),
    ensures
        opening || !view_is_alive || handle is None ==> r == disposition(
            opening,
            closing,
            handle,
            view_is_alive,
            false,
        ),
        !opening && view_is_alive && handle is Some ==> exists|open: bool| #[trigger]
            is_open.ensures((handle->0,), open) && r == disposition(
                opening,
                closing,
                handle,
                view_is_alive,
                open,
            ),
{
    if opening {
        return ExistingWindowDisposition::SuppressReentrantOpen;
    }
    match handle {
        None => ExistingWindowDisposition::OpenNew,
        Some(handle) => {
            if !view_is_alive {
                return ExistingWindowDisposition::ClearStale(handle);
            }
            if is_open(handle) {
                if closing {
                    ExistingWindowDisposition::SuppressReentrantOpen
                } else {
                    ExistingWindowDisposition::Activate(handle)
                }
            } else {
                ExistingWindowDisposition::ClearStale(handle)
            }
        },
    }
}

/// Where the settings window stands. `V` leads to what it shows.
#[derive(Debug, PartialEq, Eq)]
pub struct AiSettingsWindowTracker<V> {
    pub opening: bool,
    pub closing: bool,
    pub handle: Option<u64>,
    pub view: Option<V>,
}

impl<V> Default for AiSettingsWindowTracker<V> {
    fn default() -> (r: Self)
        ensures
            r == (AiSettingsWindowTracker::<V> {
                opening: false,
                closing: false,
                handle: None,
                view: None,
            }),
    {
        AiSettingsWindowTracker { opening: false, closing: false, handle: None, view: None }
    }
}

/// Makes sure that there is a tracker, and leaves one that is there as it is.
pub fn ensure_ai_settings_window_tracker<V>(tracker: &mut Option<AiSettingsWindowTracker<V>>)
    ensures
        match *old(tracker) {
            Some(_) => *final(tracker) == *old(tracker),
            None => *final(tracker) == Some(
                AiSettingsWindowTracker::<V> {
                    opening: false,
                    closing: false,
                    handle: None,
                    view: None,
                },
            ),
        },
{
    if tracker.is_none() {
        *tracker = Some(AiSettingsWindowTracker::default());
    }
}

fn among(list: &Vec<u64>, n: u64) -> (r: bool)
    ensures
        r == list@.contains(n),
{
    let mut i: usize = 0;
    while i < list.len()
        invariant
            i <= list@.len(),
            forall|k: int| 0 <= k < i ==> list@[k] != n,
        decreases list@.len() - i,
    {
        if list[i] == n {
            return true;
        }
        i = i + 1;
    }
    false
}

impl<V> AiSettingsWindowTracker<V> {
    /// What to do with the windows that are open.
    pub open spec fn decision(
        self,
        view_is_alive: bool,
        open_windows: Seq<u64>,
    ) -> ExistingWindowDisposition<u64> {
        disposition(
            self.opening,
            self.closing,
            self.handle,
            self.view is Some && view_is_alive,
            self.handle is Some && open_windows.contains(self.handle->0),
        )
    }

    /// Decides what to do, and forgets a window that is gone. `view_is_alive` says
    /// whether what the window shows, if anything is known of it, still exists.
    pub fn activate_existing(&mut self, view_is_alive: bool, open_windows: &Vec<u64>) -> (r:
        ExistingWindowDisposition<u64>)
        ensures
            r == old(self).decision(view_is_alive, open_windows@),
            r is ClearStale ==> *final(self) == (AiSettingsWindowTracker::<V> {
                closing: false,
                handle: None,
                view: None,
                ..*old(self)
            }),
            !(r is ClearStale) ==> *final(self) == *old(self),
    {
        let alive = self.view.is_some() && view_is_alive;
        let is_open = |handle: u64| -> (open: bool)
            ensures
                open == open_windows@.contains(handle),
            {
                let open = among(open_windows, handle);
                open
            };
        let r = existing_window_disposition(
            self.opening,
            self.closing,
            self.handle,
            alive,
            is_open,
        );
        if let ExistingWindowDisposition::ClearStale(_) = r {
            self.closing = false;
            self.handle = None;
            self.view = None;
        }
        r
    }

    /// Notes that a window is being opened.
    pub fn begin_opening(&mut self)
        ensures
            *final(self) == (AiSettingsWindowTracker::<V> {
                opening: true,
                closing: false,
                handle: None,
                view: None,
            }),
    {
        self.opening = true;
        self.closing = false;
        self.handle = None;
        self.view = None;
    }

    /// Notes what the window shows.
    pub fn note_view(&mut self, view: V)
        ensures
            *final(self) == (AiSettingsWindowTracker::<V> { view: Some(view), ..*old(self) }),
    {
        self.view = Some(view);
    }

    /// Notes the window that was opened, or that none was.
    pub fn finish_opening(&mut self, handle: Option<u64>)
        ensures
            handle is Some ==> *final(self) == (AiSettingsWindowTracker::<V> {
                opening: false,
                handle,
                ..*old(self)
            }),
            handle is None ==> *final(self) == (AiSettingsWindowTracker::<V> {
                opening: false,
                closing: false,
                handle: None,
                view: None,
            }),
    {
        self.opening = false;
        match handle {
            Some(handle) => {
                self.handle = Some(handle);
            },
            None => {
                self.closing = false;
                self.handle = None;
                self.view = None;
            },
        }
    }

    /// Notes that a window is about to close, if it is the one that is tracked.
    pub fn begin_closing(&mut self, window: u64)
        ensures
            *final(self) == (AiSettingsWindowTracker::<V> {
                closing: old(self).closing || old(self).handle == Some(window),
                ..*old(self)
            }),
    {
        if let Some(handle) = self.handle {
            if handle == window {
                self.closing = true;
            }
        }
    }
}

/// What a request for a window leads to.
#[derive(Clone, Copy, Debug, PartialEq, Eq, Structural)]
pub enum WindowRequest {
    /// Nothing: the application exits, or a window is on its way.
    Nothing,
    /// The window that is open comes to the front.
    Activate { window: u64 },
    /// The window that is open shows what was asked for, and comes to the front.
    Retarget { window: u64 },
    /// A window is opened.
    Open,
}

impl<V> AiSettingsWindowTracker<V> {
    /// What a request for the settings leads to.
    pub open spec fn answer(
        self,
        exiting: bool,
        view_is_alive: bool,
        open_windows: Seq<u64>,
    ) -> WindowRequest {
        if exiting {
            WindowRequest::Nothing
        } else {
            match self.decision(view_is_alive, open_windows) {
                ExistingWindowDisposition::SuppressReentrantOpen => WindowRequest::Nothing,
                ExistingWindowDisposition::Activate(window) => WindowRequest::Activate { window },
                _ => WindowRequest::Open,
            }
        }
    }

    /// Answers a request for the settings. Where a window is to be opened, that is
    /// noted.
    pub fn request(
        &mut self,
        exiting: bool,
        view_is_alive: bool,
        open_windows: &Vec<u64>,
    ) -> (r: WindowRequest)
        ensures
            r == old(self).answer(exiting, view_is_alive, open_windows@),
            r is Open ==> *final(self) == (AiSettingsWindowTracker::<V> {
                opening: true,
                closing: false,
                handle: None,
                view: None,
            }),
            !(r is Open) ==> *final(self) == *old(self),
    {
        if exiting {
            return WindowRequest::Nothing;
        }
        match self.activate_existing(view_is_alive, open_windows) {
            ExistingWindowDisposition::SuppressReentrantOpen => WindowRequest::Nothing,
            ExistingWindowDisposition::Activate(window) => WindowRequest::Activate { window },
            ExistingWindowDisposition::OpenNew => {
                self.begin_opening();
                WindowRequest::Open
            },
            ExistingWindowDisposition::ClearStale(_) => {
                self.begin_opening();
                WindowRequest::Open
            },
        }
    }
}

/// What a request to close the settings window leads to.
#[derive(Clone, Copy, Debug, PartialEq, Eq, Structural)]
pub enum CloseAnswer {
    /// The window stays: what it saves has not come to its end.
    Stay,
    /// The window goes out of sight, and is removed if that was not asked for
    /// before.
    Hide { remove: bool },
}

impl<V> AiSettingsWindowTracker<V> {
    /// Answers a request to close a settings window. `requested` says whether that
    /// was asked for before.
    pub fn close(&mut self, window: u64, saving: bool, requested: bool) -> (r: CloseAnswer)
        ensures
            saving ==> r == CloseAnswer::Stay && *final(self) == *old(self),
            !saving ==> r == (CloseAnswer::Hide { remove: !requested }) && *final(self) == (
            AiSettingsWindowTracker::<V> {
                closing: old(self).closing || old(self).handle == Some(window),
                ..*old(self)
            }),
    {
        if saving {
            return CloseAnswer::Stay;
        }
        self.begin_closing(window);
        CloseAnswer::Hide { remove: !requested }
    }
}

/// Whether the one window of background jobs is open, on its way, or free to be
/// opened.
#[derive(Clone, Copy, Debug, PartialEq, Eq, Structural)]
pub enum SingletonWindowReservation {
    Activate(u64),
    InFlight,
    Reserved,
}

/// What a request for the background jobs leads to. There is one window for the
/// whole application: a repeated request turns it to the books that were asked
/// for, where what it shows can be reached.
pub fn open_background_jobs_window(
    exiting: bool,
    reservation: SingletonWindowReservation,
    view_is_known: bool,
) -> (r: WindowRequest)
    ensures
        r == (if exiting {
            WindowRequest::Nothing
        } else {
            match reservation {
                SingletonWindowReservation::Activate(window) => if view_is_known {
                    WindowRequest::Retarget { window }
                } else {
                    WindowRequest::Activate { window }
                },
                SingletonWindowReservation::InFlight => WindowRequest::Nothing,
                SingletonWindowReservation::Reserved => WindowRequest::Open,
            }
        }),
{
    if exiting {
        return WindowRequest::Nothing;
    }
    match reservation {
        SingletonWindowReservation::Activate(window) => if view_is_known {
            WindowRequest::Retarget { window }
        } else {
            WindowRequest::Activate { window }
        },
        SingletonWindowReservation::InFlight => WindowRequest::Nothing,
        SingletonWindowReservation::Reserved => WindowRequest::Open,
    }
}

/// A request that comes while the window it led to is being opened leads to
/// nothing.
pub proof fn a_request_is_answered_once<V>(
    tracker: AiSettingsWindowTracker<V>,
    view_is_alive: bool,
    open_windows: Seq<u64>,
)
    requires
        tracker.opening,
    ensures
        tracker.answer(false, view_is_alive, open_windows) is Nothing,
{
}

/// While a window is open, or on its way to be, no second one is opened.
pub proof fn no_second_window_is_opened<V>(
    tracker: AiSettingsWindowTracker<V>,
    view_is_alive: bool,
    open_windows: Seq<u64>,
)
    requires
        tracker.opening || (tracker.handle is Some && open_windows.contains(tracker.handle->0)
            && tracker.view is Some && view_is_alive),
    ensures
        !(tracker.decision(view_is_alive, open_windows) is OpenNew),
        !(tracker.decision(view_is_alive, open_windows) is ClearStale),
        tracker.decision(view_is_alive, open_windows) is Activate ==> tracker.decision(
            view_is_alive,
            open_windows,
        )->Activate_0 == tracker.handle->0 && !tracker.closing,
{
}

/// A window that has closed does not keep the next one from opening.
pub proof fn a_closed_window_makes_room<V>(
    tracker: AiSettingsWindowTracker<V>,
    view_is_alive: bool,
    open_windows: Seq<u64>,
)
    requires
        !tracker.opening,
        tracker.handle is Some ==> !open_windows.contains(tracker.handle->0) || !view_is_alive
            || tracker.view is None,
    ensures
        tracker.decision(view_is_alive, open_windows) is OpenNew || tracker.decision(
            view_is_alive,
            open_windows,
        ) is ClearStale,
{
}

/// A request brings the window to the front exactly where it is open, its view lives and
/// it is not closing; it leads to nothing while the application exits, the window is on
/// its way to be opened, or an open one is closing; otherwise a window is opened.
pub proof fn a_request_leads_to_one_window<V>(
    tracker: AiSettingsWindowTracker<V>,
    exiting: bool,
    view_is_alive: bool,
    open_windows: Seq<u64>,
    window: u64,
)
    ensures
        ({
            let answer = tracker.answer(exiting, view_is_alive, open_windows);
            let shown = tracker.handle is Some && open_windows.contains(tracker.handle->0)
                && tracker.view is Some && view_is_alive;
            &&& answer == (WindowRequest::Activate { window }) <==> !exiting && !tracker.opening
                && shown && !tracker.closing && tracker.handle == Some(window)
            &&& answer == WindowRequest::Nothing <==> exiting || tracker.opening || (shown
                && tracker.closing)
            &&& answer == WindowRequest::Open <==> !exiting && !tracker.opening && !shown
            &&& tracker.decision(view_is_alive, open_windows)
                == ExistingWindowDisposition::<u64>::OpenNew <==> !tracker.opening
                && tracker.handle is None
            &&& tracker.decision(view_is_alive, open_windows)
                == ExistingWindowDisposition::ClearStale(window) <==> !tracker.opening
                && tracker.handle == Some(window) && !shown
        }),
{
}

} // verus!
