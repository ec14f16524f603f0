use vstd::prelude::*;
use crate::status::SongStatus;

verus! {

/// A toast shown on the dashboard.
#[derive(Debug)]
pub struct ToastData {
    pub id: usize,
    pub level: u8,
    pub message: String,
}

/// How the dashboard shows a toast of a given level.
#[derive(Clone, Copy, Debug, PartialEq, Eq, Structural)]
pub enum ToastKind {
    Info,
    Success,
    Error,
}

/// How a toast of this level is shown: level 2 as a success, level 3 as an
/// error, any other level as information.
pub fn toast_kind(level: u8) -> (r: ToastKind)
    ensures
        r == if level == 2 {
            ToastKind::Success
        } else if level == 3 {
            ToastKind::Error
        } else {
            ToastKind::Info
        },
{
    match level {
        2 => ToastKind::Success,
        3 => ToastKind::Error,
        _ => ToastKind::Info,
    }
}

/// The counter that a tracker notes after looking at the engine's toast
/// counter: the first one, and later only a grown one.
pub open spec fn tracker_after(last: Option<usize>, counter: usize) -> Option<usize> {
    match last {
        None => Some(counter),
        Some(p) => if counter > p {
            Some(counter)
        } else {
            last
        },
    }
}

/// Whether a look at the engine shows its latest toast: the counter grew
/// since the last look and the toast has a level above 0.
pub open spec fn shows_toast(
    last: Option<usize>,
    counter: usize,
    latest: Option<(u8, String)>,
) -> bool {
    &&& last matches Some(p)
    &&& counter > p
    &&& latest matches Some(lm)
    &&& lm.0 > 0
}

/// Follows the engine's toast counter, to show each toast once.
#[derive(Debug)]
pub struct ToastTracker {
    /// The counter as last seen; none before the first look.
    pub last_id: Option<usize>,
}

impl ToastTracker {
    /// A tracker that has not looked at the engine yet.
    pub fn new() -> (r: Self)
        ensures
            r.last_id is None,
    {
        ToastTracker { last_id: None }
    }

    /// Looks at the engine's toast counter and latest toast. The first look
    /// only notes the counter; a later look that finds the counter grown
    /// notes it and shows the latest toast, if its level is above 0.
    pub fn observe(&mut self, counter: usize, latest: &Option<(u8, String)>) -> (r: Option<
        ToastData,
    >)
        ensures
            final(self).last_id == tracker_after(old(self).last_id, counter),
            r is Some <==> shows_toast(old(self).last_id, counter, *latest),
            r matches Some(t) ==> t.id == counter && (latest matches Some(lm) && t.level == lm.0
                && t.message == lm.1),
    {
        match self.last_id {
            None => {
                self.last_id = Some(counter);
                None
            },
            Some(current) => {
                if counter > current {
                    self.last_id = Some(counter);
                    match latest {
                        Some((level, msg)) => {
                            if *level > 0 {
                                Some(ToastData { id: counter, level: *level, message: msg.clone() })
                            } else {
                                None
                            }
                        },
                        None => None,
                    }
                } else {
                    None
                }
            },
        }
    }
}

/// The toasts without those of id `id`, in order.
pub open spec fn without_toast(toasts: Seq<ToastData>, id: usize) -> Seq<ToastData>
    decreases toasts.len(),
{
    if toasts.len() == 0 {
        Seq::empty()
    } else if toasts.last().id == id {
        without_toast(toasts.drop_last(), id)
    } else {
        without_toast(toasts.drop_last(), id).push(toasts.last())
    }
}

/// Takes the toasts of id `id` off the list, keeping the others in order.
pub fn remove_toast(toasts: &Vec<ToastData>, id: usize) -> (r: Vec<ToastData>)
    ensures
        r@ == without_toast(toasts@, id),
{
    let mut r: Vec<ToastData> = Vec::new();
    let n = toasts.len();
    for i in 0..n
        invariant
            n == toasts@.len(),
            r@ == without_toast(toasts@.take(i as int), id),
    {
        proof {
            assert(toasts@.take(i + 1).drop_last() =~= toasts@.take(i as int));
        }
        let t = &toasts[i];
        if t.id != id {
            r.push(ToastData { id: t.id, level: t.level, message: t.message.clone() });
        }
    }
    assert(toasts@.take(n as int) =~= toasts@);
    r
}

/// Which dialog the library view opens for a song.
#[derive(Clone, Copy, Debug, PartialEq, Eq, Structural)]
pub enum SongDialog {
    /// The song is locked: offer to unlock it.
    Unlock,
    /// The song has no synced lyrics: offer to lock it.
    LockOnly,
    /// The song has synced lyrics: offer to shift them or to lock it.
    ShiftOrLock,
}

/// Which dialog the library view opens for a song in this status.
pub fn song_dialog(status: SongStatus) -> (r: SongDialog)
    ensures
        r == if status == SongStatus::Locked {
            SongDialog::Unlock
        } else if status != SongStatus::Synced {
            SongDialog::LockOnly
        } else {
            SongDialog::ShiftOrLock
        },
{
    if status == SongStatus::Locked {
        SongDialog::Unlock
    } else if status != SongStatus::Synced {
        SongDialog::LockOnly
    } else {
        SongDialog::ShiftOrLock
    }
}

/// Whether a scrolled view is at its bottom: within 10 pixels of it.
pub fn at_bottom(scroll_height: i32, scroll_top: i32, client_height: i32) -> (r: bool)
    requires
        i32::MIN < scroll_height - scroll_top - client_height <= i32::MAX,
        i32::MIN <= scroll_height - scroll_top <= i32::MAX,
    ensures
        r == (-10 < scroll_height - scroll_top - client_height < 10),
{
    let d = scroll_height - scroll_top - client_height;
    let a = if d < 0 {
        -d
    } else {
        d
    };
    a < 10
}

/// The interval that the dashboard sends for what the user typed: clamped to
/// 0..=100 minutes.
pub fn interval_input(v: i32) -> (r: i32)
    ensures
        r == if v < 0 {
            0
        } else if v > 100 {
            100
        } else {
            v
        },
{
    if v < 0 {
        0
    } else if v > 100 {
        100
    } else {
        v
    }
}

} // verus!
