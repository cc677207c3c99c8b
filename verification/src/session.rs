//! Decisions of the daemon around the compositor: where the state file lives, how
//! messages of the output-management protocol end a wait, and what idle, resume and
//! hot-plug events lead to.

use vstd::prelude::*;

verus! {

/// Idle time after which the compositor reports the session as idle: five minutes.
pub const IDLE_TIMEOUT_MS: u32 = 5 * 60 * 1000;

/// `base` with `part` (a relative path component) appended, as `PathBuf::join` does on
/// Unix: a `/` goes between them unless `base` is empty or already ends with one.
pub open spec fn path_join(base: Seq<char>, part: Seq<char>) -> Seq<char> {
    if base.len() == 0 {
        part
    } else if base.last() == '/' {
        base + part
    } else {
        base + seq!['/'] + part
    }
}

/// Where the state file lives under the home directory `home`.
pub open spec fn state_file_path(home: Seq<char>) -> Seq<char> {
    path_join(path_join(path_join(home, ".config"@), "cosmic-monitor-positiond"@), "state.toml"@)
}

fn push_component(path: &mut String, part: &str)
    ensures
        final(path)@ == path_join(old(path)@, part@),
{
    proof {
        reveal_strlit("/");
    }
    let len = path.as_str().unicode_len();
    if len == 0 {
        path.append(part);
    } else if path.as_str().get_char(len - 1) == '/' {
        path.append(part);
    } else {
        path.append("/");
        path.append(part);
    }
}

/// The path of the state file for the home directory `home`.
pub fn config_path_for_home(home: &str) -> (path: String)
    ensures
        path@ == state_file_path(home@),
        home@.len() > 0 && home@.last() != '/' ==> path@ == home@ + "/.config/cosmic-monitor-positiond/state.toml"@,
        home@.len() > 0 && home@.last() == '/' ==> path@ == home@ + ".config/cosmic-monitor-positiond/state.toml"@,
        home@.len() == 0 ==> path@ == ".config/cosmic-monitor-positiond/state.toml"@,
{
    let mut path = String::from_str(home);
    push_component(&mut path, ".config");
    push_component(&mut path, "cosmic-monitor-positiond");
    push_component(&mut path, "state.toml");
    proof {
        reveal_strlit(".config");
        reveal_strlit("cosmic-monitor-positiond");
        reveal_strlit("state.toml");
        reveal_strlit("/.config/cosmic-monitor-positiond/state.toml");
        reveal_strlit(".config/cosmic-monitor-positiond/state.toml");
        let tail = ".config"@ + seq!['/'] + "cosmic-monitor-positiond"@ + seq!['/'] + "state.toml"@;
        let a = path_join(home@, ".config"@);
        let b = path_join(a, "cosmic-monitor-positiond"@);
        assert(a.len() > 0 && a.last() == 'g') by {
            assert(".config"@.last() == 'g');
            if home@.len() > 0 && home@.last() != '/' {
                assert((home@ + seq!['/'] + ".config"@).last() == 'g');
            }
        }
        assert(b.len() > 0 && b.last() == 'd') by {
            assert((a + seq!['/'] + "cosmic-monitor-positiond"@).last() == 'd');
        }
        if home@.len() == 0 {
            assert(path@ =~= tail);
            assert(tail =~= ".config/cosmic-monitor-positiond/state.toml"@);
        } else if home@.last() == '/' {
            assert(path@ =~= home@ + tail);
            assert(tail =~= ".config/cosmic-monitor-positiond/state.toml"@);
        } else {
            assert(path@ =~= home@ + seq!['/'] + tail);
            assert(seq!['/'] + tail =~= "/.config/cosmic-monitor-positiond/state.toml"@);
            assert(home@ + seq!['/'] + tail =~= home@ + (seq!['/'] + tail));
        }
    }
    path
}

/// A message of the output-management protocol, as far as this daemon tells them apart.
#[derive(Clone, Copy, Debug, PartialEq, Eq, Structural)]
pub enum RandrMessage {
    /// The compositor has sent its full list of outputs.
    ManagerDone,
    ConfigurationSucceeded,
    ConfigurationFailed,
    ConfigurationCancelled,
    /// Any other message.
    Other,
}

/// Whether the message ends the wait for the list of outputs.
pub fn is_manager_done(msg: RandrMessage) -> (done: bool)
    ensures
        done == (msg == RandrMessage::ManagerDone),
{
    match msg {
        RandrMessage::ManagerDone => true,
        _ => false,
    }
}

/// How a message ends the wait for the answer to a configuration request: `None` when
/// the wait goes on, else the result of the request.
pub fn configuration_outcome(msg: RandrMessage) -> (r: Option<Result<(), String>>)
    ensures
        r is None <==> (msg != RandrMessage::ConfigurationSucceeded
            && msg != RandrMessage::ConfigurationFailed
            && msg != RandrMessage::ConfigurationCancelled),
        r == Some(Ok::<(), String>(())) <==> msg == RandrMessage::ConfigurationSucceeded,
        msg == RandrMessage::ConfigurationCancelled ==> (r matches Some(Err(e)) && e@ == "configuration cancelled"@),
        msg == RandrMessage::ConfigurationFailed ==> (r matches Some(Err(e)) && e@ == "configuration failed"@),
{
    match msg {
        RandrMessage::ConfigurationCancelled => Some(Err(String::from_str("configuration cancelled"))),
        RandrMessage::ConfigurationFailed => Some(Err(String::from_str("configuration failed"))),
        RandrMessage::ConfigurationSucceeded => Some(Ok(())),
        _ => None,
    }
}

/// What the session reports.
#[derive(Clone, Copy, Debug, PartialEq, Eq, Structural)]
pub enum SessionEvent {
    /// No input for `IDLE_TIMEOUT_MS`.
    Idled,
    /// Input again after being idle.
    Resumed,
    /// A display was connected or disconnected.
    Hotplug,
}

/// What the daemon does about a session event.
#[derive(Clone, Copy, Debug, PartialEq, Eq, Structural)]
pub enum SessionResponse {
    Nothing,
    /// Ask the repositioning task to restore the layout.
    RequestReposition,
}

/// Idle is ignored; resume and hot-plug ask for the layout to be restored.
pub fn session_response(event: SessionEvent) -> (r: SessionResponse)
    ensures
        r == (if event == SessionEvent::Idled { SessionResponse::Nothing } else { SessionResponse::RequestReposition }),
{
    match event {
        SessionEvent::Idled => SessionResponse::Nothing,
        SessionEvent::Resumed => SessionResponse::RequestReposition,
        SessionEvent::Hotplug => SessionResponse::RequestReposition,
    }
}

} // verus!
