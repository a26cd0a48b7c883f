//! Who is enrolled, and when a front-end refuses to start.
use crate::text::{same_text, text_of};
use vstd::prelude::*;

verus! {

/// The two front-ends.
#[derive(Debug, Clone, Copy, PartialEq, Eq, Structural)]
pub enum FrontEnd {
    /// `visage-enroll`, in a terminal.
    Terminal,
    /// `visage-enroll-gui`, in a window.
    Window,
}

/// The invoking user: `SUDO_USER` unless it is unset, empty or root, and `USER`
/// otherwise. An empty name is no name.
pub open spec fn invoking_user(
    sudo_user: Option<Seq<char>>,
    user: Option<Seq<char>>,
) -> Option<Seq<char>> {
    if sudo_user matches Some(name) && name.len() > 0 && name != "root"@ {
        sudo_user
    } else if user matches Some(name) && name.len() > 0 {
        user
    } else {
        None
    }
}

/// The invoking user, preferring `SUDO_USER`.
///
/// Under the `sudo` that enrolling requires, `USER` is root, so defaulting to it
/// would enroll the operator's face against the root account.
pub fn current_user(sudo_user: Option<String>, user: Option<String>) -> (name: Option<String>)
    ensures
        text_of(name) == invoking_user(text_of(sudo_user), text_of(user)),
{
    if let Some(name) = sudo_user {
        if name.as_str().unicode_len() > 0 && !same_text(name.as_str(), "root") {
            return Some(name);
        }
    }
    match user {
        Some(name) => if name.as_str().unicode_len() > 0 {
            Some(name)
        } else {
            None
        },
        None => None,
    }
}

/// What is known when a front-end starts.
#[derive(Debug)]
pub struct Invocation {
    /// The user named on the command line.
    pub named: Option<String>,
    /// The environment's `SUDO_USER`.
    pub sudo_user: Option<String>,
    /// The environment's `USER`.
    pub user: Option<String>,
    /// How many capture labels were given.
    pub labels: usize,
    /// Whether the environment names a Wayland or an X display.
    pub has_display: bool,
}

/// Why a front-end refuses to start.
#[derive(Debug, Clone, Copy, PartialEq, Eq, Structural)]
pub enum Refusal {
    /// Root would be enrolled.
    Root,
    /// Nobody knows who would be enrolled.
    UnknownUser,
    /// There is nothing to enroll.
    NoLabels,
    /// There is no display to open a window on.
    NoDisplay,
}

/// Who is asked for: the named user, or else the invoking one.
pub open spec fn requested_user(invocation: Invocation) -> Option<Seq<char>> {
    match invocation.named {
        Some(name) => Some(name@),
        None => invoking_user(text_of(invocation.sudo_user), text_of(invocation.user)),
    }
}

/// Who a front-end enrolls, or why it refuses to start. Only the terminal minds
/// missing labels, and only the window needs a display.
pub open spec fn resolution(front_end: FrontEnd, invocation: Invocation) -> Result<
    Seq<char>,
    Refusal,
> {
    match requested_user(invocation) {
        None => Err(Refusal::UnknownUser),
        Some(name) => if name == "root"@ {
            Err(Refusal::Root)
        } else if front_end is Terminal && invocation.labels == 0 {
            Err(Refusal::NoLabels)
        } else if front_end is Window && !invocation.has_display {
            Err(Refusal::NoDisplay)
        } else {
            Ok(name)
        },
    }
}

/// Decides who a front-end enrolls, or that it does not start.
pub fn resolve(front_end: FrontEnd, invocation: Invocation) -> (resolved: Result<
    String,
    Refusal,
>)
    ensures
        match resolved {
            Ok(name) => resolution(front_end, invocation) == Ok::<Seq<char>, Refusal>(name@),
            Err(refusal) => resolution(front_end, invocation) == Err::<Seq<char>, Refusal>(refusal),
        },
{
    let requested: Option<String> = match invocation.named {
        Some(name) => Some(name),
        None => current_user(invocation.sudo_user, invocation.user),
    };
    match requested {
        None => Err(Refusal::UnknownUser),
        Some(name) => if same_text(name.as_str(), "root") {
            Err(Refusal::Root)
        } else {
            match front_end {
                FrontEnd::Terminal => if invocation.labels == 0 {
                    Err(Refusal::NoLabels)
                } else {
                    Ok(name)
                },
                FrontEnd::Window => if !invocation.has_display {
                    Err(Refusal::NoDisplay)
                } else {
                    Ok(name)
                },
            }
        },
    }
}

/// What a front-end says when it refuses to start.
pub open spec fn refusal_text(front_end: FrontEnd, refusal: Refusal) -> Seq<char> {
    match refusal {
        Refusal::Root => match front_end {
            FrontEnd::Terminal =>
                "refusing to enrol root. Run this with sudo as your own user, or pass --user."@,
            FrontEnd::Window =>
                "refusing to enrol root. Run as your own user via sudo, or pass --user."@,
        },
        Refusal::UnknownUser => "cannot determine which user to enrol; pass --user"@,
        Refusal::NoLabels => "no labels given — nothing to enrol"@,
        Refusal::NoDisplay =>
            "no WAYLAND_DISPLAY or DISPLAY.\n\nThis is the GUI's core problem, not a misconfiguration on your part: Enroll is root-only, sudo strips the display environment, and a graphical client therefore cannot reach your session. Use `visage-enroll` (the TUI), which has no such difficulty, or see this crate's module docs for the polkit/helper options that would fix it properly."@,
    }
}

/// What a front-end says when it refuses to start.
pub fn refusal_message(front_end: FrontEnd, refusal: Refusal) -> (text: &'static str)
    ensures
        text@ == refusal_text(front_end, refusal),
{
    match refusal {
        Refusal::Root => match front_end {
            FrontEnd::Terminal =>
                "refusing to enrol root. Run this with sudo as your own user, or pass --user.",
            FrontEnd::Window =>
                "refusing to enrol root. Run as your own user via sudo, or pass --user.",
        },
        Refusal::UnknownUser => "cannot determine which user to enrol; pass --user",
        Refusal::NoLabels => "no labels given — nothing to enrol",
        Refusal::NoDisplay =>
            "no WAYLAND_DISPLAY or DISPLAY.\n\nThis is the GUI's core problem, not a misconfiguration on your part: Enroll is root-only, sudo strips the display environment, and a graphical client therefore cannot reach your session. Use `visage-enroll` (the TUI), which has no such difficulty, or see this crate's module docs for the polkit/helper options that would fix it properly.",
    }
}

/// Whether the session bus is asked for: by a value that is neither empty nor
/// `0`. Everything else keeps to the system bus.
pub open spec fn asks_for_session_bus(value: Option<Seq<char>>) -> bool {
    value matches Some(text) && text.len() > 0 && text != "0"@
}

/// Whether this value of `VISAGE_SESSION_BUS` asks for the session bus, which is
/// for development only.
pub fn session_bus(value: Option<String>) -> (session: bool)
    ensures
        session == asks_for_session_bus(text_of(value)),
{
    match value {
        Some(text) => text.as_str().unicode_len() > 0 && !same_text(text.as_str(), "0"),
        None => false,
    }
}

/// Root is never enrolled, whoever invokes a front-end and however.
pub proof fn root_is_never_enrolled(front_end: FrontEnd, invocation: Invocation)
    ensures
        resolution(front_end, invocation) != Ok::<Seq<char>, Refusal>("root"@),
        requested_user(invocation) == Some("root"@) ==> resolution(front_end, invocation) == Err::<
            Seq<char>,
            Refusal,
        >(Refusal::Root),
{
}

/// Under `sudo`, the user who invoked it is enrolled, whatever `USER` says.
pub proof fn sudo_users_are_preferred(
    front_end: FrontEnd,
    invocation: Invocation,
    sudo_user: Seq<char>,
)
    requires
        invocation.named is None,
        text_of(invocation.sudo_user) == Some(sudo_user),
        sudo_user.len() > 0,
        sudo_user != "root"@,
        invocation.labels > 0,
        invocation.has_display,
    ensures
        resolution(front_end, invocation) == Ok::<Seq<char>, Refusal>(sudo_user),
{
}

/// The invoking user is `SUDO_USER` exactly if that names somebody but root; else it is
/// `USER`, root included, exactly if that names somebody; else there is none.
pub proof fn invoking_users_are_found(sudo_user: Seq<char>, user: Seq<char>)
    ensures
        sudo_user.len() > 0 && sudo_user != "root"@ ==> {
            &&& invoking_user(Some(sudo_user), Some(user)) == Some(sudo_user)
            &&& invoking_user(Some(sudo_user), None) == Some(sudo_user)
        },
        sudo_user.len() == 0 || sudo_user == "root"@ ==> {
            &&& invoking_user(Some(sudo_user), Some(user)) == invoking_user(None, Some(user))
            &&& invoking_user(Some(sudo_user), None) is None
        },
        user.len() > 0 ==> invoking_user(None, Some(user)) == Some(user),
        user.len() == 0 ==> invoking_user(None, Some(user)) is None,
        invoking_user(None, None) is None,
{
}

/// Nobody but the user who was named, or else the invoking one, is ever enrolled.
pub proof fn only_the_requested_user_is_enrolled(front_end: FrontEnd, invocation: Invocation)
    ensures
        resolution(front_end, invocation) matches Ok(name) ==> {
            &&& invocation.named matches Some(named) ==> name == named@
            &&& invocation.named is None ==> invoking_user(
                text_of(invocation.sudo_user),
                text_of(invocation.user),
            ) == Some(name)
        },
        resolution(front_end, invocation) == Err::<Seq<char>, Refusal>(Refusal::UnknownUser)
            <==> invocation.named is None && invoking_user(
            text_of(invocation.sudo_user),
            text_of(invocation.user),
        ) is None,
        invocation.named matches Some(named) ==> (resolution(front_end, invocation) == Err::<
            Seq<char>,
            Refusal,
        >(Refusal::Root) <==> named@ == "root"@),
{
}

/// A front-end starts for every user but root who is known, given what it needs: labels
/// in the terminal, a display for the window. Neither minds what the other needs.
pub proof fn front_ends_mind_their_own_needs(invocation: Invocation, name: Seq<char>)
    requires
        requested_user(invocation) == Some(name),
        name != "root"@,
    ensures
        invocation.labels > 0 ==> resolution(FrontEnd::Terminal, invocation) == Ok::<
            Seq<char>,
            Refusal,
        >(name),
        invocation.labels == 0 ==> resolution(FrontEnd::Terminal, invocation) == Err::<
            Seq<char>,
            Refusal,
        >(Refusal::NoLabels),
        invocation.has_display ==> resolution(FrontEnd::Window, invocation) == Ok::<
            Seq<char>,
            Refusal,
        >(name),
        !invocation.has_display ==> resolution(FrontEnd::Window, invocation) == Err::<
            Seq<char>,
            Refusal,
        >(Refusal::NoDisplay),
{
}

/// The session bus has to be asked for: by any value but an empty one and `0`.
pub proof fn the_system_bus_is_the_default(value: Seq<char>)
    ensures
        !asks_for_session_bus(None),
        !asks_for_session_bus(Some("0"@)),
        value.len() == 0 ==> !asks_for_session_bus(Some(value)),
        value.len() > 0 && value != "0"@ ==> asks_for_session_bus(Some(value)),
{
}

} // verus!
