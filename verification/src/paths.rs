//! Where the coordinator listens.

use vstd::prelude::*;

use crate::text;

verus! {

/// A path that may begin at the user's home.
#[derive(Debug, PartialEq, Eq)]
#[verifier::ext_equal]
pub enum HomePath<S = String> {
    Home,
    UnderHome(S),
    Plain(S),
}

impl DeepView for HomePath {
    type V = HomePath<Seq<char>>;

    open spec fn deep_view(&self) -> HomePath<Seq<char>> {
        match *self {
            HomePath::Home => HomePath::Home,
            HomePath::UnderHome(s) => HomePath::UnderHome(s@),
            HomePath::Plain(s) => HomePath::Plain(s@),
        }
    }
}

/// What a path with a `~` at its start stands for.
pub open spec fn expanded(path: Seq<char>) -> HomePath<Seq<char>> {
    if path == "~"@ {
        HomePath::Home
    } else {
        match text::after_prefix(path, "~/"@) {
            Some(rest) => HomePath::UnderHome(rest),
            None => HomePath::Plain(path),
        }
    }
}

/// What a path with a `~` at its start stands for.
pub fn expand_home(path: &str) -> (r: HomePath)
    ensures
        r.deep_view() == expanded(path@),
{
    if text::same(path, "~") {
        return HomePath::Home;
    }
    match text::strip_prefix(path, "~/") {
        Some(rest) => HomePath::UnderHome(rest.to_owned()),
        None => HomePath::Plain(path.to_owned()),
    }
}

/// The directory of the coordinator: what `WEAVE_HOME` says, which may not be
/// blank, or else `.weave` in the user's home.
pub fn resolve_weave_home(weave_home: Option<&str>) -> (r: Result<HomePath, String>)
    ensures
        match weave_home {
            Some(value) => if text::is_blank(value@) {
                r matches Err(e) && e@ == "WEAVE_HOME is set but empty"@
            } else {
                r matches Ok(path) && path.deep_view() == expanded(text::trimmed(value@))
            },
            None => r matches Ok(path) && path.deep_view() == (HomePath::UnderHome(".weave"@)),
        },
{
    match weave_home {
        Some(value) => {
            let trimmed = text::trim(value);
            if trimmed.is_empty() {
                return Err("WEAVE_HOME is set but empty".to_owned());
            }
            Ok(expand_home(trimmed))
        },
        None => Ok(HomePath::UnderHome(".weave".to_owned())),
    }
}

/// The user's home: the first of two variables that is set.
pub fn resolve_home_dir<P>(home: Option<P>, user_profile: Option<P>) -> (r: Result<P, String>)
    ensures
        match (home, user_profile) {
            (Some(path), _) => r == Ok::<P, String>(path),
            (None, Some(path)) => r == Ok::<P, String>(path),
            (None, None) => r matches Err(e) && e@ == "Failed to resolve home directory"@,
        },
{
    match home {
        Some(path) => Ok(path),
        None => match user_profile {
            Some(path) => Ok(path),
            None => Err("Failed to resolve home directory".to_owned()),
        },
    }
}

/// The steps from the coordinator's directory to its socket.
pub fn coord_socket_path() -> (r: Vec<String>)
    ensures
        text::views(r@) == seq!["coord.sock"@],
{
    let mut r: Vec<String> = Vec::new();
    r.push("coord.sock".to_owned());
    proof {
        assert(text::views(r@) =~= seq!["coord.sock"@]);
    }
    r
}

/// The steps from the coordinator's directory to the socket of a session.
pub fn session_socket_path(session_id: &str) -> (r: Vec<String>)
    ensures
        text::views(r@) == seq!["sessions"@, session_id@, "coord.sock"@],
{
    let mut r: Vec<String> = Vec::new();
    r.push("sessions".to_owned());
    r.push(session_id.to_owned());
    r.push("coord.sock".to_owned());
    proof {
        assert(text::views(r@) =~= seq!["sessions"@, session_id@, "coord.sock"@]);
    }
    r
}

/// The socket to speak to about a session: its own where that exists, else the
/// coordinator's.
pub fn socket_for_session(session_id: &str, session_socket_exists: bool) -> (r: Vec<String>)
    ensures
        text::views(r@) == (if session_socket_exists {
            seq!["sessions"@, session_id@, "coord.sock"@]
        } else {
            seq!["coord.sock"@]
        }),
{
    if session_socket_exists {
        session_socket_path(session_id)
    } else {
        coord_socket_path()
    }
}

/// What the user is told where there is no socket.
pub fn missing_socket_message(path: &str) -> (r: String)
    ensures
        r@ == "Weave coordinator socket not found at "@ + path@
            + ". Start it with `weave-service start`."@,
{
    text::concat3(
        "Weave coordinator socket not found at ",
        path,
        ". Start it with `weave-service start`.",
    )
}

/// What begins with a tilde stands under the home directory; every other path stands as
/// it is.
pub proof fn law_a_tilde_is_the_home_directory(path: Seq<char>)
    ensures
        expanded(seq!['~']) == HomePath::<Seq<char>>::Home,
        expanded(seq!['~', '/'] + path) == HomePath::UnderHome(path),
        path.len() == 0 || path[0] != '~' ==> expanded(path) == HomePath::Plain(path),
        path.len() > 1 && path[1] != '/' ==> expanded(path) == HomePath::Plain(path),
{
    reveal_strlit("~");
    reveal_strlit("~/");
    let long = seq!['~', '/'] + path;
    assert("~"@ =~= seq!['~']);
    assert("~/"@ =~= seq!['~', '/']);
    assert(long.subrange(0, 2) =~= "~/"@);
    assert(long.skip(2) =~= path);
    assert(long[1] == '/');
    if "~/"@.is_prefix_of(path) {
        assert(path.subrange(0, 2)[0] == path[0]);
        assert(path.subrange(0, 2)[1] == path[1]);
        assert("~/"@[0] == '~' && "~/"@[1] == '/');
    }
}

} // verus!
