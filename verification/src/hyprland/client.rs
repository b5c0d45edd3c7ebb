//! Where the compositor is reached, and the commands that it is given.

use vstd::prelude::*;
use vstd::string::*;

use crate::hyprland::icons::AppIconResolver;
use crate::paths::{components, join_path, joined, law_joined, law_step_leads_further};
use crate::text::{concat, decimal_int, decimal_int_text, owned};

verus! {

/// The sockets of the compositor.
#[derive(Debug)]
pub struct SocketPaths {
    pub command: String,
    pub events: String,
}

/// The directory of the compositor's sockets.
pub open spec fn socket_directory(runtime: Seq<char>, signature: Seq<char>) -> Seq<char> {
    joined(joined(runtime, "hypr"@), signature)
}

/// Why the compositor's sockets are not known.
#[derive(Clone, Copy, Debug, PartialEq, Eq, Structural)]
pub enum SocketError {
    NoRuntimeDirectory,
    NoSignature,
}

impl SocketPaths {
    /// The sockets of the compositor, from what the environment says.
    pub fn from_environment(runtime: Option<String>, signature: Option<String>) -> (r: Result<
        Self,
        SocketError,
    >)
        ensures
            match (runtime, signature) {
                (None, _) => r is Err && r->Err_0 == SocketError::NoRuntimeDirectory,
                (Some(_), None) => r is Err && r->Err_0 == SocketError::NoSignature,
                (Some(run), Some(sig)) => r matches Ok(paths) && paths.command@ == joined(
                    socket_directory(run@, sig@),
                    ".socket.sock"@,
                ) && paths.events@ == joined(socket_directory(run@, sig@), ".socket2.sock"@),
            },
    {
        let runtime = match runtime {
            Some(runtime) => runtime,
            None => {
                return Err(SocketError::NoRuntimeDirectory);
            },
        };
        let signature = match signature {
            Some(signature) => signature,
            None => {
                return Err(SocketError::NoSignature);
            },
        };
        let base = join_path(join_path(runtime.as_str(), "hypr").as_str(), signature.as_str());
        Ok(
            SocketPaths {
                command: join_path(base.as_str(), ".socket.sock"),
                events: join_path(base.as_str(), ".socket2.sock"),
            },
        )
    }
}

/// A client of the compositor.
pub struct HyprlandClient {
    pub paths: SocketPaths,
    pub icon_resolver: AppIconResolver,
}

impl HyprlandClient {
    /// A client that reaches the compositor by some sockets.
    pub fn new(paths: SocketPaths) -> (r: Self)
        ensures
            r.paths == paths,
            r.icon_resolver.icons().len() == 0,
            r.icon_resolver.names().len() == 0,
            r.icon_resolver.remembered().len() == 0,
    {
        HyprlandClient { paths, icon_resolver: AppIconResolver::new() }
    }
}

/// The command that switches to a workspace.
pub fn focus_workspace_command(id: i32) -> (r: String)
    ensures
        r@ == "hl.dsp.focus({ workspace = "@ + decimal_int(id as int) + " })"@,
{
    let mut out = owned("hl.dsp.focus({ workspace = ");
    out.append(decimal_int_text(id as i64).as_str());
    out.append(" })");
    out
}

/// A text as it is rendered for debugging: in quotes, and escaped.
pub uninterp spec fn debug_text(s: Seq<char>) -> Seq<char>;

/// Whether a text is made of printable ASCII characters that need no escape.
pub open spec fn plain_ascii(s: Seq<char>) -> bool {
    forall|i: int|
        0 <= i < s.len() ==> ' ' <= #[trigger] s[i] <= '~' && s[i] != '"' && s[i] != '\\'
}

/// The `Debug` rendering of `str`, which the name stands for: the text in
/// quotes, with what needs it escaped; printable ASCII characters other than
/// the quote and the backslash need no escape.
#[verifier::external_body]
fn debug_quoted(s: &str) -> (r: String)
    ensures
        r@ == debug_text(s@),
        plain_ascii(s@) ==> r@ == seq!['"'] + s@ + seq!['"'],
{
    format!("{:?}", s)
}

/// How a window is selected: by its address.
pub open spec fn selector(address: Seq<char>) -> Seq<char> {
    debug_text("address:"@ + address)
}

/// A command around the selector of a window.
fn window_command(head: &str, address: &str, tail: &str) -> (r: String)
    ensures
        r@ == head@ + selector(address@) + tail@,
{
    let quoted = debug_quoted(concat("address:", address).as_str());
    let mut out = owned(head);
    out.append(quoted.as_str());
    out.append(tail);
    out
}

/// The command that closes a window.
pub fn close_window_command(address: &str) -> (r: String)
    ensures
        r@ == "hl.dsp.window.close({ window = "@ + selector(address@) + " })"@,
{
    window_command("hl.dsp.window.close({ window = ", address, " })")
}

/// The commands that float, resize and centre a window.
pub fn float_window_commands(address: &str) -> (r: (String, String, String))
    ensures
        r.0@ == "hl.dsp.window.float({ action = \"set\", window = "@ + selector(address@) + " })"@,
        r.1@ == "hl.dsp.window.resize({ x = 900, y = 650, window = "@ + selector(address@)
            + " })"@,
        r.2@ == "hl.dsp.window.center({ window = "@ + selector(address@) + " })"@,
{
    (
        window_command("hl.dsp.window.float({ action = \"set\", window = ", address, " })"),
        window_command("hl.dsp.window.resize({ x = 900, y = 650, window = ", address, " })"),
        window_command("hl.dsp.window.center({ window = ", address, " })"),
    )
}

/// The sockets of a compositor are in the directory of its signature below that of all
/// compositors, in the directory for what runs.
pub proof fn law_where_sockets_are(runtime: Seq<char>, signature: Seq<char>)
    requires
        runtime.len() > 0,
        runtime.last() != '/',
        signature.len() > 0,
        !signature.contains('/'),
        signature != "."@,
    ensures
        components(socket_directory(runtime, signature)) == components(runtime).push("hypr"@).push(
            signature,
        ),
{
    reveal_strlit("hypr");
    reveal_strlit("/");
    reveal_strlit(".");
    let base = joined(runtime, "hypr"@);
    law_joined(runtime, "hypr"@);
    assert("hypr"@[0] == 'h' && "hypr"@.len() == 4 && "."@.len() == 1);
    assert(!"hypr"@.contains('/'));
    assert(base =~= runtime + seq!['/'] + "hypr"@);
    law_step_leads_further(runtime, "hypr"@);
    assert(base.last() == 'r');
    assert(signature[0] != '/') by {
        assert(signature.contains(signature[0]));
    }
    law_joined(base, signature);
    assert(joined(base, signature) =~= base + seq!['/'] + signature);
    law_step_leads_further(base, signature);
}

} // verus!
