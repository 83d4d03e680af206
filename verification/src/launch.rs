use vstd::prelude::*;

use crate::text::{copy_str, push_str};

verus! {

/// Where a development connection comes from.
pub enum DevSource {
    Managed,
    Endpoint(String),
    Environment,
}

/// How the server connects to S2.
pub enum LaunchIntent {
    Cloud,
    Dev(DevSource),
}

/// The connection the command line asks for: S2 Cloud without `--dev`;
/// with it, the given endpoint, else the environment with `--from-env`, else
/// a managed S2 Lite.
pub fn launch_intent(dev: bool, endpoint: Option<String>, from_env: bool) -> (i: LaunchIntent)
    ensures
        !dev ==> i is Cloud,
        dev && endpoint is Some ==> (i matches LaunchIntent::Dev(DevSource::Endpoint(e)) && e == endpoint->0),
        dev && endpoint is None && from_env ==> (i matches LaunchIntent::Dev(DevSource::Environment)),
        dev && endpoint is None && !from_env ==> (i matches LaunchIntent::Dev(DevSource::Managed)),
{
    if !dev {
        LaunchIntent::Cloud
    } else if let Some(endpoint) = endpoint {
        LaunchIntent::Dev(DevSource::Endpoint(endpoint))
    } else if from_env {
        LaunchIntent::Dev(DevSource::Environment)
    } else {
        LaunchIntent::Dev(DevSource::Managed)
    }
}

/// Run directly in a terminal, without an internal command, the server shows
/// its help instead of serving.
pub fn should_show_interactive_guidance(has_command: bool, stdin_is_terminal: bool) -> (b: bool)
    ensures
        b == (!has_command && stdin_is_terminal),
{
    !has_command && stdin_is_terminal
}

/// The escape sequences that style help text, each with the one that ends it.
pub struct HelpStyles {
    pub heading: String,
    pub heading_reset: String,
    pub literal: String,
    pub literal_reset: String,
    pub placeholder: String,
    pub placeholder_reset: String,
}

/// The connection and client-configuration guide printed after the help.
pub open spec fn guidance_text(s: HelpStyles) -> Seq<char> {
    let h = s.heading@;
    let hr = s.heading_reset@;
    let c = s.literal@;
    let cr = s.literal_reset@;
    let p = s.placeholder@;
    let pr = s.placeholder_reset@;
    "\n"@ + h + "CONNECTIONS"@ + hr + "\n"@
        + "  "@ + c + "s2-mcp"@ + cr + "                            Connect to S2 Cloud\n"@
        + "  "@ + c + "s2-mcp --dev"@ + cr + "                      Start a temporary S2 Lite container when needed\n"@
        + "  "@ + c + "s2-mcp --dev --endpoint"@ + cr + " "@ + p + "<URL>"@ + pr + "     Use an existing S2 development server\n"@
        + "  "@ + c + "s2-mcp --dev --from-env"@ + cr + "           Read endpoints from environment variables\n"@
        + "\n"@ + h + "MCP CLIENT CONFIGURATION"@ + hr + "\n"@
        + "  "@ + h + "Cloud:"@ + hr + "       command = "@ + c + "\"s2-mcp\""@ + cr + "\n"@
        + "  "@ + h + "Development:"@ + hr + " command = "@ + c + "\"s2-mcp\", args = [\"--dev\"]"@ + cr + "\n"@
        + "\n"@ + "Use this command with an MCP client. Running it directly in a terminal shows this help.\n"@
}

/// The guide printed after the long help when the server runs in a terminal.
pub fn interactive_guidance(s: &HelpStyles) -> (t: String)
    ensures
        t@ == guidance_text(*s),
{
    let h = s.heading.as_str();
    let hr = s.heading_reset.as_str();
    let c = s.literal.as_str();
    let cr = s.literal_reset.as_str();
    let p = s.placeholder.as_str();
    let pr = s.placeholder_reset.as_str();
    let mut t = copy_str("\n");
    push_str(&mut t, h);
    push_str(&mut t, "CONNECTIONS");
    push_str(&mut t, hr);
    push_str(&mut t, "\n");
    push_str(&mut t, "  ");
    push_str(&mut t, c);
    push_str(&mut t, "s2-mcp");
    push_str(&mut t, cr);
    push_str(&mut t, "                            Connect to S2 Cloud\n");
    push_str(&mut t, "  ");
    push_str(&mut t, c);
    push_str(&mut t, "s2-mcp --dev");
    push_str(&mut t, cr);
    push_str(&mut t, "                      Start a temporary S2 Lite container when needed\n");
    push_str(&mut t, "  ");
    push_str(&mut t, c);
    push_str(&mut t, "s2-mcp --dev --endpoint");
    push_str(&mut t, cr);
    push_str(&mut t, " ");
    push_str(&mut t, p);
    push_str(&mut t, "<URL>");
    push_str(&mut t, pr);
    push_str(&mut t, "     Use an existing S2 development server\n");
    push_str(&mut t, "  ");
    push_str(&mut t, c);
    push_str(&mut t, "s2-mcp --dev --from-env");
    push_str(&mut t, cr);
    push_str(&mut t, "           Read endpoints from environment variables\n");
    push_str(&mut t, "\n");
    push_str(&mut t, h);
    push_str(&mut t, "MCP CLIENT CONFIGURATION");
    push_str(&mut t, hr);
    push_str(&mut t, "\n");
    push_str(&mut t, "  ");
    push_str(&mut t, h);
    push_str(&mut t, "Cloud:");
    push_str(&mut t, hr);
    push_str(&mut t, "       command = ");
    push_str(&mut t, c);
    push_str(&mut t, "\"s2-mcp\"");
    push_str(&mut t, cr);
    push_str(&mut t, "\n");
    push_str(&mut t, "  ");
    push_str(&mut t, h);
    push_str(&mut t, "Development:");
    push_str(&mut t, hr);
    push_str(&mut t, " command = ");
    push_str(&mut t, c);
    push_str(&mut t, "\"s2-mcp\", args = [\"--dev\"]");
    push_str(&mut t, cr);
    push_str(&mut t, "\n");
    push_str(&mut t, "\n");
    push_str(&mut t, "Use this command with an MCP client. Running it directly in a terminal shows this help.\n");
    assert(t@ =~= guidance_text(*s));
    t
}

} // verus!
