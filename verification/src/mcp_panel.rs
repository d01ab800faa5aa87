//! Render data of the MCP tools panel, and how the tools the MCP servers
//! offer are shown and described to the agent.

use vstd::prelude::*;

use crate::text::{chars_to_string, str_eq, str_to_chars};

verus! {

broadcast use vstd::string::group_string_axioms;

/// An entry in the MCP tool list panel.
#[derive(Debug, Clone)]
pub struct McpPanelEntry {
    /// Name of the MCP server providing this tool.
    pub server_name: String,
    /// Name of the tool.
    pub tool_name: String,
    /// Human-readable tool description.
    pub description: String,
}

/// A tool an MCP server offers.
#[derive(Debug, Clone)]
pub struct McpTool {
    /// The server that offers it.
    pub server: String,
    pub name: String,
    pub description: Option<String>,
}

/// The panel entries of the tools: one per tool, in order, an absent
/// description shown as empty.
pub fn mcp_panel_entries(tools: &[McpTool]) -> (entries: Vec<McpPanelEntry>)
    ensures
        entries@.len() == tools@.len(),
        forall|i: int|
            0 <= i < tools@.len() ==> {
                &&& (#[trigger] entries@[i]).server_name@ == tools@[i].server@
                &&& entries@[i].tool_name@ == tools@[i].name@
                &&& entries@[i].description@ == match tools@[i].description {
                    Some(d) => d@,
                    None => Seq::empty(),
                }
            },
{
    let mut entries: Vec<McpPanelEntry> = Vec::new();
    let mut i: usize = 0;
    while i < tools.len()
        invariant
            i <= tools@.len(),
            entries@.len() == i,
            forall|k: int|
                0 <= k < i ==> {
                    &&& (#[trigger] entries@[k]).server_name@ == tools@[k].server@
                    &&& entries@[k].tool_name@ == tools@[k].name@
                    &&& entries@[k].description@ == match tools@[k].description {
                        Some(d) => d@,
                        None => Seq::empty(),
                    }
                },
        decreases tools@.len() - i,
    {
        let t = &tools[i];
        let description = match &t.description {
            Some(d) => d.clone(),
            None => String::new(),
        };
        entries.push(
            McpPanelEntry { server_name: t.server.clone(), tool_name: t.name.clone(), description },
        );
        i = i + 1;
    }
    entries
}

/// The lines that describe one tool: a `Server:` heading when its server
/// differs from that of the tool before it, then the tool's name and
/// description.
pub open spec fn tool_lines(t: McpTool, prev_server: Seq<char>) -> Seq<char> {
    let heading = if t.server@ != prev_server {
        "Server: "@ + t.server@ + "\n"@
    } else {
        Seq::empty()
    };
    heading + "  - "@ + t.name@ + " : "@ + match t.description {
        Some(d) => d@,
        None => "No description"@,
    } + "\n"@
}

/// The server of the last tool of `tools`; none before the first tool.
pub open spec fn last_server(tools: Seq<McpTool>) -> Seq<char> {
    if tools.len() == 0 {
        ""@
    } else {
        tools.last().server@
    }
}

/// The description of all tools, grouped under their servers.
pub open spec fn tools_text(tools: Seq<McpTool>) -> Seq<char>
    decreases tools.len(),
{
    if tools.len() == 0 {
        Seq::empty()
    } else {
        tools_text(tools.drop_last()) + tool_lines(tools.last(), last_server(tools.drop_last()))
    }
}

/// The description of the available tools that the agent gets; `None`
/// when there are none.
pub fn mcp_tools_description(tools: &[McpTool]) -> (desc: Option<String>)
    ensures
        tools@.len() == 0 ==> desc is None,
        tools@.len() > 0 ==> (desc matches Some(d) && d@ == tools_text(tools@)),
{
    if tools.len() == 0 {
        return None;
    }
    let mut out: Vec<char> = Vec::new();
    let mut current = String::new();
    let mut i: usize = 0;
    proof {
        reveal_strlit("");
        assert(tools@.take(0) =~= Seq::<McpTool>::empty());
    }
    while i < tools.len()
        invariant
            i <= tools@.len(),
            out@ == tools_text(tools@.take(i as int)),
            current@ == last_server(tools@.take(i as int)),
        decreases tools@.len() - i,
    {
        let t = &tools[i];
        proof {
            assert(tools@.take(i + 1).drop_last() =~= tools@.take(i as int));
            assert(tools@.take(i + 1).last() == tools@[i as int]);
        }
        if !str_eq(t.server.as_str(), current.as_str()) {
            let mut h = str_to_chars("Server: ");
            out.append(&mut h);
            let mut s = str_to_chars(t.server.as_str());
            out.append(&mut s);
            let mut nl = str_to_chars("\n");
            out.append(&mut nl);
            current = t.server.clone();
        }
        let mut dash = str_to_chars("  - ");
        out.append(&mut dash);
        let mut name = str_to_chars(t.name.as_str());
        out.append(&mut name);
        let mut sep = str_to_chars(" : ");
        out.append(&mut sep);
        let mut d = match &t.description {
            Some(d) => str_to_chars(d.as_str()),
            None => str_to_chars("No description"),
        };
        out.append(&mut d);
        let mut nl2 = str_to_chars("\n");
        out.append(&mut nl2);
        proof {
            let prev = last_server(tools@.take(i as int));
            let heading = if t.server@ != prev {
                "Server: "@ + t.server@ + "\n"@
            } else {
                Seq::<char>::empty()
            };
            let body = match tools@[i as int].description {
                Some(dd) => dd@,
                None => "No description"@,
            };
            assert(out@ =~= tools_text(tools@.take(i as int)) + (heading + "  - "@ + t.name@ + " : "@
                + body + "\n"@));
        }
        i = i + 1;
    }
    proof {
        assert(tools@.take(tools@.len() as int) =~= tools@);
    }
    Some(chars_to_string(out.as_slice()))
}

} // verus!
