//! The command line's own decisions and text: which agent adapters a flag
//! set asks for, regression thresholds, role filters and the Markdown lists
//! of its reports.
use vstd::prelude::*;

use crate::model::{str_views, Diagnostic, DiagnosticSeverity, FileRole};
use crate::strs::{join_with, join_with_exec};
use crate::text::{chars_of, extend_chars, extend_str, split_once, split_once_str, string_of, trim, trim_vec};

verus! {

/// The agents whose instruction files `init` can write.
#[derive(Debug, Clone, Copy, PartialEq, Eq, Structural)]
pub enum AgentAdapter {
    Cursor,
    Claude,
    OpenCode,
}

/// The adapters that the integration flags ask for, in the order of the
/// flags.
pub open spec fn adapters_of(cursor: bool, claude: bool, opencode: bool) -> Seq<AgentAdapter> {
    (if cursor {
        seq![AgentAdapter::Cursor]
    } else {
        seq![]
    }) + (if claude {
        seq![AgentAdapter::Claude]
    } else {
        seq![]
    }) + (if opencode {
        seq![AgentAdapter::OpenCode]
    } else {
        seq![]
    })
}

/// Executable `adapters_of`.
pub fn adapter_options(cursor: bool, claude: bool, opencode: bool) -> (r: Vec<AgentAdapter>)
    ensures
        r@ == adapters_of(cursor, claude, opencode),
{
    let mut adapters: Vec<AgentAdapter> = Vec::new();
    if cursor {
        adapters.push(AgentAdapter::Cursor);
    }
    if claude {
        adapters.push(AgentAdapter::Claude);
    }
    if opencode {
        adapters.push(AgentAdapter::OpenCode);
    }
    assert(adapters@ =~= adapters_of(cursor, claude, opencode));
    adapters
}

/// A regression threshold `metric=max_drop`, split: the trimmed metric
/// name and the trimmed drop, which the host reads as a number.
pub open spec fn threshold_parts(input: Seq<char>) -> Result<(Seq<char>, Seq<char>), Seq<char>> {
    match split_once(input, "="@) {
        None => Err("expected metric=max_drop"@),
        Some((metric, drop)) => if trim(metric).len() == 0 {
            Err("metric name cannot be empty"@)
        } else {
            Ok((trim(metric), trim(drop)))
        },
    }
}

/// Executable `threshold_parts`.
pub fn split_regression_threshold(input: &str) -> (r: Result<(String, String), String>)
    ensures
        match threshold_parts(input@) {
            Ok((m, d)) => r matches Ok((x, y)) && x@ == m && y@ == d,
            Err(e) => r matches Err(x) && x@ == e,
        },
{
    let v = chars_of(input);
    match split_once_str(&v, "=") {
        None => Err(String::from_str("expected metric=max_drop")),
        Some((metric, drop)) => {
            let m = trim_vec(&metric);
            if m.len() == 0 {
                Err(String::from_str("metric name cannot be empty"))
            } else {
                Ok((string_of(&m), string_of(&trim_vec(&drop))))
            }
        },
    }
}

/// The name of a file role, as `Debug` writes it.
pub open spec fn role_debug_name(r: FileRole) -> Seq<char> {
    match r {
        FileRole::Source => "Source"@,
        FileRole::Test => "Test"@,
        FileRole::Config => "Config"@,
        FileRole::Schema => "Schema"@,
        FileRole::Docs => "Docs"@,
        FileRole::Generated => "Generated"@,
        FileRole::Sensitive => "Sensitive"@,
        FileRole::Unknown => "Unknown"@,
    }
}

/// Executable `role_debug_name`.
pub fn role_debug_text(r: FileRole) -> (s: String)
    ensures
        s@ == role_debug_name(r),
{
    match r {
        FileRole::Source => String::from_str("Source"),
        FileRole::Test => String::from_str("Test"),
        FileRole::Config => String::from_str("Config"),
        FileRole::Schema => String::from_str("Schema"),
        FileRole::Docs => String::from_str("Docs"),
        FileRole::Generated => String::from_str("Generated"),
        FileRole::Sensitive => String::from_str("Sensitive"),
        FileRole::Unknown => String::from_str("Unknown"),
    }
}

/// The label of a role filter: `all safe roles` when empty, else the role
/// names joined with `, `.
pub open spec fn role_filter_text(filters: Seq<FileRole>) -> Seq<char> {
    if filters.len() == 0 {
        "all safe roles"@
    } else {
        join_with(filters.map_values(|r: FileRole| role_debug_name(r)), ", "@)
    }
}

/// Executable `role_filter_text`.
pub fn role_filter_label(filters: &Vec<FileRole>) -> (r: String)
    ensures
        r@ == role_filter_text(filters@),
{
    if filters.len() == 0 {
        return String::from_str("all safe roles");
    }
    let mut names: Vec<String> = Vec::new();
    let mut i: usize = 0;
    while i < filters.len()
        invariant
            i <= filters@.len(),
            str_views(names@) == filters@.take(i as int).map_values(|r: FileRole| role_debug_name(r)),
        decreases filters.len() - i,
    {
        let n = role_debug_text(filters[i]);
        let ghost before = str_views(names@);
        names.push(n);
        assert(str_views(names@) =~= before.push(role_debug_name(filters@[i as int])));
        assert(filters@.take(i + 1).map_values(|r: FileRole| role_debug_name(r)) =~= filters@.take(
            i as int,
        ).map_values(|r: FileRole| role_debug_name(r)).push(role_debug_name(filters@[i as int])));
        i += 1;
    }
    assert(filters@.take(filters@.len() as int) =~= filters@);
    join_with_exec(&names, ", ")
}

/// A Markdown list: the empty message as one item when there are no
/// items, else one item per entry, each `- ` then `open`, the entry and
/// `close`, each line ended by a newline.
pub open spec fn markdown_list(items: Seq<Seq<char>>, empty: Seq<char>, open: Seq<char>, close: Seq<char>) -> Seq<char>
    decreases items.len(),
{
    if items.len() == 0 {
        seq![]
    } else {
        markdown_list(items.drop_last(), empty, open, close) + "- "@ + open + items.last() + close
            + "\n"@
    }
}

/// The list text of a report section.
pub open spec fn list_text(items: Seq<Seq<char>>, empty: Seq<char>, open: Seq<char>, close: Seq<char>) -> Seq<char> {
    if items.len() == 0 {
        "- "@ + empty + "\n"@
    } else {
        markdown_list(items, empty, open, close)
    }
}

fn push_list(output: &mut String, items: &Vec<String>, empty: &str, open: &str, close: &str)
    ensures
        final(output)@ == old(output)@ + list_text(str_views(items@), empty@, open@, close@),
{
    let mut v: Vec<char> = chars_of(output.as_str());
    let ghost start = v@;
    if items.len() == 0 {
        extend_str(&mut v, "- ");
        extend_str(&mut v, empty);
        extend_str(&mut v, "\n");
        assert(v@ =~= start + list_text(str_views(items@), empty@, open@, close@));
    } else {
        let ghost iv = str_views(items@);
        let mut i: usize = 0;
        while i < items.len()
            invariant
                i <= items@.len(),
                iv == str_views(items@),
                v@ == start + markdown_list(iv.take(i as int), empty@, open@, close@),
            decreases items.len() - i,
        {
            assert(iv.take(i + 1).drop_last() =~= iv.take(i as int));
            assert(iv.take(i + 1).last() == items@[i as int]@);
            let ghost before = v@;
            extend_str(&mut v, "- ");
            extend_str(&mut v, open);
            extend_chars(&mut v, &chars_of(items[i].as_str()));
            extend_str(&mut v, close);
            extend_str(&mut v, "\n");
            assert(v@ =~= before + ("- "@ + open@ + items@[i as int]@ + close@ + "\n"@));
            i += 1;
        }
        assert(iv.take(items@.len() as int) =~= iv);
    }
    *output = string_of(&v);
}

/// Appends a checklist: `- [ ] `item`` per item, or the empty message.
pub fn push_checkbox_list(output: &mut String, items: &Vec<String>, empty_message: &str)
    ensures
        final(output)@ == old(output)@ + list_text(str_views(items@), empty_message@, "[ ] `"@, "`"@),
{
    push_list(output, items, empty_message, "[ ] `", "`");
}

/// Appends a list of paths: `- `item`` per item, or the empty message.
pub fn push_plain_path_list(output: &mut String, items: &Vec<String>, empty_message: &str)
    ensures
        final(output)@ == old(output)@ + list_text(str_views(items@), empty_message@, "`"@, "`"@),
{
    push_list(output, items, empty_message, "`", "`");
}

/// The note that a command ran without recording an eval trace.
pub fn trace_disabled_diagnostic() -> (d: Diagnostic)
    ensures
        d.code@ == "trace_recording_disabled"@,
        d.severity == DiagnosticSeverity::Info,
        d.message@ == "Eval trace recording was disabled for this command."@,
        d.count == 1,
        d.paths@.len() == 0,
{
    Diagnostic {
        code: String::from_str("trace_recording_disabled"),
        severity: DiagnosticSeverity::Info,
        message: String::from_str("Eval trace recording was disabled for this command."),
        count: 1,
        paths: Vec::new(),
    }
}

} // verus!
