//! Text shown in the header of an event: position, counts, file state.
use vstd::prelude::*;
use crate::text::{decimal, push_decimal, push_str, string_from_chars};

verus! {

/// " [i/n]" for the event at zero-based index `current` of `total`.
pub open spec fn event_index_text(current: nat, total: nat) -> Seq<char> {
    " ["@ + decimal(current + 1) + "/"@ + decimal(total) + "]"@
}

/// Formats the position of an event in the history.
pub fn format_event_index(current: usize, total: usize) -> (r: String)
    requires
        current < usize::MAX,
    ensures
        r@ == event_index_text(current as nat, total as nat),
{
    let mut out: Vec<char> = Vec::new();
    push_str(&mut out, " [");
    push_decimal(&mut out, (current + 1) as u64);
    push_str(&mut out, "/");
    push_decimal(&mut out, total as u64);
    push_str(&mut out, "]");
    assert(out@ =~= event_index_text(current as nat, total as nat));
    string_from_chars(out.as_slice())
}

/// "+a / -d lines".
pub open spec fn diff_stats_text(added: nat, deleted: nat) -> Seq<char> {
    "+"@ + decimal(added) + " / -"@ + decimal(deleted) + " lines"@
}

/// Formats the counts of added and deleted lines.
pub fn format_diff_stats(added: usize, deleted: usize) -> (r: String)
    ensures
        r@ == diff_stats_text(added as nat, deleted as nat),
{
    let mut out: Vec<char> = Vec::new();
    push_str(&mut out, "+");
    push_decimal(&mut out, added as u64);
    push_str(&mut out, " / -");
    push_decimal(&mut out, deleted as u64);
    push_str(&mut out, " lines");
    assert(out@ =~= diff_stats_text(added as nat, deleted as nat));
    string_from_chars(out.as_slice())
}

/// The note on a file's state: new, deleted, binary, truncated (with its
/// reason if any), in that order of precedence; empty otherwise.
pub open spec fn file_indicator(
    is_new_file: bool,
    is_deleted: bool,
    is_binary: bool,
    is_truncated: bool,
    reason: Option<Seq<char>>,
) -> Seq<char> {
    if is_new_file {
        " (new file)"@
    } else if is_deleted {
        " (deleted)"@
    } else if is_binary {
        " [binary]"@
    } else if is_truncated {
        match reason {
            Some(t) => " ["@ + t + "]"@,
            None => " [truncated]"@,
        }
    } else {
        Seq::empty()
    }
}

/// The note on a file's state (see `file_indicator`).
pub fn get_file_indicator(
    is_new_file: bool,
    is_deleted: bool,
    is_binary: bool,
    is_truncated: bool,
    truncation_reason: Option<&str>,
) -> (r: String)
    ensures
        r@ == file_indicator(is_new_file, is_deleted, is_binary, is_truncated, crate::git_engine::opt_str(truncation_reason)),
{
    let mut out: Vec<char> = Vec::new();
    if is_new_file {
        push_str(&mut out, " (new file)");
    } else if is_deleted {
        push_str(&mut out, " (deleted)");
    } else if is_binary {
        push_str(&mut out, " [binary]");
    } else if is_truncated {
        match truncation_reason {
            Some(reason) => {
                push_str(&mut out, " [");
                push_str(&mut out, reason);
                push_str(&mut out, "]");
            },
            None => {
                push_str(&mut out, " [truncated]");
            },
        }
    }
    assert(out@ =~= file_indicator(is_new_file, is_deleted, is_binary, is_truncated, crate::git_engine::opt_str(truncation_reason)));
    string_from_chars(out.as_slice())
}

/// "Hunk i/n" for the hunk at zero-based index `current` of `total`.
pub open spec fn hunk_info_text(current: nat, total: nat) -> Seq<char> {
    "Hunk "@ + decimal(current + 1) + "/"@ + decimal(total)
}

/// Formats the position of the focused hunk.
pub fn format_hunk_info(current: usize, total: usize) -> (r: String)
    requires
        current < usize::MAX,
    ensures
        r@ == hunk_info_text(current as nat, total as nat),
{
    let mut out: Vec<char> = Vec::new();
    push_str(&mut out, "Hunk ");
    push_decimal(&mut out, (current + 1) as u64);
    push_str(&mut out, "/");
    push_decimal(&mut out, total as u64);
    assert(out@ =~= hunk_info_text(current as nat, total as nat));
    string_from_chars(out.as_slice())
}

} // verus!
