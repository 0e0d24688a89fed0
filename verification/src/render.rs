//! Fixed-width rendering of the task listing: a header line, a
//! separator line, and one aligned line per task.

use vstd::prelude::*;
use crate::task::Task;
use crate::text::{dashes, dec_digits, pad_to, padded, u64_to_dec};

verus! {

/// Display text of the completed flag.
pub open spec fn done_label(completed: bool) -> Seq<char> {
    if completed {
        seq!['Y', 'e', 's']
    } else {
        seq!['N', 'o']
    }
}

/// Number of characters of the separator line: the six column widths
/// plus the five single spaces between columns.
pub open spec fn separator_len() -> int {
    87
}

/// One aligned line of the listing for `t`: identifier, name,
/// description, priority, completed flag and due date, each padded to
/// its column and separated by single spaces.
pub open spec fn spec_row(t: Task) -> Seq<char> {
    padded(dec_digits(t.id as nat), 5) + seq![' '] + padded(t.name@, 20) + seq![' '] + padded(
        t.description@,
        30,
    ) + seq![' '] + padded(t.priority.spec_label(), 10) + seq![' '] + padded(
        done_label(t.completed),
        10,
    ) + seq![' '] + padded(t.due_date.spec_text(), 12)
}

/// The header line of the listing.
pub open spec fn spec_header() -> Seq<char> {
    padded("ID"@, 5) + seq![' '] + padded("Name"@, 20) + seq![' '] + padded("Description"@, 30)
        + seq![' '] + padded("Priority"@, 10) + seq![' '] + padded("Completed"@, 10) + seq![' ']
        + padded("Due Date"@, 12)
}

/// Renders the header line.
pub fn render_header() -> (r: String)
    ensures
        r@ == spec_header(),
{
    let mut r = pad_to("ID", 5);
    r.append(" ");
    let name = pad_to("Name", 20);
    r.append(name.as_str());
    r.append(" ");
    let description = pad_to("Description", 30);
    r.append(description.as_str());
    r.append(" ");
    let priority = pad_to("Priority", 10);
    r.append(priority.as_str());
    r.append(" ");
    let completed = pad_to("Completed", 10);
    r.append(completed.as_str());
    r.append(" ");
    let due = pad_to("Due Date", 12);
    r.append(due.as_str());
    proof {
        reveal_strlit(" ");
        assert(r@ =~= spec_header());
    }
    r
}

/// Renders the separator line.
pub fn render_separator() -> (r: String)
    ensures
        r@ == Seq::new(separator_len() as nat, |i: int| '-'),
{
    dashes(87)
}

/// Renders the listing line of `t`.
pub fn render_row(t: &Task) -> (r: String)
    requires
        t.wf(),
    ensures
        r@ == spec_row(*t),
{
    let id_text = u64_to_dec(t.id);
    let mut r = pad_to(id_text.as_str(), 5);
    r.append(" ");
    let name = pad_to(t.name.as_str(), 20);
    r.append(name.as_str());
    r.append(" ");
    let description = pad_to(t.description.as_str(), 30);
    r.append(description.as_str());
    r.append(" ");
    let priority = pad_to(t.priority.label(), 10);
    r.append(priority.as_str());
    r.append(" ");
    let completed = if t.completed {
        pad_to("Yes", 10)
    } else {
        pad_to("No", 10)
    };
    r.append(completed.as_str());
    r.append(" ");
    let date_text = t.due_date.render();
    let due = pad_to(date_text.as_str(), 12);
    r.append(due.as_str());
    proof {
        reveal_strlit(" ");
        reveal_strlit("Yes");
        reveal_strlit("No");
        assert("Yes"@ =~= done_label(true));
        assert("No"@ =~= done_label(false));
        assert(r@ =~= spec_row(*t));
    }
    r
}

/// Renders the whole listing: the header, the separator, then one
/// line per task in insertion order.
pub fn render_table(tasks: &Vec<Task>) -> (r: Vec<String>)
    requires
        forall|i: int| 0 <= i < tasks@.len() ==> (#[trigger] tasks@[i]).wf(),
    ensures
        r@.len() == tasks@.len() + 2,
        r@[0]@ == spec_header(),
        r@[1]@ == Seq::new(separator_len() as nat, |i: int| '-'),
        forall|i: int| 0 <= i < tasks@.len() ==> r@[i + 2]@ == spec_row(#[trigger] tasks@[i]),
{
    let mut r: Vec<String> = Vec::new();
    r.push(render_header());
    r.push(render_separator());
    let n = tasks.len();
    let mut i: usize = 0;
    while i < n
        invariant
            0 <= i <= n,
            n == tasks@.len(),
            forall|k: int| 0 <= k < tasks@.len() ==> (#[trigger] tasks@[k]).wf(),
            r@.len() == i + 2,
            r@[0]@ == spec_header(),
            r@[1]@ == Seq::new(separator_len() as nat, |j: int| '-'),
            forall|k: int| 0 <= k < i ==> r@[k + 2]@ == spec_row(#[trigger] tasks@[k]),
        decreases n - i,
    {
        let row = render_row(&tasks[i]);
        r.push(row);
        i = i + 1;
    }
    r
}

} // verus!
