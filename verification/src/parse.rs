//! The markdown todo parser: one top-to-bottom scan of the text, one space
//! accumulator in flight, specified line by line.

use vstd::prelude::*;
use vstd::string::*;
use crate::model::{
    default_name, default_name_string, is_default_name, spec_decode_priority, spec_tag_of,
    tag_high, tag_low, tag_medium, tag_urgent, Priority, SpecItem, SpecSpace, TodoItem, TodoSpace,
    spaces_view,
};
use crate::text::{
    spec_contains, spec_ends_with, spec_lines, spec_starts_with, spec_strip_all, spec_trim,
    spec_trim_end_matches, spec_trim_start_matches, split_lines, str_ends_with, str_starts_with,
    str_strip_all, str_trim, str_trim_end_matches, str_trim_start_matches,
};

verus! {

pub open spec fn pfx_pending() -> Seq<char> {
    seq!['-', ' ', '[', ' ', ']']
}

pub open spec fn pfx_done() -> Seq<char> {
    seq!['-', ' ', '[', 'x', ']']
}

pub open spec fn pfx_pending_sp() -> Seq<char> {
    seq!['-', ' ', '[', ' ', ']', ' ']
}

pub open spec fn pfx_done_sp() -> Seq<char> {
    seq!['-', ' ', '[', 'x', ']', ' ']
}

pub open spec fn open_brackets() -> Seq<char> {
    seq!['[', '[']
}

pub open spec fn close_brackets() -> Seq<char> {
    seq![']', ']']
}

/// A trimmed line that names a space: `[[` ... `]]`.
pub open spec fn spec_is_header(t: Seq<char>) -> bool {
    spec_starts_with(t, open_brackets()) && spec_ends_with(t, close_brackets())
}

/// The name a header line carries.
pub open spec fn spec_header_name(t: Seq<char>) -> Seq<char> {
    spec_trim_end_matches(spec_trim_start_matches(t, open_brackets()), close_brackets())
}

/// A trimmed line that records a task, pending or completed.
pub open spec fn spec_is_task(t: Seq<char>) -> bool {
    spec_starts_with(t, pfx_pending()) || spec_starts_with(t, pfx_done())
}

/// A line's remainder with all four known tags removed.
pub open spec fn spec_strip_tags(d: Seq<char>) -> Seq<char> {
    spec_strip_all(
        spec_strip_all(spec_strip_all(spec_strip_all(d, tag_low()), tag_medium()), tag_high()),
        tag_urgent(),
    )
}

/// The task a trimmed task line records.
pub open spec fn spec_task_of(t: Seq<char>) -> SpecItem {
    let status = spec_starts_with(t, pfx_done());
    let d = if status {
        spec_trim_start_matches(t, pfx_done_sp())
    } else {
        spec_trim_start_matches(t, pfx_pending_sp())
    };
    SpecItem { item: spec_trim(spec_strip_tags(d)), status, priority: spec_decode_priority(d) }
}

/// A space that carries no information: the implicit accumulator as it
/// started, empty and named `Default`.
pub open spec fn spec_vacuous(sp: SpecSpace) -> bool {
    sp.todos.len() == 0 && sp.name == default_name()
}

/// The parse of the remaining `lines`, with `acc` the space in flight and
/// `done` the spaces already finalized. A header finalizes the accumulator
/// (unless vacuous) and starts a new one; a task line extends it; any other
/// line is ignored. At the end the accumulator is finalized under the same
/// rule, except that a store is never left empty: an input with no content
/// yields the single empty `Default` space.
pub open spec fn spec_parse_lines(
    lines: Seq<Seq<char>>,
    acc: SpecSpace,
    done: Seq<SpecSpace>,
) -> Seq<SpecSpace>
    decreases lines.len(),
{
    if lines.len() == 0 {
        if !spec_vacuous(acc) || done.len() == 0 {
            done.push(acc)
        } else {
            done
        }
    } else {
        let t = spec_trim(lines[0]);
        if spec_is_header(t) {
            let done2 = if !spec_vacuous(acc) {
                done.push(acc)
            } else {
                done
            };
            spec_parse_lines(
                lines.skip(1),
                SpecSpace { name: spec_header_name(t), todos: Seq::empty() },
                done2,
            )
        } else if spec_is_task(t) {
            spec_parse_lines(
                lines.skip(1),
                SpecSpace { name: acc.name, todos: acc.todos.push(spec_task_of(t)) },
                done,
            )
        } else {
            spec_parse_lines(lines.skip(1), acc, done)
        }
    }
}

/// The store a text blob denotes.
pub open spec fn spec_parse(s: Seq<char>) -> Seq<SpecSpace> {
    spec_parse_lines(
        spec_lines(s),
        SpecSpace { name: default_name(), todos: Seq::empty() },
        Seq::empty(),
    )
}

/// Parses a text blob into its ordered sequence of task spaces.
pub fn parse_markdown_todos(content: String) -> (r: Vec<TodoSpace>)
    ensures
        spaces_view(r@) == spec_parse(content@),
{
    proof {
        reveal_strlit("[[");
        reveal_strlit("]]");
        reveal_strlit("- [ ]");
        reveal_strlit("- [x]");
        reveal_strlit("- [ ] ");
        reveal_strlit("- [x] ");
        reveal_strlit("{LOW}");
        reveal_strlit("{MEDIUM}");
        reveal_strlit("{HIGH}");
        reveal_strlit("{URGENT}");
        assert("[["@ =~= open_brackets());
        assert("]]"@ =~= close_brackets());
        assert("- [ ]"@ =~= pfx_pending());
        assert("- [x]"@ =~= pfx_done());
        assert("- [ ] "@ =~= pfx_pending_sp());
        assert("- [x] "@ =~= pfx_done_sp());
        assert("{LOW}"@ =~= tag_low());
        assert("{MEDIUM}"@ =~= tag_medium());
        assert("{HIGH}"@ =~= tag_high());
        assert("{URGENT}"@ =~= tag_urgent());
    }
    let lines = split_lines(content.as_str());
    let ghost lviews = lines@.map_values(|l: String| l@);
    let mut spaces: Vec<TodoSpace> = Vec::new();
    let mut acc = TodoSpace { name: default_name_string(), todos: Vec::new() };
    proof {
        assert(lviews.skip(0) =~= lviews);
        assert(acc@.todos =~= Seq::<SpecItem>::empty());
        assert(spaces_view(spaces@) =~= Seq::<SpecSpace>::empty());
    }
    let mut i: usize = 0;
    while i < lines.len()
        invariant
            i <= lines@.len(),
            lviews == lines@.map_values(|l: String| l@),
            spec_parse(content@) == spec_parse_lines(
                lviews.skip(i as int),
                acc@,
                spaces_view(spaces@),
            ),
        decreases lines@.len() - i,
    {
        proof {
            reveal_strlit("[[");
            reveal_strlit("]]");
            reveal_strlit("- [ ]");
            reveal_strlit("- [x]");
            reveal_strlit("- [ ] ");
            reveal_strlit("- [x] ");
            reveal_strlit("{LOW}");
            reveal_strlit("{MEDIUM}");
            reveal_strlit("{HIGH}");
            reveal_strlit("{URGENT}");
            assert("[["@ =~= open_brackets());
            assert("]]"@ =~= close_brackets());
            assert("- [ ]"@ =~= pfx_pending());
            assert("- [x]"@ =~= pfx_done());
            assert("- [ ] "@ =~= pfx_pending_sp());
            assert("- [x] "@ =~= pfx_done_sp());
            assert("{LOW}"@ =~= tag_low());
            assert("{MEDIUM}"@ =~= tag_medium());
            assert("{HIGH}"@ =~= tag_high());
            assert("{URGENT}"@ =~= tag_urgent());
            assert(lviews.skip(i as int)[0] == lviews[i as int]);
            assert(lviews.skip(i as int).skip(1) =~= lviews.skip(i + 1));
        }
        let line = &lines[i];
        let trimmed = str_trim(line.as_str());
        if str_starts_with(trimmed, "[[") && str_ends_with(trimmed, "]]") {
            let vacuous = acc.todos.len() == 0 && is_default_name(&acc.name);
            let ghost prev_done = spaces_view(spaces@);
            let ghost prev_acc = acc@;
            if !vacuous {
                spaces.push(acc);
                proof {
                    assert(spaces_view(spaces@) =~= prev_done.push(prev_acc));
                }
            }
            let name = str_trim_end_matches(str_trim_start_matches(trimmed, "[["), "]]");
            acc = TodoSpace { name: name.to_owned(), todos: Vec::new() };
            proof {
                assert(acc@.todos =~= Seq::<SpecItem>::empty());
                assert(acc@.name == spec_header_name(spec_trim(lviews[i as int])));
            }
        } else if str_starts_with(trimmed, "- [ ]") || str_starts_with(trimmed, "- [x]") {
            let status = str_starts_with(trimmed, "- [x]");
            let d = if status {
                str_trim_start_matches(trimmed, "- [x] ")
            } else {
                str_trim_start_matches(trimmed, "- [ ] ")
            };
            let priority = Priority::from_markdown(d);
            let t1 = str_strip_all(d, "{LOW}");
            let t2 = str_strip_all(t1.as_str(), "{MEDIUM}");
            let t3 = str_strip_all(t2.as_str(), "{HIGH}");
            let t4 = str_strip_all(t3.as_str(), "{URGENT}");
            let item_text = str_trim(t4.as_str()).to_owned();
            let ghost prev_todos = acc@.todos;
            acc.todos.push(TodoItem { item: item_text, status, priority });
            proof {
                assert(acc@.todos =~= prev_todos.push(spec_task_of(spec_trim(lviews[i as int]))));
            }
        }
        i += 1;
    }
    proof {
        assert(lviews.skip(i as int) =~= Seq::<Seq<char>>::empty());
    }
    let vacuous = acc.todos.len() == 0 && is_default_name(&acc.name);
    let ghost prev_done = spaces_view(spaces@);
    let ghost prev_acc = acc@;
    if !vacuous || spaces.len() == 0 {
        spaces.push(acc);
        proof {
            assert(spaces_view(spaces@) =~= prev_done.push(prev_acc));
        }
    }
    spaces
}

} // verus!
