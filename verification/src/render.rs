//! The markdown todo formatter: the round-trip partner of the parser.
//! Every space except `Default` gets a header line; every task one line
//! `- <checkbox> <description> <tag>`; every space block ends in one blank
//! line.

use vstd::prelude::*;
use vstd::string::*;
use crate::model::{default_name, spec_tag_of, SpecItem, SpecSpace, TodoSpace, spaces_view};
use crate::parse::{close_brackets, open_brackets};

verus! {

pub open spec fn spec_checkbox(status: bool) -> Seq<char> {
    if status {
        seq!['[', 'x', ']']
    } else {
        seq!['[', ' ', ']']
    }
}

/// The line a task is written as (without its newline).
pub open spec fn spec_task_line(it: SpecItem) -> Seq<char> {
    seq!['-', ' '] + spec_checkbox(it.status) + seq![' '] + it.item + seq![' '] + spec_tag_of(
        it.priority,
    )
}

/// The line a space header is written as (without its newline).
pub open spec fn spec_header_line(name: Seq<char>) -> Seq<char> {
    open_brackets() + name + close_brackets()
}

/// The lines one space contributes: an optional header, one line per task,
/// one blank separator line.
pub open spec fn spec_space_lines(sp: SpecSpace) -> Seq<Seq<char>> {
    let hdr: Seq<Seq<char>> = if sp.name == default_name() {
        Seq::empty()
    } else {
        seq![spec_header_line(sp.name)]
    };
    hdr + sp.todos.map_values(|it: SpecItem| spec_task_line(it)) + seq![Seq::<char>::empty()]
}

/// The lines a whole store contributes, in order.
pub open spec fn spec_format_lines(spaces: Seq<SpecSpace>) -> Seq<Seq<char>>
    decreases spaces.len(),
{
    if spaces.len() == 0 {
        Seq::empty()
    } else {
        spec_space_lines(spaces[0]) + spec_format_lines(spaces.skip(1))
    }
}

/// Lines joined into a blob, each line terminated by `'\n'`.
pub open spec fn spec_join_lines(lines: Seq<Seq<char>>) -> Seq<char>
    decreases lines.len(),
{
    if lines.len() == 0 {
        Seq::empty()
    } else {
        lines[0] + seq!['\n'] + spec_join_lines(lines.skip(1))
    }
}

/// The text blob a store is written as.
pub open spec fn spec_format(spaces: Seq<SpecSpace>) -> Seq<char> {
    spec_join_lines(spec_format_lines(spaces))
}

/// Joining one line appends exactly that line and a newline.
pub proof fn lemma_join_single(l: Seq<char>)
    ensures
        spec_join_lines(seq![l]) == l + seq!['\n'],
{
    assert(seq![l].skip(1) =~= Seq::<Seq<char>>::empty());
    assert(spec_join_lines(Seq::<Seq<char>>::empty()) == Seq::<char>::empty());
    assert(seq![l][0] == l);
    assert(l + seq!['\n'] + Seq::<char>::empty() =~= l + seq!['\n']);
}

/// Joining distributes over concatenation of line sequences.
pub proof fn lemma_join_concat(a: Seq<Seq<char>>, b: Seq<Seq<char>>)
    ensures
        spec_join_lines(a + b) == spec_join_lines(a) + spec_join_lines(b),
    decreases a.len(),
{
    if a.len() == 0 {
        assert(a + b =~= b);
        assert(spec_join_lines(a) + spec_join_lines(b) =~= spec_join_lines(b));
    } else {
        lemma_join_concat(a.skip(1), b);
        assert((a + b).skip(1) =~= a.skip(1) + b);
        assert((a + b)[0] == a[0]);
        assert(a[0] + seq!['\n'] + (spec_join_lines(a.skip(1)) + spec_join_lines(b)) =~= (a[0]
            + seq!['\n'] + spec_join_lines(a.skip(1))) + spec_join_lines(b));
    }
}

/// One more space appends its lines at the end.
pub proof fn lemma_format_lines_push(spaces: Seq<SpecSpace>, sp: SpecSpace)
    ensures
        spec_format_lines(spaces.push(sp)) == spec_format_lines(spaces) + spec_space_lines(sp),
    decreases spaces.len(),
{
    if spaces.len() == 0 {
        assert(spaces.push(sp)[0] == sp);
        assert(spaces.push(sp).skip(1) =~= Seq::<SpecSpace>::empty());
        assert(spec_format_lines(spaces.push(sp).skip(1)) == Seq::<Seq<char>>::empty());
        assert(spec_format_lines(spaces.push(sp)) == spec_space_lines(sp) + Seq::<
            Seq<char>,
        >::empty());
        assert(spec_space_lines(sp) + Seq::<Seq<char>>::empty() =~= spec_space_lines(sp));
        assert(spec_format_lines(spaces) == Seq::<Seq<char>>::empty());
        assert(Seq::<Seq<char>>::empty() + spec_space_lines(sp) =~= spec_space_lines(sp));
    } else {
        lemma_format_lines_push(spaces.skip(1), sp);
        assert(spaces.push(sp).skip(1) =~= spaces.skip(1).push(sp));
        assert(spaces.push(sp)[0] == spaces[0]);
        assert(spec_space_lines(spaces[0]) + (spec_format_lines(spaces.skip(1))
            + spec_space_lines(sp)) =~= (spec_space_lines(spaces[0]) + spec_format_lines(
            spaces.skip(1),
        )) + spec_space_lines(sp));
    }
}

/// Serializes the whole store into its text form.
pub fn format_todos_as_markdown(spaces: &Vec<TodoSpace>) -> (r: String)
    ensures
        r@ == spec_format(spaces_view(spaces@)),
{
    let ghost views = spaces_view(spaces@);
    let mut out = String::new();
    proof {
        assert(views.take(0) =~= Seq::<SpecSpace>::empty());
        assert(out@ =~= spec_join_lines(spec_format_lines(views.take(0))));
    }
    let mut i: usize = 0;
    while i < spaces.len()
        invariant
            i <= spaces@.len(),
            views == spaces_view(spaces@),
            out@ == spec_join_lines(spec_format_lines(views.take(i as int))),
        decreases spaces@.len() - i,
    {
        let space = &spaces[i];
        let ghost sp = views[i as int];
        proof {
            assert(sp == space@);
        }
        let ghost base = out@;
        let ghost hdr: Seq<Seq<char>> = if sp.name == default_name() {
            Seq::empty()
        } else {
            seq![spec_header_line(sp.name)]
        };
        if !crate::model::is_default_name(&space.name) {
            out.append("[[");
            out.append(space.name.as_str());
            out.append("]]");
            out.append("\n");
            proof {
                reveal_strlit("[[");
                reveal_strlit("]]");
                reveal_strlit("\n");
                assert("[["@ =~= open_brackets());
                assert("]]"@ =~= close_brackets());
                assert("\n"@ =~= seq!['\n']);
                lemma_join_single(spec_header_line(sp.name));
                assert(out@ =~= base + spec_join_lines(hdr));
            }
        } else {
            proof {
                assert(out@ =~= base + spec_join_lines(hdr));
            }
        }
        let ghost tlines = sp.todos.map_values(|it: SpecItem| spec_task_line(it));
        let ghost base2 = out@;
        proof {
            assert(tlines.take(0) =~= Seq::<Seq<char>>::empty());
            assert(out@ =~= base2 + spec_join_lines(tlines.take(0)));
        }
        let mut j: usize = 0;
        while j < space.todos.len()
            invariant
                j <= space.todos@.len(),
                sp == space@,
                tlines == sp.todos.map_values(|it: SpecItem| spec_task_line(it)),
                out@ == base2 + spec_join_lines(tlines.take(j as int)),
            decreases space.todos@.len() - j,
        {
            let todo = &space.todos[j];
            let ghost before = out@;
            out.append("- ");
            if todo.status {
                out.append("[x]");
            } else {
                out.append("[ ]");
            }
            out.append(" ");
            out.append(todo.item.as_str());
            out.append(" ");
            out.append(todo.priority.to_markdown());
            out.append("\n");
            proof {
                reveal_strlit("- ");
                reveal_strlit("[x]");
                reveal_strlit("[ ]");
                reveal_strlit(" ");
                reveal_strlit("\n");
                assert("- "@ =~= seq!['-', ' ']);
                assert("[x]"@ =~= seq!['[', 'x', ']']);
                assert("[ ]"@ =~= seq!['[', ' ', ']']);
                assert(" "@ =~= seq![' ']);
                assert("\n"@ =~= seq!['\n']);
                let it = sp.todos[j as int];
                assert(it == todo@);
                assert(out@ =~= before + (spec_task_line(it) + seq!['\n']));
                assert(tlines.take(j + 1) =~= tlines.take(j as int).push(spec_task_line(it)));
                lemma_join_concat(tlines.take(j as int), seq![spec_task_line(it)]);
                assert(tlines.take(j as int).push(spec_task_line(it)) =~= tlines.take(j as int)
                    + seq![spec_task_line(it)]);
                lemma_join_single(spec_task_line(it));
                assert(out@ =~= base2 + spec_join_lines(tlines.take(j + 1)));
            }
            j += 1;
        }
        out.append("\n");
        proof {
            reveal_strlit("\n");
            assert("\n"@ =~= seq!['\n']);
            assert(tlines.take(sp.todos.len() as int) =~= tlines);
            let blank: Seq<Seq<char>> = seq![Seq::<char>::empty()];
            lemma_join_single(Seq::<char>::empty());
            assert(Seq::<char>::empty() + seq!['\n'] =~= seq!['\n']);
            assert(spec_join_lines(blank) == seq!['\n']);
            assert(out@ =~= base + (spec_join_lines(hdr) + (spec_join_lines(tlines)
                + spec_join_lines(blank))));
            lemma_join_concat(tlines, blank);
            lemma_join_concat(hdr, tlines + blank);
            assert(spec_space_lines(sp) == hdr + (tlines + blank));
            assert(hdr + tlines + blank =~= hdr + (tlines + blank));
            assert(out@ =~= base + spec_join_lines(spec_space_lines(sp)));
            lemma_format_lines_push(views.take(i as int), sp);
            assert(views.take(i + 1) =~= views.take(i as int).push(sp));
            lemma_join_concat(spec_format_lines(views.take(i as int)), spec_space_lines(sp));
            assert(out@ =~= spec_join_lines(spec_format_lines(views.take(i + 1))));
        }
        i += 1;
    }
    proof {
        assert(views.take(spaces@.len() as int) =~= views);
    }
    out
}

} // verus!
