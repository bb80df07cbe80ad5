//! The laws the codec obeys, chiefly: formatting a well-formed store and
//! parsing the result yields the store back, exactly.

use vstd::prelude::*;
use crate::model::{
    default_name, spec_decode_priority, spec_tag_of, tag_high, tag_low, tag_medium, tag_urgent,
    Priority, SpecItem, SpecSpace, StatusFilter,
};
use crate::parse::{
    close_brackets, open_brackets, pfx_done, pfx_done_sp, pfx_pending, pfx_pending_sp,
    spec_header_name, spec_is_header, spec_is_task, spec_parse, spec_parse_lines, spec_strip_tags,
    spec_task_of, spec_vacuous,
};
use crate::render::{
    spec_format, spec_format_lines, spec_header_line, spec_join_lines, spec_space_lines,
    spec_task_line,
};
use crate::manager::{spec_listing, SpecListing};
use crate::text::{
    is_ws, lines_rec, match_at, spec_contains, spec_ends_with, spec_lines, spec_starts_with,
    spec_strip_all, spec_trim, spec_trim_end, spec_trim_end_matches, spec_trim_start,
    spec_trim_start_matches,
};

verus! {

/// No character of `s` is a line break.
pub open spec fn no_newline(s: Seq<char>) -> bool {
    forall|k: int| 0 <= k < s.len() ==> s[k] != '\n'
}

/// Trimming `s` gives `s` back: it is empty or bordered by non-whitespace.
pub open spec fn trim_stable(s: Seq<char>) -> bool {
    s.len() == 0 || (!is_ws(s[0]) && !is_ws(s[s.len() - 1]))
}

/// A description the text form represents faithfully: no surrounding
/// whitespace, no line break, no priority tag inside it, and not itself
/// beginning like a task line.
pub open spec fn wf_item(it: SpecItem) -> bool {
    &&& trim_stable(it.item)
    &&& no_newline(it.item)
    &&& !spec_contains(it.item, tag_low())
    &&& !spec_contains(it.item, tag_medium())
    &&& !spec_contains(it.item, tag_high())
    &&& !spec_contains(it.item, tag_urgent())
    &&& !spec_starts_with(it.item, pfx_pending())
    &&& !spec_starts_with(it.item, pfx_done())
}

/// A space the text form represents faithfully: its name has no line break,
/// does not begin with `[[` nor end with `]]`, and all its tasks are
/// well-formed.
pub open spec fn wf_space(sp: SpecSpace) -> bool {
    &&& no_newline(sp.name)
    &&& !spec_starts_with(sp.name, open_brackets())
    &&& !spec_ends_with(sp.name, close_brackets())
    &&& forall|k: int| 0 <= k < sp.todos.len() ==> wf_item(sp.todos[k])
}

/// A store the text form represents faithfully: non-empty, well-formed
/// spaces, `Default` only in first position, and a leading empty `Default`
/// only when it is the whole store.
pub open spec fn wf_store(spaces: Seq<SpecSpace>) -> bool {
    &&& spaces.len() > 0
    &&& forall|i: int| 0 <= i < spaces.len() ==> wf_space(spaces[i])
    &&& forall|i: int| 1 <= i < spaces.len() ==> spaces[i].name != default_name()
    &&& (spaces.len() > 1 && spaces[0].name == default_name() ==> spaces[0].todos.len() > 0)
}

/// Two listings of the same store under the same filter are identical:
/// `list_todos` takes the store immutably and its result is a function of
/// the store and the filter alone.
pub proof fn lemma_list_todos_stable(
    spaces: Seq<SpecSpace>,
    f: StatusFilter,
    r1: Seq<SpecListing>,
    r2: Seq<SpecListing>,
)
    requires
        r1 == spec_listing(spaces, f),
        r2 == spec_listing(spaces, f),
    ensures
        r1 == r2,
{
}

/// Every priority tag is non-empty, free of whitespace, and brace-delimited:
/// `{` exactly at its start, `}` exactly at its end.
pub proof fn lemma_tag_chars(p: Priority)
    ensures
        ({
            let t = spec_tag_of(p);
            &&& t.len() >= 5
            &&& forall|k: int| 0 <= k < t.len() ==> !is_ws(t[k])
            &&& forall|k: int| 0 <= k < t.len() ==> (t[k] == '{' <==> k == 0)
            &&& forall|k: int| 0 <= k < t.len() ==> (t[k] == '}' <==> k == t.len() - 1)
        }),
{
}

/// Different priorities have different tags.
pub proof fn lemma_tags_distinct(p: Priority, q: Priority)
    requires
        p != q,
    ensures
        spec_tag_of(p) != spec_tag_of(q),
{
    assert(spec_tag_of(p)[1] != spec_tag_of(q)[1] || spec_tag_of(p).len() != spec_tag_of(
        q,
    ).len());
}

/// A sequence bordered by non-whitespace trims to itself.
pub proof fn lemma_trim_ident(s: Seq<char>)
    requires
        trim_stable(s),
    ensures
        spec_trim(s) == s,
{
    if s.len() > 0 {
        assert(spec_trim_start(s) == s);
        assert(spec_trim_end(s) == s);
    }
}

/// Removing an absent pattern changes nothing.
pub proof fn lemma_strip_all_absent(s: Seq<char>, p: Seq<char>)
    requires
        p.len() > 0,
        !spec_contains(s, p),
    ensures
        spec_strip_all(s, p) == s,
    decreases s.len(),
{
    if s.len() > 0 {
        if spec_starts_with(s, p) {
            assert(match_at(s, p, 0));
            assert(false);
        }
        assert(!spec_contains(s.skip(1), p)) by {
            if spec_contains(s.skip(1), p) {
                let k = choose|k: int| match_at(s.skip(1), p, k);
                assert(s.subrange(k + 1, k + 1 + p.len() as int) =~= s.skip(1).subrange(
                    k,
                    k + p.len() as int,
                ));
                assert(match_at(s, p, k + 1));
            }
        }
        lemma_strip_all_absent(s.skip(1), p);
        assert(seq![s[0]] + s.skip(1) =~= s);
    }
}

/// Removing a pattern that occurs exactly once, at the very end, removes
/// exactly that final occurrence.
pub proof fn lemma_strip_all_tail(a: Seq<char>, p: Seq<char>)
    requires
        p.len() > 0,
        forall|q0: int| match_at(a + p, p, q0) ==> q0 == a.len(),
    ensures
        spec_strip_all(a + p, p) == a,
    decreases a.len(),
{
    let s = a + p;
    if a.len() == 0 {
        assert(s =~= p);
        assert(s.subrange(0, p.len() as int) =~= p);
        assert(spec_starts_with(s, p));
        assert(s.skip(p.len() as int) =~= Seq::<char>::empty());
        assert(spec_strip_all(Seq::<char>::empty(), p) =~= Seq::<char>::empty());
        assert(spec_strip_all(s, p) == spec_strip_all(s.skip(p.len() as int), p));
        assert(spec_strip_all(s, p) =~= a);
    } else {
        if spec_starts_with(s, p) {
            assert(match_at(s, p, 0));
            assert(false);
        }
        assert(s[0] == a[0]);
        assert(s.skip(1) =~= a.skip(1) + p);
        assert forall|q0: int| match_at(a.skip(1) + p, p, q0) implies q0 == a.skip(1).len() by {
            assert(s.subrange(q0 + 1, q0 + 1 + p.len() as int) =~= (a.skip(1) + p).subrange(
                q0,
                q0 + p.len() as int,
            ));
            assert(match_at(s, p, q0 + 1));
        }
        lemma_strip_all_tail(a.skip(1), p);
        assert(seq![a[0]] + a.skip(1) =~= a);
    }
}

/// The remainder a task line carries after its checkbox prefix.
pub open spec fn spec_rest(it: SpecItem) -> Seq<char> {
    it.item + seq![' '] + spec_tag_of(it.priority)
}

/// Where a tag can occur in a task line's remainder: only the written tag,
/// only at its own position.
pub proof fn lemma_tag_match_position(it: SpecItem, q: Priority, q0: int)
    requires
        wf_item(it),
        match_at(spec_rest(it), spec_tag_of(q), q0),
    ensures
        q == it.priority,
        q0 == it.item.len() + 1,
{
    let d = spec_rest(it);
    let tp = spec_tag_of(it.priority);
    let tq = spec_tag_of(q);
    let li = it.item.len() as int;
    lemma_tag_chars(it.priority);
    lemma_tag_chars(q);
    assert(d.len() == li + 1 + tp.len());
    assert(d[li] == ' ');
    assert(forall|k: int| 0 <= k < li ==> d[k] == it.item[k]);
    assert(forall|k: int| 0 <= k < tp.len() ==> d[li + 1 + k] == tp[k]);
    if q0 + tq.len() <= li {
        assert(it.item.subrange(q0, q0 + tq.len() as int) =~= d.subrange(
            q0,
            q0 + tq.len() as int,
        ));
        assert(match_at(it.item, tq, q0));
        assert(spec_contains(it.item, tq));
        assert(false);
    } else if q0 <= li {
        assert(d.subrange(q0, q0 + tq.len() as int)[li - q0] == d[li]);
        assert(tq[li - q0] == ' ');
        assert(!is_ws(tq[li - q0]));
        assert(false);
    } else {
        assert(q0 >= li + 1);
        let off = q0 - (li + 1);
        assert(d.subrange(q0, q0 + tq.len() as int)[0] == d[q0]);
        assert(tq[0] == '{');
        assert(d[q0] == tp[off]);
        assert(tp[off] == '{');
        assert(off == 0);
        assert(q0 == li + 1);
        let lq = tq.len() as int;
        assert(tq[lq - 1] == '}');
        assert(d.subrange(q0, q0 + tq.len() as int)[lq - 1] == d[q0 + lq - 1]);
        assert(q0 + lq - 1 <= d.len() - 1);
        assert(d[li + 1 + (lq - 1)] == tp[lq - 1]);
        assert(tp[lq - 1] == '}');
        assert(lq - 1 == tp.len() - 1);
        assert(tq =~= tp) by {
            assert(forall|k: int| 0 <= k < lq ==> tq[k] == d.subrange(
                q0,
                q0 + tq.len() as int,
            )[k] && d[q0 + k] == tp[k]);
        }
        if q != it.priority {
            lemma_tags_distinct(q, it.priority);
            assert(false);
        }
    }
}

/// The written tag does occur in the remainder.
pub proof fn lemma_tag_present(it: SpecItem)
    ensures
        match_at(spec_rest(it), spec_tag_of(it.priority), it.item.len() as int + 1),
        spec_contains(spec_rest(it), spec_tag_of(it.priority)),
{
    let d = spec_rest(it);
    let tp = spec_tag_of(it.priority);
    let li = it.item.len() as int;
    assert(d.subrange(li + 1, li + 1 + tp.len() as int) =~= tp);
    assert(match_at(d, tp, li + 1));
}

/// No tag at all occurs in the description followed by its separator.
pub proof fn lemma_no_tag_in_item_sp(it: SpecItem, q: Priority)
    requires
        wf_item(it),
    ensures
        !spec_contains(it.item + seq![' '], spec_tag_of(q)),
{
    let a = it.item + seq![' '];
    let tq = spec_tag_of(q);
    let li = it.item.len() as int;
    lemma_tag_chars(q);
    if spec_contains(a, tq) {
        let q0 = choose|q0: int| match_at(a, tq, q0);
        if q0 + tq.len() <= li {
            assert(it.item.subrange(q0, q0 + tq.len() as int) =~= a.subrange(
                q0,
                q0 + tq.len() as int,
            ));
            assert(match_at(it.item, tq, q0));
            assert(false);
        } else {
            assert(q0 <= li < q0 + tq.len());
            assert(a.subrange(q0, q0 + tq.len() as int)[li - q0] == a[li]);
            assert(a[li] == ' ');
            assert(tq[li - q0] == ' ');
            assert(false);
        }
    }
}

/// The decoder reads back exactly the priority the formatter wrote.
#[verifier::rlimit(60)]
pub proof fn lemma_decode_rest(it: SpecItem)
    requires
        wf_item(it),
    ensures
        spec_decode_priority(spec_rest(it)) == it.priority,
{
    let d = spec_rest(it);
    lemma_tag_present(it);
    assert(spec_contains(d, spec_tag_of(it.priority)));
    if it.priority != Priority::Urgent && spec_contains(d, tag_urgent()) {
        let q0 = choose|q0: int| match_at(d, tag_urgent(), q0);
        assert(match_at(d, spec_tag_of(Priority::Urgent), q0));
        lemma_tag_match_position(it, Priority::Urgent, q0);
        assert(false);
    }
    if it.priority != Priority::High && spec_contains(d, tag_high()) {
        let q0 = choose|q0: int| match_at(d, tag_high(), q0);
        assert(match_at(d, spec_tag_of(Priority::High), q0));
        lemma_tag_match_position(it, Priority::High, q0);
        assert(false);
    }
    if it.priority != Priority::Medium && spec_contains(d, tag_medium()) {
        let q0 = choose|q0: int| match_at(d, tag_medium(), q0);
        assert(match_at(d, spec_tag_of(Priority::Medium), q0));
        lemma_tag_match_position(it, Priority::Medium, q0);
        assert(false);
    }
    if it.priority != Priority::Low && spec_contains(d, tag_low()) {
        let q0 = choose|q0: int| match_at(d, tag_low(), q0);
        assert(match_at(d, spec_tag_of(Priority::Low), q0));
        lemma_tag_match_position(it, Priority::Low, q0);
        assert(false);
    }
}

/// Stripping all four tags from the remainder leaves the description and its
/// separator.
pub proof fn lemma_strip_tags_rest(it: SpecItem)
    requires
        wf_item(it),
    ensures
        spec_strip_tags(spec_rest(it)) == it.item + seq![' '],
{
    lemma_strip_all_absent_chain(spec_rest(it), it);
}

/// Stripping the tags not written leaves the remainder unchanged until the
/// written one is removed, after which nothing more is removed.
proof fn lemma_strip_all_absent_chain(d: Seq<char>, it: SpecItem)
    requires
        wf_item(it),
        d == spec_rest(it),
    ensures
        spec_strip_tags(d) == it.item + seq![' '],
{
    let a = it.item + seq![' '];
    let tp = spec_tag_of(it.priority);
    lemma_tag_chars(Priority::Low);
    lemma_tag_chars(Priority::Medium);
    lemma_tag_chars(Priority::High);
    lemma_tag_chars(Priority::Urgent);
    assert forall|q: Priority| q != it.priority implies !spec_contains(d, spec_tag_of(q)) by {
        if spec_contains(d, spec_tag_of(q)) {
            let q0 = choose|q0: int| match_at(d, spec_tag_of(q), q0);
            lemma_tag_match_position(it, q, q0);
        }
    }
    assert forall|q0: int| match_at(a + tp, tp, q0) implies q0 == a.len() by {
        assert(a + tp =~= d);
        lemma_tag_match_position(it, it.priority, q0);
    }
    lemma_strip_all_tail(a, tp);
    assert(a + tp =~= d);
    assert(spec_strip_all(d, tp) == a);
    lemma_no_tag_in_item_sp(it, Priority::Low);
    lemma_no_tag_in_item_sp(it, Priority::Medium);
    lemma_no_tag_in_item_sp(it, Priority::High);
    lemma_no_tag_in_item_sp(it, Priority::Urgent);
    lemma_strip_all_absent(a, tag_low());
    lemma_strip_all_absent(a, tag_medium());
    lemma_strip_all_absent(a, tag_high());
    lemma_strip_all_absent(a, tag_urgent());
    match it.priority {
        Priority::Low => {
            lemma_strip_all_absent(d, tag_medium());
            lemma_strip_all_absent(d, tag_high());
            lemma_strip_all_absent(d, tag_urgent());
        },
        Priority::Medium => {
            lemma_strip_all_absent(d, tag_low());
            lemma_strip_all_absent(d, tag_high());
            lemma_strip_all_absent(d, tag_urgent());
        },
        Priority::High => {
            lemma_strip_all_absent(d, tag_low());
            lemma_strip_all_absent(d, tag_medium());
            lemma_strip_all_absent(d, tag_urgent());
        },
        Priority::Urgent => {
            lemma_strip_all_absent(d, tag_low());
            lemma_strip_all_absent(d, tag_medium());
            lemma_strip_all_absent(d, tag_high());
        },
    }
}

/// Trimming the description with its trailing separator gives the
/// description back.
pub proof fn lemma_trim_item_sp(it: SpecItem)
    requires
        wf_item(it),
    ensures
        spec_trim(it.item + seq![' ']) == it.item,
{
    let a = it.item + seq![' '];
    let li = it.item.len() as int;
    if li == 0 {
        assert(a =~= seq![' ']);
        assert(is_ws(a[0]));
        assert(a.skip(1) =~= Seq::<char>::empty());
        assert(spec_trim_start(Seq::<char>::empty()) == Seq::<char>::empty());
        assert(spec_trim_start(a) == spec_trim_start(a.skip(1)));
        assert(spec_trim_start(a) =~= Seq::<char>::empty());
        assert(spec_trim(a) =~= it.item);
    } else {
        assert(a[0] == it.item[0]);
        assert(!is_ws(a[0]));
        assert(spec_trim_start(a) == a);
        assert(is_ws(a[a.len() - 1]));
        assert(a.take(a.len() - 1) =~= it.item);
        assert(spec_trim_end(a) == spec_trim_end(it.item));
        assert(!is_ws(it.item[li - 1]));
        assert(spec_trim_end(it.item) == it.item);
    }
}

/// The checkbox prefix strips exactly once from a well-formed task line's
/// remainder.
pub proof fn lemma_rest_not_prefixed(it: SpecItem)
    requires
        wf_item(it),
    ensures
        !spec_starts_with(spec_rest(it), pfx_pending_sp()),
        !spec_starts_with(spec_rest(it), pfx_done_sp()),
{
    let d = spec_rest(it);
    let li = it.item.len() as int;
    let tp = spec_tag_of(it.priority);
    lemma_tag_chars(it.priority);
    assert(d[li] == ' ');
    assert(forall|k: int| 0 <= k < li ==> d[k] == it.item[k]);
    assert(forall|k: int| 0 <= k < tp.len() ==> d[li + 1 + k] == tp[k]);
    if spec_starts_with(d, pfx_pending_sp()) {
        assert(forall|k: int| 0 <= k < 6 ==> d[k] == d.subrange(0, 6)[k] && d.subrange(0, 6)[k]
            == pfx_pending_sp()[k]);
        if li >= 5 {
            assert(it.item.subrange(0, 5) =~= pfx_pending());
            assert(spec_starts_with(it.item, pfx_pending()));
            assert(false);
        } else if li == 0 {
            assert(d[0] == ' ' && pfx_pending_sp()[0] == '-');
            assert(false);
        } else if li == 1 {
            assert(d[2] == tp[0] && tp[0] == '{' && pfx_pending_sp()[2] == '[');
            assert(false);
        } else if li == 2 {
            assert(d[2] == ' ' && pfx_pending_sp()[2] == '[');
            assert(false);
        } else if li == 3 {
            assert(d[4] == tp[0] && tp[0] == '{' && pfx_pending_sp()[4] == ']');
            assert(false);
        } else {
            assert(li == 4);
            assert(d[4] == ' ' && pfx_pending_sp()[4] == ']');
            assert(false);
        }
    }
    if spec_starts_with(d, pfx_done_sp()) {
        assert(forall|k: int| 0 <= k < 6 ==> d[k] == d.subrange(0, 6)[k] && d.subrange(0, 6)[k]
            == pfx_done_sp()[k]);
        if li >= 5 {
            assert(it.item.subrange(0, 5) =~= pfx_done());
            assert(spec_starts_with(it.item, pfx_done()));
            assert(false);
        } else if li == 0 {
            assert(d[0] == ' ' && pfx_done_sp()[0] == '-');
            assert(false);
        } else if li == 1 {
            assert(d[2] == tp[0] && tp[0] == '{' && pfx_done_sp()[2] == '[');
            assert(false);
        } else if li == 2 {
            assert(d[2] == ' ' && pfx_done_sp()[2] == '[');
            assert(false);
        } else if li == 3 {
            assert(d[3] == ' ' && pfx_done_sp()[3] == 'x');
            assert(false);
        } else {
            assert(li == 4);
            assert(d[4] == ' ' && pfx_done_sp()[4] == ']');
            assert(false);
        }
    }
}

/// A task line's shape: trim-stable, not a header, a task line of its own
/// status, with its checkbox prefix stripping exactly once.
#[verifier::rlimit(100)]
proof fn lemma_task_line_shape(it: SpecItem)
    requires
        wf_item(it),
    ensures
        ({
            let l = spec_task_line(it);
            &&& spec_trim(l) == l
            &&& !spec_is_header(l)
            &&& spec_is_task(l)
            &&& spec_starts_with(l, pfx_done()) == it.status
            &&& (it.status ==> spec_trim_start_matches(l, pfx_done_sp()) == spec_rest(it))
            &&& (!it.status ==> spec_trim_start_matches(l, pfx_pending_sp()) == spec_rest(it))
        }),
{
    let l = spec_task_line(it);
    let d = spec_rest(it);
    let tp = spec_tag_of(it.priority);
    lemma_tag_chars(it.priority);
    if it.status {
        assert(l =~= pfx_done_sp() + d);
    } else {
        assert(l =~= pfx_pending_sp() + d);
    }
    assert(l[0] == '-');
    assert(l[l.len() - 1] == tp[tp.len() - 1]);
    assert(l[l.len() - 1] == '}');
    lemma_trim_ident(l);
    // not a header: it starts with '-', not '['
    if spec_is_header(l) {
        assert(l.subrange(0, 2)[0] == open_brackets()[0]);
        assert(false);
    }
    // it is a task line of exactly its own status
    if it.status {
        assert(l.subrange(0, 5) =~= pfx_done());
        assert(spec_starts_with(l, pfx_done()));
    } else {
        assert(l.subrange(0, 5) =~= pfx_pending());
        assert(spec_starts_with(l, pfx_pending()));
        if spec_starts_with(l, pfx_done()) {
            assert(l.subrange(0, 5)[3] == pfx_done()[3]);
            assert(l[3] == ' ' && pfx_done()[3] == 'x');
            assert(false);
        }
    }
    // the prefix strips exactly once
    lemma_rest_not_prefixed(it);
    if it.status {
        assert(l.subrange(0, 6) =~= pfx_done_sp());
        assert(spec_starts_with(l, pfx_done_sp()));
        assert(l.skip(6) =~= d);
        assert(spec_trim_start_matches(d, pfx_done_sp()) == d);
        assert(spec_trim_start_matches(l, pfx_done_sp()) == spec_trim_start_matches(
            l.skip(6),
            pfx_done_sp(),
        ));
    } else {
        assert(l.subrange(0, 6) =~= pfx_pending_sp());
        assert(spec_starts_with(l, pfx_pending_sp()));
        assert(l.skip(6) =~= d);
        assert(spec_trim_start_matches(d, pfx_pending_sp()) == d);
        assert(spec_trim_start_matches(l, pfx_pending_sp()) == spec_trim_start_matches(
            l.skip(6),
            pfx_pending_sp(),
        ));
    }
}

/// A task line of a well-formed task holds no line break.
proof fn lemma_task_line_no_newline(it: SpecItem)
    requires
        wf_item(it),
    ensures
        no_newline(spec_task_line(it)),
{
    let l = spec_task_line(it);
    let d = spec_rest(it);
    let li = it.item.len() as int;
    let tp = spec_tag_of(it.priority);
    lemma_tag_chars(it.priority);
    assert forall|k: int| 0 <= k < l.len() implies l[k] != '\n' by {
        if it.status {
            assert(l =~= pfx_done_sp() + d);
        } else {
            assert(l =~= pfx_pending_sp() + d);
        }
        if k >= 6 {
            let k2 = k - 6;
            assert(l[k] == d[k2]);
            if k2 < li {
                assert(d[k2] == it.item[k2]);
            } else if k2 == li {
                assert(d[k2] == ' ');
            } else {
                assert(d[k2] == tp[k2 - li - 1]);
                assert(!is_ws(tp[k2 - li - 1]));
            }
        }
    }
}

/// A well-formed task formats to a line that reads back as exactly that task.
pub proof fn lemma_task_line_roundtrip(it: SpecItem)
    requires
        wf_item(it),
    ensures
        ({
            let l = spec_task_line(it);
            &&& spec_trim(l) == l
            &&& !spec_is_header(l)
            &&& spec_is_task(l)
            &&& spec_task_of(l) == it
            &&& no_newline(l)
        }),
{
    let l = spec_task_line(it);
    lemma_task_line_shape(it);
    lemma_task_line_no_newline(it);
    lemma_decode_rest(it);
    lemma_strip_tags_rest(it);
    lemma_trim_item_sp(it);
    assert(spec_task_of(l) == it);
}

/// A well-formed space name formats to a header line that reads back as
/// exactly that name.
pub proof fn lemma_header_line_roundtrip(name: Seq<char>)
    requires
        !spec_starts_with(name, open_brackets()),
        !spec_ends_with(name, close_brackets()),
        no_newline(name),
    ensures
        ({
            let l = spec_header_line(name);
            &&& spec_trim(l) == l
            &&& spec_is_header(l)
            &&& spec_header_name(l) == name
            &&& no_newline(l)
        }),
{
    let l = spec_header_line(name);
    let ln = name.len() as int;
    assert(l.len() == ln + 4);
    assert(l[0] == '[');
    assert(l[1] == '[');
    assert(forall|k: int| 0 <= k < ln ==> l[2 + k] == name[k]);
    assert(l[ln + 2] == ']');
    assert(l[ln + 3] == ']');
    lemma_trim_ident(l);
    assert(l.subrange(0, 2) =~= open_brackets());
    assert(l.subrange(l.len() - 2, l.len() as int) =~= close_brackets());
    assert(spec_is_header(l));
    // `[[` strips exactly once
    let m = name + close_brackets();
    assert(l.skip(2) =~= m);
    if spec_starts_with(m, open_brackets()) {
        if ln >= 2 {
            assert(name.subrange(0, 2) =~= m.subrange(0, 2));
            assert(spec_starts_with(name, open_brackets()));
            assert(false);
        } else if ln == 1 {
            assert(m.subrange(0, 2)[1] == m[1] && m[1] == ']');
            assert(false);
        } else {
            assert(m.subrange(0, 2)[0] == m[0] && m[0] == ']');
            assert(false);
        }
    }
    assert(spec_trim_start_matches(m, open_brackets()) == m);
    assert(spec_trim_start_matches(l, open_brackets()) == spec_trim_start_matches(
        l.skip(2),
        open_brackets(),
    ));
    assert(spec_trim_start_matches(l, open_brackets()) == m);
    // `]]` strips exactly once
    assert(m.subrange(m.len() - 2, m.len() as int) =~= close_brackets());
    assert(spec_ends_with(m, close_brackets()));
    assert(m.take(m.len() - 2) =~= name);
    assert(spec_trim_end_matches(m, close_brackets()) == spec_trim_end_matches(
        name,
        close_brackets(),
    ));
    assert(spec_trim_end_matches(name, close_brackets()) == name);
    assert(spec_header_name(l) == name);
    assert forall|k: int| 0 <= k < l.len() implies l[k] != '\n' by {
        if 2 <= k < ln + 2 {
            assert(l[k] == name[k - 2]);
        }
    }
}

/// Splitting a joined sequence of newline-free lines gives the lines back.
proof fn lemma_lines_rec_line(l: Seq<char>, t: Seq<char>, cur: Seq<char>)
    requires
        no_newline(l),
    ensures
        lines_rec(l + seq!['\n'] + t, cur) == seq![cur + l] + lines_rec(t, Seq::empty()),
    decreases l.len(),
{
    let s = l + seq!['\n'] + t;
    if l.len() == 0 {
        assert(s[0] == '\n');
        assert(s.skip(1) =~= t);
        assert(cur + l =~= cur);
    } else {
        assert(s[0] == l[0]);
        assert(s[0] != '\n');
        assert(s.skip(1) =~= l.skip(1) + seq!['\n'] + t);
        lemma_lines_rec_line(l.skip(1), t, cur.push(l[0]));
        assert(cur.push(l[0]) + l.skip(1) =~= cur + l);
    }
}

/// Splitting the join of newline-free lines yields them all back.
pub proof fn lemma_lines_of_join(ls: Seq<Seq<char>>)
    requires
        forall|i: int| 0 <= i < ls.len() ==> no_newline(ls[i]),
    ensures
        spec_lines(spec_join_lines(ls)) == ls,
    decreases ls.len(),
{
    if ls.len() == 0 {
        assert(spec_join_lines(ls) =~= Seq::<char>::empty());
    } else {
        lemma_lines_rec_line(ls[0], spec_join_lines(ls.skip(1)), Seq::empty());
        lemma_lines_of_join(ls.skip(1));
        assert(Seq::<char>::empty() + ls[0] =~= ls[0]);
        assert(seq![ls[0]] + ls.skip(1) =~= ls);
    }
}

/// Every line the formatter emits for well-formed spaces is newline-free.
proof fn lemma_format_lines_no_newline(spaces: Seq<SpecSpace>)
    requires
        forall|i: int| 0 <= i < spaces.len() ==> wf_space(spaces[i]),
    ensures
        forall|i: int|
            0 <= i < spec_format_lines(spaces).len() ==> no_newline(spec_format_lines(spaces)[i]),
    decreases spaces.len(),
{
    if spaces.len() > 0 {
        let sp = spaces[0];
        let sl = spec_space_lines(sp);
        assert forall|i: int| 0 <= i < sl.len() implies no_newline(sl[i]) by {
            let hdr: Seq<Seq<char>> = if sp.name == default_name() {
                Seq::empty()
            } else {
                seq![spec_header_line(sp.name)]
            };
            let tl = sp.todos.map_values(|t: SpecItem| spec_task_line(t));
            if i < hdr.len() {
                lemma_header_line_roundtrip(sp.name);
                assert(sl[i] == spec_header_line(sp.name));
            } else if i < hdr.len() + tl.len() {
                let j = i - hdr.len();
                assert(sl[i] == tl[j]);
                assert(tl[j] == spec_task_line(sp.todos[j]));
                assert(wf_item(sp.todos[j]));
                lemma_task_line_roundtrip(sp.todos[j]);
            } else {
                assert(sl[i] =~= Seq::<char>::empty());
            }
        }
        assert(forall|i: int| 0 <= i < spaces.skip(1).len() ==> wf_space(spaces.skip(1)[i]));
        lemma_format_lines_no_newline(spaces.skip(1));
        let rest = spec_format_lines(spaces.skip(1));
        assert forall|i: int|
            0 <= i < spec_format_lines(spaces).len() implies no_newline(
            spec_format_lines(spaces)[i],
        ) by {
            if i < sl.len() {
                assert(spec_format_lines(spaces)[i] == sl[i]);
            } else {
                assert(spec_format_lines(spaces)[i] == rest[i - sl.len()]);
            }
        }
    }
}

/// Parsing the formatted task lines of one space extends the accumulator by
/// exactly those tasks.
proof fn lemma_parse_task_lines(
    name: Seq<char>,
    built: Seq<SpecItem>,
    todos: Seq<SpecItem>,
    tail: Seq<Seq<char>>,
    done: Seq<SpecSpace>,
)
    requires
        forall|i: int| 0 <= i < todos.len() ==> wf_item(todos[i]),
    ensures
        spec_parse_lines(
            todos.map_values(|t: SpecItem| spec_task_line(t)) + tail,
            SpecSpace { name, todos: built },
            done,
        ) == spec_parse_lines(tail, SpecSpace { name, todos: built + todos }, done),
    decreases todos.len(),
{
    let tl = todos.map_values(|t: SpecItem| spec_task_line(t));
    if todos.len() == 0 {
        assert(tl + tail =~= tail);
        assert(built + todos =~= built);
    } else {
        let it = todos[0];
        lemma_task_line_roundtrip(it);
        let lines = tl + tail;
        assert(lines[0] == spec_task_line(it));
        assert(spec_trim(lines[0]) == lines[0]);
        assert(lines.skip(1) =~= todos.skip(1).map_values(|t: SpecItem| spec_task_line(t))
            + tail);
        assert(forall|i: int| 0 <= i < todos.skip(1).len() ==> wf_item(todos.skip(1)[i]));
        lemma_parse_task_lines(name, built.push(it), todos.skip(1), tail, done);
        assert(built.push(it) + todos.skip(1) =~= built + todos);
    }
}

/// Parsing the formatted lines of non-`Default` spaces finalizes the
/// accumulator and then yields those spaces, one per header.
#[verifier::rlimit(100)]
proof fn lemma_parse_format_rec(spaces: Seq<SpecSpace>, acc: SpecSpace, done: Seq<SpecSpace>)
    requires
        forall|i: int|
            0 <= i < spaces.len() ==> wf_space(spaces[i]) && spaces[i].name != default_name(),
    ensures
        spec_parse_lines(spec_format_lines(spaces), acc, done) == (
        if !spec_vacuous(acc) || (spaces.len() == 0 && done.len() == 0) {
            done.push(acc)
        } else {
            done
        }) + spaces,
    decreases spaces.len(),
{
    if spaces.len() == 0 {
        assert(spec_format_lines(spaces).len() == 0);
        if !spec_vacuous(acc) || done.len() == 0 {
            assert(done.push(acc) + spaces =~= done.push(acc));
        } else {
            assert(done + spaces =~= done);
        }
    } else {
        let sp = spaces[0];
        let hdr = spec_header_line(sp.name);
        lemma_header_line_roundtrip(sp.name);
        let tl = sp.todos.map_values(|t: SpecItem| spec_task_line(t));
        let blank: Seq<Seq<char>> = seq![Seq::<char>::empty()];
        let rest = spec_format_lines(spaces.skip(1));
        let lines = spec_format_lines(spaces);
        assert(spec_space_lines(sp) == seq![hdr] + tl + blank);
        assert(lines == spec_space_lines(sp) + rest);
        assert(lines[0] == hdr);
        assert(spec_trim(lines[0]) == hdr);
        assert(spec_is_header(hdr));
        let done2 = if !spec_vacuous(acc) {
            done.push(acc)
        } else {
            done
        };
        let acc1 = SpecSpace { name: spec_header_name(hdr), todos: Seq::empty() };
        assert(acc1.name == sp.name);
        assert(lines.skip(1) =~= tl + (blank + rest));
        lemma_parse_task_lines(sp.name, Seq::empty(), sp.todos, blank + rest, done2);
        assert(Seq::<SpecItem>::empty() + sp.todos =~= sp.todos);
        assert(SpecSpace { name: sp.name, todos: sp.todos } == sp);
        // the blank separator line is ignored
        let b = (blank + rest)[0];
        assert(b =~= Seq::<char>::empty());
        assert(spec_trim(b) =~= Seq::<char>::empty());
        assert(!spec_is_header(spec_trim(b)));
        assert(!spec_is_task(spec_trim(b)));
        assert((blank + rest).skip(1) =~= rest);
        assert(spec_parse_lines(blank + rest, sp, done2) == spec_parse_lines(rest, sp, done2));
        assert(forall|i: int|
            0 <= i < spaces.skip(1).len() ==> wf_space(spaces.skip(1)[i]) && spaces.skip(
                1,
            )[i].name != default_name());
        lemma_parse_format_rec(spaces.skip(1), sp, done2);
        assert(!spec_vacuous(sp));
        assert(spec_parse_lines(rest, sp, done2) == done2.push(sp) + spaces.skip(1));
        assert(done2.push(sp) + spaces.skip(1) =~= done2 + spaces);
        if !spec_vacuous(acc) || (spaces.len() == 0 && done.len() == 0) {
            assert(done2 == done.push(acc));
        } else {
            assert(done2 == done);
        }
    }
}

/// Round-trip: formatting a well-formed store and parsing the result yields
/// the store back — names, order, statuses, priorities and descriptions all
/// preserved.
pub proof fn lemma_format_parse_roundtrip(spaces: Seq<SpecSpace>)
    requires
        wf_store(spaces),
    ensures
        spec_parse(spec_format(spaces)) == spaces,
{
    let ls = spec_format_lines(spaces);
    lemma_format_lines_no_newline(spaces);
    lemma_lines_of_join(ls);
    assert(spec_lines(spec_format(spaces)) == ls);
    let acc0 = SpecSpace { name: default_name(), todos: Seq::empty() };
    let sp = spaces[0];
    if sp.name == default_name() {
        let tl = sp.todos.map_values(|t: SpecItem| spec_task_line(t));
        let blank: Seq<Seq<char>> = seq![Seq::<char>::empty()];
        let rest = spec_format_lines(spaces.skip(1));
        assert(spec_space_lines(sp) == Seq::<Seq<char>>::empty() + tl + blank);
        assert(Seq::<Seq<char>>::empty() + tl + blank =~= tl + blank);
        assert(ls == spec_space_lines(sp) + rest);
        assert(ls =~= tl + (blank + rest));
        lemma_parse_task_lines(default_name(), Seq::empty(), sp.todos, blank + rest, Seq::empty());
        assert(acc0.todos + sp.todos =~= sp.todos);
        assert(SpecSpace { name: default_name(), todos: acc0.todos + sp.todos } == sp);
        let b = (blank + rest)[0];
        assert(b =~= Seq::<char>::empty());
        assert(spec_trim(b) =~= Seq::<char>::empty());
        assert(!spec_is_header(spec_trim(b)));
        assert(!spec_is_task(spec_trim(b)));
        assert((blank + rest).skip(1) =~= rest);
        assert(spec_parse_lines(blank + rest, sp, Seq::empty()) == spec_parse_lines(
            rest,
            sp,
            Seq::empty(),
        ));
        assert(forall|i: int|
            0 <= i < spaces.skip(1).len() ==> wf_space(spaces.skip(1)[i]) && spaces.skip(
                1,
            )[i].name != default_name());
        lemma_parse_format_rec(spaces.skip(1), sp, Seq::empty());
        if spaces.len() > 1 {
            assert(sp.todos.len() > 0);
            assert(!spec_vacuous(sp));
        }
        assert(Seq::<SpecSpace>::empty().push(sp) + spaces.skip(1) =~= spaces);
    } else {
        assert(forall|i: int|
            0 <= i < spaces.len() ==> wf_space(spaces[i]) && spaces[i].name != default_name());
        lemma_parse_format_rec(spaces, acc0, Seq::empty());
        assert(spec_vacuous(acc0));
        assert(Seq::<SpecSpace>::empty() + spaces =~= spaces);
    }
}

} // verus!
