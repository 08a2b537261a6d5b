//! The list items of the task tree's HTML: as many items open in the text
//! as there are tasks in the tree, provided that no text of a task holds
//! the opening of an item itself.

use vstd::prelude::*;
use crate::task::TaskView;
use crate::text::{contains_text, decimal, decimals, join};
use crate::ui::{
    item_head, item_notes, item_status, item_summary, task_class, task_html, task_items_html, tasks_html,
};

verus! {

/// The text that opens a list item of the task tree.
pub open spec fn item_mark() -> Seq<char> {
    "<li class='"@
}

/// Whether `s` starts with the opening of a list item.
pub open spec fn opens_item(s: Seq<char>) -> bool {
    s.len() >= item_mark().len() && s.subrange(0, item_mark().len() as int) == item_mark()
}

/// The number of positions of `s` at which a list item opens.
pub open spec fn item_count(s: Seq<char>) -> nat
    decreases s.len(),
{
    if s.len() == 0 {
        0
    } else {
        (if opens_item(s) {
            1nat
        } else {
            0nat
        }) + item_count(s.drop_first())
    }
}

/// The number of tasks in the forest `ts`, every descendant counted.
pub open spec fn forest_size(ts: Seq<TaskView>) -> nat
    decreases ts,
{
    if ts.len() == 0 {
        0
    } else {
        forest_size(ts.subrange(0, ts.len() - 1)) + 1 + forest_size(ts[ts.len() - 1].subtasks)
    }
}

/// Whether none of the texts of `t` itself holds the opening of an item.
pub open spec fn task_texts_plain(t: TaskView) -> bool {
    &&& !contains_text(t.description, item_mark())
    &&& (t.completion_summary matches Some(s) ==> !contains_text(s, item_mark()))
    &&& (t.notes matches Some(n) ==> !contains_text(n, item_mark()))
}

/// Whether no text of any task in the forest `ts` holds the opening of an
/// item.
pub open spec fn forest_texts_plain(ts: Seq<TaskView>) -> bool
    decreases ts,
{
    if ts.len() == 0 {
        true
    } else {
        &&& forest_texts_plain(ts.subrange(0, ts.len() - 1))
        &&& task_texts_plain(ts[ts.len() - 1])
        &&& forest_texts_plain(ts[ts.len() - 1].subtasks)
    }
}

/// Whether every `<` in `s` is followed by a character other than `l`, and
/// `s` does not end with `<`: no item opens in such a text, nor at its
/// end when more text follows.
pub open spec fn tame(s: Seq<char>) -> bool {
    &&& forall|i: int| 0 <= i < s.len() - 1 ==> (#[trigger] s[i] == '<' ==> s[i + 1] != 'l')
    &&& (s.len() > 0 ==> s.last() != '<')
}

/// Whether `s` holds no `<`.
pub open spec fn no_angle(s: Seq<char>) -> bool {
    forall|i: int| 0 <= i < s.len() ==> #[trigger] s[i] != '<'
}

proof fn lemma_mark()
    ensures
        item_mark().len() == 11,
        item_mark()[0] == '<',
        item_mark()[1] == 'l',
        forall|k: int| 1 <= k < 11 ==> #[trigger] item_mark()[k] != '<',
        forall|k: int| 0 <= k < 11 ==> #[trigger] item_mark()[k] != '>',
{
    reveal_strlit("<li class='");
}

proof fn lemma_tame_count(s: Seq<char>)
    requires
        tame(s),
    ensures
        item_count(s) == 0,
    decreases s.len(),
{
    lemma_mark();
    if s.len() > 0 {
        if opens_item(s) {
            assert(s[0] == item_mark()[0]);
            assert(s[1] == item_mark()[1]);
        }
        let d = s.drop_first();
        assert forall|i: int| 0 <= i < d.len() - 1 && #[trigger] d[i] == '<' implies d[i + 1] != 'l' by {
            assert(d[i] == s[i + 1]);
            assert(d[i + 1] == s[i + 2]);
        }
        if d.len() > 0 {
            assert(d.last() == s.last());
        }
        lemma_tame_count(d);
    }
}

proof fn lemma_tame_concat(a: Seq<char>, b: Seq<char>)
    requires
        tame(a),
        tame(b),
    ensures
        tame(a + b),
{
    let s = a + b;
    assert forall|i: int| 0 <= i < s.len() - 1 && #[trigger] s[i] == '<' implies s[i + 1] != 'l' by {
        if i < a.len() - 1 {
            assert(s[i] == a[i] && s[i + 1] == a[i + 1]);
        } else if i == a.len() - 1 {
            assert(s[i] == a.last());
        } else {
            assert(s[i] == b[i - a.len()] && s[i + 1] == b[i + 1 - a.len()]);
        }
    }
    if s.len() > 0 {
        if b.len() > 0 {
            assert(s.last() == b.last());
        } else {
            assert(s.last() == a.last());
        }
    }
}

proof fn lemma_no_angle_tame(s: Seq<char>)
    requires
        no_angle(s),
    ensures
        tame(s),
{
    if s.len() > 0 {
        assert(s.last() == s[s.len() - 1]);
    }
}

proof fn lemma_decimal_no_angle(n: nat)
    ensures
        no_angle(decimal(n)),
    decreases n,
{
    if n >= 10 {
        lemma_decimal_no_angle(n / 10);
        let d = decimal(n);
        assert forall|i: int| 0 <= i < d.len() implies #[trigger] d[i] != '<' by {
            if i < decimal(n / 10).len() {
                assert(d[i] == decimal(n / 10)[i]);
            }
        }
    }
}

proof fn lemma_join_no_angle(list: Seq<Seq<char>>, sep: Seq<char>)
    requires
        no_angle(sep),
        forall|i: int| 0 <= i < list.len() ==> no_angle(#[trigger] list[i]),
    ensures
        no_angle(join(list, sep)),
    decreases list.len(),
{
    if list.len() > 1 {
        lemma_join_no_angle(list.drop_last(), sep);
        let j = join(list.drop_last(), sep);
        let x = list.last();
        assert(no_angle(x));
        let s = join(list, sep);
        assert(s == j + sep + x);
        assert forall|i: int| 0 <= i < s.len() implies #[trigger] s[i] != '<' by {
            if i < j.len() {
                assert(s[i] == j[i]);
            } else if i < j.len() + sep.len() {
                assert(s[i] == sep[i - j.len()]);
            } else {
                assert(s[i] == x[i - j.len() - sep.len()]);
            }
        }
    } else if list.len() == 1 {
        assert(no_angle(list[0]));
    }
}

proof fn lemma_dotted_no_angle(p: Seq<usize>)
    ensures
        no_angle(join(decimals(p), "."@)),
{
    reveal_strlit(".");
    assert forall|i: int| 0 <= i < decimals(p).len() implies no_angle(#[trigger] decimals(p)[i]) by {
        lemma_decimal_no_angle(p[i] as nat);
    }
    lemma_join_no_angle(decimals(p), "."@);
}

/// Where `b` is empty or starts with `<`, or `a` is empty or ends with
/// `>`, no item opens across the seam of `a + b`.
proof fn lemma_count_concat(a: Seq<char>, b: Seq<char>)
    requires
        a.len() == 0 || b.len() == 0 || b[0] == '<' || a.last() == '>',
    ensures
        item_count(a + b) == item_count(a) + item_count(b),
    decreases a.len(),
{
    lemma_mark();
    let s = a + b;
    if a.len() == 0 {
        assert(s =~= b);
    } else {
        let d = a.drop_first();
        assert(s.drop_first() =~= d + b);
        if d.len() > 0 {
            assert(d.last() == a.last());
        }
        lemma_count_concat(d, b);
        if a.len() >= 11 {
            assert(s.subrange(0, 11) =~= a.subrange(0, 11));
        } else if opens_item(s) {
            let m = item_mark();
            if b.len() > 0 && b[0] == '<' {
                assert(s[a.len() as int] == b[0]);
                assert(s[a.len() as int] == s.subrange(0, 11)[a.len() as int]);
                assert(m[a.len() as int] != '<');
            } else {
                assert(s[a.len() - 1] == a.last());
                assert(s[a.len() - 1] == s.subrange(0, 11)[a.len() - 1]);
                assert(m[a.len() - 1] != '>');
            }
        }
    }
}

proof fn lemma_plain_count(s: Seq<char>)
    requires
        !contains_text(s, item_mark()),
    ensures
        item_count(s) == 0,
    decreases s.len(),
{
    lemma_mark();
    if s.len() > 0 {
        if opens_item(s) {
            assert(s.subrange(0int, 0int + item_mark().len()) == item_mark());
        }
        let d = s.drop_first();
        if contains_text(d, item_mark()) {
            let i = choose|i: int| 0 <= i <= d.len() - item_mark().len() && #[trigger] d.subrange(i, i + item_mark().len()) == item_mark();
            assert(s.subrange(i + 1, i + 1 + item_mark().len()) =~= d.subrange(i, i + item_mark().len()));
        }
        lemma_plain_count(d);
    }
}

/// What a list item's head holds between the opening of the item and the
/// description: the class, the level, and the index path.
pub open spec fn head_middle(class: Seq<char>, level: Seq<char>, dots: Seq<char>) -> Seq<char> {
    class + "'><div class='task-item'>"@ + "<span class='task-level level-"@ + level + "'>"@ + level + "</span>"@
        + "<span class='task-path'>"@ + dots + "</span>"@ + "<span class='task-desc'>"@
}

proof fn lemma_middle_tame(class: Seq<char>, level: Seq<char>, dots: Seq<char>)
    requires
        no_angle(class),
        no_angle(level),
        no_angle(dots),
    ensures
        tame(head_middle(class, level, dots)),
        head_middle(class, level, dots).last() == '>',
{
    let l2 = "'><div class='task-item'>"@;
    let l3 = "<span class='task-level level-"@;
    let l4 = "'>"@;
    let l5 = "</span>"@;
    let l6 = "<span class='task-path'>"@;
    let l7 = "<span class='task-desc'>"@;
    reveal_strlit("'><div class='task-item'>");
    reveal_strlit("<span class='task-level level-");
    reveal_strlit("'>");
    reveal_strlit("</span>");
    reveal_strlit("<span class='task-path'>");
    reveal_strlit("<span class='task-desc'>");
    lemma_no_angle_tame(class);
    lemma_no_angle_tame(level);
    lemma_no_angle_tame(dots);
    assert(tame(l2));
    assert(tame(l3));
    assert(tame(l4));
    assert(tame(l5));
    assert(tame(l6));
    assert(tame(l7));
    let w1 = class + l2;
    lemma_tame_concat(class, l2);
    let w2 = w1 + l3;
    lemma_tame_concat(w1, l3);
    let w3 = w2 + level;
    lemma_tame_concat(w2, level);
    let w4 = w3 + l4;
    lemma_tame_concat(w3, l4);
    let w5 = w4 + level;
    lemma_tame_concat(w4, level);
    let w6 = w5 + l5;
    lemma_tame_concat(w5, l5);
    let w7 = w6 + l6;
    lemma_tame_concat(w6, l6);
    let w8 = w7 + dots;
    lemma_tame_concat(w7, dots);
    let w9 = w8 + l5;
    lemma_tame_concat(w8, l5);
    lemma_tame_concat(w9, l7);
    assert((w9 + l7).last() == l7.last());
}

proof fn lemma_class_no_angle(is_current: bool, completed: bool)
    ensures
        no_angle(task_class(is_current, completed)),
{
    reveal_strlit("current completed");
    reveal_strlit("current");
    reveal_strlit("completed");
    reveal_strlit("");
}

#[verifier::rlimit(40)]
proof fn lemma_head_shape(t: TaskView, p: Seq<usize>, is_current: bool)
    ensures
        item_head(t, p, is_current) =~= item_mark() + head_middle(
            task_class(is_current, t.completed),
            decimal(
                match t.level_index {
                    Some(l) => l as nat,
                    None => p.len(),
                },
            ),
            crate::text::dotted(p),
        ) + t.description + "</span>"@,
{
}

/// A list item's head counts one item, plus those in the description.
proof fn lemma_head_count(t: TaskView, p: Seq<usize>, is_current: bool)
    ensures
        item_count(item_head(t, p, is_current)) == 1 + item_count(t.description),
        item_head(t, p, is_current)[0] == '<',
        item_head(t, p, is_current).last() == '>',
{
    lemma_mark();
    let level: nat = match t.level_index {
        Some(l) => l as nat,
        None => p.len(),
    };
    let m = item_mark();
    let l5 = "</span>"@;
    reveal_strlit("</span>");
    lemma_decimal_no_angle(level);
    lemma_dotted_no_angle(p);
    lemma_class_no_angle(is_current, t.completed);
    let w = head_middle(task_class(is_current, t.completed), decimal(level), crate::text::dotted(p));
    lemma_middle_tame(task_class(is_current, t.completed), decimal(level), crate::text::dotted(p));
    reveal_strlit("<li class='");
    let tail = m.drop_first();
    assert(tame(tail));
    lemma_tame_concat(tail, w);
    lemma_tame_count(tail + w);
    let x = m + w;
    assert(x.drop_first() =~= tail + w);
    assert(x.subrange(0, 11) =~= m);
    assert(item_count(x) == 1);
    lemma_head_shape(t, p, is_current);
    let h = item_head(t, p, is_current);
    assert(x.last() == w.last());
    lemma_count_concat(x, t.description);
    lemma_count_concat(x + t.description, l5);
    assert(tame(l5));
    lemma_tame_count(l5);
    assert(h[0] == m[0]);
    assert(h.last() == l5.last());
}

/// The parts of a list item after its head count the items in the
/// summary and the notes, and each starts with `<` where not empty.
proof fn lemma_parts_count(t: TaskView)
    ensures
        item_count(item_summary(t)) == (if t.completed && t.completion_summary is Some {
            item_count(t.completion_summary->0)
        } else {
            0
        }),
        item_summary(t).len() == 0 || item_summary(t)[0] == '<',
        item_count(item_status(t)) == 0,
        item_status(t)[0] == '<',
        item_count(item_notes(t)) == (match t.notes {
            Some(n) => item_count(n),
            None => 0,
        }),
        item_notes(t).len() == 0 || item_notes(t)[0] == '<',
{
    let o1 = "<span class='task-summary'>"@;
    let c1 = "</span>"@;
    let o2 = "<span class='task-status'>"@;
    let c2 = "</div>"@;
    let o3 = "<div class='task-notes'>"@;
    reveal_strlit("<span class='task-summary'>");
    reveal_strlit("</span>");
    reveal_strlit("<span class='task-status'>");
    reveal_strlit("</div>");
    reveal_strlit("<div class='task-notes'>");
    reveal_strlit("✓");
    reveal_strlit("○");
    assert(tame(o1));
    assert(tame(c1));
    assert(tame(o2));
    assert(tame(c2));
    assert(tame(o3));
    lemma_tame_count(o1);
    lemma_tame_count(c1);
    lemma_tame_count(c2);
    lemma_tame_count(o3);
    if t.completed && t.completion_summary is Some {
        let s = t.completion_summary->0;
        lemma_count_concat(o1, s);
        lemma_count_concat(o1 + s, c1);
        assert(item_summary(t)[0] == o1[0]);
    }
    let g = if t.completed {
        "✓"@
    } else {
        "○"@
    };
    assert(tame(g));
    lemma_tame_concat(o2, g);
    lemma_tame_concat(o2 + g, c1);
    lemma_tame_concat(o2 + g + c1, c2);
    lemma_tame_count(item_status(t));
    assert(item_status(t)[0] == o2[0]);
    if let Some(n) = t.notes {
        lemma_count_concat(o3, n);
        lemma_count_concat(o3 + n, c2);
        assert(item_notes(t)[0] == o3[0]);
    }
}

proof fn lemma_task_count(t: TaskView, p: Seq<usize>, current: Option<Seq<usize>>)
    requires
        task_texts_plain(t),
        forest_texts_plain(t.subtasks),
    ensures
        item_count(task_html(t, p, current)) == 1 + forest_size(t.subtasks),
        task_html(t, p, current)[0] == '<',
    decreases t, 2int,
{
    let h = item_head(t, p, current == Some(p));
    lemma_head_count(t, p, current == Some(p));
    lemma_parts_count(t);
    lemma_plain_count(t.description);
    if t.completed && t.completion_summary is Some {
        lemma_plain_count(t.completion_summary->0);
    }
    if let Some(n) = t.notes {
        lemma_plain_count(n);
    }
    let nested = if t.subtasks.len() > 0 {
        tasks_html(t.subtasks, current, p)
    } else {
        Seq::empty()
    };
    if t.subtasks.len() > 0 {
        lemma_list_count(t.subtasks, current, p);
    }
    let end = "</li>"@;
    reveal_strlit("</li>");
    assert(tame(end));
    lemma_tame_count(end);
    let a1 = h + item_summary(t);
    lemma_count_concat(h, item_summary(t));
    let a2 = a1 + item_status(t);
    lemma_count_concat(a1, item_status(t));
    let a3 = a2 + item_notes(t);
    lemma_count_concat(a2, item_notes(t));
    let a4 = a3 + nested;
    lemma_count_concat(a3, nested);
    lemma_count_concat(a4, end);
    assert(task_html(t, p, current) == a4 + end);
    assert(task_html(t, p, current)[0] == h[0]);
}

proof fn lemma_items_count(ts: Seq<TaskView>, current: Option<Seq<usize>>, path: Seq<usize>)
    requires
        forest_texts_plain(ts),
    ensures
        item_count(task_items_html(ts, current, path)) == forest_size(ts),
        ts.len() > 0 ==> task_items_html(ts, current, path)[0] == '<',
    decreases ts, 0int,
{
    if ts.len() > 0 {
        let init = ts.subrange(0, ts.len() - 1);
        let last = ts[ts.len() - 1];
        lemma_items_count(init, current, path);
        lemma_task_count(last, path.push((ts.len() - 1) as usize), current);
        let x = task_items_html(init, current, path);
        let y = task_html(last, path.push((ts.len() - 1) as usize), current);
        lemma_count_concat(x, y);
        if init.len() > 0 {
            assert((x + y)[0] == x[0]);
        } else {
            assert(x.len() == 0);
            assert((x + y)[0] == y[0]);
        }
    }
}

proof fn lemma_list_count(ts: Seq<TaskView>, current: Option<Seq<usize>>, path: Seq<usize>)
    requires
        forest_texts_plain(ts),
    ensures
        item_count(tasks_html(ts, current, path)) == forest_size(ts),
        tasks_html(ts, current, path)[0] == '<',
    decreases ts, 1int,
{
    if ts.len() == 0 {
        reveal_strlit("<p>No tasks yet.</p>");
        assert(tame("<p>No tasks yet.</p>"@));
        lemma_tame_count("<p>No tasks yet.</p>"@);
    } else {
        let o = "<ul class='task-tree'>"@;
        let c = "</ul>"@;
        reveal_strlit("<ul class='task-tree'>");
        reveal_strlit("</ul>");
        assert(tame(o));
        assert(tame(c));
        lemma_tame_count(o);
        lemma_tame_count(c);
        lemma_items_count(ts, current, path);
        let items = task_items_html(ts, current, path);
        lemma_count_concat(o, items);
        lemma_count_concat(o + items, c);
        assert(tasks_html(ts, current, path)[0] == o[0]);
    }
}

/// The nested task list opens exactly one list item per task of the
/// forest, every descendant counted, provided that no description,
/// completion summary or notes of a task holds the opening of an item
/// itself.
pub proof fn law_one_item_per_task(ts: Seq<TaskView>, current: Option<Seq<usize>>, path: Seq<usize>)
    requires
        forest_texts_plain(ts),
    ensures
        item_count(tasks_html(ts, current, path)) == forest_size(ts),
{
    lemma_list_count(ts, current, path);
}

} // verus!
