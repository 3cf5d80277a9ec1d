//! The windows of the application: which mux window each of them shows, the
//! active workspace, and the unread bells.
use crate::text::{contains, decimal, decimal_of, occurs, opt_view};
use vstd::multiset::Multiset;
use vstd::prelude::*;
use vstd::seq_lib::*;
use vstd::string::*;

verus! {

/// A GUI window, by its place in the order of windows, and the mux window that
/// it shows.
#[derive(Clone, Copy, Debug, PartialEq, Eq, Structural)]
pub struct KnownWindow {
    pub window: u64,
    pub mux_window: u64,
}

/// The windows stand in order, each once.
pub open spec fn is_ordered(list: Seq<KnownWindow>) -> bool {
    forall|i: int, j: int|
        0 <= i < j < list.len() ==> (#[trigger] list[i]).window < (#[trigger] list[j]).window
}

/// Which mux window each GUI window shows.
pub open spec fn shown_by(list: Seq<KnownWindow>) -> Map<u64, u64>
    decreases list.len(),
{
    if list.len() == 0 {
        Map::empty()
    } else {
        shown_by(list.drop_last()).insert(list.last().window, list.last().mux_window)
    }
}

/// The mux windows that some windows show.
pub open spec fn mux_windows_of(list: Seq<KnownWindow>) -> Seq<u64> {
    list.map_values(|k: KnownWindow| k.mux_window)
}

#[derive(Debug)]
pub struct GuiFrontEnd {
    pub switching: bool,
    /// The mux windows that a window is being made for.
    pub spawned: Vec<u64>,
    pub known: Vec<KnownWindow>,
    /// Global count of unread bell events across all windows
    pub unread: usize,
}

proof fn lemma_shown(list: Seq<KnownWindow>, i: int)
    requires
        is_ordered(list),
        0 <= i < list.len(),
    ensures
        shown_by(list).contains_key(list[i].window),
        shown_by(list)[list[i].window] == list[i].mux_window,
    decreases list.len(),
{
    let before = list.drop_last();
    if i < before.len() {
        assert(is_ordered(before)) by {
            assert forall|a: int, b: int| 0 <= a < b < before.len() implies (
            #[trigger] before[a]).window < (#[trigger] before[b]).window by {
                assert(before[a] == list[a] && before[b] == list[b]);
            }
        }
        lemma_shown(before, i);
        assert(before[i] == list[i]);
        assert(list[i].window < list[list.len() - 1].window);
    }
}

proof fn lemma_shown_dom(list: Seq<KnownWindow>, w: u64) -> (i: int)
    requires
        shown_by(list).contains_key(w),
    ensures
        0 <= i < list.len(),
        list[i].window == w,
        shown_by(list)[w] == list[i].mux_window,
    decreases list.len(),
{
    if list.last().window == w {
        list.len() - 1
    } else {
        let i = lemma_shown_dom(list.drop_last(), w);
        assert(list.drop_last()[i] == list[i]);
        i
    }
}

/// Two ordered lists that show the same mux windows in the same windows are
/// equal: the map says all there is to say.
pub proof fn ordered_windows_are_their_map(a: Seq<KnownWindow>, b: Seq<KnownWindow>)
    requires
        is_ordered(a),
        is_ordered(b),
        shown_by(a) == shown_by(b),
    ensures
        a == b,
    decreases a.len(),
{
    if a.len() == 0 {
        if b.len() > 0 {
            lemma_shown(b, b.len() - 1);
            assert(false);
        }
        assert(a =~= b);
    } else if b.len() == 0 {
        lemma_shown(a, a.len() - 1);
        assert(false);
    } else {
        let x = a.last();
        let y = b.last();
        lemma_shown(a, a.len() - 1);
        lemma_shown(b, b.len() - 1);
        let i = lemma_shown_dom(b, x.window);
        let j = lemma_shown_dom(a, y.window);
        assert(x.window <= y.window) by {
            if i < b.len() - 1 {
                assert(b[i].window < b[b.len() - 1].window);
            }
        }
        assert(y.window <= x.window) by {
            if j < a.len() - 1 {
                assert(a[j].window < a[a.len() - 1].window);
            }
        }
        assert(x == y);
        let a0 = a.drop_last();
        let b0 = b.drop_last();
        assert(is_ordered(a0)) by {
            assert forall|p: int, q: int| 0 <= p < q < a0.len() implies (#[trigger] a0[p]).window < (
            #[trigger] a0[q]).window by {
                assert(a0[p] == a[p] && a0[q] == a[q]);
            }
        }
        assert(is_ordered(b0)) by {
            assert forall|p: int, q: int| 0 <= p < q < b0.len() implies (#[trigger] b0[p]).window < (
            #[trigger] b0[q]).window by {
                assert(b0[p] == b[p] && b0[q] == b[q]);
            }
        }
        assert(!shown_by(a0).contains_key(x.window)) by {
            if shown_by(a0).contains_key(x.window) {
                let k = lemma_shown_dom(a0, x.window);
                assert(a0[k] == a[k]);
                assert(a[k].window < a[a.len() - 1].window);
            }
        }
        assert(!shown_by(b0).contains_key(x.window)) by {
            if shown_by(b0).contains_key(x.window) {
                let k = lemma_shown_dom(b0, x.window);
                assert(b0[k] == b[k]);
                assert(b[k].window < b[b.len() - 1].window);
            }
        }
        assert(shown_by(a0) =~= shown_by(a).remove(x.window));
        assert(shown_by(b0) =~= shown_by(b).remove(x.window));
        ordered_windows_are_their_map(a0, b0);
        assert(a =~= a0.push(x));
        assert(b =~= b0.push(y));
    }
}

/// Puts a window into an ordered list, in place of itself where it is there.
fn put_window(list: &mut Vec<KnownWindow>, entry: KnownWindow)
    requires
        is_ordered(old(list)@),
    ensures
        is_ordered(final(list)@),
        shown_by(final(list)@) == shown_by(old(list)@).insert(entry.window, entry.mux_window),
{
    let ghost before = list@;
    let mut i: usize = 0;
    while i < list.len() && list[i].window < entry.window
        invariant
            i <= list.len(),
            list@ == before,
            is_ordered(before),
            forall|k: int| 0 <= k < i ==> (#[trigger] list@[k]).window < entry.window,
        decreases list.len() - i,
    {
        i += 1;
    }
    if i < list.len() && list[i].window == entry.window {
        list.set(i, entry);
    } else {
        list.insert(i, entry);
    }
    proof {
        let after = list@;
        assert forall|a: int, b: int| 0 <= a < b < after.len() implies (
        #[trigger] after[a]).window < (#[trigger] after[b]).window by {
            let shift: int = after.len() - before.len();
            let pa: int = if a < i { a } else { a - shift };
            let pb: int = if b < i { b } else { b - shift };
            if a != i && b != i {
                assert(after[a] == before[pa] && after[b] == before[pb]);
            } else if a == i {
                assert(after[b] == before[pb]);
                assert(before[i as int].window <= before[pb].window);
            } else {
                assert(after[a] == before[pa]);
            }
        }
        let target = shown_by(before).insert(entry.window, entry.mux_window);
        assert forall|w: u64| (#[trigger] shown_by(after).dom().contains(w)) == target.dom().contains(
            w,
        ) && (target.contains_key(w) ==> shown_by(after)[w] == target[w]) by {
            let shift: int = after.len() - before.len();
            if shown_by(after).contains_key(w) {
                let k = lemma_shown_dom(after, w);
                if k != i {
                    let p: int = if k < i { k } else { k - shift };
                    assert(after[k] == before[p]);
                    lemma_shown(before, p);
                    assert(w != entry.window) by {
                        if k < i {
                        } else {
                            assert(after[i as int].window < after[k].window);
                        }
                    }
                }
            }
            if target.contains_key(w) {
                if w == entry.window {
                    lemma_shown(after, i as int);
                } else {
                    let p = lemma_shown_dom(before, w);
                    let k: int = if p < i { p } else { p + shift };
                    assert(after[k] == before[p]);
                    lemma_shown(after, k);
                }
            }
        }
        assert(shown_by(after) =~= target);
    }
}

/// Takes a window out of an ordered list, where it is there.
fn drop_window(list: &mut Vec<KnownWindow>, window: u64)
    requires
        is_ordered(old(list)@),
    ensures
        is_ordered(final(list)@),
        shown_by(final(list)@) == shown_by(old(list)@).remove(window),
{
    let ghost before = list@;
    let mut i: usize = 0;
    while i < list.len() && list[i].window != window
        invariant
            i <= list.len(),
            list@ == before,
            is_ordered(before),
            forall|k: int| 0 <= k < i ==> (#[trigger] list@[k]).window != window,
        decreases list.len() - i,
    {
        i += 1;
    }
    if i < list.len() {
        list.remove(i);
        proof {
            let after = list@;
            assert forall|a: int, b: int| 0 <= a < b < after.len() implies (
            #[trigger] after[a]).window < (#[trigger] after[b]).window by {
                let pa: int = if a < i { a } else { a + 1 };
                let pb: int = if b < i { b } else { b + 1 };
                assert(after[a] == before[pa] && after[b] == before[pb]);
            }
            let target = shown_by(before).remove(window);
            assert forall|w: u64| (#[trigger] shown_by(after).dom().contains(w))
                == target.dom().contains(w) && (target.contains_key(w) ==> shown_by(after)[w]
                == target[w]) by {
                if shown_by(after).contains_key(w) {
                    let k = lemma_shown_dom(after, w);
                    let p: int = if k < i { k } else { k + 1 };
                    assert(after[k] == before[p]);
                    lemma_shown(before, p);
                    assert(w != window) by {
                        if p < i {
                        } else {
                            assert(before[i as int].window < before[p].window);
                        }
                    }
                }
                if target.contains_key(w) {
                    let p = lemma_shown_dom(before, w);
                    let k: int = if p < i { p } else { p - 1 };
                    assert(p != i);
                    assert(after[k] == before[p]);
                    lemma_shown(after, k);
                }
            }
            assert(shown_by(after) =~= target);
        }
    } else {
        proof {
            assert(!shown_by(before).contains_key(window)) by {
                if shown_by(before).contains_key(window) {
                    let k = lemma_shown_dom(before, window);
                    assert(list@[k].window != window);
                }
            }
            assert(shown_by(before) =~= shown_by(before).remove(window));
        }
    }
}

// ---------------------------------------------------------------------------
// Reconciling
// ---------------------------------------------------------------------------

/// The first place of a mux window, or the length of the list.
pub open spec fn first_place(list: Seq<u64>, id: u64) -> int
    decreases list.len(),
{
    if list.len() == 0 || list[0] == id {
        0
    } else {
        1 + first_place(list.drop_first(), id)
    }
}

proof fn lemma_first_place(list: Seq<u64>, id: u64)
    ensures
        0 <= first_place(list, id) <= list.len(),
        first_place(list, id) < list.len() ==> list[first_place(list, id)] == id,
        list.contains(id) == (first_place(list, id) < list.len()),
    decreases list.len(),
{
    if list.len() > 0 && list[0] != id {
        let rest = list.drop_first();
        lemma_first_place(rest, id);
        if rest.contains(id) {
            let k = choose|k: int| 0 <= k < rest.len() && rest[k] == id;
            assert(list[k + 1] == id);
        }
        if list.contains(id) {
            let k = choose|k: int| 0 <= k < list.len() && list[k] == id;
            assert(rest[k - 1] == id);
        }
    } else if list.len() > 0 {
        assert(list.contains(id));
    }
}

/// How windows and mux windows are matched up.
pub struct Matching {
    /// The windows that show a wanted mux window already.
    pub matched: Seq<KnownWindow>,
    pub unused: Seq<KnownWindow>,
    /// The wanted mux windows that no window shows.
    pub rest: Seq<u64>,
}

/// The windows that show a wanted mux window keep it.
pub open spec fn matching(known: Seq<KnownWindow>, wanted: Seq<u64>) -> Matching
    decreases known.len(),
{
    if known.len() == 0 {
        Matching { matched: seq![], unused: seq![], rest: wanted }
    } else {
        let before = matching(known.drop_last(), wanted);
        let k = known.last();
        let at = first_place(before.rest, k.mux_window);
        if at < before.rest.len() {
            Matching {
                matched: before.matched.push(k),
                rest: before.rest.remove(at),
                ..before
            }
        } else {
            Matching { unused: before.unused.push(k), ..before }
        }
    }
}

pub open spec fn lesser(a: nat, b: nat) -> nat {
    if a <= b {
        a
    } else {
        b
    }
}

/// How many windows are put to another use.
pub open spec fn reused(m: Matching) -> int {
    lesser(m.unused.len(), m.rest.len()) as int
}

/// The windows that are put to another use, with what they show from now on.
pub open spec fn switched_of(m: Matching) -> Seq<KnownWindow> {
    Seq::new(
        reused(m) as nat,
        |i: int| KnownWindow { window: m.unused[i].window, mux_window: m.rest[i] },
    )
}

/// The windows that are no longer needed.
pub open spec fn closed_of(m: Matching) -> Seq<KnownWindow> {
    m.unused.skip(reused(m))
}

/// The mux windows that a window has to be made for.
pub open spec fn remaining_of(m: Matching) -> Seq<u64> {
    m.rest.skip(reused(m))
}

/// The map with some windows put into it.
pub open spec fn map_with(map: Map<u64, u64>, list: Seq<KnownWindow>) -> Map<u64, u64>
    decreases list.len(),
{
    if list.len() == 0 {
        map
    } else {
        map_with(map, list.drop_last()).insert(list.last().window, list.last().mux_window)
    }
}

/// The spawned windows without those of some windows.
pub open spec fn set_without(set: Set<u64>, list: Seq<KnownWindow>) -> Set<u64>
    decreases list.len(),
{
    if list.len() == 0 {
        set
    } else {
        set_without(set, list.drop_last()).remove(list.last().mux_window)
    }
}

/// What is left to do once the windows are matched up.
#[derive(Debug)]
pub struct Reconciled {
    /// The windows that are to show another mux window.
    pub switched: Vec<KnownWindow>,
    /// The windows to close, with the mux window they showed.
    pub closed: Vec<KnownWindow>,
    /// The mux windows that need a window of their own.
    pub remaining: Vec<u64>,
}

/// A workspace, and whether it has any windows.
#[derive(Debug)]
pub struct WorkspaceFacts {
    pub name: String,
    pub is_empty: bool,
}

#[derive(Debug)]
pub enum WorkspaceChoice {
    /// A switch is under way: leave everything as it is.
    Wait,
    /// Stay in the active workspace.
    Stay,
    /// Activate another workspace first.
    Activate(String),
}

pub enum ChoiceView {
    Wait,
    Stay,
    Activate(Seq<char>),
}

impl View for WorkspaceChoice {
    type V = ChoiceView;

    open spec fn view(&self) -> ChoiceView {
        match *self {
            WorkspaceChoice::Wait => ChoiceView::Wait,
            WorkspaceChoice::Stay => ChoiceView::Stay,
            WorkspaceChoice::Activate(name) => ChoiceView::Activate(name@),
        }
    }
}

/// The first workspace with windows, if any.
pub open spec fn first_busy(list: Seq<WorkspaceFacts>) -> Option<Seq<char>>
    decreases list.len(),
{
    if list.len() == 0 {
        None
    } else if !list[0].is_empty {
        Some(list[0].name@)
    } else {
        first_busy(list.drop_first())
    }
}

pub open spec fn badge_of(count: usize, enabled: bool) -> Option<Seq<char>> {
    if enabled && count > 0 {
        Some(decimal(count as nat))
    } else {
        None
    }
}

/// The first window that shows a mux window, if any.
pub open spec fn window_showing(list: Seq<KnownWindow>, id: u64) -> Option<KnownWindow>
    decreases list.len(),
{
    if list.len() == 0 {
        None
    } else if list[0].mux_window == id {
        Some(list[0])
    } else {
        window_showing(list.drop_first(), id)
    }
}

proof fn lemma_matching_order(known: Seq<KnownWindow>, wanted: Seq<u64>)
    requires
        is_ordered(known),
    ensures
        ({
            let m = matching(known, wanted);
            &&& is_ordered(m.matched)
            &&& is_ordered(m.unused)
            &&& m.matched.len() + m.unused.len() == known.len()
            &&& forall|i: int| 0 <= i < m.matched.len() ==> known.contains(#[trigger] m.matched[i])
            &&& forall|i: int| 0 <= i < m.unused.len() ==> known.contains(#[trigger] m.unused[i])
        }),
    decreases known.len(),
{
    if known.len() > 0 {
        let before = known.drop_last();
        assert(is_ordered(before)) by {
            assert forall|a: int, b: int| 0 <= a < b < before.len() implies (
            #[trigger] before[a]).window < (#[trigger] before[b]).window by {
                assert(before[a] == known[a] && before[b] == known[b]);
            }
        }
        lemma_matching_order(before, wanted);
        let m0 = matching(before, wanted);
        let m = matching(known, wanted);
        let last = known.last();
        assert(known[known.len() - 1] == last);
        assert forall|k: KnownWindow| before.contains(k) implies known.contains(k) && k.window
            < last.window by {
            let i = choose|i: int| 0 <= i < before.len() && before[i] == k;
            assert(known[i] == k);
        }
        assert forall|i: int| 0 <= i < m.matched.len() implies known.contains(
            #[trigger] m.matched[i],
        ) by {
            if i < m0.matched.len() {
                assert(m.matched[i] == m0.matched[i]);
            }
        }
        assert forall|i: int| 0 <= i < m.unused.len() implies known.contains(
            #[trigger] m.unused[i],
        ) by {
            if i < m0.unused.len() {
                assert(m.unused[i] == m0.unused[i]);
            }
        }
        assert forall|a: int, b: int| 0 <= a < b < m.matched.len() implies (
        #[trigger] m.matched[a]).window < (#[trigger] m.matched[b]).window by {
            assert(m.matched[a] == m0.matched[a]);
            if b < m0.matched.len() {
                assert(m.matched[b] == m0.matched[b]);
            }
        }
        assert forall|a: int, b: int| 0 <= a < b < m.unused.len() implies (
        #[trigger] m.unused[a]).window < (#[trigger] m.unused[b]).window by {
            assert(m.unused[a] == m0.unused[a]);
            if b < m0.unused.len() {
                assert(m.unused[b] == m0.unused[b]);
            }
        }
    }
}

fn find_id(list: &Vec<u64>, id: u64) -> (r: Option<usize>)
    ensures
        match r {
            Some(i) => i < list.len() && i == first_place(list@, id),
            None => first_place(list@, id) == list.len(),
        },
        r is Some == list@.contains(id),
{
    let mut i: usize = 0;
    proof {
        lemma_first_place(list@, id);
        assert(list@.skip(0) =~= list@);
    }
    while i < list.len()
        invariant
            i <= list.len(),
            first_place(list@, id) == i + first_place(list@.skip(i as int), id),
            list@.contains(id) == (first_place(list@, id) < list.len()),
        decreases list.len() - i,
    {
        assert(list@.skip(i as int).drop_first() =~= list@.skip(i + 1));
        if list[i] == id {
            return Some(i);
        }
        i += 1;
    }
    None
}

fn remove_id(list: &mut Vec<u64>, id: u64)
    ensures
        final(list)@.to_set() == old(list)@.to_set().remove(id),
        old(list)@.no_duplicates() ==> final(list)@.no_duplicates(),
{
    let ghost before = list@;
    let mut kept: Vec<u64> = Vec::new();
    let mut i: usize = 0;
    while i < list.len()
        invariant
            i <= list.len(),
            list@ == before,
            forall|x: u64|
                #[trigger] kept@.contains(x) <==> (x != id && before.take(i as int).contains(x)),
            before.no_duplicates() ==> kept@.no_duplicates(),
        decreases list.len() - i,
    {
        let x: u64 = list[i];
        let ghost prior = kept@;
        if x != id {
            kept.push(x);
        }
        proof {
            assert(before.take(i + 1) =~= before.take(i as int).push(x));
            assert forall|y: u64| #[trigger] kept@.contains(y) <==> (y != id && before.take(
                i + 1,
            ).contains(y)) by {
                lemma_push_contains(before.take(i as int), x, y);
                if x != id {
                    lemma_push_contains(prior, x, y);
                }
            }
            if before.no_duplicates() && x != id {
                assert(!before.take(i as int).contains(x)) by {
                    if before.take(i as int).contains(x) {
                        let k = choose|k: int|
                            0 <= k < i && before.take(i as int)[k] == x;
                        assert(before[k] == before[i as int]);
                    }
                }
                assert(!prior.contains(x));
                assert forall|a: int, b: int|
                    0 <= a < kept@.len() && 0 <= b < kept@.len() && a != b implies kept@[a]
                    != kept@[b] by {
                    if a < prior.len() {
                        assert(prior.contains(prior[a]));
                    }
                    if b < prior.len() {
                        assert(prior.contains(prior[b]));
                    }
                }
            }
        }
        i += 1;
    }
    proof {
        assert(before.take(i as int) =~= before);
        assert forall|x: u64| kept@.to_set().contains(x) == before.to_set().remove(id).contains(
            x,
        ) by {
            assert(kept@.contains(x) == kept@.to_set().contains(x));
            assert(before.contains(x) == before.to_set().contains(x));
        }
        assert(kept@.to_set() =~= before.to_set().remove(id));
    }
    *list = kept;
}

proof fn lemma_push_contains(list: Seq<u64>, x: u64, y: u64)
    ensures
        list.push(x).contains(y) == (list.contains(y) || x == y),
{
    let after = list.push(x);
    if list.contains(y) {
        let k = choose|k: int| 0 <= k < list.len() && list[k] == y;
        assert(after[k] == y);
    }
    assert(after[list.len() as int] == x);
    if after.contains(y) {
        let k = choose|k: int| 0 <= k < after.len() && after[k] == y;
        if k < list.len() {
            assert(list[k] == y);
        }
    }
}

impl GuiFrontEnd {
    /// The windows stand in order, and no mux window is being spawned twice.
    pub open spec fn wf(self) -> bool {
        is_ordered(self.known@) && self.spawned@.no_duplicates()
    }

    pub fn new() -> (r: GuiFrontEnd)
        ensures
            r.wf(),
            !r.switching,
            r.known.len() == 0,
            r.spawned.len() == 0,
            r.unread == 0,
    {
        GuiFrontEnd { switching: false, spawned: Vec::new(), known: Vec::new(), unread: 0 }
    }

    /// All windows, in order.
    pub fn gui_windows(&self) -> (r: &Vec<KnownWindow>)
        ensures
            r@ == self.known@,
    {
        &self.known
    }

    pub fn is_switching_workspace(&self) -> (r: bool)
        ensures
            r == self.switching,
    {
        self.switching
    }

    /// Which workspace to show. We don't want to silently kill off things that
    /// might be running in other workspaces, so where the active one has no
    /// windows, one that has is activated.
    pub fn choose_workspace(&self, active_is_empty: bool, workspaces: &Vec<WorkspaceFacts>) -> (r:
        WorkspaceChoice)
        ensures
            r@ == (if !active_is_empty {
                ChoiceView::Stay
            } else if self.switching {
                ChoiceView::Wait
            } else {
                match first_busy(workspaces@) {
                    Some(name) => ChoiceView::Activate(name),
                    None => ChoiceView::Stay,
                }
            }),
    {
        if !active_is_empty {
            return WorkspaceChoice::Stay;
        }
        if self.switching {
            return WorkspaceChoice::Wait;
        }
        let mut i: usize = 0;
        assert(workspaces@.skip(0) =~= workspaces@);
        while i < workspaces.len()
            invariant
                i <= workspaces.len(),
                active_is_empty && !self.switching,
                first_busy(workspaces@) == first_busy(workspaces@.skip(i as int)),
            decreases workspaces.len() - i,
        {
            assert(workspaces@.skip(i as int).drop_first() =~= workspaces@.skip(i + 1));
            if !workspaces[i].is_empty {
                return WorkspaceChoice::Activate(workspaces[i].name.clone());
            }
            i += 1;
        }
        WorkspaceChoice::Stay
    }

    /// Matches the windows with the mux windows of the active workspace. First,
    /// existing windows are repurposed; both lists have a deterministic order, so
    /// switching back and forth results in a consistent mapping. Windows that are
    /// left over are closed; mux windows that are left over get a new window.
    pub fn reconcile_workspace(&mut self, wanted: Vec<u64>) -> (r: Reconciled)
        requires
            old(self).wf(),
        ensures
            final(self).wf(),
            ({
                let m = matching(old(self).known@, wanted@);
                &&& r.switched@ == switched_of(m)
                &&& r.closed@ == closed_of(m)
                &&& r.remaining@ == remaining_of(m)
                &&& shown_by(final(self).known@) == map_with(shown_by(m.matched), switched_of(m))
                &&& final(self).spawned@.to_set() == set_without(
                    old(self).spawned@.to_set(),
                    closed_of(m),
                )
            }),
            final(self).switching == old(self).switching,
            final(self).unread == old(self).unread,
    {
        let ghost known = self.known@;
        let ghost m = matching(known, wanted@);
        let mut rest = wanted;
        let mut windows: Vec<KnownWindow> = Vec::new();
        let mut unused: Vec<KnownWindow> = Vec::new();
        let mut i: usize = 0;
        assert(known.take(0) =~= seq![]);
        while i < self.known.len()
            invariant
                i <= self.known.len(),
                known == self.known@,
                ({
                    let so_far = matching(known.take(i as int), wanted@);
                    &&& windows@ == so_far.matched
                    &&& unused@ == so_far.unused
                    &&& rest@ == so_far.rest
                }),
            decreases self.known.len() - i,
        {
            proof {
                assert(known.take(i + 1).drop_last() =~= known.take(i as int));
                assert(known.take(i + 1).last() == known[i as int]);
            }
            let k = self.known[i];
            match find_id(&rest, k.mux_window) {
                Some(at) => {
                    // it already points to the desired mux window
                    windows.push(k);
                    rest.remove(at);
                },
                None => {
                    unused.push(k);
                },
            }
            i += 1;
        }
        proof {
            assert(known.take(i as int) =~= known);
            lemma_matching_order(known, wanted@);
        }
        let mut switched: Vec<KnownWindow> = Vec::new();
        let mut closed: Vec<KnownWindow> = Vec::new();
        let ghost spawned = self.spawned@.to_set();
        let ghost ids = self.spawned@;
        let mut j: usize = 0;
        assert(switched_of(m).take(0) =~= seq![]);
        while j < unused.len()
            invariant
                j <= unused.len(),
                unused@ == m.unused,
                rest@ == m.rest,
                known == self.known@,
                self.switching == old(self).switching,
                self.unread == old(self).unread,
                is_ordered(windows@),
                self.spawned@.no_duplicates(),
                switched@ == switched_of(m).take(
                    lesser(j as nat, reused(m) as nat) as int,
                ),
                closed@ == (if j <= reused(m) {
                    seq![]
                } else {
                    m.unused.subrange(reused(m), j as int)
                }),
                shown_by(windows@) == map_with(shown_by(m.matched), switched@),
                self.spawned@.to_set() == set_without(spawned, closed@),
            decreases unused.len() - j,
        {
            let k = unused[j];
            let ghost switched_before = switched@;
            let ghost closed_before = closed@;
            if j < rest.len() {
                let entry = KnownWindow { window: k.window, mux_window: rest[j] };
                put_window(&mut windows, entry);
                switched.push(entry);
                proof {
                    assert(switched_of(m)[j as int] == entry);
                    assert(
                        switched_of(m).take(j + 1) =~= switched_of(m).take(j as int).push(entry)
                    );
                    assert(switched@.drop_last() =~= switched_before);
                }
            } else {
                // We have more windows than are in the new workspace;
                // we no longer need this one!
                closed.push(k);
                remove_id(&mut self.spawned, k.mux_window);
                proof {
                    assert(closed@.drop_last() =~= closed_before);
                    assert(closed@ =~= m.unused.subrange(reused(m), j + 1));
                }
            }
            j += 1;
        }
        let used: usize = if unused.len() <= rest.len() {
            unused.len()
        } else {
            rest.len()
        };
        let remaining = rest.split_off(used);
        self.known = windows;
        proof {
            assert(switched_of(m).take(reused(m)) =~= switched_of(m));
            assert(switched@ =~= switched_of(m));
            assert(closed@ =~= closed_of(m));
            assert(remaining@ =~= remaining_of(m));
        }
        Reconciled { switched, closed, remaining }
    }

    pub fn has_mux_window(&self, mux_window: u64) -> (r: bool)
        ensures
            r == mux_windows_of(self.known@).contains(mux_window),
    {
        let ghost all = mux_windows_of(self.known@);
        let mut i: usize = 0;
        while i < self.known.len()
            invariant
                i <= self.known.len(),
                all == mux_windows_of(self.known@),
                forall|k: int| 0 <= k < i ==> #[trigger] all[k] != mux_window,
            decreases self.known.len() - i,
        {
            if self.known[i].mux_window == mux_window {
                assert(all[i as int] == mux_window);
                return true;
            }
            i += 1;
        }
        false
    }

    /// Whether a window is to be made for a mux window: not where it has one, or
    /// one is being made already.
    pub fn claim_spawn(&mut self, mux_window: u64) -> (r: bool)
        requires
            old(self).wf(),
        ensures
            final(self).wf(),
            r == (!mux_windows_of(old(self).known@).contains(mux_window)
                && !old(self).spawned@.contains(mux_window)),
            final(self).spawned@ == (if r {
                old(self).spawned@.push(mux_window)
            } else {
                old(self).spawned@
            }),
            final(self).known == old(self).known,
            final(self).switching == old(self).switching,
            final(self).unread == old(self).unread,
    {
        if self.has_mux_window(mux_window) || find_id(&self.spawned, mux_window).is_some() {
            return false;
        }
        self.spawned.push(mux_window);
        proof {
            let before = old(self).spawned@;
            let after = self.spawned@;
            assert forall|a: int, b: int|
                0 <= a < after.len() && 0 <= b < after.len() && a != b implies after[a]
                != after[b] by {
                if a < before.len() {
                    assert(before.contains(before[a]));
                }
                if b < before.len() {
                    assert(before.contains(before[b]));
                }
            }
        }
        true
    }

    /// A window could not be made.
    pub fn spawn_failed(&mut self, mux_window: u64)
        requires
            old(self).wf(),
        ensures
            final(self).wf(),
            final(self).spawned@.to_set() == old(self).spawned@.to_set().remove(mux_window),
            final(self).known == old(self).known,
            final(self).switching == old(self).switching,
            final(self).unread == old(self).unread,
    {
        remove_id(&mut self.spawned, mux_window);
    }

    /// All windows are made: the switch is over.
    pub fn finish_reconcile(&mut self)
        ensures
            *final(self) == (GuiFrontEnd { switching: false, ..*old(self) }),
    {
        self.switching = false;
    }

    /// The active workspace was set: its windows are to be reconciled.
    pub fn switch_workspace(&mut self)
        ensures
            *final(self) == (GuiFrontEnd { switching: false, ..*old(self) }),
    {
        self.switching = false;
    }

    /// Notes a new window. Returns whether to reconcile.
    pub fn record_known_window(&mut self, window: u64, mux_window: u64) -> (r: bool)
        requires
            old(self).wf(),
        ensures
            final(self).wf(),
            shown_by(final(self).known@) == shown_by(old(self).known@).insert(window, mux_window),
            r == !old(self).switching,
            final(self).spawned == old(self).spawned,
            final(self).switching == old(self).switching,
            final(self).unread == old(self).unread,
    {
        put_window(&mut self.known, KnownWindow { window, mux_window });
        !self.switching
    }

    /// Forgets a window. Returns whether to reconcile.
    pub fn forget_known_window(&mut self, window: u64) -> (r: bool)
        requires
            old(self).wf(),
        ensures
            final(self).wf(),
            shown_by(final(self).known@) == shown_by(old(self).known@).remove(window),
            r == !old(self).switching,
            final(self).spawned == old(self).spawned,
            final(self).switching == old(self).switching,
            final(self).unread == old(self).unread,
    {
        drop_window(&mut self.known, window);
        !self.switching
    }

    /// Adjust the global unread bell count.
    /// Pass positive value to increment, negative to decrement. Returns what the
    /// Dock badge shows.
    pub fn adjust_unread_bell_count(&mut self, delta: isize, badge_enabled: bool) -> (r: Option<
        String,
    >)
        requires
            delta > isize::MIN,
        ensures
            final(self).unread == (if old(self).unread + delta < 0 {
                0
            } else if old(self).unread + delta > usize::MAX {
                usize::MAX as int
            } else {
                old(self).unread + delta
            }),
            opt_view(r) == badge_of(final(self).unread, badge_enabled),
            final(self).known == old(self).known,
            final(self).spawned == old(self).spawned,
            final(self).switching == old(self).switching,
    {
        if delta > 0 {
            self.unread = self.unread.saturating_add(delta as usize);
        } else {
            let less: isize = -delta;
            self.unread = self.unread.saturating_sub(less as usize);
        }
        self.sync_unread_bell_badge(badge_enabled)
    }

    /// What the Dock badge shows for the current unread count.
    pub fn sync_unread_bell_badge(&self, badge_enabled: bool) -> (r: Option<String>)
        ensures
            opt_view(r) == badge_of(self.unread, badge_enabled),
    {
        if badge_enabled && self.unread > 0 {
            Some(decimal_of(self.unread as u128))
        } else {
            None
        }
    }

    pub fn gui_window_for_mux_window(&self, mux_window: u64) -> (r: Option<KnownWindow>)
        ensures
            r == window_showing(self.known@, mux_window),
    {
        let mut i: usize = 0;
        assert(self.known@.skip(0) =~= self.known@);
        while i < self.known.len()
            invariant
                i <= self.known.len(),
                window_showing(self.known@, mux_window) == window_showing(
                    self.known@.skip(i as int),
                    mux_window,
                ),
            decreases self.known.len() - i,
        {
            assert(self.known@.skip(i as int).drop_first() =~= self.known@.skip(i + 1));
            if self.known[i].mux_window == mux_window {
                return Some(self.known[i]);
            }
            i += 1;
        }
        None
    }

    /// The mux window with the focus, else that of the first window.
    pub fn focused_mux_window_id(&self, focused: Option<u64>) -> (r: Option<u64>)
        ensures
            r == (match focused {
                Some(id) => Some(id),
                None => if self.known@.len() > 0 {
                    Some(self.known@[0].mux_window)
                } else {
                    None
                },
            }),
    {
        match focused {
            Some(id) => Some(id),
            None => if self.known.len() > 0 {
                Some(self.known[0].mux_window)
            } else {
                None
            },
        }
    }
}

/// A switch to another workspace that is under way.
#[derive(Debug)]
pub struct WorkspaceSwitcher {
    pub new_name: String,
}

impl WorkspaceSwitcher {
    /// Starts a switch: until it is done, windows are not reconciled.
    pub fn new(front_end: &mut GuiFrontEnd, new_name: &str) -> (r: WorkspaceSwitcher)
        ensures
            r.new_name@ == new_name@,
            *final(front_end) == (GuiFrontEnd { switching: true, ..*old(front_end) }),
    {
        front_end.switching = true;
        WorkspaceSwitcher { new_name: new_name.to_owned() }
    }

    /// Completes the switch. Returns the workspace to activate.
    pub fn do_switch(self, front_end: &mut GuiFrontEnd) -> (r: String)
        ensures
            r@ == self.new_name@,
            *final(front_end) == (GuiFrontEnd { switching: false, ..*old(front_end) }),
    {
        front_end.switch_workspace();
        self.new_name
    }
}

/// What to tell the user about a window that could not be made.
pub fn spawn_failure_hint(error: &str) -> (r: Option<&'static str>)
    ensures
        r is Some == occurs(error@, "failed to create NSOpenGLPixelFormat"@),
        r matches Some(text) ==> text@
            == "OpenGL initialization failed. This often means no compatible GPU renderer is available (for example in some VMs). Try setting `front_end = 'WebGpu'` in kaku.lua or enabling VM GPU acceleration."@,
{
    if contains(error, "failed to create NSOpenGLPixelFormat") {
        Some(
            "OpenGL initialization failed. This often means no compatible GPU renderer is available (for example in some VMs). Try setting `front_end = 'WebGpu'` in kaku.lua or enabling VM GPU acceleration.",
        )
    } else {
        None
    }
}

// ---------------------------------------------------------------------------
// Laws of reconciling
// ---------------------------------------------------------------------------

proof fn lemma_matching_ids(known: Seq<KnownWindow>, wanted: Seq<u64>)
    ensures
        ({
            let m = matching(known, wanted);
            mux_windows_of(m.matched).to_multiset().add(m.rest.to_multiset())
                == wanted.to_multiset()
        }),
    decreases known.len(),
{
    let m = matching(known, wanted);
    if known.len() == 0 {
        assert(mux_windows_of(m.matched) =~= seq![]);
        assert(mux_windows_of(m.matched).to_multiset() =~= Multiset::empty()) by {
            mux_windows_of(m.matched).to_multiset_ensures();
        }
        assert(Multiset::<u64>::empty().add(wanted.to_multiset()) =~= wanted.to_multiset());
    } else {
        lemma_matching_ids(known.drop_last(), wanted);
        let before = matching(known.drop_last(), wanted);
        let k = known.last();
        let at = first_place(before.rest, k.mux_window);
        lemma_first_place(before.rest, k.mux_window);
        if at < before.rest.len() {
            before.rest.to_multiset_ensures();
            mux_windows_of(before.matched).to_multiset_ensures();
            assert(mux_windows_of(m.matched) =~= mux_windows_of(before.matched).push(k.mux_window));
            let a = mux_windows_of(before.matched).to_multiset();
            let b = before.rest.to_multiset();
            assert(before.rest[at] == k.mux_window);
            assert(b.contains(k.mux_window)) by {
                assert(before.rest.contains(k.mux_window));
            }
            assert(a.insert(k.mux_window).add(b.remove(k.mux_window)) =~= a.add(b));
        }
    }
}

/// No mux window of the workspace is lost or shown twice: each is shown by a
/// window that had it, shown by a window that is switched to it, or left to get
/// a new one.
pub proof fn every_mux_window_is_placed_once(known: Seq<KnownWindow>, wanted: Seq<u64>)
    ensures
        ({
            let m = matching(known, wanted);
            mux_windows_of(m.matched).to_multiset().add(
                mux_windows_of(switched_of(m)).to_multiset(),
            ).add(remaining_of(m).to_multiset()) == wanted.to_multiset()
        }),
{
    lemma_matching_ids(known, wanted);
    let m = matching(known, wanted);
    let n = reused(m);
    let head = m.rest.take(n);
    assert(mux_windows_of(switched_of(m)) =~= head);
    assert(m.rest =~= head + remaining_of(m));
    lemma_multiset_commutative(head, remaining_of(m));
    let a = mux_windows_of(m.matched).to_multiset();
    assert(a.add(head.to_multiset()).add(remaining_of(m).to_multiset()) =~= a.add(
        head.to_multiset().add(remaining_of(m).to_multiset()),
    ));
}

/// Windows are only closed where the workspace has no mux window left for them,
/// and no window is made while there is one to reuse.
pub proof fn windows_are_reused_first(known: Seq<KnownWindow>, wanted: Seq<u64>)
    ensures
        ({
            let m = matching(known, wanted);
            closed_of(m).len() == 0 || remaining_of(m).len() == 0
        }),
{
}

/// A window that shows a mux window of the workspace keeps it, as long as no
/// window before it shows the same one.
pub proof fn wanted_windows_stay(known: Seq<KnownWindow>, wanted: Seq<u64>, i: int)
    requires
        0 <= i < known.len(),
        wanted.contains(known[i].mux_window),
        forall|k: int| 0 <= k < i ==> (#[trigger] known[k]).mux_window != known[i].mux_window,
    ensures
        matching(known, wanted).matched.contains(known[i]),
    decreases known.len(),
{
    let before = known.drop_last();
    let m0 = matching(before, wanted);
    let m = matching(known, wanted);
    if i < before.len() {
        assert(before[i] == known[i]);
        assert forall|k: int| 0 <= k < i implies (#[trigger] before[k]).mux_window
            != before[i].mux_window by {
            assert(before[k] == known[k]);
        }
        wanted_windows_stay(before, wanted, i);
        let p = choose|p: int| 0 <= p < m0.matched.len() && m0.matched[p] == known[i];
        assert(m.matched[p] == known[i]);
    } else {
        let id = known[i].mux_window;
        lemma_still_wanted(before, wanted, id);
        lemma_first_place(m0.rest, id);
        assert(m.matched[m0.matched.len() as int] == known[i]);
    }
}

proof fn lemma_still_wanted(known: Seq<KnownWindow>, wanted: Seq<u64>, id: u64)
    requires
        wanted.contains(id),
        forall|k: int| 0 <= k < known.len() ==> (#[trigger] known[k]).mux_window != id,
    ensures
        matching(known, wanted).rest.contains(id),
    decreases known.len(),
{
    if known.len() > 0 {
        let before = known.drop_last();
        assert forall|k: int| 0 <= k < before.len() implies (#[trigger] before[k]).mux_window
            != id by {
            assert(before[k] == known[k]);
        }
        lemma_still_wanted(before, wanted, id);
        let m0 = matching(before, wanted);
        let last = known[known.len() - 1];
        let at = first_place(m0.rest, last.mux_window);
        lemma_first_place(m0.rest, last.mux_window);
        if at < m0.rest.len() {
            let p = choose|p: int| 0 <= p < m0.rest.len() && m0.rest[p] == id;
            let q: int = if p < at { p } else { p - 1 };
            assert(m0.rest.remove(at)[q] == id);
        }
    }
}

proof fn lemma_nothing_matches(known: Seq<KnownWindow>, wanted: Seq<u64>)
    requires
        forall|k: int| 0 <= k < known.len() ==> !wanted.contains((#[trigger] known[k]).mux_window),
    ensures
        matching(known, wanted) == (Matching { matched: seq![], unused: known, rest: wanted }),
    decreases known.len(),
{
    if known.len() > 0 {
        let before = known.drop_last();
        assert forall|k: int| 0 <= k < before.len() implies !wanted.contains(
            (#[trigger] before[k]).mux_window,
        ) by {
            assert(before[k] == known[k]);
        }
        lemma_nothing_matches(before, wanted);
        lemma_first_place(wanted, known[known.len() - 1].mux_window);
        assert(before.push(known.last()) =~= known);
    } else {
        assert(known =~= seq![]);
    }
}

proof fn lemma_map_of_all(list: Seq<KnownWindow>)
    ensures
        map_with(Map::empty(), list) == shown_by(list),
    decreases list.len(),
{
    if list.len() > 0 {
        lemma_map_of_all(list.drop_last());
    }
}

/// Switching to another workspace and back gives every window back what it
/// showed, where the other workspace has at least as many mux windows: `known`
/// shows the mux windows `a` in order, and `there` is what the windows show after
/// they were reconciled with `b`.
pub proof fn switching_back_restores_windows(
    known: Seq<KnownWindow>,
    there: Seq<KnownWindow>,
    a: Seq<u64>,
    b: Seq<u64>,
)
    requires
        is_ordered(known),
        mux_windows_of(known) == a,
        a.len() <= b.len(),
        forall|i: int| 0 <= i < a.len() ==> !b.contains(#[trigger] a[i]),
        is_ordered(there),
        shown_by(there) == map_with(
            shown_by(matching(known, b).matched),
            switched_of(matching(known, b)),
        ),
    ensures
        ({
            let back = matching(there, a);
            &&& map_with(shown_by(back.matched), switched_of(back)) == shown_by(known)
            &&& closed_of(back).len() == 0
            &&& remaining_of(back).len() == 0
        }),
{
    assert forall|k: int| 0 <= k < known.len() implies !b.contains(
        (#[trigger] known[k]).mux_window,
    ) by {
        assert(a[k] == known[k].mux_window);
    }
    lemma_nothing_matches(known, b);
    let m = matching(known, b);
    let moved = switched_of(m);
    assert(known.len() == a.len());
    assert(moved.len() == known.len());
    assert forall|i: int, j: int| 0 <= i < j < moved.len() implies (#[trigger] moved[i]).window < (
    #[trigger] moved[j]).window by {
        assert(known[i].window < known[j].window);
    }
    lemma_map_of_all(moved);
    ordered_windows_are_their_map(there, moved);
    assert forall|k: int| 0 <= k < there.len() implies !a.contains(
        (#[trigger] there[k]).mux_window,
    ) by {
        assert(there[k].mux_window == b[k]);
        if a.contains(b[k]) {
            let i = choose|i: int| 0 <= i < a.len() && a[i] == b[k];
            assert(!b.contains(a[i]));
        }
    }
    lemma_nothing_matches(there, a);
    let back = matching(there, a);
    assert(switched_of(back) =~= known) by {
        assert forall|i: int| 0 <= i < known.len() implies switched_of(back)[i]
            == #[trigger] known[i] by {
            assert(a[i] == known[i].mux_window);
        }
    }
    lemma_map_of_all(known);
}

} // verus!
