use vstd::prelude::*;

pub mod command;
pub mod runner;
pub mod state;

use self::state::Screen;
use crate::platform::{CommentView, DetailView, ListEntry, Platform};
use vstd::string::StringExecFns;

verus! {

/// Where the current list came from (Zhihu feeds or the stock watch list);
/// refresh re-requests it.
#[derive(Debug, Clone, PartialEq)]
pub enum ListSource {
    Recommend,
    Hot,
    Search(String),
    Stocks,
}

/// Which stock screen is showing.
#[derive(Debug, Clone, Copy, PartialEq, Eq, Structural)]
pub enum StockView {
    Watchlist,
    Market,
}

/// Dedup key of a list row: answer id if known (each card is one answer),
/// else the open token (question id / topic), else the title.
pub open spec fn entry_key_spec(e: ListEntry) -> Seq<char> {
    if e.detail is Some && e.detail->0.answer_id@.len() > 0 {
        "a:"@ + e.detail->0.answer_id@
    } else if e.open_token is Some {
        "q:"@ + e.open_token->0@
    } else {
        "t:"@ + e.title@
    }
}

pub fn entry_key(e: &ListEntry) -> (k: String)
    ensures
        k@ == entry_key_spec(*e),
{
    if let Some(d) = &e.detail {
        if !d.answer_id.as_str().is_empty() {
            return String::from_str("a:").concat(d.answer_id.as_str());
        }
    }
    if let Some(q) = &e.open_token {
        return String::from_str("q:").concat(q.as_str());
    }
    String::from_str("t:").concat(e.title.as_str())
}

/// Session dedup over a batch: each row whose key is not yet `seen` (nor
/// earlier in the batch) is kept and its key recorded, in order.
pub open spec fn dedup(seen: Seq<Seq<char>>, items: Seq<ListEntry>) -> (Seq<Seq<char>>, Seq<ListEntry>)
    decreases items.len(),
{
    if items.len() == 0 {
        (seen, Seq::empty())
    } else {
        let prev = dedup(seen, items.drop_last());
        let k = entry_key_spec(items.last());
        if prev.0.contains(k) {
            prev
        } else {
            (prev.0.push(k), prev.1.push(items.last()))
        }
    }
}

pub struct App {
    /// The navigation stack, bottom first; never empty.
    pub stack: Vec<Screen>,
    pub list: Vec<ListEntry>,
    pub list_cursor: usize,
    pub details: Vec<DetailView>,
    pub detail_idx: usize,
    pub detail_scroll: u16,
    pub comments: Vec<CommentView>,
    pub comment_scroll: u16,
    pub command: String,
    pub loading: bool,
    pub error: Option<String>,
    pub should_quit: bool,
    pub cookie: String,
    pub list_source: ListSource,
    /// Boss key: when true the UI shows an innocuous fake screen and swallows input.
    pub boss_mode: bool,
    /// Camouflage: interleave decoy lines into the answer body.
    pub camouflage: bool,
    /// Local file paths of the current answer's downloaded images, index-aligned with
    /// `current_detail().images`. Empty string = that image failed to download.
    pub image_paths: Vec<String>,
    /// answer_id that `image_paths` belong to (guards against stale results).
    pub image_owner: String,
    /// Keys of the rows already shown this session, in the order first seen.
    pub seen: Vec<String>,
    pub active_platform: Platform,
    /// The platform a pending Login screen should connect once a cookie is entered.
    pub pending_login_platform: Option<Platform>,
    /// Cursor on the Root platform picker (index into `Platform::ALL`).
    pub root_cursor: usize,
    pub stock_force_refresh: bool,
    pub stock_view: StockView,
}

impl App {
    /// The navigation stack, bottom first.
    pub open spec fn screens(&self) -> Seq<Screen> {
        self.stack@
    }

    /// The list cursor.
    pub open spec fn cursor(&self) -> usize {
        self.list_cursor
    }

    /// Keys of the rows shown this session, in the order first seen.
    pub open spec fn seen_keys(&self) -> Seq<Seq<char>> {
        self.seen@.map_values(|s: String| s@)
    }

    /// The navigation stack is never empty and no key is remembered twice.
    pub open spec fn wf(&self) -> bool {
        &&& self.stack@.len() >= 1
        &&& self.seen_keys().no_duplicates()
    }

    /// `b` is `a` with only the navigation stack changed.
    pub open spec fn only_stack_changed(a: App, b: App) -> bool {
        b == App { stack: b.stack, ..a }
    }

    /// `b` is `a` with only the list, its cursor and the session keys changed.
    pub open spec fn only_list_changed(a: App, b: App) -> bool {
        b == App { list: b.list, list_cursor: b.list_cursor, seen: b.seen, ..a }
    }

    /// `b` is `a` after applying the list batch `items` with session dedup:
    /// the keys of the fresh rows are recorded; when there are fresh rows they
    /// become the list with the cursor on the first, else the list and its
    /// cursor stay; nothing else changes.
    pub open spec fn batch_applied(a: App, items: Seq<ListEntry>, b: App) -> bool {
        let (keys, fresh) = dedup(a.seen_keys(), items);
        &&& b.seen_keys() == keys
        &&& fresh.len() > 0 ==> b.list@ == fresh && b.cursor() == 0
        &&& fresh.len() == 0 ==> b.list@ == a.list@ && b.cursor() == a.cursor()
        &&& App::only_list_changed(a, b)
    }

    /// Every field but the stack, the cookie and the loading flag as a new
    /// app has it: nothing listed, shown, typed or remembered yet, on Zhihu's
    /// recommendations, camouflage on.
    pub open spec fn starts_fresh(app: App) -> bool {
        &&& app.list@.len() == 0
        &&& app.cursor() == 0
        &&& app.details@.len() == 0
        &&& app.detail_idx == 0
        &&& app.detail_scroll == 0
        &&& app.comments@.len() == 0
        &&& app.comment_scroll == 0
        &&& app.command@.len() == 0
        &&& app.error is None
        &&& !app.should_quit
        &&& app.list_source == ListSource::Recommend
        &&& !app.boss_mode
        &&& app.camouflage
        &&& app.image_paths@.len() == 0
        &&& app.image_owner@.len() == 0
        &&& app.seen_keys().len() == 0
        &&& app.active_platform == Platform::Zhihu
        &&& app.pending_login_platform is None
        &&& app.root_cursor == 0
        &&& !app.stock_force_refresh
        &&& app.stock_view == StockView::Watchlist
    }

    pub fn new() -> (app: Self)
        ensures
            app.wf(),
            app.screens() == seq![Screen::Root],
            app.cookie@.len() == 0,
            !app.loading,
            App::starts_fresh(app),
    {
        let mut stack: Vec<Screen> = Vec::new();
        stack.push(Screen::Root);
        let app = App {
            stack,
            list: Vec::new(),
            list_cursor: 0,
            details: Vec::new(),
            detail_idx: 0,
            detail_scroll: 0,
            comments: Vec::new(),
            comment_scroll: 0,
            command: String::new(),
            loading: false,
            error: None,
            should_quit: false,
            cookie: String::new(),
            list_source: ListSource::Recommend,
            boss_mode: false,
            camouflage: true,
            image_paths: Vec::new(),
            image_owner: String::new(),
            seen: Vec::new(),
            active_platform: Platform::Zhihu,
            pending_login_platform: None,
            root_cursor: 0,
            stock_force_refresh: false,
            stock_view: StockView::Watchlist,
        };
        assert(app.seen_keys() =~= Seq::<Seq<char>>::empty());
        app
    }

    /// Platform highlighted on the Root picker.
    pub fn picked_platform(&self) -> (p: Platform)
        requires
            self.root_cursor < 6,
        ensures
            p == crate::platform::platform_order()[self.root_cursor as int],
    {
        match self.root_cursor {
            0 => Platform::Zhihu,
            1 => Platform::V2ex,
            2 => Platform::Hupu,
            3 => Platform::Nga,
            4 => Platform::LinuxDo,
            _ => Platform::Tieba,
        }
    }

    pub fn root_cursor_up(&mut self)
        ensures
            final(self).root_cursor == if old(self).root_cursor > 0 {
                (old(self).root_cursor - 1) as usize
            } else {
                0
            },
            *final(self) == (App { root_cursor: final(self).root_cursor, ..*old(self) }),
    {
        self.root_cursor = self.root_cursor.saturating_sub(1);
    }

    pub fn root_cursor_down(&mut self)
        ensures
            final(self).root_cursor == if old(self).root_cursor + 1 < 6 {
                (old(self).root_cursor + 1) as usize
            } else {
                old(self).root_cursor
            },
            *final(self) == (App { root_cursor: final(self).root_cursor, ..*old(self) }),
    {
        if self.root_cursor < 5 {
            self.root_cursor = self.root_cursor + 1;
        }
    }

    /// Whether `k` was already shown this session.
    pub fn seen_contains(&self, k: &String) -> (b: bool)
        ensures
            b == self.seen_keys().contains(k@),
    {
        let mut i: usize = 0;
        while i < self.seen.len()
            invariant
                0 <= i <= self.seen@.len(),
                forall|j: int| 0 <= j < i ==> self.seen_keys()[j] != k@,
            decreases self.seen@.len() - i,
        {
            if self.seen[i] == *k {
                assert(self.seen_keys()[i as int] == k@);
                return true;
            }
            i = i + 1;
        }
        false
    }

    /// Record `k` as shown; true when it was not shown before.
    fn seen_insert(&mut self, k: String) -> (fresh: bool)
        requires
            old(self).wf(),
        ensures
            final(self).wf(),
            fresh == !old(self).seen_keys().contains(k@),
            final(self).seen_keys() == if fresh {
                old(self).seen_keys().push(k@)
            } else {
                old(self).seen_keys()
            },
            *final(self) == (App { seen: final(self).seen, ..*old(self) }),
    {
        if self.seen_contains(&k) {
            false
        } else {
            self.seen.push(k);
            assert(self.seen_keys() =~= old(self).seen_keys().push(k@));
            true
        }
    }

    /// Apply a list batch: drop rows already seen this session, record the rest,
    /// and show only the fresh ones. If the batch is entirely seen, keep the
    /// current list rather than blanking the screen.
    pub fn apply_list_deduped(&mut self, items: Vec<ListEntry>)
        requires
            old(self).wf(),
        ensures
            final(self).wf(),
            App::batch_applied(*old(self), items@, *final(self)),
    {
        let ghost s0 = self.seen_keys();
        let ghost all = items@;
        let mut fresh: Vec<ListEntry> = Vec::new();
        for e in it: items
            invariant
                self.wf(),
                it.seq() == all,
                (self.seen_keys(), fresh@) == dedup(s0, all.take(it.index() as int)),
                App::only_list_changed(*old(self), *self),
                self.list == old(self).list,
                self.list_cursor == old(self).list_cursor,
        {
            proof {
                assert(all.take(it.index() + 1).drop_last() =~= all.take(it.index() as int));
            }
            let k = entry_key(&e);
            if self.seen_insert(k) {
                fresh.push(e);
            }
        }
        proof {
            assert(all.take(all.len() as int) =~= all);
        }
        if fresh.len() > 0 {
            self.list = fresh;
            self.list_cursor = 0;
        }
    }

    pub fn replace_list(&mut self, items: Vec<ListEntry>)
        ensures
            final(self).list@ == items@,
            final(self).cursor() == 0,
            *final(self) == (App { list: final(self).list, list_cursor: 0, ..*old(self) }),
    {
        self.list = items;
        self.list_cursor = 0;
    }

    /// Fill the list with `count` loading placeholders.
    pub fn prepare_stream_list(&mut self, count: usize)
        ensures
            final(self).list@.len() == count,
            forall|i: int| 0 <= i < count ==> is_loading_entry(#[trigger] final(self).list@[i]),
            final(self).cursor() == 0,
            *final(self) == (App { list: final(self).list, list_cursor: 0, ..*old(self) }),
    {
        let mut list: Vec<ListEntry> = Vec::new();
        let mut i: usize = 0;
        while i < count
            invariant
                i <= count,
                list@.len() == i,
                forall|j: int| 0 <= j < i ==> is_loading_entry(#[trigger] list@[j]),
            decreases count - i,
        {
            list.push(loading_entry());
            i = i + 1;
        }
        self.list = list;
        self.list_cursor = 0;
    }

    /// Put `entry` at `index`, growing the list with loading placeholders first
    /// when it is too short.
    pub fn set_list_entry(&mut self, index: usize, entry: ListEntry)
        requires
            index < usize::MAX,
        ensures
            final(self).list@.len() == if index < old(self).list@.len() {
                old(self).list@.len()
            } else {
                (index + 1) as nat
            },
            final(self).list@[index as int] == entry,
            forall|i: int|
                0 <= i < old(self).list@.len() && i != index ==> #[trigger] final(self).list@[i]
                    == old(self).list@[i],
            forall|i: int|
                old(self).list@.len() <= i < index ==> is_loading_entry(#[trigger] final(self).list@[i]),
            *final(self) == (App { list: final(self).list, ..*old(self) }),
    {
        while self.list.len() <= index
            invariant
                index < usize::MAX,
                old(self).list@.len() <= self.list@.len(),
                old(self).list@.len() <= index ==> self.list@.len() <= index + 1,
                old(self).list@.len() > index ==> self.list@.len() == old(self).list@.len(),
                forall|i: int| 0 <= i < old(self).list@.len() ==> #[trigger] self.list@[i] == old(self).list@[i],
                forall|i: int|
                    old(self).list@.len() <= i < self.list@.len() ==> is_loading_entry(#[trigger] self.list@[i]),
                *self == (App { list: self.list, ..*old(self) }),
            decreases index + 1 - self.list@.len(),
        {
            self.list.push(loading_entry());
        }
        self.list.set(index, entry);
    }

    /// "Load more": append rows not yet seen this session onto the current list,
    /// leaving the cursor where it is.
    pub fn extend_list_deduped(&mut self, items: Vec<ListEntry>)
        requires
            old(self).wf(),
        ensures
            final(self).wf(),
            final(self).seen_keys() == dedup(old(self).seen_keys(), items@).0,
            final(self).list@ == old(self).list@ + dedup(old(self).seen_keys(), items@).1,
            final(self).cursor() == old(self).cursor(),
            App::only_list_changed(*old(self), *final(self)),
    {
        let ghost s0 = self.seen_keys();
        let ghost l0 = self.list@;
        let ghost all = items@;
        for e in it: items
            invariant
                self.wf(),
                it.seq() == all,
                (self.seen_keys(), self.list@.skip(l0.len() as int)) == dedup(s0, all.take(it.index() as int)),
                self.list@.len() >= l0.len(),
                self.list@.take(l0.len() as int) == l0,
                App::only_list_changed(*old(self), *self),
                self.list_cursor == old(self).list_cursor,
        {
            proof {
                assert(all.take(it.index() + 1).drop_last() =~= all.take(it.index() as int));
            }
            let k = entry_key(&e);
            let ghost before = self.list@;
            if self.seen_insert(k) {
                self.list.push(e);
                assert(self.list@.skip(l0.len() as int) =~= before.skip(l0.len() as int).push(e));
                assert(self.list@.take(l0.len() as int) =~= before.take(l0.len() as int));
            }
        }
        proof {
            assert(all.take(all.len() as int) =~= all);
            assert(self.list@ =~= l0 + self.list@.skip(l0.len() as int));
        }
    }

    /// The screen on top of the stack.
    pub fn screen(&self) -> (s: &Screen)
        requires
            self.wf(),
        ensures
            *s == self.screens().last(),
    {
        &self.stack[self.stack.len() - 1]
    }

    pub fn push(&mut self, s: Screen)
        requires
            old(self).wf(),
        ensures
            final(self).wf(),
            final(self).screens() == after_push(old(self).screens(), s),
            App::only_stack_changed(*old(self), *final(self)),
    {
        self.stack.push(s);
    }

    /// Go back one screen; the root screen is never popped.
    pub fn back(&mut self)
        requires
            old(self).wf(),
        ensures
            final(self).wf(),
            final(self).screens() == after_back(old(self).screens()),
            App::only_stack_changed(*old(self), *final(self)),
    {
        if self.stack.len() > 1 {
            self.stack.pop();
        }
    }

    /// Swap the top of the stack for `s`.
    pub fn replace(&mut self, s: Screen)
        requires
            old(self).wf(),
        ensures
            final(self).wf(),
            final(self).screens() == after_replace(old(self).screens(), s),
            App::only_stack_changed(*old(self), *final(self)),
    {
        self.stack.pop();
        self.stack.push(s);
    }

    /// Switch the active platform: reset dedup memory and the current list so
    /// the new platform starts clean.
    pub fn switch_platform(&mut self, p: Platform)
        requires
            old(self).wf(),
        ensures
            final(self).wf(),
            old(self).active_platform == p ==> *final(self) == *old(self),
            old(self).active_platform != p ==> {
                &&& final(self).active_platform == p
                &&& final(self).seen_keys().len() == 0
                &&& final(self).list@.len() == 0
                &&& final(self).cursor() == 0
                &&& *final(self) == (App {
                    active_platform: p,
                    seen: final(self).seen,
                    list: final(self).list,
                    list_cursor: 0,
                    ..*old(self)
                })
            },
    {
        if self.active_platform != p {
            self.active_platform = p;
            self.seen.clear();
            self.list.clear();
            self.list_cursor = 0;
            assert(self.seen_keys() =~= Seq::<Seq<char>>::empty());
        }
    }

    pub fn set_list(&mut self, items: Vec<ListEntry>)
        ensures
            final(self).list@ == items@,
            final(self).cursor() == 0,
            *final(self) == (App { list: final(self).list, list_cursor: 0, ..*old(self) }),
    {
        self.list = items;
        self.list_cursor = 0;
    }

    pub fn list_cursor(&self) -> (c: usize)
        ensures
            c == self.cursor(),
    {
        self.list_cursor
    }

    pub fn cursor_down(&mut self)
        ensures
            final(self).cursor() == cursor_after_down(old(self).cursor(), old(self).list@.len()),
            *final(self) == (App { list_cursor: final(self).list_cursor, ..*old(self) }),
    {
        if !self.list.is_empty() && self.list_cursor < self.list.len() - 1 {
            self.list_cursor = self.list_cursor + 1;
        }
    }

    pub fn cursor_up(&mut self)
        ensures
            final(self).cursor() == cursor_after_up(old(self).cursor()),
            *final(self) == (App { list_cursor: final(self).list_cursor, ..*old(self) }),
    {
        self.list_cursor = self.list_cursor.saturating_sub(1);
    }

    pub fn selected_entry(&self) -> (e: Option<&ListEntry>)
        ensures
            self.cursor() < self.list@.len() ==> e == Some(&self.list@[self.cursor() as int]),
            self.cursor() >= self.list@.len() ==> e is None,
    {
        if self.list_cursor < self.list.len() {
            Some(&self.list[self.list_cursor])
        } else {
            None
        }
    }

    pub fn current_detail(&self) -> (d: Option<&DetailView>)
        ensures
            self.detail_idx < self.details@.len() ==> d == Some(&self.details@[self.detail_idx as int]),
            self.detail_idx >= self.details@.len() ==> d is None,
    {
        if self.detail_idx < self.details.len() {
            Some(&self.details[self.detail_idx])
        } else {
            None
        }
    }
}

/// The placeholder row shown while an entry is still loading.
pub open spec fn is_loading_entry(e: ListEntry) -> bool {
    &&& e.title@ == "加载中..."@
    &&& e.subtitle@.len() == 0
    &&& e.open_token is None
    &&& e.detail is None
}

pub fn loading_entry() -> (e: ListEntry)
    ensures
        is_loading_entry(e),
{
    ListEntry {
        title: String::from_str("加载中..."),
        subtitle: String::new(),
        open_token: None,
        detail: None,
    }
}

/// The stack after pushing `s`.
pub open spec fn after_push(ss: Seq<Screen>, s: Screen) -> Seq<Screen> {
    ss.push(s)
}

/// The stack after going back: the bottom screen stays.
pub open spec fn after_back(ss: Seq<Screen>) -> Seq<Screen> {
    if ss.len() > 1 {
        ss.drop_last()
    } else {
        ss
    }
}

/// The stack after replacing its top with `s`.
pub open spec fn after_replace(ss: Seq<Screen>, s: Screen) -> Seq<Screen> {
    ss.drop_last().push(s)
}

/// The list cursor after moving down in a list of `len` rows.
pub open spec fn cursor_after_down(c: usize, len: nat) -> usize {
    if len > 0 && c + 1 < len {
        (c + 1) as usize
    } else {
        c
    }
}

/// The list cursor after moving up.
pub open spec fn cursor_after_up(c: usize) -> usize {
    if c > 0 {
        (c - 1) as usize
    } else {
        0
    }
}

/// Going back right after pushing a screen returns to the same stack.
pub proof fn law_back_undoes_push(ss: Seq<Screen>, s: Screen)
    requires
        ss.len() >= 1,
    ensures
        after_back(after_push(ss, s)) == ss,
{
    assert(ss.push(s).drop_last() =~= ss);
}

/// Going back never leaves the stack empty and never changes its bottom screen.
pub proof fn law_back_keeps_root(ss: Seq<Screen>)
    requires
        ss.len() >= 1,
    ensures
        after_back(ss).len() >= 1,
        after_back(ss)[0] == ss[0],
{
}

/// Replacing keeps the depth of the stack and puts `s` on top.
pub proof fn law_replace_keeps_depth(ss: Seq<Screen>, s: Screen)
    requires
        ss.len() >= 1,
    ensures
        after_replace(ss, s).len() == ss.len(),
        after_replace(ss, s).last() == s,
        after_replace(ss, s).drop_last() == ss.drop_last(),
{
    assert(ss.drop_last().push(s).drop_last() =~= ss.drop_last());
}

/// Moving the cursor keeps it on a row of the list, one step at most.
pub proof fn law_cursor_stays_in_list(c: usize, len: nat)
    requires
        c < len <= usize::MAX,
    ensures
        cursor_after_down(c, len) < len,
        cursor_after_up(c) < len,
        cursor_after_down(c, len) == c || cursor_after_down(c, len) == c + 1,
{
}

/// What session dedup records and shows: the recorded keys grow by exactly
/// the keys of the rows shown, in order; no row shown has a key seen before;
/// the rows shown have pairwise distinct keys; and every row of the batch has
/// its key recorded afterwards.
pub proof fn law_dedup_never_repeats(seen: Seq<Seq<char>>, items: Seq<ListEntry>)
    requires
        seen.no_duplicates(),
    ensures
        dedup(seen, items).0.no_duplicates(),
        dedup(seen, items).0 == seen + dedup(seen, items).1.map_values(|e: ListEntry| entry_key_spec(e)),
        forall|i: int|
            0 <= i < dedup(seen, items).1.len() ==> !seen.contains(
                entry_key_spec(#[trigger] dedup(seen, items).1[i]),
            ),
        forall|i: int|
            0 <= i < items.len() ==> dedup(seen, items).0.contains(entry_key_spec(#[trigger] items[i])),
        forall|i: int| 0 <= i < seen.len() ==> dedup(seen, items).0.contains(#[trigger] seen[i]),
    decreases items.len(),
{
    let r = dedup(seen, items);
    if items.len() == 0 {
        assert(r.0 =~= seen + r.1.map_values(|e: ListEntry| entry_key_spec(e)));
    } else {
        let prev = dedup(seen, items.drop_last());
        law_dedup_never_repeats(seen, items.drop_last());
        let k = entry_key_spec(items.last());
        if prev.0.contains(k) {
        } else {
            assert(prev.1.push(items.last()).map_values(|e: ListEntry| entry_key_spec(e)) =~= prev.1.map_values(
                |e: ListEntry| entry_key_spec(e),
            ).push(k));
            assert(r.0 =~= seen + r.1.map_values(|e: ListEntry| entry_key_spec(e)));
            assert forall|i: int| 0 <= i < r.1.len() implies !seen.contains(
                entry_key_spec(#[trigger] r.1[i]),
            ) by {
                if i == r.1.len() - 1 {
                    if seen.contains(k) {
                        let j = choose|j: int| 0 <= j < seen.len() && seen[j] == k;
                        assert(prev.0.contains(seen[j]));
                    }
                } else {
                    assert(r.1[i] == prev.1[i]);
                }
            }
            assert forall|i: int| 0 <= i < seen.len() implies r.0.contains(#[trigger] seen[i]) by {
                assert(prev.0.contains(seen[i]));
                let j = choose|j: int| 0 <= j < prev.0.len() && prev.0[j] == seen[i];
                assert(r.0[j] == seen[i]);
            }
        }
        assert forall|i: int| 0 <= i < items.len() implies r.0.contains(
            entry_key_spec(#[trigger] items[i]),
        ) by {
            if i == items.len() - 1 {
                if !prev.0.contains(k) {
                    assert(r.0[r.0.len() - 1] == k);
                }
            } else {
                assert(items[i] == items.drop_last()[i]);
                assert(prev.0.contains(entry_key_spec(items.drop_last()[i])));
                if !prev.0.contains(k) {
                    let j = choose|j: int| 0 <= j < prev.0.len() && prev.0[j] == entry_key_spec(items[i]);
                    assert(r.0[j] == prev.0[j]);
                }
            }
        }
    }
}

/// Once a batch has been applied, applying the same rows again shows nothing
/// new and records nothing new.
pub proof fn law_dedup_repeat_is_empty(seen: Seq<Seq<char>>, items: Seq<ListEntry>)
    requires
        seen.no_duplicates(),
    ensures
        dedup(dedup(seen, items).0, items).1.len() == 0,
        dedup(dedup(seen, items).0, items).0 == dedup(seen, items).0,
{
    law_dedup_never_repeats(seen, items);
    lemma_dedup_all_seen(dedup(seen, items).0, items);
}

proof fn lemma_dedup_all_seen(seen: Seq<Seq<char>>, items: Seq<ListEntry>)
    requires
        forall|i: int| 0 <= i < items.len() ==> seen.contains(entry_key_spec(#[trigger] items[i])),
    ensures
        dedup(seen, items).1.len() == 0,
        dedup(seen, items).0 == seen,
    decreases items.len(),
{
    if items.len() > 0 {
        assert forall|i: int| 0 <= i < items.drop_last().len() implies seen.contains(
            entry_key_spec(#[trigger] items.drop_last()[i]),
        ) by {
            assert(items.drop_last()[i] == items[i]);
        }
        lemma_dedup_all_seen(seen, items.drop_last());
        assert(seen.contains(entry_key_spec(items[items.len() - 1])));
    }
}

/// A valid app always has a screen to show: its stack is never empty, and
/// pushing, going back and replacing keep it so (going back from the root
/// screen changes nothing, pushing adds one screen, replacing keeps the depth).
pub proof fn law_valid_app_has_a_screen(app: App, s: Screen)
    requires
        app.wf(),
    ensures
        app.screens().len() >= 1,
        after_push(app.screens(), s).len() == app.screens().len() + 1,
        after_back(app.screens()).len() >= 1,
        app.screens().len() == 1 ==> after_back(app.screens()) == app.screens(),
        after_replace(app.screens(), s).len() == app.screens().len(),
{
}

/// Applying a batch whose rows have all been seen, as when the same batch is
/// applied twice in a row, shows nothing new: the list, its cursor and the
/// recorded keys stay as the first application left them.
pub proof fn law_reapplied_batch_keeps_list(a: App, items: Seq<ListEntry>, b: App, c: App)
    requires
        a.wf(),
        App::batch_applied(a, items, b),
        App::batch_applied(b, items, c),
    ensures
        c.list@ == b.list@,
        c.cursor() == b.cursor(),
        c.seen_keys() == b.seen_keys(),
{
    law_dedup_repeat_is_empty(a.seen_keys(), items);
}

} // verus!
