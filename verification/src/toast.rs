//! Short notices that stand on the screen until they are dismissed, four at most.
use std::collections::VecDeque;

use vstd::prelude::*;

use crate::theme::{theme_colors, tokens, ThemeKind};
use crate::views::{views, views_index, views_push};

verus! {

#[derive(Clone, Copy, Debug, PartialEq, Eq, Structural)]
pub enum ToastKind {
    Info,
    Success,
    Warning,
    Error,
}

/// A notice.
#[derive(Debug, PartialEq, Eq)]
pub struct Toast {
    pub id: u64,
    pub kind: ToastKind,
    pub message: String,
}

/// The value of a `Toast`.
#[verifier::ext_equal]
pub struct ToastModel {
    pub id: u64,
    pub kind: ToastKind,
    pub message: Seq<char>,
}

impl View for Toast {
    type V = ToastModel;

    open spec fn view(&self) -> ToastModel {
        ToastModel { id: self.id, kind: self.kind, message: self.message@ }
    }
}

/// The notices from the oldest to the newest, and the id of the newest that there ever was.
#[verifier::ext_equal]
pub struct QueueModel {
    pub next_id: u64,
    pub items: Seq<ToastModel>,
}

impl QueueModel {
    /// There are at most four notices.
    pub open spec fn wf(self) -> bool {
        self.items.len() <= 4
    }

    /// Each notice has a larger id than those before it.
    pub open spec fn in_order(self) -> bool {
        &&& forall|i: int, j: int|
            0 <= i < j < self.items.len() ==> (#[trigger] self.items[i]).id < (
            #[trigger] self.items[j]).id
        &&& forall|i: int| 0 <= i < self.items.len() ==> (#[trigger] self.items[i]).id <= self.next_id
    }
}

/// The id after one; the ids begin anew after the largest.
pub open spec fn id_after(id: u64) -> u64 {
    if id == u64::MAX {
        0
    } else {
        (id + 1) as u64
    }
}

/// The position of the notice with an id, from `i` on.
pub open spec fn toast_from(items: Seq<ToastModel>, id: u64, i: int) -> Option<int>
    decreases items.len() - i,
{
    if i < 0 || i >= items.len() {
        None
    } else if items[i].id == id {
        Some(i)
    } else {
        toast_from(items, id, i + 1)
    }
}

/// The queue without the notice with an id.
pub open spec fn dismissed(q: QueueModel, id: u64) -> QueueModel {
    match toast_from(q.items, id, 0) {
        Some(i) => QueueModel { items: q.items.remove(i), ..q },
        None => q,
    }
}

/// The queue with one more notice; the oldest of four makes room for it.
#[verifier::opaque]
pub open spec fn announced(q: QueueModel, kind: ToastKind, message: Seq<char>) -> QueueModel {
    let room = if q.items.len() >= 4 {
        dismissed(q, q.items[0].id)
    } else {
        q
    };
    let id = id_after(q.next_id);
    QueueModel { next_id: id, items: room.items.push(ToastModel { id, kind, message }) }
}

/// The notices on the screen.
#[derive(Debug)]
pub struct ToastQueue {
    next_id: u64,
    items: VecDeque<Toast>,
}

impl View for ToastQueue {
    type V = QueueModel;

    closed spec fn view(&self) -> QueueModel {
        QueueModel { next_id: self.next_id, items: views(self.items@) }
    }
}

impl Default for ToastQueue {
    fn default() -> (r: Self)
        ensures
            r@ == (QueueModel { next_id: 0, items: Seq::empty() }),
            r.wf(),
    {
        let r = ToastQueue { next_id: 0, items: VecDeque::new() };
        assert(r@.items =~= Seq::<ToastModel>::empty());
        r
    }
}

impl ToastQueue {
    /// See [`QueueModel::wf`].
    pub open spec fn wf(&self) -> bool {
        self@.wf()
    }

    /// Puts a notice on the screen, and gives its id.
    pub fn push(&mut self, kind: ToastKind, message: &str) -> (id: u64)
        requires
            old(self).wf(),
        ensures
            final(self)@ == announced(old(self)@, kind, message@),
            final(self).wf(),
            id == id_after(old(self)@.next_id),
    {
        broadcast use {views_push, views_index};

        reveal(announced);
        if self.items.len() >= 4 {
            let oldest: u64 = self.items[0].id;
            self.dismiss(oldest);
        }
        self.next_id = self.next_id.wrapping_add(1);
        let id: u64 = self.next_id;
        self.items.push_back(Toast { id, kind, message: message.to_owned() });
        id
    }

    /// Takes a notice from the screen, and says whether it was there.
    pub fn dismiss(&mut self, id: u64) -> (found: bool)
        requires
            old(self).wf(),
        ensures
            final(self)@ == dismissed(old(self)@, id),
            final(self).wf(),
            found == (toast_from(old(self)@.items, id, 0) is Some),
            old(self)@.items.len() > 0 && id == old(self)@.items[0].id ==> final(self)@.items.len()
                == old(self)@.items.len() - 1,
    {
        broadcast use views_index;

        let ghost all = self@.items;
        let mut i: usize = 0;
        while i < self.items.len()
            invariant
                *self == *old(self),
                self.wf(),
                all == views(self.items@),
                i <= self.items.len(),
                toast_from(all, id, 0) == toast_from(all, id, i as int),
                i > 0 ==> all[0].id != id,
            decreases self.items.len() - i,
        {
            if self.items[i].id == id {
                assert(views(self.items@.remove(i as int)) =~= all.remove(i as int));
                let _ = self.items.remove(i);
                return true;
            }
            i = i + 1;
        }
        false
    }

    /// The notices from the oldest to the newest.
    pub fn items(&self) -> (r: &VecDeque<Toast>)
        ensures
            views(r@) == self@.items,
    {
        &self.items
    }
}

/// A new notice stands last, nothing else is moved, and of four the oldest alone goes.
pub proof fn notices_keep_their_order(q: QueueModel, kind: ToastKind, message: Seq<char>)
    requires
        q.wf(),
    ensures
        ({
            let r = announced(q, kind, message);
            let kept = if q.items.len() >= 4 {
                q.items.drop_first()
            } else {
                q.items
            };
            &&& r.wf()
            &&& r.items == kept.push(ToastModel { id: id_after(q.next_id), kind, message })
            &&& q.in_order() && q.next_id < u64::MAX ==> r.in_order()
        }),
{
    reveal(announced);
    if q.items.len() >= 4 {
        assert(q.items.remove(0) =~= q.items.drop_first());
    }
}

/// The colour that marks a notice of a kind.
pub open spec fn accent_of(kind: ToastKind, theme: ThemeKind) -> u32 {
    let colors = theme_colors(theme);
    match kind {
        ToastKind::Info => colors.info,
        ToastKind::Success => colors.success,
        ToastKind::Warning => colors.warning,
        ToastKind::Error => colors.error,
    }
}

/// See [`accent_of`].
pub fn toast_accent(kind: ToastKind, theme: ThemeKind) -> (r: u32)
    ensures
        r == accent_of(kind, theme),
{
    let colors = tokens(theme).colors;
    match kind {
        ToastKind::Info => colors.info,
        ToastKind::Success => colors.success,
        ToastKind::Warning => colors.warning,
        ToastKind::Error => colors.error,
    }
}

/// A notice that is dismissed is gone, the first one of its id; the others stay in their order.
pub proof fn dismissed_notices_are_gone(q: QueueModel, id: u64)
    requires
        q.in_order(),
    ensures
        forall|k: int| 0 <= k < dismissed(q, id).items.len() ==> (#[trigger] dismissed(
            q,
            id,
        ).items[k]).id != id,
        forall|k: int|
            0 <= k < q.items.len() && (#[trigger] q.items[k]).id != id ==> dismissed(
                q,
                id,
            ).items.contains(q.items[k]),
        (forall|k: int| 0 <= k < q.items.len() ==> (#[trigger] q.items[k]).id != id) ==> dismissed(
            q,
            id,
        ) == q,
        dismissed(q, id).in_order(),
        dismissed(q, id).next_id == q.next_id,
{
    toast_is_there(q.items, id, 0);
    let r = dismissed(q, id);
    if let Some(i) = toast_from(q.items, id, 0) {
        assert forall|k: int| 0 <= k < r.items.len() implies (#[trigger] r.items[k]).id != id by {
            if k < i {
                assert(q.items[k].id < q.items[i].id);
            } else {
                assert(q.items[i].id < q.items[k + 1].id);
            }
        }
        assert forall|k: int|
            0 <= k < q.items.len() && (#[trigger] q.items[k]).id != id implies r.items.contains(
            q.items[k],
        ) by {
            if k < i {
                assert(r.items[k] == q.items[k]);
            } else {
                assert(r.items[k - 1] == q.items[k]);
            }
        }
        assert forall|k: int, j: int| 0 <= k < j < r.items.len() implies (#[trigger] r.items[k]).id
            < (#[trigger] r.items[j]).id by {
            let x = if k < i {
                k
            } else {
                k + 1
            };
            let y = if j < i {
                j
            } else {
                j + 1
            };
            assert(q.items[x].id < q.items[y].id);
        }
        assert forall|k: int| 0 <= k < r.items.len() implies (#[trigger] r.items[k]).id
            <= r.next_id by {
            let x = if k < i {
                k
            } else {
                k + 1
            };
            assert(q.items[x].id <= q.next_id);
        }
    } else {
        assert forall|k: int|
            0 <= k < q.items.len() && (#[trigger] q.items[k]).id != id implies r.items.contains(
            q.items[k],
        ) by {
            assert(r.items[k] == q.items[k]);
        }
    }
}

proof fn toast_is_there(items: Seq<ToastModel>, id: u64, from: int)
    requires
        0 <= from <= items.len(),
    ensures
        match toast_from(items, id, from) {
            Some(i) => from <= i < items.len() && items[i].id == id,
            None => forall|k: int| from <= k < items.len() ==> (#[trigger] items[k]).id != id,
        },
    decreases items.len() - from,
{
    if from < items.len() && items[from].id != id {
        toast_is_there(items, id, from + 1);
    }
}

} // verus!
