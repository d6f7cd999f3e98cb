//! The screen regions that Live Region Translate watches.

use crate::http;
use crate::http::Failure;
use crate::live;
use crate::live::LiveState;
use crate::number;
use crate::number::render_usize;
use crate::region_ipc::RegionCommand;
use crate::text;
use vstd::prelude::*;

verus! {

/// A watched region. Each has its own text and translation, so that one
/// does not affect another.
#[derive(Debug)]
pub struct WatchedRegion {
    /// The number that the region keeps as long as it is watched.
    pub id: usize,
    /// The name that the user gave it.
    pub name: Option<String>,
    /// Corner and size.
    pub rect: (u32, u32, u32, u32),
    pub live: LiveState,
}

#[verifier::ext_equal]
pub struct RegionView {
    pub id: usize,
    pub name: Option<Seq<char>>,
    pub rect: (u32, u32, u32, u32),
    pub live: live::LiveView,
}

impl View for WatchedRegion {
    type V = RegionView;

    open spec fn view(&self) -> RegionView {
        RegionView {
            id: self.id,
            name: text::opt_text(self.name),
            rect: self.rect,
            live: self.live@,
        }
    }
}

/// A region that was just picked.
pub open spec fn new_region(id: usize, rect: (u32, u32, u32, u32)) -> RegionView {
    RegionView { id, name: None, rect, live: live::fresh() }
}

/// What a region is called.
pub open spec fn title_of(r: RegionView) -> Seq<char> {
    match r.name {
        Some(n) => n,
        None => "Region "@ + number::decimal(r.id as nat),
    }
}

impl WatchedRegion {
    /// A region that was just picked.
    pub fn new(id: usize, rect: (u32, u32, u32, u32)) -> (r: Self)
        ensures
            r@ == new_region(id, rect),
    {
        WatchedRegion { id, name: None, rect, live: LiveState::new() }
    }

    /// What the region is called.
    pub fn title(&self) -> (r: String)
        ensures
            r@ == title_of(self@),
    {
        match &self.name {
            Some(n) => n.clone(),
            None => {
                let mut r = "Region ".to_owned();
                let digits = render_usize(self.id);
                r.append(digits.as_str());
                r
            },
        }
    }
}

/// The watched regions, in the order in which they were added.
#[derive(Debug)]
pub struct Regions {
    pub list: Vec<WatchedRegion>,
    /// The number of the next region.
    pub next_id: usize,
}

#[verifier::ext_equal]
pub struct RegionsView {
    pub list: Seq<RegionView>,
    pub next_id: usize,
}

impl View for Regions {
    type V = RegionsView;

    open spec fn view(&self) -> RegionsView {
        RegionsView { list: views(self.list@), next_id: self.next_id }
    }
}

/// What regions say.
pub open spec fn views(v: Seq<WatchedRegion>) -> Seq<RegionView> {
    v.map_values(|r: WatchedRegion| r@)
}

/// The numbers grow along the list, and stay below the next one.
pub open spec fn valid(v: RegionsView) -> bool {
    &&& forall|i: int| 0 <= i < v.list.len() ==> (#[trigger] v.list[i]).id < v.next_id
    &&& forall|i: int, j: int|
        0 <= i < j < v.list.len() ==> (#[trigger] v.list[i]).id < (#[trigger] v.list[j]).id
}

/// Where the region with a number stands.
pub open spec fn place(list: Seq<RegionView>, id: usize) -> Option<int>
    decreases list.len(),
{
    if list.len() == 0 {
        None
    } else if list.last().id == id {
        Some(list.len() - 1)
    } else {
        place(list.drop_last(), id)
    }
}

proof fn lemma_place(list: Seq<RegionView>, id: usize)
    ensures
        (match place(list, id) {
            Some(i) => 0 <= i < list.len() && list[i].id == id,
            None => forall|i: int| 0 <= i < list.len() ==> (#[trigger] list[i]).id != id,
        }),
    decreases list.len(),
{
    if list.len() > 0 && list.last().id != id {
        let rest = list.drop_last();
        lemma_place(rest, id);
        if place(rest, id) is None {
            assert forall|i: int| 0 <= i < list.len() implies (#[trigger] list[i]).id != id by {
                if i < rest.len() {
                    assert(rest[i] == list[i]);
                }
            }
        }
    }
}

/// The region with a number.
pub open spec fn region_with(v: RegionsView, id: usize) -> Option<RegionView> {
    match place(v.list, id) {
        Some(i) => Some(v.list[i]),
        None => None,
    }
}

/// The regions with one more.
pub open spec fn added(v: RegionsView, rect: (u32, u32, u32, u32)) -> RegionsView {
    RegionsView {
        list: v.list.push(new_region(v.next_id, rect)),
        next_id: (v.next_id + 1) as usize,
    }
}

/// The regions without the one with a number.
pub open spec fn deleted(v: RegionsView, id: usize) -> RegionsView {
    match place(v.list, id) {
        Some(i) => RegionsView { list: v.list.remove(i), next_id: v.next_id },
        None => v,
    }
}

/// The regions with another one in place of that with a number.
pub open spec fn changed(v: RegionsView, id: usize, new: RegionView) -> RegionsView {
    match place(v.list, id) {
        Some(i) => RegionsView { list: v.list.update(i, new), next_id: v.next_id },
        None => v,
    }
}

/// The regions with a name given to one of them.
pub open spec fn renamed(v: RegionsView, id: usize, name: Seq<char>) -> RegionsView {
    match region_with(v, id) {
        Some(r) => changed(v, id, RegionView { name: Some(name), ..r }),
        None => v,
    }
}

/// What the text that was recognized in a region, or the failure to
/// recognize one, does to what is shown of it.
pub open spec fn seen(s: live::LiveView, read: Result<Seq<char>, http::FailureView>) -> live::LiveView {
    match read {
        Ok(t) => if t.len() > 0 && s.last_text != Some(t) {
            live::translating(s, t)
        } else {
            s
        },
        Err(f) => live::LiveView {
            status: Some(live::StatusView::Error("OCR failed"@ + ": "@ + http::one_line(f))),
            ..s
        },
    }
}

/// The text of a region that is to be translated.
pub open spec fn to_translate(
    s: live::LiveView,
    read: Result<Seq<char>, http::FailureView>,
) -> Option<Seq<char>> {
    match read {
        Ok(t) => if t.len() > 0 && s.last_text != Some(t) {
            Some(t)
        } else {
            None
        },
        Err(_) => None,
    }
}

/// What a command for a running session asks of its window.
#[derive(Debug, Clone, Copy, PartialEq, Eq, Structural)]
pub enum RegionAction {
    /// Capture once.
    QuickCapture,
    /// Show where the regions are.
    ShowRegions,
    /// Nothing more. `found` tells whether there was such a region.
    Done { found: bool },
}

impl Regions {
    pub open spec fn wf(&self) -> bool {
        valid(self@)
    }

    /// The regions of a session that was just started.
    pub fn start(rect: (u32, u32, u32, u32)) -> (r: Self)
        ensures
            r.wf(),
            r@ == (RegionsView { list: seq![new_region(1, rect)], next_id: 2 }),
    {
        let mut list: Vec<WatchedRegion> = Vec::new();
        list.push(WatchedRegion::new(1, rect));
        assert(views(list@) =~= seq![new_region(1, rect)]);
        Regions { list, next_id: 2 }
    }

    fn find(&self, id: usize) -> (r: Option<usize>)
        requires
            self.wf(),
        ensures
            (match r {
                Some(i) => place(self@.list, id) == Some(i as int) && i < self.list@.len(),
                None => place(self@.list, id) is None,
            }),
    {
        let ghost all = self@.list;
        let mut i: usize = 0;
        while i < self.list.len()
            invariant
                i <= self.list@.len(),
                self.wf(),
                all == self@.list,
                forall|k: int| 0 <= k < i ==> (#[trigger] all[k]).id != id,
            decreases self.list@.len() - i,
        {
            assert(all[i as int] == self.list@[i as int]@);
            if self.list[i].id == id {
                proof {
                    lemma_place(all, id);
                    let p = place(all, id)->0;
                    if p < i {
                        assert(all[p].id < all[i as int].id);
                    } else if p > i {
                        assert(all[i as int].id < all[p].id);
                    }
                }
                return Some(i);
            }
            i += 1;
        }
        proof {
            lemma_place(all, id);
        }
        None
    }

    /// Adds a region. Its number was never used before.
    pub fn add(&mut self, rect: (u32, u32, u32, u32))
        requires
            old(self).wf(),
            old(self).next_id < usize::MAX,
        ensures
            final(self).wf(),
            final(self)@ == added(old(self)@, rect),
    {
        let id: usize = self.next_id;
        self.list.push(WatchedRegion::new(id, rect));
        self.next_id = id + 1;
        proof {
            law_added_region_is_new(old(self)@, rect);
            assert(self@.list =~= added(old(self)@, rect).list);
        }
    }

    /// Stops watching a region. Tells whether there was one.
    pub fn delete(&mut self, id: usize) -> (found: bool)
        requires
            old(self).wf(),
        ensures
            final(self).wf(),
            final(self)@ == deleted(old(self)@, id),
            found == place(old(self)@.list, id) is Some,
    {
        proof {
            lemma_deleted_is_valid(self@, id);
        }
        match self.find(id) {
            Some(i) => {
                self.list.remove(i);
                assert(self@.list =~= old(self)@.list.remove(i as int));
                true
            },
            None => false,
        }
    }

    /// Gives a region a name. Tells whether there was one.
    pub fn rename(&mut self, id: usize, name: &str) -> (found: bool)
        requires
            old(self).wf(),
        ensures
            final(self).wf(),
            final(self)@ == renamed(old(self)@, id, name@),
            found == place(old(self)@.list, id) is Some,
    {
        match self.find(id) {
            Some(i) => {
                proof {
                    lemma_place(self@.list, id);
                    lemma_changed_is_valid(
                        self@,
                        id,
                        RegionView { name: Some(name@), ..self@.list[i as int] },
                    );
                }
                let new_name: String = name.to_owned();
                let mut r = self.list.remove(i);
                r.name = Some(new_name);
                self.list.insert(i, r);
                assert(self@.list =~= renamed(old(self)@, id, name@).list);
                true
            },
            None => false,
        }
    }

    /// Takes note of what was recognized in a region. Gives the text that is
    /// to be translated, if any. A region that is gone asks for nothing.
    pub fn see(&mut self, id: usize, read: &Result<String, Failure>) -> (r: Option<String>)
        requires
            old(self).wf(),
        ensures
            final(self).wf(),
            (match region_with(old(self)@, id) {
                Some(region) => {
                    &&& final(self)@ == changed(
                        old(self)@,
                        id,
                        RegionView { live: seen(region.live, http::said(*read)), ..region },
                    )
                    &&& text::opt_text(r) == to_translate(region.live, http::said(*read))
                },
                None => final(self)@ == old(self)@ && r is None,
            }),
    {
        match self.find(id) {
            Some(i) => {
                let ghost region = self@.list[i as int];
                proof {
                    lemma_place(self@.list, id);
                    lemma_changed_is_valid(
                        self@,
                        id,
                        RegionView { live: seen(region.live, http::said(*read)), ..region },
                    );
                }
                let mut w = self.list.remove(i);
                assert(w@ == region);
                let r: Option<String> = match read {
                    Ok(t) => {
                        if w.live.see_recognized(t.as_str()) {
                            Some(t.clone())
                        } else {
                            None
                        }
                    },
                    Err(f) => {
                        w.live.fail("OCR failed", f);
                        None
                    },
                };
                self.list.insert(i, w);
                assert(self@.list =~= changed(
                    old(self)@,
                    id,
                    RegionView { live: seen(region.live, http::said(*read)), ..region },
                ).list);
                r
            },
            None => None,
        }
    }

    /// Takes note of the translation of a region's text. A region that is
    /// gone takes none.
    pub fn store(&mut self, id: usize, result: &Result<(String, String), Failure>)
        requires
            old(self).wf(),
        ensures
            final(self).wf(),
            final(self)@ == (match region_with(old(self)@, id) {
                Some(region) => changed(
                    old(self)@,
                    id,
                    RegionView {
                        live: live::stored(region.live, live::outcome_view(*result)),
                        ..region
                    },
                ),
                None => old(self)@,
            }),
    {
        match self.find(id) {
            Some(i) => {
                let ghost region = self@.list[i as int];
                let ghost new = RegionView {
                    live: live::stored(region.live, live::outcome_view(*result)),
                    ..region
                };
                proof {
                    lemma_place(self@.list, id);
                    lemma_changed_is_valid(self@, id, new);
                }
                let mut w = self.list.remove(i);
                assert(w@ == region);
                w.live.store(result);
                self.list.insert(i, w);
                assert(self@.list =~= changed(old(self)@, id, new).list);
            },
            None => {},
        }
    }

    /// Carries out a command, as far as that is the regions' own business.
    pub fn apply(&mut self, command: &RegionCommand) -> (r: RegionAction)
        requires
            old(self).wf(),
        ensures
            final(self).wf(),
            (match *command {
                RegionCommand::QuickCapture => r == RegionAction::QuickCapture && final(self)@
                    == old(self)@,
                RegionCommand::ShowRegions => r == RegionAction::ShowRegions && final(self)@
                    == old(self)@,
                RegionCommand::Delete { id } => {
                    &&& r == RegionAction::Done { found: place(old(self)@.list, id) is Some }
                    &&& final(self)@ == deleted(old(self)@, id)
                },
                RegionCommand::Rename { id, name } => {
                    &&& r == RegionAction::Done { found: place(old(self)@.list, id) is Some }
                    &&& final(self)@ == renamed(old(self)@, id, name@)
                },
            }),
    {
        match command {
            RegionCommand::QuickCapture => RegionAction::QuickCapture,
            RegionCommand::ShowRegions => RegionAction::ShowRegions,
            RegionCommand::Delete { id } => {
                let found = self.delete(*id);
                RegionAction::Done { found }
            },
            RegionCommand::Rename { id, name } => {
                let found = self.rename(*id, name.as_str());
                RegionAction::Done { found }
            },
        }
    }
}

proof fn lemma_deleted_is_valid(v: RegionsView, id: usize)
    requires
        valid(v),
    ensures
        valid(deleted(v, id)),
{
    lemma_place(v.list, id);
    if let Some(i) = place(v.list, id) {
        let d = v.list.remove(i);
        assert forall|a: int| 0 <= a < d.len() implies (#[trigger] d[a]).id < v.next_id by {
            if a < i {
                assert(d[a] == v.list[a]);
            } else {
                assert(d[a] == v.list[a + 1]);
            }
        }
        assert forall|a: int, b: int| 0 <= a < b < d.len() implies (#[trigger] d[a]).id < (
        #[trigger] d[b]).id by {
            let x = if a < i {
                a
            } else {
                a + 1
            };
            let y = if b < i {
                b
            } else {
                b + 1
            };
            assert(d[a] == v.list[x]);
            assert(d[b] == v.list[y]);
            assert(v.list[x].id < v.list[y].id);
        }
    }
}

proof fn lemma_changed_is_valid(v: RegionsView, id: usize, new: RegionView)
    requires
        valid(v),
        new.id == id,
    ensures
        valid(changed(v, id, new)),
{
    lemma_place(v.list, id);
    if let Some(i) = place(v.list, id) {
        let c = v.list.update(i, new);
        assert forall|a: int| 0 <= a < c.len() implies (#[trigger] c[a]).id < v.next_id by {
            assert(v.list[a].id < v.next_id);
        }
        assert forall|a: int, b: int| 0 <= a < b < c.len() implies (#[trigger] c[a]).id < (
        #[trigger] c[b]).id by {
            assert(v.list[a].id < v.list[b].id);
        }
    }
}

// ---------------------------------------------------------------------
// Laws
// ---------------------------------------------------------------------

/// A region that is added gets a number that no other region has.
pub proof fn law_added_region_is_new(v: RegionsView, rect: (u32, u32, u32, u32))
    requires
        valid(v),
        v.next_id < usize::MAX,
    ensures
        valid(added(v, rect)),
        region_with(v, v.next_id) is None,
        region_with(added(v, rect), v.next_id) == Some(new_region(v.next_id, rect)),
{
    let a = added(v, rect).list;
    lemma_place(v.list, v.next_id);
    assert forall|i: int| 0 <= i < a.len() implies (#[trigger] a[i]).id < v.next_id + 1 by {
        if i < v.list.len() {
            assert(a[i] == v.list[i]);
        }
    }
    assert forall|i: int, j: int| 0 <= i < j < a.len() implies (#[trigger] a[i]).id < (
    #[trigger] a[j]).id by {
        assert(a[i] == v.list[i]);
        if j < v.list.len() {
            assert(a[j] == v.list[j]);
        }
    }
}

/// A region that was deleted is gone, and stays gone when others are added:
/// its number is not used again.
pub proof fn law_deleted_region_stays_gone(
    v: RegionsView,
    id: usize,
    rect: (u32, u32, u32, u32),
)
    requires
        valid(v),
        v.next_id < usize::MAX,
        region_with(v, id) is Some,
    ensures
        region_with(deleted(v, id), id) is None,
        region_with(added(deleted(v, id), rect), id) is None,
{
    let d = deleted(v, id);
    lemma_place(v.list, id);
    let i = place(v.list, id)->0;
    assert(v.list[i].id < v.next_id);
    lemma_place(d.list, id);
    if let Some(k) = place(d.list, id) {
        if k < i {
            assert(d.list[k] == v.list[k]);
            assert(v.list[k].id < v.list[i].id);
        } else {
            assert(d.list[k] == v.list[k + 1]);
            assert(v.list[i].id < v.list[k + 1].id);
        }
    }
    assert(added(d, rect).list.drop_last() =~= d.list);
}

/// Deleting or changing a region leaves the others as they were.
pub proof fn law_other_regions_are_untouched(
    v: RegionsView,
    id: usize,
    other: usize,
    new: RegionView,
)
    requires
        valid(v),
        other != id,
        new.id == id,
    ensures
        region_with(deleted(v, id), other) == region_with(v, other),
        region_with(changed(v, id, new), other) == region_with(v, other),
{
    lemma_place(v.list, id);
    lemma_place(v.list, other);
    lemma_deleted_is_valid(v, id);
    lemma_changed_is_valid(v, id, new);
    let d = deleted(v, id).list;
    let c = changed(v, id, new).list;
    lemma_place(d, other);
    lemma_place(c, other);
    if let Some(i) = place(v.list, id) {
        if let Some(k) = place(v.list, other) {
            let m = if k < i {
                k
            } else {
                k - 1
            };
            assert(d[m] == v.list[k]);
            assert(c[k] == v.list[k]);
            assert(place(d, other) is Some);
            assert(place(c, other) is Some);
            let p = place(d, other)->0;
            let q = place(c, other)->0;
            lemma_one_place(d, p, m);
            lemma_one_place(c, q, k);
        } else {
            if let Some(p) = place(d, other) {
                assert(d[p] == if p < i {
                    v.list[p]
                } else {
                    v.list[p + 1]
                });
            }
            if let Some(q) = place(c, other) {
                assert(c[q] == v.list[q]);
            }
        }
    }
}

/// In a list along which the numbers grow, a number stands in one place.
proof fn lemma_one_place(list: Seq<RegionView>, a: int, b: int)
    requires
        forall|i: int, j: int|
            0 <= i < j < list.len() ==> (#[trigger] list[i]).id < (#[trigger] list[j]).id,
        0 <= a < list.len(),
        0 <= b < list.len(),
        list[a].id == list[b].id,
    ensures
        a == b,
{
    if a < b {
        assert(list[a].id < list[b].id);
    } else if b < a {
        assert(list[b].id < list[a].id);
    }
}

// ---------------------------------------------------------------------
// What each operation does to the list
// ---------------------------------------------------------------------

/// A new region has the number and the place it was given, no name, and
/// shows nothing yet.
pub proof fn law_new_region(id: usize, rect: (u32, u32, u32, u32), r: WatchedRegion)
    requires
        call_ensures(WatchedRegion::new, (id, rect), r),
    ensures
        r.id == id,
        r.rect == rect,
        r.name is None,
        r.live.source@.len() == 0,
        r.live.translated@.len() == 0,
        r.live.last_text is None,
{
    assert(r@.live == live::fresh());
}

/// A region goes by its name, and by its number where it has none.
pub proof fn law_title(region: &WatchedRegion, r: String)
    requires
        call_ensures(WatchedRegion::title, (region,), r),
    ensures
        region.name matches Some(n) ==> r@ == n@,
        region.name is None ==> r@ == "Region "@ + number::decimal(region.id as nat),
{
}

/// A session starts with one region, whose number is 1.
pub proof fn law_session_starts_with_one_region(rect: (u32, u32, u32, u32), r: Regions)
    requires
        call_ensures(Regions::start, (rect,), r),
    ensures
        r.list@.len() == 1,
        r.list@[0].id == 1,
        r.list@[0].rect == rect,
        r.list@[0].name is None,
        r.next_id == 2,
{
    assert(views(r.list@).len() == 1);
    assert(views(r.list@)[0] == r.list@[0]@);
}

/// A region is added behind the others, with the next number and the place
/// it was given; the others stay as they are.
pub proof fn law_region_is_added_last(s: &mut Regions, rect: (u32, u32, u32, u32), k: int)
    requires
        old(s).wf(),
        old(s).next_id < usize::MAX,
        call_ensures(Regions::add, (s, rect), ()),
    ensures
        final(s).list@.len() == old(s).list@.len() + 1,
        final(s).list@.last().id == old(s).next_id,
        final(s).list@.last().rect == rect,
        final(s).list@.last().name is None,
        0 <= k < old(s).list@.len() ==> final(s).list@[k]@ == old(s).list@[k]@,
        final(s).next_id == old(s).next_id + 1,
{
    let a = views(old(s).list@);
    let b = views(final(s).list@);
    assert(b == a.push(new_region(old(s).next_id, rect)));
    assert(b.len() == final(s).list@.len());
    assert(b[a.len() as int] == final(s).list@.last()@);
    if 0 <= k < old(s).list@.len() {
        assert(b[k] == final(s).list@[k]@);
        assert(a[k] == old(s).list@[k]@);
    }
}

proof fn lemma_found_at(v: RegionsView, id: usize, i: int)
    requires
        valid(v),
        0 <= i < v.list.len(),
        v.list[i].id == id,
    ensures
        place(v.list, id) == Some(i),
{
    lemma_place(v.list, id);
    lemma_one_place(v.list, place(v.list, id)->0, i);
}

proof fn lemma_not_found(v: RegionsView, id: usize)
    requires
        forall|i: int| 0 <= i < v.list.len() ==> (#[trigger] v.list[i]).id != id,
    ensures
        place(v.list, id) is None,
{
    lemma_place(v.list, id);
}

/// Whether no region in the list has the number.
pub open spec fn unused(list: Seq<WatchedRegion>, id: usize) -> bool {
    forall|i: int| 0 <= i < list.len() ==> (#[trigger] list[i]).id != id
}

proof fn lemma_unused(s: Regions, id: usize)
    requires
        unused(s.list@, id),
    ensures
        place(s@.list, id) is None,
{
    assert forall|i: int| 0 <= i < s@.list.len() implies (#[trigger] s@.list[i]).id != id by {
        assert(s@.list[i] == s.list@[i]@);
        assert(s.list@[i].id != id);
    }
    lemma_not_found(s@, id);
}

/// The region with the number is taken out of the list, and no other; the
/// others keep their order. Where none has the number, nothing changes.
pub proof fn law_delete_takes_one_region_out(
    s: &mut Regions,
    id: usize,
    found: bool,
    i: int,
    k: int,
)
    requires
        old(s).wf(),
        call_ensures(Regions::delete, (s, id), found),
    ensures
        final(s).next_id == old(s).next_id,
        0 <= i < old(s).list@.len() && old(s).list@[i].id == id ==> {
            &&& found
            &&& final(s).list@.len() == old(s).list@.len() - 1
            &&& 0 <= k < i ==> final(s).list@[k]@ == old(s).list@[k]@
            &&& i <= k < final(s).list@.len() ==> final(s).list@[k]@ == old(s).list@[k + 1]@
        },
        unused(old(s).list@, id) ==> !found && final(s)@ == old(s)@,
{
    let a = views(old(s).list@);
    let b = views(final(s).list@);
    assert(b.len() == final(s).list@.len());
    if 0 <= i < old(s).list@.len() && old(s).list@[i].id == id {
        assert(a[i] == old(s).list@[i]@);
        lemma_found_at(old(s)@, id, i);
        assert(b == a.remove(i));
        if 0 <= k < b.len() {
            assert(b[k] == final(s).list@[k]@);
            if k < i {
                assert(a[k] == old(s).list@[k]@);
            } else {
                assert(a[k + 1] == old(s).list@[k + 1]@);
            }
        }
    }
    if unused(old(s).list@, id) {
        lemma_unused(*old(s), id);
    }
}

/// The region with the number gets the name, and keeps all else; the others
/// stay as they are. Where none has the number, nothing changes.
pub proof fn law_rename_names_one_region(
    s: &mut Regions,
    id: usize,
    name: &str,
    found: bool,
    i: int,
    k: int,
)
    requires
        old(s).wf(),
        call_ensures(Regions::rename, (s, id, name), found),
    ensures
        final(s).next_id == old(s).next_id,
        final(s).list@.len() == old(s).list@.len(),
        0 <= i < old(s).list@.len() && old(s).list@[i].id == id ==> {
            &&& found
            &&& final(s).list@[i].name matches Some(n) && n@ == name@
            &&& final(s).list@[i].id == id
            &&& final(s).list@[i].rect == old(s).list@[i].rect
            &&& final(s).list@[i].live@ == old(s).list@[i].live@
            &&& 0 <= k < old(s).list@.len() && k != i ==> final(s).list@[k]@ == old(s).list@[k]@
        },
        unused(old(s).list@, id) ==> !found && final(s)@ == old(s)@,
{
    let a = views(old(s).list@);
    let b = views(final(s).list@);
    lemma_place(a, id);
    assert(b.len() == final(s).list@.len());
    assert(a.len() == old(s).list@.len());
    if 0 <= i < old(s).list@.len() && old(s).list@[i].id == id {
        assert(a[i] == old(s).list@[i]@);
        lemma_found_at(old(s)@, id, i);
        assert(b[i] == final(s).list@[i]@);
        if 0 <= k < b.len() {
            assert(b[k] == final(s).list@[k]@);
            assert(a[k] == old(s).list@[k]@);
        }
    }
    if unused(old(s).list@, id) {
        lemma_unused(*old(s), id);
    }
}

/// What was recognized in a region reaches that region and no other: a text
/// that is not empty and not the last one is shown, and handed back to be
/// translated; a failure is shown; any other text changes nothing.
pub proof fn law_see_reaches_one_region(
    s: &mut Regions,
    id: usize,
    read: &Result<String, Failure>,
    r: Option<String>,
    i: int,
    k: int,
)
    requires
        old(s).wf(),
        call_ensures(Regions::see, (s, id, read), r),
    ensures
        final(s).next_id == old(s).next_id,
        final(s).list@.len() == old(s).list@.len(),
        0 <= i < old(s).list@.len() && old(s).list@[i].id == id ==> {
            let before = old(s).list@[i];
            let after = final(s).list@[i];
            &&& after.id == id
            &&& after.rect == before.rect
            &&& text::opt_text(after.name) == text::opt_text(before.name)
            &&& after.live.translated@ == before.live.translated@
            &&& *read matches Ok(t) ==> {
                let fresh = t@.len() > 0 && text::opt_text(before.live.last_text) != Some(t@);
                &&& fresh ==> {
                    &&& r matches Some(x) && x@ == t@
                    &&& after.live.source@ == t@
                    &&& text::opt_text(after.live.last_text) == Some(t@)
                    &&& after.live.status == Some(live::Status::Translating)
                }
                &&& !fresh ==> r is None && after@ == before@
            }
            &&& *read matches Err(f) ==> {
                &&& r is None
                &&& after.live.source@ == before.live.source@
                &&& text::opt_text(after.live.last_text) == text::opt_text(before.live.last_text)
                &&& after.live.status matches Some(live::Status::Error(e)) && e@ == "OCR failed"@
                    + ": "@ + (match f.cause {
                    Some(c) => f.message@ + ": "@ + c@,
                    None => f.message@,
                })
            }
            &&& 0 <= k < old(s).list@.len() && k != i ==> final(s).list@[k]@ == old(s).list@[k]@
        },
        unused(old(s).list@, id) ==> r is None && final(s)@ == old(s)@,
{
    let a = views(old(s).list@);
    let b = views(final(s).list@);
    lemma_place(a, id);
    assert(b.len() == final(s).list@.len());
    assert(a.len() == old(s).list@.len());
    if 0 <= i < old(s).list@.len() && old(s).list@[i].id == id {
        assert(a[i] == old(s).list@[i]@);
        lemma_found_at(old(s)@, id, i);
        assert(b[i] == final(s).list@[i]@);
        assert(live::status_view(final(s).list@[i].live.status) == b[i].live.status);
        if 0 <= k < b.len() {
            assert(b[k] == final(s).list@[k]@);
            assert(a[k] == old(s).list@[k]@);
        }
    }
    if unused(old(s).list@, id) {
        lemma_unused(*old(s), id);
    }
}

/// A translation reaches the region it is for and no other, and is shown
/// there whatever was shown before; a failure takes nothing away. A region
/// that is gone takes none.
pub proof fn law_store_reaches_one_region(
    s: &mut Regions,
    id: usize,
    result: &Result<(String, String), Failure>,
    i: int,
    k: int,
)
    requires
        old(s).wf(),
        call_ensures(Regions::store, (s, id, result), ()),
    ensures
        final(s).next_id == old(s).next_id,
        final(s).list@.len() == old(s).list@.len(),
        0 <= i < old(s).list@.len() && old(s).list@[i].id == id ==> {
            let before = old(s).list@[i];
            let after = final(s).list@[i];
            &&& after.id == id
            &&& after.rect == before.rect
            &&& text::opt_text(after.name) == text::opt_text(before.name)
            &&& after.live.source@ == before.live.source@
            &&& text::opt_text(after.live.last_text) == text::opt_text(before.live.last_text)
            &&& *result matches Ok(p) ==> {
                &&& after.live.translated@ == p.1@
                &&& after.live.status matches Some(live::Status::Done { provider }) && provider@
                    == p.0@
            }
            &&& *result matches Err(f) ==> {
                &&& after.live.translated@ == before.live.translated@
                &&& after.live.status matches Some(live::Status::Error(e)) && e@ == (match f.cause {
                    Some(c) => f.message@ + ": "@ + c@,
                    None => f.message@,
                })
            }
            &&& 0 <= k < old(s).list@.len() && k != i ==> final(s).list@[k]@ == old(s).list@[k]@
        },
        unused(old(s).list@, id) ==> final(s)@ == old(s)@,
{
    let a = views(old(s).list@);
    let b = views(final(s).list@);
    lemma_place(a, id);
    assert(b.len() == final(s).list@.len());
    assert(a.len() == old(s).list@.len());
    if 0 <= i < old(s).list@.len() && old(s).list@[i].id == id {
        assert(a[i] == old(s).list@[i]@);
        lemma_found_at(old(s)@, id, i);
        assert(b[i] == final(s).list@[i]@);
        assert(live::status_view(final(s).list@[i].live.status) == b[i].live.status);
        if 0 <= k < b.len() {
            assert(b[k] == final(s).list@[k]@);
            assert(a[k] == old(s).list@[k]@);
        }
    }
    if unused(old(s).list@, id) {
        lemma_unused(*old(s), id);
    }
}

/// A command does what the operation of its name does, and the window is
/// asked for what it alone can do.
pub proof fn law_commands_do_what_they_say(
    s: &mut Regions,
    command: &RegionCommand,
    r: RegionAction,
    t: &mut Regions,
    id: usize,
    deleted_found: bool,
    u: &mut Regions,
    name: &str,
    renamed_found: bool,
)
    requires
        old(s).wf(),
        call_ensures(Regions::apply, (s, command), r),
        old(t)@ == old(s)@,
        call_ensures(Regions::delete, (t, id), deleted_found),
        old(u)@ == old(s)@,
        call_ensures(Regions::rename, (u, id, name), renamed_found),
    ensures
        *command is QuickCapture ==> r == RegionAction::QuickCapture && final(s)@ == old(s)@,
        *command is ShowRegions ==> r == RegionAction::ShowRegions && final(s)@ == old(s)@,
        *command matches RegionCommand::Delete { id: d } ==> (d == id ==> final(s)@ == final(t)@
            && r == RegionAction::Done { found: deleted_found }),
        *command matches RegionCommand::Rename { id: d, name: n } ==> (d == id && n@ == name@
            ==> final(s)@ == final(u)@ && r == RegionAction::Done { found: renamed_found }),
{
}

} // verus!
