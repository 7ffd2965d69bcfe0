//! What plugins add to the screen: lines shown in named places (slots) and extra screens
//! (routes). Each slot shows the lines of every plugin that registered some there, in the
//! order they registered; a plugin registering again in a slot replaces its lines there.
use vstd::prelude::*;
use crate::app_state::AppState;
use crate::text::{concat, has_prefix, str_eq, str_starts_with};

verus! {

/// A place on the screen where plugins may add lines.
#[derive(Debug, Clone, Copy, PartialEq, Eq, Hash, Structural)]
pub enum PluginSlot {
    HomeTop,
    HomeBottom,
    SidebarTop,
    SidebarBottom,
    StatusBar,
}

/// How a plugin's lines are drawn.
#[derive(Debug, Clone, Copy, PartialEq, Eq, Structural)]
pub enum SlotStyle {
    Normal,
    Dim,
    Accent,
}

/// The lines one plugin shows in a slot.
#[derive(Debug, Clone)]
pub struct SlotContent {
    pub plugin_id: String,
    pub lines: Vec<String>,
    pub style: SlotStyle,
}

/// A screen added by a plugin, known by an id of the form `plugin:name`.
#[derive(Debug, Clone)]
pub struct PluginRoute {
    pub id: String,
    pub title: String,
}

/// The contents shown in `slot`, in the order they were registered.
pub open spec fn contents_in(es: Seq<(PluginSlot, SlotContent)>, slot: PluginSlot) -> Seq<SlotContent>
    decreases es.len(),
{
    if es.len() == 0 {
        Seq::empty()
    } else {
        let r = contents_in(es.drop_last(), slot);
        if es.last().0 == slot {
            r.push(es.last().1)
        } else {
            r
        }
    }
}

/// Whether entry `e` belongs to plugin `id`, in `slot` when one is given.
pub open spec fn owned_by(e: (PluginSlot, SlotContent), slot: Option<PluginSlot>, id: Seq<char>) -> bool {
    e.1.plugin_id@ == id && match slot {
        Some(s) => e.0 == s,
        None => true,
    }
}

/// `es` without the entries of plugin `id` (in `slot` only, when one is given), in order.
pub open spec fn without_plugin(es: Seq<(PluginSlot, SlotContent)>, slot: Option<PluginSlot>, id: Seq<char>) -> Seq<(PluginSlot, SlotContent)>
    decreases es.len(),
{
    if es.len() == 0 {
        Seq::empty()
    } else {
        let r = without_plugin(es.drop_last(), slot, id);
        if owned_by(es.last(), slot, id) {
            r
        } else {
            r.push(es.last())
        }
    }
}

/// The contents `cs` without those of plugin `id`, in order.
pub open spec fn drop_plugin(cs: Seq<SlotContent>, id: Seq<char>) -> Seq<SlotContent>
    decreases cs.len(),
{
    if cs.len() == 0 {
        Seq::empty()
    } else {
        let r = drop_plugin(cs.drop_last(), id);
        if cs.last().plugin_id@ == id {
            r
        } else {
            r.push(cs.last())
        }
    }
}

/// Whether route `r` belongs to plugin `id`: its id starts with `id:`.
pub open spec fn route_of(r: PluginRoute, id: Seq<char>) -> bool {
    has_prefix(r.id@, id + ":"@)
}

/// `rs` without the routes of plugin `id`, in order.
pub open spec fn without_routes(rs: Seq<PluginRoute>, id: Seq<char>) -> Seq<PluginRoute>
    decreases rs.len(),
{
    if rs.len() == 0 {
        Seq::empty()
    } else {
        let r = without_routes(rs.drop_last(), id);
        if route_of(rs.last(), id) {
            r
        } else {
            r.push(rs.last())
        }
    }
}

/// Removing a plugin's entries from one slot leaves the other slots as they were and drops
/// that plugin's contents from that slot; removing them everywhere drops its contents from
/// every slot.
pub proof fn lemma_without_plugin_per_slot(
    es: Seq<(PluginSlot, SlotContent)>,
    slot: Option<PluginSlot>,
    id: Seq<char>,
    s: PluginSlot,
)
    ensures
        contents_in(without_plugin(es, slot, id), s) == (match slot {
            Some(t) => if t == s { drop_plugin(contents_in(es, s), id) } else { contents_in(es, s) },
            None => drop_plugin(contents_in(es, s), id),
        }),
    decreases es.len(),
{
    if es.len() > 0 {
        let init = es.drop_last();
        let e = es.last();
        lemma_without_plugin_per_slot(init, slot, id, s);
        let w = without_plugin(init, slot, id);
        assert(w.push(e).drop_last() =~= w);
        let c = contents_in(init, s);
        assert(c.push(e.1).drop_last() =~= c);
    }
}

/// Registering a plugin's lines in a slot makes them the last shown there, after the other
/// plugins' lines in that slot; every other slot shows what it showed.
pub proof fn lemma_register_per_slot(
    es: Seq<(PluginSlot, SlotContent)>,
    slot: PluginSlot,
    c: SlotContent,
    s: PluginSlot,
)
    ensures
        contents_in(without_plugin(es, Some(slot), c.plugin_id@).push((slot, c)), s) == if s == slot {
            drop_plugin(contents_in(es, s), c.plugin_id@).push(c)
        } else {
            contents_in(es, s)
        },
{
    let w = without_plugin(es, Some(slot), c.plugin_id@);
    assert(w.push((slot, c)).drop_last() =~= w);
    lemma_without_plugin_per_slot(es, Some(slot), c.plugin_id@, s);
}

/// Takes the entries of plugin `id` (in `slot` only, when one is given) out of `es`.
fn remove_entries(es: &mut Vec<(PluginSlot, SlotContent)>, slot: Option<PluginSlot>, id: &str)
    ensures
        final(es)@ == without_plugin(old(es)@, slot, id@),
{
    let ghost orig = es@;
    let mut rest: Vec<(PluginSlot, SlotContent)> = Vec::new();
    std::mem::swap(&mut rest, es);
    let ghost mut taken: int = 0;
    while rest.len() > 0
        invariant
            0 <= taken <= orig.len(),
            rest@ == orig.skip(taken),
            es@ == without_plugin(orig.take(taken), slot, id@),
        decreases rest@.len(),
    {
        assert(orig.take(taken + 1).drop_last() =~= orig.take(taken));
        assert(orig.take(taken + 1).last() == orig[taken]);
        let e = rest.remove(0);
        let owned = str_eq(e.1.plugin_id.as_str(), id) && match slot {
            Some(s) => e.0 == s,
            None => true,
        };
        if !owned {
            es.push(e);
        }
        proof {
            taken = taken + 1;
            assert(rest@ =~= orig.skip(taken));
        }
    }
    assert(orig.take(taken) =~= orig);
}

impl AppState {
    /// Shows `lines` for plugin `plugin_id` in `slot`, in place of what that plugin showed
    /// there before, after the other plugins' lines (see `lemma_register_per_slot`).
    pub fn register_slot_content(&mut self, plugin_id: String, slot: PluginSlot, lines: Vec<String>, style: SlotStyle)
        ensures
            final(self).plugin_slots@ == without_plugin(old(self).plugin_slots@, Some(slot), plugin_id@).push(
                (slot, SlotContent { plugin_id: plugin_id, lines: lines, style: style }),
            ),
            *final(self) == (AppState { plugin_slots: final(self).plugin_slots, ..*old(self) }),
    {
        remove_entries(&mut self.plugin_slots, Some(slot), plugin_id.as_str());
        self.plugin_slots.push((slot, SlotContent { plugin_id, lines, style }));
    }

    /// Takes every line of plugin `plugin_id` off the screen.
    pub fn remove_plugin_slot_content(&mut self, plugin_id: &str)
        ensures
            final(self).plugin_slots@ == without_plugin(old(self).plugin_slots@, None, plugin_id@),
            *final(self) == (AppState { plugin_slots: final(self).plugin_slots, ..*old(self) }),
    {
        remove_entries(&mut self.plugin_slots, None, plugin_id);
    }

    /// The contents shown in `slot`, in the order they were registered.
    pub fn get_slot_content(&self, slot: PluginSlot) -> (r: Vec<&SlotContent>)
        ensures
            r@.len() == contents_in(self.plugin_slots@, slot).len(),
            forall|i: int| 0 <= i < r@.len() ==> *r@[i] == #[trigger] contents_in(self.plugin_slots@, slot)[i],
    {
        let mut r: Vec<&SlotContent> = Vec::new();
        let mut i: usize = 0;
        while i < self.plugin_slots.len()
            invariant
                i <= self.plugin_slots@.len(),
                r@.len() == contents_in(self.plugin_slots@.take(i as int), slot).len(),
                forall|k: int| 0 <= k < r@.len() ==> *r@[k] == #[trigger] contents_in(self.plugin_slots@.take(i as int), slot)[k],
            decreases self.plugin_slots@.len() - i,
        {
            assert(self.plugin_slots@.take(i + 1).drop_last() =~= self.plugin_slots@.take(i as int));
            if self.plugin_slots[i].0 == slot {
                r.push(&self.plugin_slots[i].1);
            }
            i = i + 1;
        }
        assert(self.plugin_slots@.take(self.plugin_slots@.len() as int) =~= self.plugin_slots@);
        r
    }

    /// Adds a screen of a plugin.
    pub fn register_plugin_route(&mut self, route: PluginRoute)
        ensures
            final(self).plugin_routes@ == old(self).plugin_routes@.push(route),
            *final(self) == (AppState { plugin_routes: final(self).plugin_routes, ..*old(self) }),
    {
        self.plugin_routes.push(route);
    }

    /// Drops the screens of plugin `plugin_id`: those whose id starts with `plugin_id:`.
    pub fn remove_plugin_routes_by_plugin(&mut self, plugin_id: &str)
        ensures
            final(self).plugin_routes@ == without_routes(old(self).plugin_routes@, plugin_id@),
            *final(self) == (AppState { plugin_routes: final(self).plugin_routes, ..*old(self) }),
    {
        let prefix = concat(plugin_id, ":");
        let ghost orig = self.plugin_routes@;
        let mut rest: Vec<PluginRoute> = Vec::new();
        std::mem::swap(&mut rest, &mut self.plugin_routes);
        let ghost mut taken: int = 0;
        while rest.len() > 0
            invariant
                0 <= taken <= orig.len(),
                rest@ == orig.skip(taken),
                prefix@ == plugin_id@ + ":"@,
                self.plugin_routes@ == without_routes(orig.take(taken), plugin_id@),
                *self == (AppState { plugin_routes: self.plugin_routes, ..*old(self) }),
            decreases rest@.len(),
        {
            assert(orig.take(taken + 1).drop_last() =~= orig.take(taken));
            assert(orig.take(taken + 1).last() == orig[taken]);
            let r = rest.remove(0);
            if !str_starts_with(r.id.as_str(), prefix.as_str()) {
                self.plugin_routes.push(r);
            }
            proof {
                taken = taken + 1;
                assert(rest@ =~= orig.skip(taken));
            }
        }
        assert(orig.take(taken) =~= orig);
    }
}

} // verus!
