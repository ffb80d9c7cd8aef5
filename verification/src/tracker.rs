//! The change tracker: snapshot, schema defaults and pending overlay.
//!
//! The snapshot holds the currently effective values, the defaults map
//! holds each declared attribute's schema default, and the overlay holds
//! only attributes whose desired value differs from the effective one.
//! The overlay never stores a no-op: setting an attribute back to its
//! effective value removes it.

use vstd::prelude::*;

use crate::cmap::ConfigMap;
use crate::options::ModuleOption;
use crate::options::OptionValue;

verus! {

pub struct Tracker {
    pub snapshot: ConfigMap,
    pub defaults: ConfigMap,
    pub overlay: ConfigMap,
}

impl Tracker {
    /// The currently effective value of an attribute: the snapshot's if
    /// present, else the schema default, else nothing.
    pub open spec fn effective(&self, id: Seq<char>) -> Option<OptionValue> {
        if self.snapshot@.contains_key(id) {
            Some(self.snapshot@[id])
        } else if self.defaults@.contains_key(id) {
            Some(self.defaults@[id])
        } else {
            None
        }
    }

    /// Well-formed: the parts are well-formed, and the overlay holds no
    /// entry equal to the effective value of its id.
    pub open spec fn wf(&self) -> bool {
        &&& self.snapshot.wf()
        &&& self.defaults.wf()
        &&& self.overlay.wf()
        &&& forall|id: Seq<char>|
            self.overlay@.contains_key(id) ==> Some(#[trigger] self.overlay@[id])
                != self.effective(id)
    }

    /// A fresh tracker with an empty overlay.
    pub fn new(snapshot: ConfigMap, defaults: ConfigMap) -> (r: Tracker)
        requires
            snapshot.wf(),
            defaults.wf(),
        ensures
            r.wf(),
            r.snapshot == snapshot,
            r.defaults == defaults,
            r.overlay@ == Map::<Seq<char>, OptionValue>::empty(),
    {
        Tracker { snapshot, defaults, overlay: ConfigMap::new() }
    }

    /// Records a desired value. A value equal to the effective one clears
    /// the pending change instead of storing it, so an undo erases the
    /// earlier edit.
    pub fn set(&mut self, id: String, value: ModuleOption)
        requires
            old(self).wf(),
        ensures
            final(self).wf(),
            final(self).snapshot == old(self).snapshot,
            final(self).defaults == old(self).defaults,
            final(self).overlay@ == (if old(self).effective(id@) == Some(value@) {
                old(self).overlay@.remove(id@)
            } else {
                old(self).overlay@.insert(id@, value@)
            }),
    {
        let same = match self.snapshot.get(id.as_str()) {
            Some(cur) => cur.same_as(&value),
            None => match self.defaults.get(id.as_str()) {
                Some(d) => d.same_as(&value),
                None => false,
            },
        };
        if same {
            self.overlay.remove(id.as_str());
        } else {
            self.overlay.insert(id, value);
        }
    }

    /// The value a module page shows for an attribute: the pending one
    /// if a change is staged, else the snapshot's.
    pub fn pending_or_current(&self, id: &str) -> (r: Option<&ModuleOption>)
        requires
            self.wf(),
        ensures
            match r {
                Some(v) => (self.overlay@.contains_key(id@) && v@ == self.overlay@[id@]) || (
                !self.overlay@.contains_key(id@) && self.snapshot@.contains_key(id@) && v@
                    == self.snapshot@[id@]),
                None => !self.overlay@.contains_key(id@) && !self.snapshot@.contains_key(id@),
            },
    {
        match self.overlay.get(id) {
            Some(v) => Some(v),
            None => self.snapshot.get(id),
        }
    }

    /// Whether unsaved changes exist.
    pub fn is_dirty(&self) -> (r: bool)
        ensures
            r == (self.overlay@ != Map::<Seq<char>, OptionValue>::empty()),
    {
        !self.overlay.is_empty()
    }
}

/// The overlay never holds an entry whose value equals the currently
/// effective value of its attribute, whatever `set` calls were made.
pub proof fn lemma_overlay_never_noop(t: &Tracker, id: Seq<char>)
    requires
        t.wf(),
        t.overlay@.contains_key(id),
    ensures
        Some(t.overlay@[id]) != t.effective(id),
{
}

} // verus!
