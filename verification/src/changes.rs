//! The confirmation diff: what the pending overlay will change.
//!
//! For every attribute in the overlay, the diff names the owning module
//! and classifies the change as new (the snapshot has no value) or as an
//! update from the old display string to the new one. Entries are
//! grouped by module, in the given module order, and within a module in
//! schema declaration order.

use vstd::prelude::*;

use crate::cmap::ConfigMap;
use crate::options::ModuleData;
use crate::options::ModuleDataView;
use crate::options::OptionDataView;
use crate::options::OptionValue;
use crate::options::display_of;

verus! {

/// How one attribute changes.
#[derive(Debug)]
pub enum ModificationType {
    New { value: String },
    Update { old_value: String, new_value: String },
}

pub ghost enum ModificationTypeView {
    New { value: Seq<char> },
    Update { old_value: Seq<char>, new_value: Seq<char> },
}

impl View for ModificationType {
    type V = ModificationTypeView;

    open spec fn view(&self) -> ModificationTypeView {
        match self {
            ModificationType::New { value } => ModificationTypeView::New { value: value@ },
            ModificationType::Update { old_value, new_value } => ModificationTypeView::Update {
                old_value: old_value@,
                new_value: new_value@,
            },
        }
    }
}

/// The display string of a change: the new value, or old and new joined
/// by an arrow.
pub open spec fn modification_display(m: ModificationTypeView) -> Seq<char> {
    match m {
        ModificationTypeView::New { value } => value,
        ModificationTypeView::Update { old_value, new_value } => old_value + " → "@ + new_value,
    }
}

impl ModificationType {
    #[allow(clippy::inherent_to_string)]
    pub fn to_string(&self) -> (r: String)
        ensures
            r@ == modification_display(self@),
    {
        match self {
            ModificationType::New { value } => value.clone(),
            ModificationType::Update { old_value, new_value } => {
                let mut r = old_value.clone();
                r.append(" → ");
                r.append(new_value.as_str());
                proof {
                    assert(r@ =~= old_value@ + " → "@ + new_value@);
                }
                r
            },
        }
    }
}

/// One changed attribute, under its schema label.
#[derive(Debug)]
pub struct OptionModification {
    pub label: String,
    pub mod_type: ModificationType,
}

pub ghost struct OptionModificationView {
    pub label: Seq<char>,
    pub mod_type: ModificationTypeView,
}

impl View for OptionModification {
    type V = OptionModificationView;

    open spec fn view(&self) -> OptionModificationView {
        OptionModificationView { label: self.label@, mod_type: self.mod_type@ }
    }
}

impl DeepView for OptionModification {
    type V = OptionModificationView;

    open spec fn deep_view(&self) -> OptionModificationView {
        self@
    }
}

/// The changes of one module, under the module's display name.
#[derive(Debug)]
pub struct ModuleChanges {
    pub label: String,
    pub modifications: Vec<OptionModification>,
}

pub ghost struct ModuleChangesView {
    pub label: Seq<char>,
    pub modifications: Seq<OptionModificationView>,
}

impl View for ModuleChanges {
    type V = ModuleChangesView;

    open spec fn view(&self) -> ModuleChangesView {
        ModuleChangesView { label: self.label@, modifications: self.modifications.deep_view() }
    }
}

impl DeepView for ModuleChanges {
    type V = ModuleChangesView;

    open spec fn deep_view(&self) -> ModuleChangesView {
        self@
    }
}

/// The change entry one schema option contributes, if its id is pending.
pub open spec fn change_for(
    snapshot: Map<Seq<char>, OptionValue>,
    overlay: Map<Seq<char>, OptionValue>,
    o: OptionDataView,
) -> Option<OptionModificationView> {
    if overlay.contains_key(o.id) {
        if snapshot.contains_key(o.id) {
            Some(
                OptionModificationView {
                    label: o.label,
                    mod_type: ModificationTypeView::Update {
                        old_value: display_of(snapshot[o.id]),
                        new_value: display_of(overlay[o.id]),
                    },
                },
            )
        } else {
            Some(
                OptionModificationView {
                    label: o.label,
                    mod_type: ModificationTypeView::New { value: display_of(overlay[o.id]) },
                },
            )
        }
    } else {
        None
    }
}

/// The change entries of a module's options, in declaration order.
pub open spec fn changes_for_options(
    snapshot: Map<Seq<char>, OptionValue>,
    overlay: Map<Seq<char>, OptionValue>,
    opts: Seq<OptionDataView>,
) -> Seq<OptionModificationView>
    decreases opts.len(),
{
    if opts.len() == 0 {
        Seq::empty()
    } else {
        changes_for_options(snapshot, overlay, opts.drop_last()) + (match change_for(
            snapshot,
            overlay,
            opts.last(),
        ) {
            Some(m) => seq![m],
            None => Seq::empty(),
        })
    }
}

/// The diff grouped by module, modules without changes left out.
pub open spec fn changes_for_modules(
    snapshot: Map<Seq<char>, OptionValue>,
    overlay: Map<Seq<char>, OptionValue>,
    schemas: Seq<ModuleDataView>,
) -> Seq<ModuleChangesView>
    decreases schemas.len(),
{
    if schemas.len() == 0 {
        Seq::empty()
    } else {
        let head = changes_for_modules(snapshot, overlay, schemas.drop_last());
        let ms = changes_for_options(snapshot, overlay, schemas.last().options);
        if ms.len() > 0 {
            head + seq![ModuleChangesView { label: schemas.last().name, modifications: ms }]
        } else {
            head
        }
    }
}

/// Computes the confirmation diff for the given module schemas.
pub fn diff(schemas: &Vec<ModuleData>, snapshot: &ConfigMap, overlay: &ConfigMap) -> (r: Vec<
    ModuleChanges,
>)
    requires
        snapshot.wf(),
        overlay.wf(),
    ensures
        r.deep_view() == changes_for_modules(snapshot@, overlay@, schemas.deep_view()),
{
    let ghost svs = schemas.deep_view();
    let mut out: Vec<ModuleChanges> = Vec::new();
    let mut i: usize = 0;
    while i < schemas.len()
        invariant
            snapshot.wf(),
            overlay.wf(),
            svs == schemas.deep_view(),
            svs.len() == schemas@.len(),
            0 <= i <= schemas@.len(),
            out.deep_view() == changes_for_modules(snapshot@, overlay@, svs.take(i as int)),
        decreases schemas@.len() - i,
    {
        let config = &schemas[i];
        proof {
            assert(svs[i as int] == schemas@[i as int].deep_view());
        }
        let ghost opts = config.options.deep_view();
        let mut mods: Vec<OptionModification> = Vec::new();
        let mut j: usize = 0;
        while j < config.options.len()
            invariant
                snapshot.wf(),
                overlay.wf(),
                opts == config.options.deep_view(),
                opts.len() == config.options@.len(),
                0 <= j <= config.options@.len(),
                mods.deep_view() == changes_for_options(snapshot@, overlay@, opts.take(j as int)),
            decreases config.options@.len() - j,
        {
            let o = &config.options[j];
            proof {
                assert(opts[j as int] == config.options@[j as int].deep_view());
                assert(opts.take(j + 1).drop_last() =~= opts.take(j as int));
                assert(opts.take(j + 1).last() == opts[j as int]);
            }
            let ghost mods_before = mods.deep_view();
            match overlay.get(o.id.as_str()) {
                Some(pending) => {
                    let display_new = pending.to_string();
                    let mod_type = match snapshot.get(o.id.as_str()) {
                        Some(current) => ModificationType::Update {
                            old_value: current.to_string(),
                            new_value: display_new,
                        },
                        None => ModificationType::New { value: display_new },
                    };
                    mods.push(OptionModification { label: o.label.clone(), mod_type });
                    proof {
                        assert(mods.deep_view().drop_last() =~= mods_before);
                        assert(mods.deep_view() =~= changes_for_options(
                            snapshot@,
                            overlay@,
                            opts.take(j + 1),
                        ));
                    }
                },
                None => {
                    proof {
                        assert(mods.deep_view() =~= changes_for_options(
                            snapshot@,
                            overlay@,
                            opts.take(j + 1),
                        ));
                    }
                },
            }
            j = j + 1;
        }
        proof {
            assert(opts.take(config.options@.len() as int) =~= opts);
            assert(svs.take(i + 1).drop_last() =~= svs.take(i as int));
            assert(svs.take(i + 1).last() == svs[i as int]);
        }
        let ghost out_before = out.deep_view();
        if mods.len() > 0 {
            out.push(ModuleChanges { label: config.name.clone(), modifications: mods });
            proof {
                assert(out.deep_view().drop_last() =~= out_before);
                assert(out.deep_view() =~= changes_for_modules(
                    snapshot@,
                    overlay@,
                    svs.take(i + 1),
                ));
            }
        } else {
            proof {
                assert(out.deep_view() =~= changes_for_modules(
                    snapshot@,
                    overlay@,
                    svs.take(i + 1),
                ));
            }
        }
        i = i + 1;
    }
    proof {
        assert(svs.take(schemas@.len() as int) =~= svs);
    }
    out
}

} // verus!
