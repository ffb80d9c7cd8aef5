//! The state extractor: the snapshot of currently effective values.
//!
//! For every schema option of every module, the extractor asks the text
//! service for the raw value at the option's attribute path and decodes
//! it by the option's type. Absent attributes and undecodable switch or
//! text tokens are skipped — that is a normal outcome, not an error.

use vstd::prelude::*;

use crate::cmap::ConfigMap;
use crate::nix::nix_read_array;
use crate::nix::nix_read_value;
use crate::nix::read_array;
use crate::nix::read_value;
use crate::options::Module;
use crate::options::ModuleOption;
use crate::options::ModuleView;
use crate::options::OptionData;
use crate::options::OptionDataView;
use crate::options::OptionType;
use crate::options::OptionTypeView;
use crate::options::OptionValue;
use crate::options::decode_enum;
use crate::options::decode_numbers;
use crate::options::decode_spec;
use crate::options::decode_switch;
use crate::options::decode_text;
use crate::options::enum_pretty;

verus! {

/// What one schema option contributes to the snapshot: the decoded
/// value of its attribute, or nothing when the attribute is absent or
/// does not decode.
pub open spec fn extracted_value(text: Seq<char>, o: OptionDataView) -> Option<OptionValue> {
    match nix_read_value(text, o.id) {
        Some(raw) => decode_spec(o.op_type, raw, nix_read_array(text, o.id)),
        None => None,
    }
}

/// The snapshot built from a list of schema options, in order; a later
/// module writing the same id wins.
pub open spec fn snapshot_of(text: Seq<char>, opts: Seq<OptionDataView>) -> Map<
    Seq<char>,
    OptionValue,
>
    decreases opts.len(),
{
    if opts.len() == 0 {
        Map::empty()
    } else {
        let m = snapshot_of(text, opts.drop_last());
        match extracted_value(text, opts.last()) {
            Some(v) => m.insert(opts.last().id, v),
            None => m,
        }
    }
}

/// All schema options of a module list, in module order.
pub open spec fn all_options(ms: Seq<ModuleView>) -> Seq<OptionDataView>
    decreases ms.len(),
{
    if ms.len() == 0 {
        Seq::empty()
    } else {
        all_options(ms.drop_last()) + ms.last().config.options
    }
}

/// Extracts the value of one schema option from the config text into
/// the snapshot under construction.
fn extract_option(cm: &mut ConfigMap, text: &str, o: &OptionData)
    requires
        old(cm).wf(),
    ensures
        final(cm).wf(),
        final(cm)@ == (match extracted_value(text@, o@) {
            Some(v) => old(cm)@.insert(o@.id, v),
            None => old(cm)@,
        }),
{
    match read_value(text, o.id.as_str()) {
        Some(raw) => {
            match &o.op_type {
                OptionType::Switch { .. } => {
                    match decode_switch(raw.as_str()) {
                        Some(b) => {
                            cm.insert(o.id.clone(), ModuleOption::Switch { value: b });
                        },
                        None => {},
                    }
                },
                OptionType::Text { .. } => {
                    match decode_text(raw.as_str()) {
                        Some(s) => {
                            cm.insert(o.id.clone(), ModuleOption::Text { value: s });
                        },
                        None => {},
                    }
                },
                OptionType::Enum { default: _, options } => {
                    let v = decode_enum(options, raw.as_str());
                    cm.insert(o.id.clone(), v);
                },
                OptionType::NumberList { .. } => {
                    match read_array(text, o.id.as_str()) {
                        Some(tokens) => {
                            let ns = decode_numbers(&tokens);
                            cm.insert(o.id.clone(), ModuleOption::NumberList { value: ns });
                        },
                        None => {},
                    }
                },
            }
        },
        None => {},
    }
}

/// Builds the configuration snapshot for a set of modules from the
/// current config text.
pub fn extract_snapshot(text: &str, modules: &Vec<Module>) -> (r: ConfigMap)
    ensures
        r.wf(),
        r@ == snapshot_of(text@, all_options(modules.deep_view())),
{
    let ghost mvs = modules.deep_view();
    let mut cm = ConfigMap::new();
    let mut i: usize = 0;
    proof {
        assert(all_options(mvs.take(0)) =~= Seq::<OptionDataView>::empty());
    }
    while i < modules.len()
        invariant
            mvs == modules.deep_view(),
            mvs.len() == modules@.len(),
            0 <= i <= modules@.len(),
            cm.wf(),
            cm@ == snapshot_of(text@, all_options(mvs.take(i as int))),
        decreases modules@.len() - i,
    {
        let config = &modules[i].config;
        proof {
            assert(mvs[i as int] == modules@[i as int].deep_view());
        }
        let ghost head = all_options(mvs.take(i as int));
        let ghost opts = config.options.deep_view();
        let mut j: usize = 0;
        proof {
            assert(head + opts.take(0) =~= head);
        }
        while j < config.options.len()
            invariant
                opts == config.options.deep_view(),
                opts.len() == config.options@.len(),
                0 <= j <= config.options@.len(),
                cm.wf(),
                cm@ == snapshot_of(text@, head + opts.take(j as int)),
            decreases config.options@.len() - j,
        {
            let o = &config.options[j];
            proof {
                assert(opts[j as int] == config.options@[j as int].deep_view());
                assert((head + opts.take(j + 1)).drop_last() =~= head + opts.take(j as int));
                assert((head + opts.take(j + 1)).last() == opts[j as int]);
            }
            extract_option(&mut cm, text, o);
            j = j + 1;
        }
        proof {
            assert(head + opts.take(config.options@.len() as int) =~= head + opts);
            assert(mvs.take(i + 1).drop_last() =~= mvs.take(i as int));
            assert(mvs.take(i + 1).last() == mvs[i as int]);
            assert(all_options(mvs.take(i + 1)) =~= head + opts);
        }
        i = i + 1;
    }
    proof {
        assert(mvs.take(modules@.len() as int) =~= mvs);
    }
    cm
}

/// The schema default of an option type, as a runtime value.
pub open spec fn default_value(t: OptionTypeView) -> OptionValue {
    match t {
        OptionTypeView::Switch { default } => OptionValue::Switch { value: default },
        OptionTypeView::Text { default } => OptionValue::Text { value: default },
        OptionTypeView::Enum { default, options } => OptionValue::Enum {
            value: default,
            pretty: enum_pretty(options, default),
        },
        OptionTypeView::NumberList { default } => OptionValue::NumberList { value: default },
    }
}

/// The map from every declared attribute id to its schema default.
pub open spec fn defaults_of(opts: Seq<OptionDataView>) -> Map<Seq<char>, OptionValue>
    decreases opts.len(),
{
    if opts.len() == 0 {
        Map::empty()
    } else {
        defaults_of(opts.drop_last()).insert(
            opts.last().id,
            default_value(opts.last().op_type),
        )
    }
}

/// The schema default of one option, as a runtime value.
pub fn option_default(o: &OptionData) -> (r: ModuleOption)
    ensures
        r@ == default_value(o@.op_type),
{
    match &o.op_type {
        OptionType::Switch { default } => ModuleOption::Switch { value: *default },
        OptionType::Text { default } => ModuleOption::Text { value: default.clone() },
        OptionType::Enum { default, options } => decode_enum(options, default.as_str()),
        OptionType::NumberList { default } => ModuleOption::NumberList {
            value: default.clone(),
        },
    }
}

/// Builds the map of schema defaults for a set of modules.
pub fn build_defaults(modules: &Vec<Module>) -> (r: ConfigMap)
    ensures
        r.wf(),
        r@ == defaults_of(all_options(modules.deep_view())),
{
    let ghost mvs = modules.deep_view();
    let mut cm = ConfigMap::new();
    let mut i: usize = 0;
    proof {
        assert(all_options(mvs.take(0)) =~= Seq::<OptionDataView>::empty());
    }
    while i < modules.len()
        invariant
            mvs == modules.deep_view(),
            mvs.len() == modules@.len(),
            0 <= i <= modules@.len(),
            cm.wf(),
            cm@ == defaults_of(all_options(mvs.take(i as int))),
        decreases modules@.len() - i,
    {
        let config = &modules[i].config;
        proof {
            assert(mvs[i as int] == modules@[i as int].deep_view());
        }
        let ghost head = all_options(mvs.take(i as int));
        let ghost opts = config.options.deep_view();
        let mut j: usize = 0;
        proof {
            assert(head + opts.take(0) =~= head);
        }
        while j < config.options.len()
            invariant
                opts == config.options.deep_view(),
                opts.len() == config.options@.len(),
                0 <= j <= config.options@.len(),
                cm.wf(),
                cm@ == defaults_of(head + opts.take(j as int)),
            decreases config.options@.len() - j,
        {
            let o = &config.options[j];
            proof {
                assert(opts[j as int] == config.options@[j as int].deep_view());
                assert((head + opts.take(j + 1)).drop_last() =~= head + opts.take(j as int));
                assert((head + opts.take(j + 1)).last() == opts[j as int]);
            }
            let d = option_default(o);
            cm.insert(o.id.clone(), d);
            j = j + 1;
        }
        proof {
            assert(head + opts.take(config.options@.len() as int) =~= head + opts);
            assert(mvs.take(i + 1).drop_last() =~= mvs.take(i as int));
            assert(mvs.take(i + 1).last() == mvs[i as int]);
            assert(all_options(mvs.take(i + 1)) =~= head + opts);
        }
        i = i + 1;
    }
    proof {
        assert(mvs.take(modules@.len() as int) =~= mvs);
    }
    cm
}

/// What a fresh load hands the session: the snapshot, the config text
/// it was read from, and the discovered modules.
pub struct ReloadOutput {
    pub current_config: ConfigMap,
    pub moduleconfig: String,
    pub modules: Vec<Module>,
}

/// Rebuilds the session state from freshly read config text and
/// freshly discovered modules; nothing of any earlier state survives.
pub fn reload(moduleconfig: String, modules: Vec<Module>) -> (r: ReloadOutput)
    ensures
        r.current_config.wf(),
        r.current_config@ == snapshot_of(moduleconfig@, all_options(modules.deep_view())),
        r.moduleconfig == moduleconfig,
        r.modules == modules,
{
    let current_config = extract_snapshot(moduleconfig.as_str(), &modules);
    ReloadOutput { current_config, moduleconfig, modules }
}

} // verus!
