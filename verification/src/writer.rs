//! The config writer: validated attribute writes on declarative text.
//!
//! Every mutation is validated against the owning module's schema
//! before any text is touched; the write itself is delegated to the
//! text service and the result is canonically reformatted.

use vstd::prelude::*;

use crate::cmap::ConfigMap;
use crate::nix::fmt_of;
use crate::nix::nix_remove_attr;
use crate::nix::nix_write_attr;
use crate::nix::lemma_plain_head_not_attrset;
use crate::nix::opens_attrset;
use crate::nix::opens_attrset_in;
use crate::nix::reformat;
use crate::nix::remove_attr;
use crate::nix::write_attr;
use crate::nix::write_attr_any;
use crate::options::Module;
use crate::options::OptionData;
use crate::options::OptionDataView;
use crate::options::OptionValue;
use crate::options::serial_of;
use crate::options::valid_serial;
use crate::options::validate_serial;
use crate::text::last_segment;
use crate::text::last_segment_of;
use crate::text::str_eq;

verus! {

/// Why a mutation was rejected or failed.
#[derive(Clone, Copy, Debug, PartialEq, Eq, Structural)]
pub enum ModifyError {
    /// The attribute id is not declared in the module's schema.
    OptionNotFound,
    /// The serialization string does not have the type's shape.
    InvalidValue,
    /// The text service could not perform the write or removal.
    WriteFailed,
}

/// The id is declared among the schema options.
pub open spec fn has_option(opts: Seq<OptionDataView>, id: Seq<char>) -> bool {
    exists|i: int| 0 <= i < opts.len() && (#[trigger] opts[i]).id == id
}

/// Whether the schema declares an option with this id.
pub fn contains_option(options: &Vec<OptionData>, id: &str) -> (r: bool)
    ensures
        r == has_option(options.deep_view(), id@),
{
    let ghost opts = options.deep_view();
    let mut i: usize = 0;
    while i < options.len()
        invariant
            opts == options.deep_view(),
            opts.len() == options@.len(),
            0 <= i <= options@.len(),
            forall|j: int| 0 <= j < i ==> (#[trigger] opts[j]).id != id@,
        decreases options@.len() - i,
    {
        proof {
            assert(opts[i as int] == options@[i as int].deep_view());
        }
        if str_eq(options[i].id.as_str(), id) {
            proof {
                assert(exists|j: int| 0 <= j < opts.len() && (#[trigger] opts[j]).id == id@);
            }
            return true;
        }
        i = i + 1;
    }
    false
}

/// Writing a raw literal at an attribute path and reformatting.
pub open spec fn write_result(text: Seq<char>, attr: Seq<char>, val: Seq<char>) -> Option<
    Seq<char>,
> {
    match nix_write_attr(text, attr, val) {
        Some(w) => Some(fmt_of(w)),
        None => None,
    }
}

/// Removing an attribute path and reformatting.
pub open spec fn remove_result(text: Seq<char>, attr: Seq<char>) -> Option<Seq<char>> {
    match nix_remove_attr(text, attr) {
        Some(w) => Some(fmt_of(w)),
        None => None,
    }
}

/// Sets an attribute to a raw literal and reformats the text.
pub fn write_option_text(text: &str, attr: &str, val: &str) -> (r: Result<String, ModifyError>)
    requires
        !opens_attrset(val@),
    ensures
        match r {
            Ok(out) => write_result(text@, attr@, val@) == Some(out@) && fmt_of(out@) == out@,
            Err(e) => e == ModifyError::WriteFailed && write_result(text@, attr@, val@)
                is None,
        },
{
    match write_attr(text, attr, val) {
        Some(w) => Ok(reformat(w.as_str())),
        None => Err(ModifyError::WriteFailed),
    }
}

/// Removes an attribute and reformats the text.
pub fn remove_option_text(text: &str, attr: &str) -> (r: Result<String, ModifyError>)
    ensures
        match r {
            Ok(out) => remove_result(text@, attr@) == Some(out@) && fmt_of(out@) == out@,
            Err(e) => e == ModifyError::WriteFailed && remove_result(text@, attr@) is None,
        },
{
    match remove_attr(text, attr) {
        Some(w) => Ok(reformat(w.as_str())),
        None => Err(ModifyError::WriteFailed),
    }
}

impl Module {
    /// Sets one option to a serialization string, after checking that
    /// the option is declared here and the string has the type's shape.
    /// A request that fails a check is rejected before the text is
    /// touched. A value that opens an attribute-set literal is still
    /// written, but the editor's result for it is not a function of the
    /// arguments, so the contract then promises only a canonically
    /// formatted result.
    pub fn setoption(&self, option: &OptionData, value: &str, text: &str) -> (r: Result<
        String,
        ModifyError,
    >)
        ensures
            match r {
                Ok(out) => has_option(self.config@.options, option.id@) && valid_serial(
                    option.op_type@,
                    value@,
                ) && fmt_of(out@) == out@ && (!opens_attrset(value@) ==> write_result(
                    text@,
                    option.id@,
                    value@,
                ) == Some(out@)),
                Err(e) => match e {
                    ModifyError::OptionNotFound => !has_option(
                        self.config@.options,
                        option.id@,
                    ),
                    ModifyError::InvalidValue => has_option(self.config@.options, option.id@)
                        && !valid_serial(option.op_type@, value@),
                    ModifyError::WriteFailed => has_option(self.config@.options, option.id@)
                        && valid_serial(option.op_type@, value@) && (!opens_attrset(value@)
                        ==> write_result(text@, option.id@, value@) is None),
                },
            },
    {
        if !contains_option(&self.config.options, option.id.as_str()) {
            return Err(ModifyError::OptionNotFound);
        }
        if !validate_serial(&option.op_type, value) {
            return Err(ModifyError::InvalidValue);
        }
        if opens_attrset_in(value) {
            match write_attr_any(text, option.id.as_str(), value) {
                Some(w) => Ok(reformat(w.as_str())),
                None => Err(ModifyError::WriteFailed),
            }
        } else {
            write_option_text(text, option.id.as_str(), value)
        }
    }

    /// Removes one declared option from the text entirely, reverting it
    /// to its upstream default.
    pub fn deref_option(&self, option: &OptionData, text: &str) -> (r: Result<
        String,
        ModifyError,
    >)
        ensures
            match r {
                Ok(out) => has_option(self.config@.options, option.id@) && remove_result(
                    text@,
                    option.id@,
                ) == Some(out@),
                Err(e) => match e {
                    ModifyError::OptionNotFound => !has_option(
                        self.config@.options,
                        option.id@,
                    ),
                    ModifyError::InvalidValue => false,
                    ModifyError::WriteFailed => has_option(self.config@.options, option.id@)
                        && remove_result(text@, option.id@) is None,
                },
            },
    {
        if !contains_option(&self.config.options, option.id.as_str()) {
            return Err(ModifyError::OptionNotFound);
        }
        remove_option_text(text, option.id.as_str())
    }
}

/// The first schema option whose id's last dotted segment is `enable`.
pub open spec fn find_enable(opts: Seq<OptionDataView>) -> Option<OptionDataView>
    decreases opts.len(),
{
    if opts.len() == 0 {
        None
    } else if last_segment(opts[0].id) == "enable"@ {
        Some(opts[0])
    } else {
        find_enable(opts.skip(1))
    }
}

impl Module {
    /// Switches the module's `enable` option on or off: writes `true`
    /// or `false` at the first declared id ending in `.enable`.
    pub fn enable(&self, enable: bool, text: &str) -> (r: Result<String, ModifyError>)
        ensures
            match r {
                Ok(out) => match find_enable(self.config@.options) {
                    Some(o) => write_result(
                        text@,
                        o.id,
                        if enable {
                            "true"@
                        } else {
                            "false"@
                        },
                    ) == Some(out@),
                    None => false,
                },
                Err(e) => match e {
                    ModifyError::OptionNotFound => find_enable(self.config@.options) is None,
                    ModifyError::InvalidValue => false,
                    ModifyError::WriteFailed => match find_enable(self.config@.options) {
                        Some(o) => write_result(
                            text@,
                            o.id,
                            if enable {
                                "true"@
                            } else {
                                "false"@
                            },
                        ) is None,
                        None => false,
                    },
                },
            },
    {
        let options = &self.config.options;
        let ghost opts = self.config@.options;
        proof {
            assert(opts.skip(0) =~= opts);
        }
        let mut i: usize = 0;
        while i < options.len()
            invariant
                opts == self.config@.options,
                opts == options.deep_view(),
                opts.len() == options@.len(),
                0 <= i <= options@.len(),
                find_enable(opts) == find_enable(opts.skip(i as int)),
            decreases options@.len() - i,
        {
            proof {
                assert(opts[i as int] == options@[i as int].deep_view());
                assert(opts.skip(i as int)[0] == opts[i as int]);
            }
            let seg = last_segment_of(options[i].id.as_str());
            if str_eq(seg, "enable") {
                let val: &str = if enable {
                    "true"
                } else {
                    "false"
                };
                proof {
                    reveal_strlit("true");
                    reveal_strlit("false");
                    assert(!crate::nix::is_space_char(val@[0]) && val@[0] != '{');
                    lemma_plain_head_not_attrset(val@);
                }
                return write_option_text(text, options[i].id.as_str(), val);
            }
            proof {
                assert(opts.skip(i as int).skip(1) =~= opts.skip(i + 1));
            }
            i = i + 1;
        }
        Err(ModifyError::OptionNotFound)
    }
}

/// Folding the overlay's writes over the text, entry by entry, without
/// the final reformatting.
pub open spec fn write_all(text: Seq<char>, entries: Seq<(Seq<char>, OptionValue)>) -> Option<
    Seq<char>,
>
    decreases entries.len(),
{
    if entries.len() == 0 {
        Some(text)
    } else {
        match nix_write_attr(text, entries[0].0, serial_of(entries[0].1)) {
            Some(t2) => write_all(t2, entries.skip(1)),
            None => None,
        }
    }
}

/// No pending value's serialization opens an attribute-set literal;
/// only then is the editor's whole fold a function of its inputs.
pub open spec fn all_plain(entries: Seq<(Seq<char>, OptionValue)>) -> bool {
    forall|i: int|
        0 <= i < entries.len() ==> !opens_attrset(serial_of((#[trigger] entries[i]).1))
}

/// Serializes the whole overlay into the config text: every pending
/// value is written at its attribute path, in overlay order, and the
/// result is reformatted once. Where some value opens an attribute-set
/// literal, the editor's output for that entry is not a function of
/// the arguments, so the contract then promises only a canonically
/// formatted result — the entry is still written, never skipped.
pub fn serialize_changes(text: &str, overlay: &ConfigMap) -> (r: Result<String, ModifyError>)
    ensures
        match r {
            Ok(out) => fmt_of(out@) == out@ && (all_plain(overlay.entries()) ==> (
            match write_all(text@, overlay.entries()) {
                Some(w) => out@ == fmt_of(w),
                None => false,
            })),
            Err(e) => e == ModifyError::WriteFailed && (all_plain(overlay.entries())
                ==> write_all(text@, overlay.entries()) is None),
        },
{
    let ghost entries = overlay.entries();
    let mut cur: String = text.to_owned();
    let n = overlay.len();
    proof {
        assert(entries.skip(0) =~= entries);
    }
    let mut i: usize = 0;
    while i < n
        invariant
            entries == overlay.entries(),
            n == entries.len(),
            0 <= i <= n,
            all_plain(entries) ==> write_all(text@, entries) == write_all(
                cur@,
                entries.skip(i as int),
            ),
        decreases n - i,
    {
        let id = overlay.key_at(i);
        let pending = overlay.value_at(i);
        let val = pending.value();
        proof {
            assert(entries.skip(i as int)[0] == entries[i as int]);
        }
        if opens_attrset_in(val.as_str()) {
            proof {
                assert(opens_attrset(serial_of(entries[i as int].1)));
                assert(!all_plain(entries));
            }
            match write_attr_any(cur.as_str(), id.as_str(), val.as_str()) {
                Some(t2) => {
                    cur = t2;
                },
                None => {
                    return Err(ModifyError::WriteFailed);
                },
            }
        } else {
            match write_attr(cur.as_str(), id.as_str(), val.as_str()) {
                Some(t2) => {
                    proof {
                        assert(entries.skip(i as int).skip(1) =~= entries.skip(i + 1));
                    }
                    cur = t2;
                },
                None => {
                    return Err(ModifyError::WriteFailed);
                },
            }
        }
        i = i + 1;
    }
    proof {
        assert(entries.skip(n as int) =~= Seq::<(Seq<char>, OptionValue)>::empty());
    }
    Ok(reformat(cur.as_str()))
}

/// Removing every schema option of a module from the text, in order,
/// stopping at the first failure; the flag says whether all succeeded.
pub open spec fn deref_all(text: Seq<char>, opts: Seq<OptionDataView>) -> (Seq<char>, bool)
    decreases opts.len(),
{
    if opts.len() == 0 {
        (text, true)
    } else {
        match remove_result(text, opts[0].id) {
            Some(t2) => deref_all(t2, opts.skip(1)),
            None => (text, false),
        }
    }
}

impl Module {
    /// Removes every option the module declares from the text, in
    /// declaration order. On the first failure the steps already
    /// applied are kept and the flag comes back false; only then may
    /// the caller not delete the module's files.
    pub fn remove_options(&self, text: &str) -> (r: (String, bool))
        ensures
            (r.0@, r.1) == deref_all(text@, self.config@.options),
    {
        let options = &self.config.options;
        let ghost opts = self.config@.options;
        proof {
            assert(opts.skip(0) =~= opts);
        }
        let mut cur: String = text.to_owned();
        let mut i: usize = 0;
        while i < options.len()
            invariant
                opts == self.config@.options,
                opts == options.deep_view(),
                opts.len() == options@.len(),
                0 <= i <= options@.len(),
                deref_all(text@, opts) == deref_all(cur@, opts.skip(i as int)),
            decreases options@.len() - i,
        {
            proof {
                assert(opts[i as int] == options@[i as int].deep_view());
                assert(opts.skip(i as int)[0] == opts[i as int]);
            }
            match remove_option_text(cur.as_str(), options[i].id.as_str()) {
                Ok(t2) => {
                    proof {
                        assert(opts.skip(i as int).skip(1) =~= opts.skip(i + 1));
                    }
                    cur = t2;
                },
                Err(_) => {
                    return (cur, false);
                },
            }
            i = i + 1;
        }
        proof {
            assert(opts.skip(options@.len() as int) =~= Seq::<OptionDataView>::empty());
        }
        (cur, true)
    }
}

} // verus!
