//! Typed configuration options, the baseline of each version, and the
//! validation that a configuration has to pass before it is used.

use crate::config::{
    apply_ops, clears_critical, emit_text, lemma_apply_ops_finite, lemma_apply_ops_mentions,
    lemma_sorted_keys_of_finite, lemma_sparing_keeps, on, op_name, rule_ops, sorted_keys,
    x86_64_baseline_ops, ConfigOp, KernelConfig, OptionRule, OptionTable,
};
use crate::text::{chars_of, str_eq};
use crate::version::KernelVersion;
use vstd::prelude::*;
use vstd::string::*;

verus! {

/// The value of an option, as a value of the model.
pub enum ValueView {
    Yes,
    Module,
    Text(Seq<char>),
    Number(Seq<char>),
    NotSet,
}

/// The value of a configuration option.
#[derive(Debug, PartialEq, Eq)]
pub enum ConfigValue {
    /// Built in: `y`.
    Yes,
    /// Built as a module: `m`.
    Module,
    /// A text value.
    Str(String),
    /// A number, kept as its digits.
    Number(String),
    /// Explicitly not set.
    NotSet,
}

impl View for ConfigValue {
    type V = ValueView;

    open spec fn view(&self) -> ValueView {
        match self {
            ConfigValue::Yes => ValueView::Yes,
            ConfigValue::Module => ValueView::Module,
            ConfigValue::Str(s) => ValueView::Text(s@),
            ConfigValue::Number(s) => ValueView::Number(s@),
            ConfigValue::NotSet => ValueView::NotSet,
        }
    }
}

/// Whether a text is a run of one or more decimal digits.
pub open spec fn is_digits(text: Seq<char>) -> bool {
    text.len() > 0 && forall|i: int| 0 <= i < text.len() ==> '0' <= #[trigger] text[i] <= '9'
}

/// The typed value that stands for a table entry: `y` and `m` are the two
/// switches, a run of digits is a number, any other text is a text, and the
/// "not set" marker is kept.
pub open spec fn classify(value: Option<Seq<char>>) -> ValueView {
    match value {
        None => ValueView::NotSet,
        Some(text) => if text == "y"@ {
            ValueView::Yes
        } else if text == "m"@ {
            ValueView::Module
        } else if is_digits(text) {
            ValueView::Number(text)
        } else {
            ValueView::Text(text)
        },
    }
}

/// The table entry that a typed value stands for.
pub open spec fn render(value: ValueView) -> Option<Seq<char>> {
    match value {
        ValueView::Yes => Some("y"@),
        ValueView::Module => Some("m"@),
        ValueView::Text(text) => Some(text),
        ValueView::Number(text) => Some(text),
        ValueView::NotSet => None,
    }
}

/// A configuration option, as a value of the model.
pub struct OptionView {
    pub key: Seq<char>,
    pub value: ValueView,
}

/// A configuration option: its name and its value.
#[derive(Debug, PartialEq, Eq)]
pub struct ConfigOption {
    pub key: String,
    pub value: ConfigValue,
}

impl View for ConfigOption {
    type V = OptionView;

    open spec fn view(&self) -> OptionView {
        OptionView { key: self.key@, value: self.value@ }
    }
}

impl Clone for ConfigValue {
    fn clone(&self) -> (copy: Self)
        ensures
            copy@ == self@,
    {
        match self {
            ConfigValue::Yes => ConfigValue::Yes,
            ConfigValue::Module => ConfigValue::Module,
            ConfigValue::Str(s) => ConfigValue::Str(s.clone()),
            ConfigValue::Number(s) => ConfigValue::Number(s.clone()),
            ConfigValue::NotSet => ConfigValue::NotSet,
        }
    }
}

impl Clone for ConfigOption {
    fn clone(&self) -> (copy: Self)
        ensures
            copy@ == self@,
    {
        ConfigOption { key: self.key.clone(), value: self.value.clone() }
    }
}

impl ConfigValue {
    /// The typed value that stands for a table entry.
    pub fn classify(value: Option<&str>) -> (typed: Self)
        ensures
            typed@ == classify(
                match value {
                    Some(text) => Some(text@),
                    None => None,
                },
            ),
    {
        match value {
            None => ConfigValue::NotSet,
            Some(text) => {
                if str_eq(text, "y") {
                    ConfigValue::Yes
                } else if str_eq(text, "m") {
                    ConfigValue::Module
                } else if all_digits(text) {
                    ConfigValue::Number(String::from_str(text))
                } else {
                    ConfigValue::Str(String::from_str(text))
                }
            },
        }
    }
}

/// Whether a text is a run of one or more decimal digits.
pub fn all_digits(text: &str) -> (r: bool)
    ensures
        r == is_digits(text@),
{
    let chars = chars_of(text);
    if chars.len() == 0 {
        return false;
    }
    let mut i: usize = 0;
    while i < chars.len()
        invariant
            i <= chars.len(),
            chars@ == text@,
            forall|j: int| 0 <= j < i ==> '0' <= #[trigger] text@[j] <= '9',
        decreases chars.len() - i,
    {
        let c = chars[i];
        if !(c >= '0' && c <= '9') {
            assert(!('0' <= text@[i as int] <= '9'));
            return false;
        }
        i += 1;
    }
    true
}

/// The views of a run of options.
pub open spec fn option_views(options: Seq<ConfigOption>) -> Seq<OptionView> {
    Seq::new(options.len(), |i: int| options[i]@)
}

/// Appending an option appends its view.
pub proof fn lemma_option_views_push(options: Seq<ConfigOption>, last: ConfigOption)
    ensures
        option_views(options.push(last)) == option_views(options).push(last@),
{
    assert(option_views(options.push(last)) =~= option_views(options).push(last@));
}

/// Copies of a run of options.
pub fn clone_options(options: &Vec<ConfigOption>) -> (copies: Vec<ConfigOption>)
    ensures
        option_views(copies@) == option_views(options@),
{
    let ghost views = option_views(options@);
    let mut copies: Vec<ConfigOption> = Vec::new();
    let mut i: usize = 0;
    while i < options.len()
        invariant
            i <= options.len(),
            views == option_views(options@),
            option_views(copies@) == views.take(i as int),
        decreases options.len() - i,
    {
        let copy = options[i].clone();
        proof {
            lemma_option_views_push(copies@, copy);
            assert(views.take(i + 1) =~= views.take(i as int).push(views[i as int]));
        }
        copies.push(copy);
        i += 1;
    }
    assert(views.take(i as int) =~= views);
    copies
}

/// The names of a run of options.
pub open spec fn option_keys(options: Seq<OptionView>) -> Seq<Seq<char>> {
    Seq::new(options.len(), |i: int| options[i].key)
}

/// The options of a table: one for each name that the table mentions, names
/// ascending, each with the typed value of its entry.
pub open spec fn options_of(table: OptionTable) -> Seq<OptionView> {
    Seq::new(
        sorted_keys(table).len(),
        |i: int| OptionView { key: sorted_keys(table)[i], value: classify(table[sorted_keys(table)[i]]) },
    )
}

/// The write that records an option.
pub open spec fn option_op(option: OptionView) -> ConfigOp {
    match render(option.value) {
        Some(value) => ConfigOp::Assign { name: option.key, value },
        None => ConfigOp::Clear { name: option.key },
    }
}

/// The writes that record a run of options, in order.
pub open spec fn option_ops(options: Seq<OptionView>) -> Seq<ConfigOp> {
    Seq::new(options.len(), |i: int| option_op(options[i]))
}

/// The table that a run of options leaves: where a name occurs more than
/// once, its last option wins.
pub open spec fn table_of_options(options: Seq<OptionView>) -> OptionTable {
    apply_ops(OptionTable::empty(), option_ops(options))
}

/// The writes that every version adds to the architecture baseline: module
/// support, preemption and the timer frequency.
pub open spec fn core_ops(version: KernelVersion) -> Seq<ConfigOp> {
    match version {
        KernelVersion::V6_6_Lts => mainline_core_ops(),
        KernelVersion::V6_17 => mainline_core_ops(),
    }
}

/// The core writes that the supported versions share.
pub open spec fn mainline_core_ops() -> Seq<ConfigOp> {
    seq![
        on("CONFIG_MODULES"@),
        on("CONFIG_PREEMPT"@),
        on("CONFIG_HZ_1000"@),
        ConfigOp::Assign { name: "CONFIG_HZ"@, value: "1000"@ },
    ]
}

/// The baseline table of a version: the architecture baseline, then the core
/// writes of the version.
pub open spec fn baseline_table(version: KernelVersion) -> OptionTable {
    apply_ops(apply_ops(OptionTable::empty(), x86_64_baseline_ops()), core_ops(version))
}

/// The options that a configuration for `version` must mention.
pub open spec fn mandatory_keys(version: KernelVersion) -> Seq<Seq<char>> {
    match version {
        KernelVersion::V6_6_Lts => mainline_mandatory_keys(),
        KernelVersion::V6_17 => mainline_mandatory_keys(),
    }
}

/// The mandatory options that the supported versions share.
pub open spec fn mainline_mandatory_keys() -> Seq<Seq<char>> {
    seq!["CONFIG_X86_64"@, "CONFIG_MODULES"@, "CONFIG_PREEMPT"@, "CONFIG_HZ_1000"@, "CONFIG_HZ"@]
}

/// The first name of `required` that is not among `present`.
pub open spec fn first_missing(required: Seq<Seq<char>>, present: Seq<Seq<char>>) -> Option<
    Seq<char>,
>
    decreases required.len(),
{
    if required.len() == 0 {
        None
    } else if !present.contains(required[0]) {
        Some(required[0])
    } else {
        first_missing(required.drop_first(), present)
    }
}

/// Why a run of options is refused for `version`, or `None` where it is
/// accepted. A run without options is refused as empty; otherwise the first
/// mandatory option that the run does not mention is reported. An option that
/// is mentioned as "not set" counts as mentioned.
pub open spec fn validation_error(version: KernelVersion, options: Seq<OptionView>) -> Option<
    Seq<char>,
> {
    if options.len() == 0 {
        Some("Configuration is empty"@)
    } else {
        match first_missing(mandatory_keys(version), option_keys(options)) {
            Some(key) => Some("Missing required configuration option: "@ + key),
            None => None,
        }
    }
}

/// Nothing is missing where every required name is present.
pub proof fn lemma_none_missing(required: Seq<Seq<char>>, present: Seq<Seq<char>>)
    requires
        forall|i: int| 0 <= i < required.len() ==> present.contains(#[trigger] required[i]),
    ensures
        first_missing(required, present) is None,
    decreases required.len(),
{
    if required.len() > 0 {
        let rest = required.drop_first();
        assert forall|i: int| 0 <= i < rest.len() implies present.contains(#[trigger] rest[i]) by {
            assert(rest[i] == required[i + 1]);
        }
        lemma_none_missing(rest, present);
    }
}

/// The baseline of every version passes the validation of that version.
pub proof fn lemma_baseline_validates(version: KernelVersion)
    ensures
        validation_error(version, options_of(baseline_table(version))) is None,
{
    let table = baseline_table(version);
    let first = apply_ops(OptionTable::empty(), x86_64_baseline_ops());
    lemma_apply_ops_finite(OptionTable::empty(), x86_64_baseline_ops());
    lemma_apply_ops_finite(first, core_ops(version));
    lemma_sorted_keys_of_finite(table);
    let keys = option_keys(options_of(table));
    assert(keys =~= sorted_keys(table));
    let required = mandatory_keys(version);
    assert(op_name(x86_64_baseline_ops()[0]) == "CONFIG_X86_64"@);
    lemma_apply_ops_mentions(OptionTable::empty(), x86_64_baseline_ops(), "CONFIG_X86_64"@);
    lemma_apply_ops_mentions(first, core_ops(version), "CONFIG_X86_64"@);
    assert(op_name(core_ops(version)[0]) == "CONFIG_MODULES"@);
    lemma_apply_ops_mentions(first, core_ops(version), "CONFIG_MODULES"@);
    assert(op_name(core_ops(version)[1]) == "CONFIG_PREEMPT"@);
    lemma_apply_ops_mentions(first, core_ops(version), "CONFIG_PREEMPT"@);
    assert(op_name(core_ops(version)[2]) == "CONFIG_HZ_1000"@);
    lemma_apply_ops_mentions(first, core_ops(version), "CONFIG_HZ_1000"@);
    assert(op_name(core_ops(version)[3]) == "CONFIG_HZ"@);
    lemma_apply_ops_mentions(first, core_ops(version), "CONFIG_HZ"@);
    assert forall|i: int| 0 <= i < required.len() implies keys.contains(#[trigger] required[i]) by {
        assert(table.dom().contains(required[i]));
    }
    lemma_none_missing(required, keys);
    assert(sorted_keys(table).contains("CONFIG_X86_64"@));
}

/// The table of the core writes of a version.
pub fn core_rules(version: KernelVersion) -> (rules: Vec<OptionRule>)
    ensures
        rule_ops(rules@) == core_ops(version),
{
    let rules = match version {
        KernelVersion::V6_6_Lts | KernelVersion::V6_17 => vec![
            OptionRule { name: "CONFIG_MODULES", value: Some("y") },
            OptionRule { name: "CONFIG_PREEMPT", value: Some("y") },
            OptionRule { name: "CONFIG_HZ_1000", value: Some("y") },
            OptionRule { name: "CONFIG_HZ", value: Some("1000") },
        ],
    };
    assert(rule_ops(rules@) =~= core_ops(version));
    rules
}

/// The options that a configuration for `version` must mention.
pub fn mandatory_key_names(version: KernelVersion) -> (keys: Vec<&'static str>)
    ensures
        crate::text::str_views(keys@) == mandatory_keys(version),
{
    let keys = match version {
        KernelVersion::V6_6_Lts | KernelVersion::V6_17 => vec![
            "CONFIG_X86_64",
            "CONFIG_MODULES",
            "CONFIG_PREEMPT",
            "CONFIG_HZ_1000",
            "CONFIG_HZ",
        ],
    };
    assert(crate::text::str_views(keys@) =~= mandatory_keys(version));
    keys
}

/// The first lines of a generated configuration file.
pub open spec fn config_file_header() -> Seq<char> {
    "#\n# Automatically generated by KernelForge\n#\n"@
}

/// Whether one of `options` has the name `key`.
fn mentions(options: &Vec<ConfigOption>, key: &str) -> (r: bool)
    ensures
        r == option_keys(option_views(options@)).contains(key@),
{
    let ghost keys = option_keys(option_views(options@));
    let mut i: usize = 0;
    while i < options.len()
        invariant
            i <= options.len(),
            keys == option_keys(option_views(options@)),
            forall|j: int| 0 <= j < i ==> keys[j] != key@,
        decreases options.len() - i,
    {
        assert(keys[i as int] == options@[i as int].key@);
        if str_eq(options[i].key.as_str(), key) {
            return true;
        }
        i += 1;
    }
    false
}

/// The options of a configuration, names ascending.
pub fn options_of_config(config: &KernelConfig) -> (options: Vec<ConfigOption>)
    ensures
        option_views(options@) == options_of(config@),
{
    let n = config.len();
    let ghost goal = options_of(config@);
    let mut options: Vec<ConfigOption> = Vec::new();
    let mut i: usize = 0;
    while i < n
        invariant
            i <= n,
            n == sorted_keys(config@).len(),
            goal == options_of(config@),
            option_views(options@) == goal.take(i as int),
        decreases n - i,
    {
        let key = String::from_str(config.name_at(i));
        let value = ConfigValue::classify(config.value_at(i));
        let option = ConfigOption { key, value };
        assert(option@ == goal[i as int]);
        proof {
            lemma_option_views_push(options@, option);
            assert(goal.take(i + 1) =~= goal.take(i as int).push(goal[i as int]));
        }
        options.push(option);
        i += 1;
    }
    assert(goal.take(i as int) =~= goal);
    options
}

/// The configuration that a run of options leaves.
pub fn config_of_options(options: &Vec<ConfigOption>) -> (config: KernelConfig)
    ensures
        config@ == table_of_options(option_views(options@)),
{
    let ghost ops = option_ops(option_views(options@));
    let mut config = KernelConfig::new();
    let mut i: usize = 0;
    while i < options.len()
        invariant
            i <= options.len(),
            ops == option_ops(option_views(options@)),
            config@ == apply_ops(OptionTable::empty(), ops.take(i as int)),
        decreases options.len() - i,
    {
        proof {
            assert(ops.take(i + 1).drop_last() =~= ops.take(i as int));
            assert(ops.take(i + 1).last() == option_op(options@[i as int]@));
        }
        let key = options[i].key.as_str();
        match &options[i].value {
            ConfigValue::Yes => {
                config.set(key, "y");
            },
            ConfigValue::Module => {
                config.set(key, "m");
            },
            ConfigValue::Str(text) => {
                config.set(key, text.as_str());
            },
            ConfigValue::Number(text) => {
                config.set(key, text.as_str());
            },
            ConfigValue::NotSet => {
                config.unset(key);
            },
        }
        i += 1;
    }
    assert(ops.take(i as int) =~= ops);
    config
}

/// Generates and checks the configuration of a build plan.
pub struct ConfigGenerator;

impl ConfigGenerator {
    /// The baseline options of `version`, names ascending: the one supported
    /// architecture enabled, every other architecture and the legacy hardware
    /// explicitly not set, and the core options of the version.
    pub fn generate_baseline(version: KernelVersion) -> (options: Vec<ConfigOption>)
        ensures
            option_views(options@) == options_of(baseline_table(version)),
            validation_error(version, option_views(options@)) is None,
    {
        let mut config = KernelConfig::x86_64_baseline();
        proof {
            let ops = core_ops(version);
            assert forall|i: int| 0 <= i < ops.len() implies !clears_critical(#[trigger] ops[i]) by {
                assert(ops[i] is Assign);
            }
            lemma_sparing_keeps(ops);
            lemma_baseline_validates(version);
        }
        config.apply_rules(&core_rules(version));
        options_of_config(&config)
    }

    /// Checks a run of options for `version`: it must not be empty, and it
    /// must mention every mandatory option of the version. The error says
    /// which of the two failed, and names the first missing option.
    pub fn validate_config(version: KernelVersion, options: &Vec<ConfigOption>) -> (result: Result<
        (),
        String,
    >)
        ensures
            match result {
                Ok(_) => validation_error(version, option_views(options@)) is None,
                Err(message) => validation_error(version, option_views(options@)) == Some(
                    message@,
                ),
            },
    {
        if options.len() == 0 {
            return Err(String::from_str("Configuration is empty"));
        }
        let required = mandatory_key_names(version);
        let ghost names = mandatory_keys(version);
        let ghost present = option_keys(option_views(options@));
        assert(names.skip(0) =~= names);
        let mut i: usize = 0;
        while i < required.len()
            invariant
                i <= required.len(),
                options.len() > 0,
                names == mandatory_keys(version),
                names == crate::text::str_views(required@),
                present == option_keys(option_views(options@)),
                first_missing(names, present) == first_missing(names.skip(i as int), present),
            decreases required.len() - i,
        {
            proof {
                assert(names.skip(i as int)[0] == required@[i as int]@);
                assert(names.skip(i as int).drop_first() =~= names.skip(i + 1));
            }
            if !mentions(options, required[i]) {
                let message = String::from_str("Missing required configuration option: ").concat(
                    required[i],
                );
                return Err(message);
            }
            i += 1;
        }
        Ok(())
    }

    /// The text of a configuration file for a run of options: a header, then
    /// one line per option, names ascending. Where a name occurs more than
    /// once, its last option is the one written.
    pub fn to_config_file(options: &Vec<ConfigOption>) -> (text: String)
        ensures
            text@ == config_file_header() + emit_text(table_of_options(option_views(options@))),
    {
        let config = config_of_options(options);
        let body = config.emit();
        String::from_str("#\n# Automatically generated by KernelForge\n#\n").concat(body.as_str())
    }
}

} // verus!
