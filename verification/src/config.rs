//! The option table of a kernel configuration and its `.config` text.
//!
//! A [`KernelConfig`] maps option names to a value or to an explicit "not
//! set" marker. Its view is that map, and every contract here is stated over
//! it: the text that [`KernelConfig::emit`] writes depends on the map alone.

use crate::bloat_removal::{is_critical, is_critical_module};
use crate::text::{
    key_lt, lemma_key_lt_asymmetric, lemma_key_lt_irreflexive, lemma_key_lt_total,
    lemma_key_lt_transitive, str_eq, str_lt, str_views,
};
use vstd::prelude::*;
use vstd::string::*;

verus! {

/// What a configuration holds: for each option that it mentions, `Some` of
/// the value it is set to, or `None` where it is explicitly not set. An option
/// outside the domain is not mentioned at all.
pub type OptionTable = Map<Seq<char>, Option<Seq<char>>>;

/// One write to a configuration, as a value of the model.
pub enum ConfigOp {
    /// `name` is given `value`.
    Assign { name: Seq<char>, value: Seq<char> },
    /// `name` is marked as not set.
    Clear { name: Seq<char> },
}

/// The table after one write: the last write to a name wins.
pub open spec fn apply_op(table: OptionTable, op: ConfigOp) -> OptionTable {
    match op {
        ConfigOp::Assign { name, value } => table.insert(name, Some(value)),
        ConfigOp::Clear { name } => table.insert(name, None),
    }
}

/// The table after a run of writes, applied first to last.
pub open spec fn apply_ops(table: OptionTable, ops: Seq<ConfigOp>) -> OptionTable
    decreases ops.len(),
{
    if ops.len() == 0 {
        table
    } else {
        apply_op(apply_ops(table, ops.drop_last()), ops.last())
    }
}

/// Whether each key sorts strictly before all that follow it.
pub open spec fn strictly_sorted(keys: Seq<Seq<char>>) -> bool {
    forall|i: int, j: int| 0 <= i < j < keys.len() ==> key_lt(keys[i], keys[j])
}

/// The names that a table mentions, in ascending order.
pub open spec fn sorted_keys(table: OptionTable) -> Seq<Seq<char>> {
    choose|keys: Seq<Seq<char>>| strictly_sorted(keys) && keys.to_set() == table.dom()
}

/// The line that stands for one option.
pub open spec fn option_line(name: Seq<char>, value: Option<Seq<char>>) -> Seq<char> {
    match value {
        Some(v) => name + "="@ + v,
        None => "# "@ + name + " is not set"@,
    }
}

/// The lines of the options `keys`, in that order, each closed by a newline.
pub open spec fn lines_text(keys: Seq<Seq<char>>, table: OptionTable) -> Seq<char>
    decreases keys.len(),
{
    if keys.len() == 0 {
        Seq::empty()
    } else {
        lines_text(keys.drop_last(), table) + option_line(keys.last(), table[keys.last()]) + "\n"@
    }
}

/// The `.config` text of a table: one line per option, names ascending, and a
/// single newline at the end. A table without options gives a lone newline.
pub open spec fn emit_text(table: OptionTable) -> Seq<char> {
    let keys = sorted_keys(table);
    if keys.len() == 0 {
        "\n"@
    } else {
        lines_text(keys, table)
    }
}

/// The option that a write names.
pub open spec fn op_name(op: ConfigOp) -> Seq<char> {
    match op {
        ConfigOp::Assign { name, value } => name,
        ConfigOp::Clear { name } => name,
    }
}

/// The write that sets `name` to `y`.
pub open spec fn on(name: Seq<char>) -> ConfigOp {
    ConfigOp::Assign { name, value: "y"@ }
}

/// The write that marks `name` as not set.
pub open spec fn off(name: Seq<char>) -> ConfigOp {
    ConfigOp::Clear { name }
}

/// Whether `table` holds `name` with the "not set" marker.
pub open spec fn is_unset(table: OptionTable, name: Seq<char>) -> bool {
    table.dom().contains(name) && table[name] is None
}

/// Writing two runs one after the other is writing their concatenation.
pub proof fn lemma_apply_ops_concat(table: OptionTable, first: Seq<ConfigOp>, second: Seq<ConfigOp>)
    ensures
        apply_ops(table, first + second) == apply_ops(apply_ops(table, first), second),
    decreases second.len(),
{
    if second.len() == 0 {
        assert(first + second =~= first);
    } else {
        assert((first + second).drop_last() =~= first + second.drop_last());
        lemma_apply_ops_concat(table, first, second.drop_last());
    }
}

/// A run of writes leaves alone every option that none of them names.
pub proof fn lemma_apply_ops_untouched(table: OptionTable, ops: Seq<ConfigOp>, name: Seq<char>)
    requires
        forall|i: int| 0 <= i < ops.len() ==> op_name(#[trigger] ops[i]) != name,
    ensures
        apply_ops(table, ops).dom().contains(name) == table.dom().contains(name),
        apply_ops(table, ops)[name] == table[name],
    decreases ops.len(),
{
    if ops.len() > 0 {
        let rest = ops.drop_last();
        assert forall|i: int| 0 <= i < rest.len() implies op_name(#[trigger] rest[i]) != name by {
            assert(rest[i] == ops[i]);
        }
        lemma_apply_ops_untouched(table, rest, name);
        assert(op_name(ops[ops.len() - 1]) != name);
    }
}

/// After a run of writes the table mentions every option that one of them
/// names, and every option that it mentioned before.
pub proof fn lemma_apply_ops_mentions(table: OptionTable, ops: Seq<ConfigOp>, name: Seq<char>)
    requires
        table.dom().contains(name) || exists|i: int| 0 <= i < ops.len() && op_name(ops[i]) == name,
    ensures
        apply_ops(table, ops).dom().contains(name),
    decreases ops.len(),
{
    if ops.len() > 0 {
        let rest = ops.drop_last();
        if op_name(ops.last()) != name {
            if !table.dom().contains(name) {
                let i = choose|i: int| 0 <= i < ops.len() && op_name(ops[i]) == name;
                assert(rest[i] == ops[i]);
            }
            lemma_apply_ops_mentions(table, rest, name);
        }
    }
}

/// The text of a configuration depends on the table that its writes leave,
/// not on the writes: two runs of `set` and `unset` calls, in any order and
/// with any repetitions, that leave the same table give the same text.
pub proof fn lemma_emit_order_independent(first: Seq<ConfigOp>, second: Seq<ConfigOp>)
    requires
        apply_ops(OptionTable::empty(), first) == apply_ops(OptionTable::empty(), second),
    ensures
        emit_text(apply_ops(OptionTable::empty(), first)) == emit_text(
            apply_ops(OptionTable::empty(), second),
        ),
{
}

/// Two strictly ascending sequences with the same elements are the same
/// sequence.
pub proof fn lemma_sorted_keys_unique(a: Seq<Seq<char>>, b: Seq<Seq<char>>)
    requires
        strictly_sorted(a),
        strictly_sorted(b),
        a.to_set() == b.to_set(),
    ensures
        a == b,
    decreases a.len(),
{
    if a.len() == 0 {
        if b.len() > 0 {
            assert(b.contains(b[0]));
            assert(a.to_set().contains(b[0]));
        }
        assert(a =~= b);
    } else if b.len() == 0 {
        assert(a.contains(a[0]));
        assert(b.to_set().contains(a[0]));
    } else {
        assert(a.contains(a[0]));
        assert(b.contains(b[0]));
        assert(b.to_set().contains(a[0]));
        assert(a.to_set().contains(b[0]));
        let i = choose|i: int| 0 <= i < b.len() && b[i] == a[0];
        let j = choose|j: int| 0 <= j < a.len() && a[j] == b[0];
        if a[0] != b[0] {
            assert(key_lt(b[0], a[0]));
            assert(key_lt(a[0], b[0]));
            lemma_key_lt_asymmetric(a[0], b[0]);
        }
        let ta = a.drop_first();
        let tb = b.drop_first();
        assert forall|x: Seq<char>| ta.to_set().contains(x) == tb.to_set().contains(x) by {
            lemma_tail_membership(a, x);
            lemma_tail_membership(b, x);
        }
        assert(ta.to_set() =~= tb.to_set());
        lemma_sorted_keys_unique(ta, tb);
        assert(a =~= seq![a[0]] + ta);
        assert(b =~= seq![b[0]] + tb);
    }
}

proof fn lemma_tail_membership(a: Seq<Seq<char>>, x: Seq<char>)
    requires
        strictly_sorted(a),
        a.len() > 0,
    ensures
        strictly_sorted(a.drop_first()),
        a.drop_first().to_set().contains(x) == (a.to_set().contains(x) && x != a[0]),
{
    let t = a.drop_first();
    assert forall|i: int, j: int| 0 <= i < j < t.len() implies key_lt(t[i], t[j]) by {
        assert(t[i] == a[i + 1] && t[j] == a[j + 1]);
    }
    if t.contains(x) {
        let i = choose|i: int| 0 <= i < t.len() && t[i] == x;
        assert(a[i + 1] == x);
        assert(key_lt(a[0], a[i + 1]));
        lemma_key_lt_irreflexive(x);
    }
    if a.contains(x) && x != a[0] {
        let i = choose|i: int| 0 <= i < a.len() && a[i] == x;
        assert(t[i - 1] == x);
    }
}

/// `keys` with `key` put in at its place in the order.
pub open spec fn insert_sorted(keys: Seq<Seq<char>>, key: Seq<char>) -> Seq<Seq<char>>
    decreases keys.len(),
{
    if keys.len() == 0 {
        seq![key]
    } else if key_lt(keys.last(), key) {
        keys.push(key)
    } else {
        insert_sorted(keys.drop_last(), key).push(keys.last())
    }
}

proof fn lemma_insert_sorted(keys: Seq<Seq<char>>, key: Seq<char>)
    requires
        strictly_sorted(keys),
        !keys.contains(key),
    ensures
        strictly_sorted(insert_sorted(keys, key)),
        insert_sorted(keys, key).len() == keys.len() + 1,
        forall|x: Seq<char>|
            #[trigger] insert_sorted(keys, key).contains(x) <==> (keys.contains(x) || x == key),
    decreases keys.len(),
{
    let out = insert_sorted(keys, key);
    if keys.len() == 0 {
        assert(out[0] == key);
    } else if key_lt(keys.last(), key) {
        assert forall|i: int, j: int| 0 <= i < j < out.len() implies key_lt(out[i], out[j]) by {
            if j == keys.len() && i < keys.len() - 1 {
                lemma_key_lt_transitive(keys[i], keys.last(), key);
            }
        }
        assert forall|x: Seq<char>| #[trigger] out.contains(x) <==> (keys.contains(x) || x == key) by {
            if keys.contains(x) {
                let i = choose|i: int| 0 <= i < keys.len() && keys[i] == x;
                assert(out[i] == x);
            }
            assert(out[keys.len() as int] == key);
        }
    } else {
        let rest = keys.drop_last();
        let last = keys.last();
        assert(strictly_sorted(rest)) by {
            assert forall|i: int, j: int| 0 <= i < j < rest.len() implies key_lt(rest[i], rest[j]) by {
                assert(rest[i] == keys[i] && rest[j] == keys[j]);
            }
        }
        assert(!rest.contains(key)) by {
            if rest.contains(key) {
                let i = choose|i: int| 0 <= i < rest.len() && rest[i] == key;
                assert(keys[i] == key);
            }
        }
        lemma_insert_sorted(rest, key);
        let inner = insert_sorted(rest, key);
        assert(keys[keys.len() - 1] == last);
        assert(last != key);
        lemma_key_lt_total(last, key);
        assert forall|i: int, j: int| 0 <= i < j < out.len() implies key_lt(out[i], out[j]) by {
            if j == inner.len() {
                assert(inner.contains(inner[i]));
                if inner[i] != key {
                    let k = choose|k: int| 0 <= k < rest.len() && rest[k] == inner[i];
                    assert(keys[k] == inner[i]);
                }
            }
        }
        assert forall|x: Seq<char>| #[trigger] out.contains(x) <==> (keys.contains(x) || x == key) by {
            if out.contains(x) {
                let i = choose|i: int| 0 <= i < out.len() && out[i] == x;
                if i < inner.len() {
                    assert(inner.contains(x));
                    if x != key {
                        let k = choose|k: int| 0 <= k < rest.len() && rest[k] == x;
                        assert(keys[k] == x);
                    }
                }
            }
            if keys.contains(x) {
                let k = choose|k: int| 0 <= k < keys.len() && keys[k] == x;
                if k < rest.len() {
                    assert(rest[k] == x);
                    assert(inner.contains(x));
                    let i = choose|i: int| 0 <= i < inner.len() && inner[i] == x;
                    assert(out[i] == x);
                } else {
                    assert(out[inner.len() as int] == x);
                }
            }
            if x == key {
                assert(inner.contains(key));
                let i = choose|i: int| 0 <= i < inner.len() && inner[i] == key;
                assert(out[i] == key);
            }
        }
    }
}

/// Every finite set of names can be listed in ascending order.
pub proof fn lemma_sorted_keys_exist(names: Set<Seq<char>>)
    requires
        names.finite(),
    ensures
        exists|keys: Seq<Seq<char>>| strictly_sorted(keys) && keys.to_set() == names,
    decreases names.len(),
{
    if names.len() == 0 {
        let keys = Seq::<Seq<char>>::empty();
        assert(names =~= Set::empty());
        assert(keys.to_set() =~= names);
        assert(strictly_sorted(keys) && keys.to_set() == names);
    } else {
        let key = names.choose();
        let rest = names.remove(key);
        lemma_sorted_keys_exist(rest);
        let listed = choose|keys: Seq<Seq<char>>| strictly_sorted(keys) && keys.to_set() == rest;
        assert(!listed.contains(key)) by {
            if listed.contains(key) {
                assert(listed.to_set().contains(key));
            }
        }
        lemma_insert_sorted(listed, key);
        let keys = insert_sorted(listed, key);
        assert forall|x: Seq<char>| keys.to_set().contains(x) == names.contains(x) by {
            assert(keys.contains(x) <==> (listed.contains(x) || x == key));
            assert(listed.contains(x) == listed.to_set().contains(x));
        }
        assert(keys.to_set() =~= names);
        assert(strictly_sorted(keys) && keys.to_set() == names);
    }
}

/// A run of writes keeps a finite table finite.
pub proof fn lemma_apply_ops_finite(table: OptionTable, ops: Seq<ConfigOp>)
    requires
        table.dom().finite(),
    ensures
        apply_ops(table, ops).dom().finite(),
    decreases ops.len(),
{
    if ops.len() > 0 {
        lemma_apply_ops_finite(table, ops.drop_last());
    }
}

/// The ascending list of a finite table holds exactly the names that the
/// table mentions.
pub proof fn lemma_sorted_keys_of_finite(table: OptionTable)
    requires
        table.dom().finite(),
    ensures
        strictly_sorted(sorted_keys(table)),
        sorted_keys(table).to_set() == table.dom(),
        forall|name: Seq<char>| #[trigger]
            sorted_keys(table).contains(name) <==> table.dom().contains(name),
{
    lemma_sorted_keys_exist(table.dom());
    assert forall|name: Seq<char>| #[trigger]
        sorted_keys(table).contains(name) <==> table.dom().contains(name) by {
        assert(sorted_keys(table).contains(name) == sorted_keys(table).to_set().contains(name));
    }
}

/// One stored option.
struct ConfigEntry {
    name: String,
    value: Option<String>,
}

/// The view of a stored value.
spec fn value_view(value: Option<String>) -> Option<Seq<char>> {
    match value {
        Some(v) => Some(v@),
        None => None,
    }
}

/// The names of the stored options, in storage order.
spec fn names_of(entries: Seq<ConfigEntry>) -> Seq<Seq<char>> {
    Seq::new(entries.len(), |i: int| entries[i].name@)
}

/// The table that a run of stored options stands for.
spec fn table_of(entries: Seq<ConfigEntry>) -> OptionTable {
    Map::new(
        |k: Seq<char>| names_of(entries).contains(k),
        |k: Seq<char>| value_view(entries[names_of(entries).index_of(k)].value),
    )
}

proof fn lemma_table_at(entries: Seq<ConfigEntry>, i: int)
    requires
        strictly_sorted(names_of(entries)),
        0 <= i < entries.len(),
    ensures
        table_of(entries).dom().contains(entries[i].name@),
        table_of(entries)[entries[i].name@] == value_view(entries[i].value),
{
    let names = names_of(entries);
    assert(names[i] == entries[i].name@);
    assert(names.contains(entries[i].name@));
    let j = names.index_of(entries[i].name@);
    if j != i {
        if j < i {
            assert(key_lt(names[j], names[i]));
        } else {
            assert(key_lt(names[i], names[j]));
        }
        lemma_key_lt_irreflexive(names[i]);
    }
}

proof fn lemma_table_dom(entries: Seq<ConfigEntry>)
    ensures
        table_of(entries).dom() == names_of(entries).to_set(),
{
    assert(table_of(entries).dom() =~= names_of(entries).to_set());
}

proof fn lemma_table_insert(before: Seq<ConfigEntry>, after: Seq<ConfigEntry>, at: int)
    requires
        strictly_sorted(names_of(before)),
        strictly_sorted(names_of(after)),
        0 <= at <= before.len(),
        after == before.insert(at, after[at]),
    ensures
        table_of(after) == table_of(before).insert(after[at].name@, value_view(after[at].value)),
{
    let e = after[at];
    let goal = table_of(before).insert(e.name@, value_view(e.value));
    assert forall|k: Seq<char>| table_of(after).dom().contains(k) == goal.dom().contains(k) by {
        if names_of(after).contains(k) {
            let j = choose|j: int| 0 <= j < after.len() && names_of(after)[j] == k;
            if j < at {
                assert(names_of(before)[j] == k);
            } else if j > at {
                assert(names_of(before)[j - 1] == k);
            }
        }
        if names_of(before).contains(k) {
            let j = choose|j: int| 0 <= j < before.len() && names_of(before)[j] == k;
            if j < at {
                assert(names_of(after)[j] == k);
            } else {
                assert(names_of(after)[j + 1] == k);
            }
        }
        if k == e.name@ {
            assert(names_of(after)[at] == k);
        }
    }
    assert forall|k: Seq<char>| table_of(after).dom().contains(k) implies table_of(after)[k]
        == goal[k] by {
        let j = choose|j: int| 0 <= j < after.len() && names_of(after)[j] == k;
        lemma_table_at(after, j);
        if j < at {
            lemma_table_at(before, j);
            assert(key_lt(names_of(after)[j], names_of(after)[at]));
            lemma_key_lt_irreflexive(k);
        } else if j > at {
            lemma_table_at(before, j - 1);
            assert(key_lt(names_of(after)[at], names_of(after)[j]));
            lemma_key_lt_irreflexive(k);
        }
    }
    assert(table_of(after) =~= goal);
}

proof fn lemma_table_update(before: Seq<ConfigEntry>, after: Seq<ConfigEntry>, at: int)
    requires
        strictly_sorted(names_of(before)),
        0 <= at < before.len(),
        after == before.update(at, after[at]),
        after[at].name@ == before[at].name@,
    ensures
        strictly_sorted(names_of(after)),
        table_of(after) == table_of(before).insert(after[at].name@, value_view(after[at].value)),
{
    let e = after[at];
    assert(names_of(after) =~= names_of(before));
    let goal = table_of(before).insert(e.name@, value_view(e.value));
    assert forall|k: Seq<char>| table_of(after).dom().contains(k) implies table_of(after)[k]
        == goal[k] by {
        let j = choose|j: int| 0 <= j < after.len() && names_of(after)[j] == k;
        lemma_table_at(after, j);
        if j != at {
            lemma_table_at(before, j);
            if j < at {
                assert(key_lt(names_of(before)[j], names_of(before)[at]));
            } else {
                assert(key_lt(names_of(before)[at], names_of(before)[j]));
            }
            lemma_key_lt_irreflexive(k);
        }
    }
    assert(names_of(after)[at] == e.name@);
    assert(table_of(after) =~= goal);
}

proof fn lemma_lines_step(names: Seq<Seq<char>>, table: OptionTable, i: int)
    requires
        0 <= i < names.len(),
    ensures
        lines_text(names.take(i + 1), table) == lines_text(names.take(i), table) + option_line(
            names[i],
            table[names[i]],
        ) + "\n"@,
{
    assert(names.take(i + 1).drop_last() =~= names.take(i));
}

/// A kernel configuration under construction: option names, each with a value
/// or an explicit "not set" marker.
pub struct KernelConfig {
    entries: Vec<ConfigEntry>,
}

impl View for KernelConfig {
    type V = OptionTable;

    closed spec fn view(&self) -> OptionTable {
        table_of(self.entries@)
    }
}

impl KernelConfig {
    /// The options are stored in ascending order of their names, each name
    /// once.
    #[verifier::type_invariant]
    spec fn well_formed(&self) -> bool {
        strictly_sorted(names_of(self.entries@))
    }

    /// A configuration that mentions no option.
    pub fn new() -> (config: Self)
        ensures
            config@ == OptionTable::empty(),
    {
        let config = KernelConfig { entries: Vec::new() };
        assert(config@ =~= OptionTable::empty());
        config
    }

    /// Moves the stored options out, leaving the configuration empty.
    fn take_entries(&mut self) -> (entries: Vec<ConfigEntry>)
        ensures
            entries@ == old(self).entries@,
            strictly_sorted(names_of(entries@)),
    {
        let mut taken = KernelConfig { entries: Vec::new() };
        core::mem::swap(self, &mut taken);
        proof {
            use_type_invariant(&taken);
        }
        taken.entries
    }

    /// Index of the first stored option whose name does not sort before
    /// `name`.
    fn lower_bound(entries: &Vec<ConfigEntry>, name: &str) -> (at: usize)
        requires
            strictly_sorted(names_of(entries@)),
        ensures
            at <= entries.len(),
            forall|j: int| 0 <= j < at ==> key_lt(names_of(entries@)[j], name@),
            forall|j: int| at <= j < entries.len() ==> !key_lt(names_of(entries@)[j], name@),
    {
        let ghost names = names_of(entries@);
        let mut lo: usize = 0;
        let mut hi: usize = entries.len();
        while lo < hi
            invariant
                names == names_of(entries@),
                strictly_sorted(names),
                lo <= hi <= entries.len(),
                forall|j: int| 0 <= j < lo ==> key_lt(names[j], name@),
                forall|j: int| hi <= j < entries.len() ==> !key_lt(names[j], name@),
            decreases hi - lo,
        {
            let mid = lo + (hi - lo) / 2;
            if str_lt(entries[mid].name.as_str(), name) {
                assert forall|j: int| 0 <= j < mid + 1 implies key_lt(names[j], name@) by {
                    if j < mid {
                        lemma_key_lt_transitive(names[j], names[mid as int], name@);
                    }
                }
                lo = mid + 1;
            } else {
                assert forall|j: int| mid <= j < entries.len() implies !key_lt(names[j], name@) by {
                    if j > mid && key_lt(names[j], name@) {
                        lemma_key_lt_transitive(names[mid as int], names[j], name@);
                    }
                }
                hi = mid;
            }
        }
        lo
    }

    /// Records `value` for `name`, in place of what was recorded before.
    fn put(&mut self, name: &str, value: Option<String>)
        ensures
            final(self)@ == old(self)@.insert(name@, value_view(value)),
    {
        let mut entries = self.take_entries();
        let ghost before = entries@;
        let at = Self::lower_bound(&entries, name);
        let entry = ConfigEntry { name: String::from_str(name), value };
        if at < entries.len() && str_eq(entries[at].name.as_str(), name) {
            entries.set(at, entry);
            proof {
                lemma_table_update(before, entries@, at as int);
            }
        } else {
            entries.insert(at, entry);
            proof {
                let names = names_of(before);
                let after = names_of(entries@);
                assert forall|i: int, j: int| 0 <= i < j < after.len() implies key_lt(
                    after[i],
                    after[j],
                ) by {
                    if j == at {
                        assert(after[i] == names[i]);
                    } else if i == at {
                        assert(after[j] == names[j - 1]);
                        assert(!key_lt(names[at as int], name@));
                        lemma_key_lt_total(names[at as int], name@);
                        if j - 1 > at {
                            lemma_key_lt_transitive(name@, names[at as int], names[j - 1]);
                        }
                    } else {
                        let oi = if i < at { i } else { i - 1 };
                        let oj = if j < at { j } else { j - 1 };
                        assert(after[i] == names[oi] && after[j] == names[oj]);
                    }
                }
                lemma_table_insert(before, entries@, at as int);
            }
        }
        self.entries = entries;
    }

    /// The stored names are the ascending list of the table.
    proof fn lemma_stored_names(&self)
        requires
            strictly_sorted(names_of(self.entries@)),
        ensures
            names_of(self.entries@) == sorted_keys(self@),
            self@.dom().finite(),
    {
        lemma_table_dom(self.entries@);
        let names = names_of(self.entries@);
        assert(strictly_sorted(names) && names.to_set() == self@.dom());
        lemma_sorted_keys_unique(names, sorted_keys(self@));
        vstd::seq_lib::seq_to_set_is_finite(names);
    }

    /// How many options the configuration mentions.
    pub fn len(&self) -> (n: usize)
        ensures
            n == sorted_keys(self@).len(),
            self@.dom().finite(),
    {
        proof {
            use_type_invariant(self);
            self.lemma_stored_names();
        }
        self.entries.len()
    }

    /// The name of the option at place `i` of the ascending list of names.
    pub fn name_at(&self, i: usize) -> (name: &str)
        requires
            i < sorted_keys(self@).len(),
        ensures
            name@ == sorted_keys(self@)[i as int],
    {
        proof {
            use_type_invariant(self);
            self.lemma_stored_names();
        }
        self.entries[i].name.as_str()
    }

    /// The value of the option at place `i` of the ascending list of names,
    /// or `None` where that option is marked as not set.
    pub fn value_at(&self, i: usize) -> (value: Option<&str>)
        requires
            i < sorted_keys(self@).len(),
        ensures
            match value {
                Some(v) => self@[sorted_keys(self@)[i as int]] == Some(v@),
                None => self@[sorted_keys(self@)[i as int]] is None,
            },
    {
        proof {
            use_type_invariant(self);
            self.lemma_stored_names();
            lemma_table_at(self.entries@, i as int);
        }
        match &self.entries[i].value {
            Some(v) => Some(v.as_str()),
            None => None,
        }
    }

    /// Sets the option `name` to `value`. An earlier value or "not set" marker
    /// of that option is replaced.
    pub fn set(&mut self, name: &str, value: &str)
        ensures
            final(self)@ == old(self)@.insert(name@, Some(value@)),
    {
        self.put(name, Some(String::from_str(value)));
    }

    /// Marks the option `name` as explicitly not set. This differs from never
    /// mentioning it: the text then holds a `# name is not set` line.
    pub fn unset(&mut self, name: &str)
        ensures
            final(self)@ == old(self)@.insert(name@, None),
    {
        self.put(name, None);
    }

    /// The `.config` text of the configuration.
    ///
    /// The text depends only on which options are mentioned and with what
    /// value, never on the order in which they were written.
    pub fn emit(&self) -> (text: String)
        ensures
            text@ == emit_text(self@),
    {
        proof {
            use_type_invariant(self);
            lemma_table_dom(self.entries@);
            let names = names_of(self.entries@);
            let chosen = sorted_keys(self@);
            assert(strictly_sorted(names) && names.to_set() == self@.dom());
            lemma_sorted_keys_unique(names, chosen);
        }
        let ghost names = names_of(self.entries@);
        let mut text = String::new();
        if self.entries.len() == 0 {
            text.append("\n");
            assert(text@ =~= "\n"@);
            return text;
        }
        let mut i: usize = 0;
        while i < self.entries.len()
            invariant
                i <= self.entries.len(),
                names == names_of(self.entries@),
                strictly_sorted(names),
                text@ == lines_text(names.take(i as int), self@),
            decreases self.entries.len() - i,
        {
            let entry = &self.entries[i];
            proof {
                lemma_table_at(self.entries@, i as int);
                lemma_lines_step(names, self@, i as int);
            }
            let ghost start = text@;
            match &entry.value {
                Some(value) => {
                    text.append(entry.name.as_str());
                    text.append("=");
                    text.append(value.as_str());
                },
                None => {
                    text.append("# ");
                    text.append(entry.name.as_str());
                    text.append(" is not set");
                },
            }
            text.append("\n");
            assert(text@ =~= start + option_line(names[i as int], self@[names[i as int]]) + "\n"@);
            i += 1;
        }
        assert(names.take(i as int) =~= names);
        text
    }
}


impl Default for KernelConfig {
    fn default() -> (config: Self)
        ensures
            config@ == OptionTable::empty(),
    {
        Self::new()
    }
}

/// One row of a table of writes: an option and the value it gets, or `None`
/// where the option is to be marked as not set.
pub struct OptionRule {
    pub name: &'static str,
    pub value: Option<&'static str>,
}

/// The write that a row stands for.
pub open spec fn rule_op(rule: OptionRule) -> ConfigOp {
    match rule.value {
        Some(v) => ConfigOp::Assign { name: rule.name@, value: v@ },
        None => ConfigOp::Clear { name: rule.name@ },
    }
}

/// The writes that a table stands for, row by row.
pub open spec fn rule_ops(rules: Seq<OptionRule>) -> Seq<ConfigOp> {
    Seq::new(rules.len(), |i: int| rule_op(rules[i]))
}

/// The row that sets `name` to `y`.
fn enable(name: &'static str) -> (rule: OptionRule)
    ensures
        rule_op(rule) == on(name@),
{
    OptionRule { name, value: Some("y") }
}

/// The row that marks `name` as not set.
fn disable(name: &'static str) -> (rule: OptionRule)
    ensures
        rule_op(rule) == off(name@),
{
    OptionRule { name, value: None }
}

/// The row that sets `name` to `value`.
fn assign(name: &'static str, value: &'static str) -> (rule: OptionRule)
    ensures
        rule_op(rule) == (ConfigOp::Assign { name: name@, value: value@ }),
{
    OptionRule { name, value: Some(value) }
}

/// The writes of the x86-64 baseline: the one supported architecture is
/// enabled, every other architecture and the legacy buses and devices are
/// marked as not set.
pub open spec fn x86_64_baseline_ops() -> Seq<ConfigOp> {
    seq![
        on("CONFIG_X86_64"@),
        on("CONFIG_64BIT"@),
        off("CONFIG_ARM"@),
        off("CONFIG_ARM64"@),
        off("CONFIG_MIPS"@),
        off("CONFIG_POWERPC"@),
        off("CONFIG_PPC"@),
        off("CONFIG_PPC64"@),
        off("CONFIG_RISCV"@),
        off("CONFIG_S390"@),
        off("CONFIG_IA64"@),
        off("CONFIG_ALPHA"@),
        off("CONFIG_M68K"@),
        off("CONFIG_MICROBLAZE"@),
        off("CONFIG_NDS32"@),
        off("CONFIG_ARC"@),
        off("CONFIG_SH"@),
        off("CONFIG_SPARC"@),
        off("CONFIG_SPARC64"@),
        off("CONFIG_HEXAGON"@),
        off("CONFIG_ISA"@),
        off("CONFIG_EISA"@),
        off("CONFIG_MCA"@),
        off("CONFIG_PARALLEL_PORT"@),
        off("CONFIG_FLOPPY"@),
        off("CONFIG_IDE"@),
    ]
}

/// The table of the x86-64 baseline.
pub fn x86_64_baseline_rules() -> (rules: Vec<OptionRule>)
    ensures
        rule_ops(rules@) == x86_64_baseline_ops(),
{
    let rules = vec![
        enable("CONFIG_X86_64"),
        enable("CONFIG_64BIT"),
        disable("CONFIG_ARM"),
        disable("CONFIG_ARM64"),
        disable("CONFIG_MIPS"),
        disable("CONFIG_POWERPC"),
        disable("CONFIG_PPC"),
        disable("CONFIG_PPC64"),
        disable("CONFIG_RISCV"),
        disable("CONFIG_S390"),
        disable("CONFIG_IA64"),
        disable("CONFIG_ALPHA"),
        disable("CONFIG_M68K"),
        disable("CONFIG_MICROBLAZE"),
        disable("CONFIG_NDS32"),
        disable("CONFIG_ARC"),
        disable("CONFIG_SH"),
        disable("CONFIG_SPARC"),
        disable("CONFIG_SPARC64"),
        disable("CONFIG_HEXAGON"),
        disable("CONFIG_ISA"),
        disable("CONFIG_EISA"),
        disable("CONFIG_MCA"),
        disable("CONFIG_PARALLEL_PORT"),
        disable("CONFIG_FLOPPY"),
        disable("CONFIG_IDE"),
    ];
    assert(rule_ops(rules@) =~= x86_64_baseline_ops());
    rules
}

/// The writes of the desktop layer: performance and low-latency settings,
/// the file systems that desktops use, and the obscure file systems marked as
/// not set.
pub open spec fn desktop_optimization_ops() -> Seq<ConfigOp> {
    seq![
        on("CONFIG_CC_OPTIMIZE_FOR_PERFORMANCE"@),
        on("CONFIG_HIGH_RES_TIMERS"@),
        on("CONFIG_NO_HZ_FULL"@),
        on("CONFIG_HZ_1000"@),
        ConfigOp::Assign { name: "CONFIG_HZ"@, value: "1000"@ },
        on("CONFIG_PREEMPT"@),
        on("CONFIG_PREEMPT_COUNT"@),
        on("CONFIG_X86_X2APIC"@),
        on("CONFIG_X86_TSC"@),
        on("CONFIG_FUTEX"@),
        on("CONFIG_FUTEX2"@),
        off("CONFIG_EMBEDDED"@),
        on("CONFIG_EXT4_FS"@),
        on("CONFIG_BTRFS_FS"@),
        on("CONFIG_XFS_FS"@),
        on("CONFIG_F2FS_FS"@),
        on("CONFIG_VFAT_FS"@),
        on("CONFIG_NTFS_FS"@),
        on("CONFIG_NTFS3_FS"@),
        off("CONFIG_REISERFS_FS"@),
        off("CONFIG_JFS_FS"@),
        off("CONFIG_HFS_FS"@),
        off("CONFIG_HFSPLUS_FS"@),
    ]
}

/// The table of the desktop layer.
pub fn desktop_optimization_rules() -> (rules: Vec<OptionRule>)
    ensures
        rule_ops(rules@) == desktop_optimization_ops(),
{
    let rules = vec![
        enable("CONFIG_CC_OPTIMIZE_FOR_PERFORMANCE"),
        enable("CONFIG_HIGH_RES_TIMERS"),
        enable("CONFIG_NO_HZ_FULL"),
        enable("CONFIG_HZ_1000"),
        assign("CONFIG_HZ", "1000"),
        enable("CONFIG_PREEMPT"),
        enable("CONFIG_PREEMPT_COUNT"),
        enable("CONFIG_X86_X2APIC"),
        enable("CONFIG_X86_TSC"),
        enable("CONFIG_FUTEX"),
        enable("CONFIG_FUTEX2"),
        disable("CONFIG_EMBEDDED"),
        enable("CONFIG_EXT4_FS"),
        enable("CONFIG_BTRFS_FS"),
        enable("CONFIG_XFS_FS"),
        enable("CONFIG_F2FS_FS"),
        enable("CONFIG_VFAT_FS"),
        enable("CONFIG_NTFS_FS"),
        enable("CONFIG_NTFS3_FS"),
        disable("CONFIG_REISERFS_FS"),
        disable("CONFIG_JFS_FS"),
        disable("CONFIG_HFS_FS"),
        disable("CONFIG_HFSPLUS_FS"),
    ];
    assert(rule_ops(rules@) =~= desktop_optimization_ops());
    rules
}

/// Whether a write would mark a critical option as not set.
pub open spec fn clears_critical(op: ConfigOp) -> bool {
    op is Clear && is_critical(op_name(op))
}

/// The writes of `ops`, in order, without those that would mark a critical
/// option as not set.
pub open spec fn sparing(ops: Seq<ConfigOp>) -> Seq<ConfigOp>
    decreases ops.len(),
{
    if ops.len() == 0 {
        Seq::empty()
    } else if clears_critical(ops.last()) {
        sparing(ops.drop_last())
    } else {
        sparing(ops.drop_last()).push(ops.last())
    }
}

/// Writes that clear no critical option are all kept.
pub proof fn lemma_sparing_keeps(ops: Seq<ConfigOp>)
    requires
        forall|i: int| 0 <= i < ops.len() ==> !clears_critical(#[trigger] ops[i]),
    ensures
        sparing(ops) == ops,
    decreases ops.len(),
{
    if ops.len() > 0 {
        let rest = ops.drop_last();
        assert forall|i: int| 0 <= i < rest.len() implies !clears_critical(#[trigger] rest[i]) by {
            assert(rest[i] == ops[i]);
        }
        lemma_sparing_keeps(rest);
        assert(!clears_critical(ops[ops.len() - 1]));
        assert(rest.push(ops.last()) =~= ops);
    } else {
        assert(sparing(ops) =~= ops);
    }
}

/// What is kept clears no critical option, so after the kept writes a
/// critical option is marked as not set only if it was so before.
pub proof fn lemma_sparing_never_unsets(table: OptionTable, ops: Seq<ConfigOp>, name: Seq<char>)
    requires
        is_critical(name),
    ensures
        is_unset(apply_ops(table, sparing(ops)), name) ==> is_unset(table, name),
    decreases ops.len(),
{
    if ops.len() > 0 {
        lemma_sparing_never_unsets(table, ops.drop_last(), name);
        if !clears_critical(ops.last()) {
            let kept = sparing(ops.drop_last());
            assert(sparing(ops).drop_last() =~= kept);
            assert(sparing(ops).last() == ops.last());
        }
    }
}

/// The one critical option is the architecture switch.
pub proof fn lemma_critical_name(name: Seq<char>)
    ensures
        is_critical(name) <==> name == "CONFIG_X86_64"@,
{
    let names = crate::bloat_removal::critical_modules();
    assert(names[0] == "CONFIG_X86_64"@);
    if name == "CONFIG_X86_64"@ {
        assert(names.contains(name));
    }
}

/// A name that differs from the architecture switch in length, or in the
/// first or second character after `CONFIG_`, is not critical.
proof fn lemma_not_critical(name: Seq<char>)
    requires
        name.len() != 13 || name[7] != 'X' || name[8] != '8',
    ensures
        !is_critical(name),
{
    reveal_strlit("CONFIG_X86_64");
    lemma_critical_name(name);
}

/// The baseline marks no critical option as not set.
pub proof fn lemma_baseline_spares_critical()
    ensures
        sparing(x86_64_baseline_ops()) == x86_64_baseline_ops(),
{
    let ops = x86_64_baseline_ops();
    reveal_strlit("CONFIG_ARM");
    reveal_strlit("CONFIG_ARM64");
    reveal_strlit("CONFIG_MIPS");
    reveal_strlit("CONFIG_POWERPC");
    reveal_strlit("CONFIG_PPC");
    reveal_strlit("CONFIG_PPC64");
    reveal_strlit("CONFIG_RISCV");
    reveal_strlit("CONFIG_S390");
    reveal_strlit("CONFIG_IA64");
    reveal_strlit("CONFIG_ALPHA");
    reveal_strlit("CONFIG_M68K");
    reveal_strlit("CONFIG_MICROBLAZE");
    reveal_strlit("CONFIG_NDS32");
    reveal_strlit("CONFIG_ARC");
    reveal_strlit("CONFIG_SH");
    reveal_strlit("CONFIG_SPARC");
    reveal_strlit("CONFIG_SPARC64");
    reveal_strlit("CONFIG_HEXAGON");
    reveal_strlit("CONFIG_ISA");
    reveal_strlit("CONFIG_EISA");
    reveal_strlit("CONFIG_MCA");
    reveal_strlit("CONFIG_PARALLEL_PORT");
    reveal_strlit("CONFIG_FLOPPY");
    reveal_strlit("CONFIG_IDE");
    assert forall|i: int| 0 <= i < ops.len() implies !clears_critical(#[trigger] ops[i]) by {
        if i >= 2 {
            lemma_not_critical(op_name(ops[i]));
        }
    }
    lemma_sparing_keeps(ops);
}

/// The desktop layer names no critical option.
pub proof fn lemma_desktop_avoids_critical()
    ensures
        forall|i: int|
            0 <= i < desktop_optimization_ops().len() ==> !is_critical(
                op_name(#[trigger] desktop_optimization_ops()[i]),
            ),
        sparing(desktop_optimization_ops()) == desktop_optimization_ops(),
{
    let ops = desktop_optimization_ops();
    reveal_strlit("CONFIG_CC_OPTIMIZE_FOR_PERFORMANCE");
    reveal_strlit("CONFIG_HIGH_RES_TIMERS");
    reveal_strlit("CONFIG_NO_HZ_FULL");
    reveal_strlit("CONFIG_HZ_1000");
    reveal_strlit("CONFIG_HZ");
    reveal_strlit("CONFIG_PREEMPT");
    reveal_strlit("CONFIG_PREEMPT_COUNT");
    reveal_strlit("CONFIG_X86_X2APIC");
    reveal_strlit("CONFIG_X86_TSC");
    reveal_strlit("CONFIG_FUTEX");
    reveal_strlit("CONFIG_FUTEX2");
    reveal_strlit("CONFIG_EMBEDDED");
    reveal_strlit("CONFIG_EXT4_FS");
    reveal_strlit("CONFIG_BTRFS_FS");
    reveal_strlit("CONFIG_XFS_FS");
    reveal_strlit("CONFIG_F2FS_FS");
    reveal_strlit("CONFIG_VFAT_FS");
    reveal_strlit("CONFIG_NTFS_FS");
    reveal_strlit("CONFIG_NTFS3_FS");
    reveal_strlit("CONFIG_REISERFS_FS");
    reveal_strlit("CONFIG_JFS_FS");
    reveal_strlit("CONFIG_HFS_FS");
    reveal_strlit("CONFIG_HFSPLUS_FS");
    assert forall|i: int| 0 <= i < ops.len() implies !is_critical(op_name(#[trigger] ops[i])) by {
        lemma_not_critical(op_name(ops[i]));
    }
    assert forall|i: int| 0 <= i < ops.len() implies !clears_critical(#[trigger] ops[i]) by {
        assert(!is_critical(op_name(ops[i])));
    }
    lemma_sparing_keeps(ops);
}

impl KernelConfig {
    /// Applies the rows of a table, first to last. A row that would mark a
    /// critical option as not set is passed over: the option is looked up
    /// among the critical ones before the marker is recorded.
    pub fn apply_rules(&mut self, rules: &Vec<OptionRule>)
        ensures
            final(self)@ == apply_ops(old(self)@, sparing(rule_ops(rules@))),
            forall|name: Seq<char>|
                is_critical(name) && is_unset(final(self)@, name) ==> is_unset(old(self)@, name),
    {
        let ghost start = self@;
        let ghost ops = rule_ops(rules@);
        let mut i: usize = 0;
        while i < rules.len()
            invariant
                i <= rules.len(),
                ops == rule_ops(rules@),
                self@ == apply_ops(start, sparing(ops.take(i as int))),
            decreases rules.len() - i,
        {
            proof {
                assert(ops.take(i + 1).drop_last() =~= ops.take(i as int));
                assert(ops.take(i + 1).last() == rule_op(rules@[i as int]));
                assert(sparing(ops.take(i as int)).push(ops[i as int]).drop_last() =~= sparing(
                    ops.take(i as int),
                ));
            }
            match rules[i].value {
                Some(value) => {
                    self.set(rules[i].name, value);
                },
                None => {
                    if !is_critical_module(rules[i].name) {
                        self.unset(rules[i].name);
                    }
                },
            }
            i += 1;
        }
        proof {
            assert(ops.take(i as int) =~= ops);
            assert forall|name: Seq<char>| is_critical(name) && is_unset(self@, name) implies is_unset(
                start,
                name,
            ) by {
                lemma_sparing_never_unsets(start, ops, name);
            }
        }
    }

    /// The x86-64 baseline: the supported architecture enabled, every other
    /// architecture and the legacy hardware explicitly not set.
    pub fn x86_64_baseline() -> (config: Self)
        ensures
            config@ == apply_ops(OptionTable::empty(), x86_64_baseline_ops()),
    {
        let mut config = Self::new();
        proof {
            lemma_baseline_spares_critical();
        }
        config.apply_rules(&x86_64_baseline_rules());
        config
    }

    /// Lays the desktop layer over the configuration. Options that the layer
    /// names are overwritten, all others stay; no critical option is among
    /// those that it names.
    pub fn apply_desktop_optimizations(&mut self)
        ensures
            final(self)@ == apply_ops(old(self)@, desktop_optimization_ops()),
            forall|name: Seq<char>|
                is_critical(name) ==> (final(self)@.dom().contains(name) == old(self)@.dom().contains(
                    name,
                ) && final(self)@[name] == old(self)@[name]),
    {
        let ghost start = self@;
        proof {
            lemma_desktop_avoids_critical();
        }
        self.apply_rules(&desktop_optimization_rules());
        proof {
            assert forall|name: Seq<char>| is_critical(name) implies (self@.dom().contains(name)
                == start.dom().contains(name) && self@[name] == start[name]) by {
                lemma_apply_ops_untouched(start, desktop_optimization_ops(), name);
            }
        }
    }
}

/// The options that a removal category clears. The two categories that name
/// other architectures and legacy hardware clear nothing here, because the
/// baseline has already marked those options; a name that is no category
/// clears nothing either.
pub open spec fn category_modules(category: Seq<char>) -> Seq<Seq<char>> {
    if category == "Architecture Cleanup"@ || category == "Legacy Hardware Removal"@ {
        Seq::empty()
    } else if category == "Industrial Hardware Removal"@ {
        seq![
            "CONFIG_INFINIBAND"@,
            "CONFIG_FIBRE_CHANNEL"@,
            "CONFIG_SCSI_TAPE"@,
            "CONFIG_LEGACY_HARDWARE"@,
        ]
    } else if category == "Enterprise Features Removal"@ {
        seq!["CONFIG_CLUSTERING"@, "CONFIG_MAINFRAME_SUPPORT"@]
    } else if category == "Embedded Systems Removal"@ {
        seq!["CONFIG_SPI"@, "CONFIG_I2C_SENSORS"@, "CONFIG_INDUSTRIAL_BUSES"@]
    } else if category == "Networking Protocols Cleanup"@ {
        seq!["CONFIG_DECNET"@, "CONFIG_APPLETALK"@, "CONFIG_X25"@, "CONFIG_AMATEUR_RADIO"@]
    } else {
        Seq::empty()
    }
}

/// The options that a removal category clears.
pub fn category_module_names(category: &str) -> (modules: Vec<&'static str>)
    ensures
        str_views(modules@) == category_modules(category@),
{
    let modules: Vec<&'static str> = if str_eq(category, "Architecture Cleanup") || str_eq(
        category,
        "Legacy Hardware Removal",
    ) {
        Vec::new()
    } else if str_eq(category, "Industrial Hardware Removal") {
        vec![
            "CONFIG_INFINIBAND",
            "CONFIG_FIBRE_CHANNEL",
            "CONFIG_SCSI_TAPE",
            "CONFIG_LEGACY_HARDWARE",
        ]
    } else if str_eq(category, "Enterprise Features Removal") {
        vec!["CONFIG_CLUSTERING", "CONFIG_MAINFRAME_SUPPORT"]
    } else if str_eq(category, "Embedded Systems Removal") {
        vec!["CONFIG_SPI", "CONFIG_I2C_SENSORS", "CONFIG_INDUSTRIAL_BUSES"]
    } else if str_eq(category, "Networking Protocols Cleanup") {
        vec!["CONFIG_DECNET", "CONFIG_APPLETALK", "CONFIG_X25", "CONFIG_AMATEUR_RADIO"]
    } else {
        Vec::new()
    };
    assert(str_views(modules@) =~= category_modules(category@));
    modules
}

/// The writes that clear `modules`, in order, without the critical options.
pub open spec fn clear_ops(modules: Seq<Seq<char>>) -> Seq<ConfigOp>
    decreases modules.len(),
{
    if modules.len() == 0 {
        Seq::empty()
    } else if is_critical(modules.last()) {
        clear_ops(modules.drop_last())
    } else {
        clear_ops(modules.drop_last()).push(off(modules.last()))
    }
}

/// The writes of a removal: the categories are taken in the order given, and
/// each contributes the writes that clear its options.
pub open spec fn removal_ops(categories: Seq<Seq<char>>) -> Seq<ConfigOp>
    decreases categories.len(),
{
    if categories.len() == 0 {
        Seq::empty()
    } else {
        removal_ops(categories.drop_last()) + clear_ops(category_modules(categories.last()))
    }
}

/// No write of `clear_ops` names a critical option.
pub proof fn lemma_clear_ops_spare_critical(modules: Seq<Seq<char>>)
    ensures
        forall|i: int|
            0 <= i < clear_ops(modules).len() ==> !is_critical(
                op_name(#[trigger] clear_ops(modules)[i]),
            ),
    decreases modules.len(),
{
    if modules.len() > 0 {
        lemma_clear_ops_spare_critical(modules.drop_last());
        let rest = clear_ops(modules.drop_last());
        let all = clear_ops(modules);
        assert forall|i: int| 0 <= i < all.len() implies !is_critical(op_name(#[trigger] all[i])) by {
            if i < rest.len() {
                assert(all[i] == rest[i]);
            }
        }
    }
}

/// No write of a removal names a critical option.
pub proof fn lemma_removal_ops_spare_critical(categories: Seq<Seq<char>>)
    ensures
        forall|i: int|
            0 <= i < removal_ops(categories).len() ==> !is_critical(
                op_name(#[trigger] removal_ops(categories)[i]),
            ),
    decreases categories.len(),
{
    if categories.len() > 0 {
        lemma_removal_ops_spare_critical(categories.drop_last());
        lemma_clear_ops_spare_critical(category_modules(categories.last()));
        let rest = removal_ops(categories.drop_last());
        let tail = clear_ops(category_modules(categories.last()));
        let all = removal_ops(categories);
        assert forall|i: int| 0 <= i < all.len() implies !is_critical(op_name(#[trigger] all[i])) by {
            if i < rest.len() {
                assert(all[i] == rest[i]);
            } else {
                assert(all[i] == tail[i - rest.len()]);
            }
        }
    }
}

/// A removal leaves every critical option as it found it, whatever categories
/// are named: mentioned or not, and with the same value. So a critical option
/// that was not marked "not set" before the removal is not marked so after it.
pub proof fn lemma_removal_keeps_critical(
    table: OptionTable,
    categories: Seq<Seq<char>>,
    name: Seq<char>,
)
    requires
        is_critical(name),
    ensures
        apply_ops(table, removal_ops(categories)).dom().contains(name) == table.dom().contains(
            name,
        ),
        apply_ops(table, removal_ops(categories))[name] == table[name],
        !is_unset(table, name) ==> !is_unset(apply_ops(table, removal_ops(categories)), name),
{
    lemma_removal_ops_spare_critical(categories);
    lemma_apply_ops_untouched(table, removal_ops(categories), name);
}

/// The categories that the desktop configuration removes.
pub open spec fn desktop_gaming_categories() -> Seq<Seq<char>> {
    seq![
        "Architecture Cleanup"@,
        "Industrial Hardware Removal"@,
        "Enterprise Features Removal"@,
        "Embedded Systems Removal"@,
        "Legacy Hardware Removal"@,
        "Networking Protocols Cleanup"@,
    ]
}

/// The table of the complete desktop configuration: the baseline, the desktop
/// layer over it, then the removal of the desktop categories.
pub open spec fn desktop_gaming_table() -> OptionTable {
    apply_ops(
        apply_ops(
            apply_ops(OptionTable::empty(), x86_64_baseline_ops()),
            desktop_optimization_ops(),
        ),
        removal_ops(desktop_gaming_categories()),
    )
}

impl KernelConfig {
    /// Marks the options of `modules` as not set, but for the critical ones,
    /// which are passed over.
    fn clear_modules(&mut self, modules: &Vec<&'static str>)
        ensures
            final(self)@ == apply_ops(old(self)@, clear_ops(str_views(modules@))),
    {
        let ghost start = self@;
        let ghost names = str_views(modules@);
        let mut i: usize = 0;
        while i < modules.len()
            invariant
                i <= modules.len(),
                names == str_views(modules@),
                self@ == apply_ops(start, clear_ops(names.take(i as int))),
            decreases modules.len() - i,
        {
            proof {
                assert(names.take(i + 1).drop_last() =~= names.take(i as int));
                assert(names.take(i + 1).last() == modules@[i as int]@);
                assert(clear_ops(names.take(i as int)).push(off(names[i as int])).drop_last()
                    =~= clear_ops(names.take(i as int)));
            }
            if !is_critical_module(modules[i]) {
                self.unset(modules[i]);
            }
            i += 1;
        }
        assert(names.take(i as int) =~= names);
    }

    /// Removes the named categories: each known category marks its options as
    /// not set. A name that is no category is passed over, and no critical
    /// option is ever touched.
    pub fn apply_bloat_removal(&mut self, categories: &[&str])
        ensures
            final(self)@ == apply_ops(old(self)@, removal_ops(str_views(categories@))),
            forall|name: Seq<char>|
                is_critical(name) ==> (final(self)@.dom().contains(name) == old(self)@.dom().contains(
                    name,
                ) && final(self)@[name] == old(self)@[name]),
    {
        let ghost start = self@;
        let ghost names = str_views(categories@);
        let mut i: usize = 0;
        while i < categories.len()
            invariant
                i <= categories.len(),
                names == str_views(categories@),
                self@ == apply_ops(start, removal_ops(names.take(i as int))),
            decreases categories.len() - i,
        {
            proof {
                assert(names.take(i + 1).drop_last() =~= names.take(i as int));
                assert(names.take(i + 1).last() == categories@[i as int]@);
                lemma_apply_ops_concat(
                    start,
                    removal_ops(names.take(i as int)),
                    clear_ops(category_modules(names[i as int])),
                );
            }
            let modules = category_module_names(categories[i]);
            self.clear_modules(&modules);
            i += 1;
        }
        proof {
            assert(names.take(i as int) =~= names);
            assert forall|name: Seq<char>| is_critical(name) implies (self@.dom().contains(name)
                == start.dom().contains(name) && self@[name] == start[name]) by {
                lemma_removal_keeps_critical(start, names, name);
            }
        }
    }

    /// The complete desktop configuration: the baseline, the desktop layer, and
    /// the desktop categories removed.
    pub fn desktop_gaming() -> (config: Self)
        ensures
            config@ == desktop_gaming_table(),
    {
        let mut config = Self::x86_64_baseline();
        config.apply_desktop_optimizations();
        let categories = [
            "Architecture Cleanup",
            "Industrial Hardware Removal",
            "Enterprise Features Removal",
            "Embedded Systems Removal",
            "Legacy Hardware Removal",
            "Networking Protocols Cleanup",
        ];
        assert(str_views(categories@) =~= desktop_gaming_categories());
        config.apply_bloat_removal(&categories);
        config
    }
}

} // verus!
