//! The catalogue of removable option groups, and the options that no removal
//! may touch.

use crate::text::{
    contains_name, lemma_string_views_push, str_eq, str_views, string_views, to_strings,
};
use vstd::prelude::*;
use vstd::string::*;

verus! {

/// The options that must never be cleared, whatever removal is asked for.
pub open spec fn critical_modules() -> Seq<Seq<char>> {
    seq!["CONFIG_X86_64"@]
}

/// Whether `name` is one of the critical options.
pub open spec fn is_critical(name: Seq<char>) -> bool {
    critical_modules().contains(name)
}

/// The critical options.
pub fn critical_module_names() -> (names: Vec<&'static str>)
    ensures
        str_views(names@) == critical_modules(),
{
    let names = vec!["CONFIG_X86_64"];
    assert(str_views(names@) =~= critical_modules());
    names
}

/// Whether `name` is one of the critical options.
pub fn is_critical_module(name: &str) -> (r: bool)
    ensures
        r == is_critical(name@),
{
    let names = critical_module_names();
    let mut i: usize = 0;
    while i < names.len()
        invariant
            i <= names.len(),
            str_views(names@) == critical_modules(),
            forall|j: int| 0 <= j < i ==> critical_modules()[j] != name@,
        decreases names.len() - i,
    {
        assert(str_views(names@)[i as int] == names@[i as int]@);
        if str_eq(names[i], name) {
            return true;
        }
        i += 1;
    }
    false
}

/// A named group of options that can be removed together, as a value of the
/// model.
pub struct CategoryView {
    pub name: Seq<char>,
    pub modules: Seq<Seq<char>>,
}

/// A named group of options that can be removed together.
pub struct RemovableCategory {
    pub name: String,
    pub modules: Vec<String>,
}

impl View for RemovableCategory {
    type V = CategoryView;

    open spec fn view(&self) -> CategoryView {
        CategoryView { name: self.name@, modules: string_views(self.modules@) }
    }
}

impl RemovableCategory {
    /// The category `name` with the options `modules`.
    pub fn new(name: &str, modules: &Vec<&str>) -> (category: Self)
        ensures
            category@ == (CategoryView { name: name@, modules: str_views(modules@) }),
    {
        RemovableCategory { name: String::from_str(name), modules: to_strings(modules) }
    }
}

/// The views of a run of categories.
pub open spec fn category_views(categories: Seq<RemovableCategory>) -> Seq<CategoryView> {
    Seq::new(categories.len(), |i: int| categories[i]@)
}

/// The catalogue of removable groups, in the order in which they are offered.
pub open spec fn removal_catalog() -> Seq<CategoryView> {
    seq![
        CategoryView {
            name: "Architecture Cleanup"@,
            modules: seq!["CONFIG_ARM"@, "CONFIG_MIPS"@, "CONFIG_POWERPC"@, "CONFIG_RISCV"@],
        },
        CategoryView {
            name: "Industrial Hardware Removal"@,
            modules: seq![
                "CONFIG_INFINIBAND"@,
                "CONFIG_FIBRE_CHANNEL"@,
                "CONFIG_SCSI_TAPE"@,
                "CONFIG_LEGACY_HARDWARE"@,
            ],
        },
        CategoryView {
            name: "Enterprise Features Removal"@,
            modules: seq![
                "CONFIG_CLUSTERING"@,
                "CONFIG_MAINFRAME_SUPPORT"@,
                "CONFIG_VIRTUALIZATION"@,
            ],
        },
        CategoryView {
            name: "Embedded Systems Removal"@,
            modules: seq!["CONFIG_SPI"@, "CONFIG_I2C_SENSORS"@, "CONFIG_INDUSTRIAL_BUSES"@],
        },
        CategoryView {
            name: "Legacy Hardware Removal"@,
            modules: seq![
                "CONFIG_ISA"@,
                "CONFIG_EISA"@,
                "CONFIG_MCA"@,
                "CONFIG_PARALLEL_PORT"@,
                "CONFIG_FLOPPY"@,
                "CONFIG_IDE"@,
            ],
        },
        CategoryView {
            name: "Obscure Filesystems Removal"@,
            modules: seq!["CONFIG_REISERFS"@, "CONFIG_JFS"@, "CONFIG_HFS"@],
        },
        CategoryView {
            name: "Networking Protocols Cleanup"@,
            modules: seq![
                "CONFIG_DECNET"@,
                "CONFIG_APPLETALK"@,
                "CONFIG_X25"@,
                "CONFIG_AMATEUR_RADIO"@,
            ],
        },
        CategoryView {
            name: "Security Modules Cleanup"@,
            modules: seq!["CONFIG_SELINUX"@, "CONFIG_APPARMOR"@, "CONFIG_TOMOYO"@],
        },
        CategoryView {
            name: "Sound Drivers Cleanup"@,
            modules: seq!["CONFIG_ALSA"@, "CONFIG_PULSEWIRE"@],
        },
    ]
}

/// The options of `modules` that are not in `critical`, in order.
pub open spec fn removable_of(modules: Seq<Seq<char>>, critical: Seq<Seq<char>>) -> Seq<Seq<char>>
    decreases modules.len(),
{
    if modules.len() == 0 {
        Seq::empty()
    } else {
        let rest = removable_of(modules.drop_last(), critical);
        if critical.contains(modules.last()) {
            rest
        } else {
            rest.push(modules.last())
        }
    }
}

/// The options to remove when the categories named in `selected` are chosen:
/// the catalogue is walked in its own order, and within each chosen category
/// every option that is not critical is taken, in the category's order.
pub open spec fn planned_removals(
    catalog: Seq<CategoryView>,
    critical: Seq<Seq<char>>,
    selected: Seq<Seq<char>>,
) -> Seq<Seq<char>>
    decreases catalog.len(),
{
    if catalog.len() == 0 {
        Seq::empty()
    } else {
        let rest = planned_removals(catalog.drop_last(), critical, selected);
        if selected.contains(catalog.last().name) {
            rest + removable_of(catalog.last().modules, critical)
        } else {
            rest
        }
    }
}

/// No planned removal is a critical option.
pub proof fn lemma_planned_removals_spare_critical(
    catalog: Seq<CategoryView>,
    critical: Seq<Seq<char>>,
    selected: Seq<Seq<char>>,
)
    ensures
        forall|i: int|
            0 <= i < planned_removals(catalog, critical, selected).len() ==> !critical.contains(
                #[trigger] planned_removals(catalog, critical, selected)[i],
            ),
    decreases catalog.len(),
{
    if catalog.len() > 0 {
        lemma_planned_removals_spare_critical(catalog.drop_last(), critical, selected);
        lemma_removable_of_spares_critical(catalog.last().modules, critical);
        let rest = planned_removals(catalog.drop_last(), critical, selected);
        let tail = removable_of(catalog.last().modules, critical);
        let all = planned_removals(catalog, critical, selected);
        assert forall|i: int| 0 <= i < all.len() implies !critical.contains(#[trigger] all[i]) by {
            if i < rest.len() {
                assert(all[i] == rest[i]);
            } else {
                assert(all[i] == tail[i - rest.len()]);
            }
        }
    }
}

proof fn lemma_removable_of_spares_critical(modules: Seq<Seq<char>>, critical: Seq<Seq<char>>)
    ensures
        forall|i: int|
            0 <= i < removable_of(modules, critical).len() ==> !critical.contains(
                #[trigger] removable_of(modules, critical)[i],
            ),
    decreases modules.len(),
{
    if modules.len() > 0 {
        lemma_removable_of_spares_critical(modules.drop_last(), critical);
        let rest = removable_of(modules.drop_last(), critical);
        let all = removable_of(modules, critical);
        assert forall|i: int| 0 <= i < all.len() implies !critical.contains(#[trigger] all[i]) by {
            if i < rest.len() {
                assert(all[i] == rest[i]);
            }
        }
    }
}

/// Plans the removal of option groups from a kernel configuration.
pub struct BloatRemovalEngine {
    pub removable_categories: Vec<RemovableCategory>,
    pub critical_modules: Vec<String>,
}

impl BloatRemovalEngine {
    /// An engine with the built-in catalogue and the built-in critical
    /// options.
    pub fn new() -> (engine: Self)
        ensures
            category_views(engine.removable_categories@) == removal_catalog(),
            string_views(engine.critical_modules@) == critical_modules(),
    {
        let mut categories: Vec<RemovableCategory> = Vec::new();
        let modules = vec!["CONFIG_ARM", "CONFIG_MIPS", "CONFIG_POWERPC", "CONFIG_RISCV"];
        assert(str_views(modules@) =~= removal_catalog()[0].modules);
        categories.push(RemovableCategory::new("Architecture Cleanup", &modules));
        let modules = vec![
            "CONFIG_INFINIBAND",
            "CONFIG_FIBRE_CHANNEL",
            "CONFIG_SCSI_TAPE",
            "CONFIG_LEGACY_HARDWARE",
        ];
        assert(str_views(modules@) =~= removal_catalog()[1].modules);
        categories.push(RemovableCategory::new("Industrial Hardware Removal", &modules));
        let modules = vec!["CONFIG_CLUSTERING", "CONFIG_MAINFRAME_SUPPORT", "CONFIG_VIRTUALIZATION"];
        assert(str_views(modules@) =~= removal_catalog()[2].modules);
        categories.push(RemovableCategory::new("Enterprise Features Removal", &modules));
        let modules = vec!["CONFIG_SPI", "CONFIG_I2C_SENSORS", "CONFIG_INDUSTRIAL_BUSES"];
        assert(str_views(modules@) =~= removal_catalog()[3].modules);
        categories.push(RemovableCategory::new("Embedded Systems Removal", &modules));
        let modules = vec![
            "CONFIG_ISA",
            "CONFIG_EISA",
            "CONFIG_MCA",
            "CONFIG_PARALLEL_PORT",
            "CONFIG_FLOPPY",
            "CONFIG_IDE",
        ];
        assert(str_views(modules@) =~= removal_catalog()[4].modules);
        categories.push(RemovableCategory::new("Legacy Hardware Removal", &modules));
        let modules = vec!["CONFIG_REISERFS", "CONFIG_JFS", "CONFIG_HFS"];
        assert(str_views(modules@) =~= removal_catalog()[5].modules);
        categories.push(RemovableCategory::new("Obscure Filesystems Removal", &modules));
        let modules = vec!["CONFIG_DECNET", "CONFIG_APPLETALK", "CONFIG_X25", "CONFIG_AMATEUR_RADIO"];
        assert(str_views(modules@) =~= removal_catalog()[6].modules);
        categories.push(RemovableCategory::new("Networking Protocols Cleanup", &modules));
        let modules = vec!["CONFIG_SELINUX", "CONFIG_APPARMOR", "CONFIG_TOMOYO"];
        assert(str_views(modules@) =~= removal_catalog()[7].modules);
        categories.push(RemovableCategory::new("Security Modules Cleanup", &modules));
        let modules = vec!["CONFIG_ALSA", "CONFIG_PULSEWIRE"];
        assert(str_views(modules@) =~= removal_catalog()[8].modules);
        categories.push(RemovableCategory::new("Sound Drivers Cleanup", &modules));
        assert(category_views(categories@) =~= removal_catalog());
        let critical = to_strings(&critical_module_names());
        BloatRemovalEngine { removable_categories: categories, critical_modules: critical }
    }

    /// Whether the engine lets `module` be removed: every option may go but
    /// the critical ones.
    pub fn may_remove(&self, module: &str) -> (r: bool)
        ensures
            r == !string_views(self.critical_modules@).contains(module@),
    {
        !contains_name(&self.critical_modules, module)
    }

    /// The options to remove for the chosen categories, in catalogue order.
    /// Names in `selected_categories` that the catalogue does not know select
    /// nothing, and critical options are never part of the result.
    pub fn analyze_and_remove(&self, selected_categories: Vec<String>) -> (removed: Vec<String>)
        ensures
            string_views(removed@) == planned_removals(
                category_views(self.removable_categories@),
                string_views(self.critical_modules@),
                string_views(selected_categories@),
            ),
    {
        let ghost catalog = category_views(self.removable_categories@);
        let ghost critical = string_views(self.critical_modules@);
        let ghost selected = string_views(selected_categories@);
        let mut removed: Vec<String> = Vec::new();
        let mut i: usize = 0;
        while i < self.removable_categories.len()
            invariant
                i <= self.removable_categories.len(),
                catalog == category_views(self.removable_categories@),
                critical == string_views(self.critical_modules@),
                selected == string_views(selected_categories@),
                string_views(removed@) == planned_removals(catalog.take(i as int), critical, selected),
            decreases self.removable_categories.len() - i,
        {
            let category = &self.removable_categories[i];
            assert(catalog.take(i + 1).drop_last() =~= catalog.take(i as int));
            assert(catalog.take(i + 1).last() == category@);
            if contains_name(&selected_categories, category.name.as_str()) {
                let ghost start = string_views(removed@);
                let ghost modules = string_views(category.modules@);
                let mut j: usize = 0;
                while j < category.modules.len()
                    invariant
                        j <= category.modules.len(),
                        modules == string_views(category.modules@),
                        critical == string_views(self.critical_modules@),
                        string_views(removed@) == start + removable_of(
                            modules.take(j as int),
                            critical,
                        ),
                    decreases category.modules.len() - j,
                {
                    let module = &category.modules[j];
                    assert(modules.take(j + 1).drop_last() =~= modules.take(j as int));
                    assert(modules.take(j + 1).last() == module@);
                    if self.may_remove(module.as_str()) {
                        let ghost before = removed@;
                        let owned = module.clone();
                        proof {
                            lemma_string_views_push(before, owned);
                        }
                        removed.push(owned);
                        assert(string_views(removed@) =~= start + removable_of(
                            modules.take(j + 1),
                            critical,
                        ));
                    }
                    j += 1;
                }
                assert(modules.take(j as int) =~= modules);
            }
            i += 1;
        }
        assert(catalog.take(i as int) =~= catalog);
        removed
    }

    /// The estimated saving in megabytes: a fixed figure.
    pub fn estimate_size_savings(&self) -> (megabytes: usize)
        ensures
            megabytes == 1024,
    {
        1024
    }
}

} // verus!
