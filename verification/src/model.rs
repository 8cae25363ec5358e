//! Core data model: artifact categories, discovered items, and reports.

use vstd::prelude::*;

verus! {

/// A closed set of artifact classes that the engine knows how to discover.
#[derive(Debug, Clone, Copy, PartialEq, Eq, Structural)]
pub enum Category {
    Xcode,
    Python,
    Rust,
    Nodejs,
    Brew,
    Docker,
}

impl Category {
    /// Canonical position of a category; reports are ordered by this rank.
    pub open spec fn rank(self) -> int {
        match self {
            Category::Xcode => 0,
            Category::Python => 1,
            Category::Rust => 2,
            Category::Nodejs => 3,
            Category::Brew => 4,
            Category::Docker => 5,
        }
    }

    /// All categories, in canonical order.
    pub fn all() -> (v: Vec<Category>)
        ensures
            v@ =~= seq![
                Category::Xcode,
                Category::Python,
                Category::Rust,
                Category::Nodejs,
                Category::Brew,
                Category::Docker,
            ],
    {
        let mut v: Vec<Category> = Vec::new();
        v.push(Category::Xcode);
        v.push(Category::Python);
        v.push(Category::Rust);
        v.push(Category::Nodejs);
        v.push(Category::Brew);
        v.push(Category::Docker);
        v
    }

    /// The category a user-supplied name denotes, matched without regard to
    /// ASCII case.
    pub open spec fn category_of_name(s: Seq<char>) -> Option<Category> {
        if crate::strutil::lower_chars(s) == "xcode"@ {
            Some(Category::Xcode)
        } else if crate::strutil::lower_chars(s) == "python"@ {
            Some(Category::Python)
        } else if crate::strutil::lower_chars(s) == "rust"@ {
            Some(Category::Rust)
        } else if crate::strutil::lower_chars(s) == "nodejs"@ {
            Some(Category::Nodejs)
        } else if crate::strutil::lower_chars(s) == "brew"@ {
            Some(Category::Brew)
        } else if crate::strutil::lower_chars(s) == "docker"@ {
            Some(Category::Docker)
        } else {
            None
        }
    }

    pub fn from_name(value: &str) -> (r: Option<Category>)
        ensures
            r == Category::category_of_name(value@),
    {
        if crate::strutil::eq_lowered(value, "xcode") {
            Some(Category::Xcode)
        } else if crate::strutil::eq_lowered(value, "python") {
            Some(Category::Python)
        } else if crate::strutil::eq_lowered(value, "rust") {
            Some(Category::Rust)
        } else if crate::strutil::eq_lowered(value, "nodejs") {
            Some(Category::Nodejs)
        } else if crate::strutil::eq_lowered(value, "brew") {
            Some(Category::Brew)
        } else if crate::strutil::eq_lowered(value, "docker") {
            Some(Category::Docker)
        } else {
            None
        }
    }

    /// The canonical lower-case name of a category.
    pub open spec fn name_spec(self) -> Seq<char> {
        match self {
            Category::Xcode => "xcode"@,
            Category::Python => "python"@,
            Category::Rust => "rust"@,
            Category::Nodejs => "nodejs"@,
            Category::Brew => "brew"@,
            Category::Docker => "docker"@,
        }
    }

    pub fn as_str(&self) -> (r: &'static str)
        ensures
            r@ == self.name_spec(),
    {
        match self {
            Category::Xcode => "xcode",
            Category::Python => "python",
            Category::Rust => "rust",
            Category::Nodejs => "nodejs",
            Category::Brew => "brew",
            Category::Docker => "docker",
        }
    }

    /// The human-facing display name of a category.
    pub open spec fn display_name_spec(self) -> Seq<char> {
        match self {
            Category::Xcode => "Xcode"@,
            Category::Python => "Python"@,
            Category::Rust => "Rust"@,
            Category::Nodejs => "NodeJS"@,
            Category::Brew => "Homebrew"@,
            Category::Docker => "Docker"@,
        }
    }

    pub fn display_name(&self) -> (r: &'static str)
        ensures
            r@ == self.display_name_spec(),
    {
        match self {
            Category::Xcode => "Xcode",
            Category::Python => "Python",
            Category::Rust => "Rust",
            Category::Nodejs => "NodeJS",
            Category::Brew => "Homebrew",
            Category::Docker => "Docker",
        }
    }
}

/// Whether a discovered item is a plain file or a directory subtree.
#[derive(Debug, Clone, Copy, PartialEq, Eq, Structural)]
pub enum ItemKind {
    File,
    Directory,
}

/// One discovered filesystem object attributed to a category.
///
/// `size` is `None` while the item has been discovered but not yet measured;
/// the size pass replaces it with the measured byte count.
#[derive(Debug, Clone)]
pub struct ScanItem {
    pub category: Category,
    pub path: String,
    pub size: Option<u64>,
    pub kind: ItemKind,
}

impl ScanItem {
    /// The bytes an item contributes to a total: an unmeasured item counts 0.
    pub open spec fn size_bytes(self) -> u64 {
        match self.size {
            Option::Some(n) => n,
            Option::None => 0u64,
        }
    }

    pub open spec fn measured(self) -> bool {
        self.size is Some
    }

    /// A directory item with an already-measured size.
    pub fn directory(category: Category, path: String, size: u64) -> (r: ScanItem)
        ensures
            r == (ScanItem {
                category,
                path,
                size: Option::Some(size),
                kind: ItemKind::Directory,
            }),
    {
        ScanItem { category, path, size: Some(size), kind: ItemKind::Directory }
    }

    /// A file item with an already-measured size.
    pub fn file(category: Category, path: String, size: u64) -> (r: ScanItem)
        ensures
            r == (ScanItem { category, path, size: Option::Some(size), kind: ItemKind::File }),
    {
        ScanItem { category, path, size: Some(size), kind: ItemKind::File }
    }

    /// A directory item discovered but not yet measured.
    pub fn pending_directory(category: Category, path: String) -> (r: ScanItem)
        ensures
            r == (ScanItem { category, path, size: Option::None, kind: ItemKind::Directory }),
    {
        ScanItem { category, path, size: None, kind: ItemKind::Directory }
    }

    /// A file item discovered but not yet measured.
    pub fn pending_file(category: Category, path: String) -> (r: ScanItem)
        ensures
            r == (ScanItem { category, path, size: Option::None, kind: ItemKind::File }),
    {
        ScanItem { category, path, size: None, kind: ItemKind::File }
    }

    /// True when the item was measured and holds exactly zero bytes.
    pub fn is_zero(&self) -> (r: bool)
        ensures
            r == (self.size == Option::Some(0u64)),
    {
        match self.size {
            Some(n) => n == 0,
            None => false,
        }
    }

    pub fn path_str(&self) -> (r: &String)
        ensures
            r == self.path,
    {
        &self.path
    }
}

/// Saturating addition on byte counts.
pub open spec fn sat_add(a: u64, b: u64) -> u64 {
    if a + b <= u64::MAX {
        (a + b) as u64
    } else {
        u64::MAX
    }
}

/// Saturating sum of the sizes of a sequence of items.
pub open spec fn sat_sum_sizes(items: Seq<ScanItem>) -> u64
    decreases items.len(),
{
    if items.len() == 0 {
        0u64
    } else {
        sat_add(sat_sum_sizes(items.drop_last()), items.last().size_bytes())
    }
}

/// Saturating sums compose over concatenation.
pub proof fn lemma_sat_sum_concat(a: Seq<ScanItem>, b: Seq<ScanItem>)
    ensures
        sat_sum_sizes(a + b) == sat_add(sat_sum_sizes(a), sat_sum_sizes(b)),
    decreases b.len(),
{
    if b.len() == 0 {
        assert(a + b =~= a);
    } else {
        lemma_sat_sum_concat(a, b.drop_last());
        assert((a + b).drop_last() =~= a + b.drop_last());
        assert((a + b).last() == b.last());
    }
}

/// A category together with the ordered items discovered for it.
#[derive(Debug, Clone)]
pub struct CategoryReport {
    pub category: Category,
    pub items: Vec<ScanItem>,
}

impl CategoryReport {
    /// Every item in a well-formed report belongs to the report's category.
    pub open spec fn wf(self) -> bool {
        forall|i: int| 0 <= i < self.items@.len() ==> (#[trigger] self.items@[i]).category
            == self.category
    }

    pub fn new(category: Category) -> (r: CategoryReport)
        ensures
            r.category == category,
            r.items@ =~= Seq::<ScanItem>::empty(),
            r.wf(),
    {
        CategoryReport { category, items: Vec::new() }
    }

    /// Total size of the category, saturating at `u64::MAX`.
    pub fn total_size(&self) -> (r: u64)
        ensures
            r == sat_sum_sizes(self.items@),
    {
        let mut total: u64 = 0;
        let mut i: usize = 0;
        while i < self.items.len()
            invariant
                i <= self.items@.len(),
                total == sat_sum_sizes(self.items@.take(i as int)),
            decreases self.items@.len() - i,
        {
            let sz = match self.items[i].size {
                Some(n) => n,
                None => 0,
            };
            proof {
                assert(self.items@.take(i + 1).drop_last() =~= self.items@.take(i as int));
                assert(self.items@.take(i + 1).last() == self.items@[i as int]);
            }
            total = if total <= u64::MAX - sz {
                total + sz
            } else {
                u64::MAX
            };
            i = i + 1;
        }
        proof {
            assert(self.items@.take(self.items@.len() as int) =~= self.items@);
        }
        total
    }

    pub fn is_empty(&self) -> (r: bool)
        ensures
            r == (self.items@.len() == 0),
    {
        self.items.len() == 0
    }
}

pub(crate) fn clone_items(v: &Vec<ScanItem>) -> (r: Vec<ScanItem>)
    ensures
        r@ =~= v@,
{
    let mut r: Vec<ScanItem> = Vec::new();
    let mut i: usize = 0;
    while i < v.len()
        invariant
            i <= v@.len(),
            r@ =~= v@.take(i as int),
        decreases v@.len() - i,
    {
        let it = ScanItem {
            category: v[i].category,
            path: v[i].path.clone(),
            size: v[i].size,
            kind: v[i].kind,
        };
        r.push(it);
        proof {
            assert(r@ =~= v@.take(i + 1));
        }
        i = i + 1;
    }
    r
}

fn clone_report(rep: &CategoryReport) -> (r: CategoryReport)
    ensures
        r.category == rep.category,
        r.items@ =~= rep.items@,
{
    CategoryReport { category: rep.category, items: clone_items(&rep.items) }
}

/// The slot as it survives a subset: kept (with equal contents) or dropped.
fn subset_slot(slot: &Option<CategoryReport>, keep: bool) -> (r: Option<CategoryReport>)
    ensures
        !keep ==> r is None,
        keep ==> match (r, *slot) {
            (Some(a), Some(b)) => a.category == b.category && a.items@ =~= b.items@,
            (None, None) => true,
            _ => false,
        },
{
    if keep {
        match slot {
            Some(rep) => Some(clone_report(rep)),
            None => None,
        }
    } else {
        None
    }
}

/// A report over all categories: one optional `CategoryReport` slot per
/// category, iterated in canonical category order. An absent slot means the
/// category was never scanned — distinct from a scanned-but-empty one.
#[derive(Debug)]
pub struct ScanReport {
    pub xcode: Option<CategoryReport>,
    pub python: Option<CategoryReport>,
    pub rust: Option<CategoryReport>,
    pub nodejs: Option<CategoryReport>,
    pub brew: Option<CategoryReport>,
    pub docker: Option<CategoryReport>,
}

impl ScanReport {
    /// The slot that holds a category's report.
    pub open spec fn slot(self, c: Category) -> Option<CategoryReport> {
        match c {
            Category::Xcode => self.xcode,
            Category::Python => self.python,
            Category::Rust => self.rust,
            Category::Nodejs => self.nodejs,
            Category::Brew => self.brew,
            Category::Docker => self.docker,
        }
    }

    /// Whether the report carries an entry for a category at all.
    pub open spec fn present(self, c: Category) -> bool {
        self.slot(c) is Some
    }

    /// The items recorded for a category; empty when the slot is absent.
    pub open spec fn items_of(self, c: Category) -> Seq<ScanItem> {
        match self.slot(c) {
            Option::Some(r) => r.items@,
            Option::None => Seq::<ScanItem>::empty(),
        }
    }

    /// Every occupied slot holds a report of its own category.
    pub open spec fn wf(self) -> bool {
        &&& (self.xcode matches Some(r) ==> r.category == Category::Xcode && r.wf())
        &&& (self.python matches Some(r) ==> r.category == Category::Python && r.wf())
        &&& (self.rust matches Some(r) ==> r.category == Category::Rust && r.wf())
        &&& (self.nodejs matches Some(r) ==> r.category == Category::Nodejs && r.wf())
        &&& (self.brew matches Some(r) ==> r.category == Category::Brew && r.wf())
        &&& (self.docker matches Some(r) ==> r.category == Category::Docker && r.wf())
    }

    /// All items of the report, in canonical category order.
    pub open spec fn all_items(self) -> Seq<ScanItem> {
        self.items_of(Category::Xcode) + self.items_of(Category::Python) + self.items_of(
            Category::Rust,
        ) + self.items_of(Category::Nodejs) + self.items_of(Category::Brew) + self.items_of(
            Category::Docker,
        )
    }

    pub fn new() -> (r: ScanReport)
        ensures
            forall|c: Category| (#[trigger] r.slot(c)) is None,
            forall|c: Category| !(#[trigger] r.present(c)),
            r.wf(),
    {
        ScanReport { xcode: None, python: None, rust: None, nodejs: None, brew: None, docker: None }
    }

    /// Merges freshly discovered items into the category's slot, creating it
    /// if it was absent. Other categories are untouched.
    pub fn add_items(&mut self, category: Category, items: Vec<ScanItem>)
        requires
            old(self).wf(),
            forall|i: int|
                0 <= i < items@.len() ==> (#[trigger] items@[i]).category == category,
        ensures
            final(self).wf(),
            final(self).present(category),
            final(self).items_of(category) =~= old(self).items_of(category) + items@,
            forall|c: Category| c != category ==> final(self).slot(c) == old(self).slot(c),
    {
        let mut items = items;
        let mut slot: Option<CategoryReport> = None;
        match category {
            Category::Xcode => core::mem::swap(&mut self.xcode, &mut slot),
            Category::Python => core::mem::swap(&mut self.python, &mut slot),
            Category::Rust => core::mem::swap(&mut self.rust, &mut slot),
            Category::Nodejs => core::mem::swap(&mut self.nodejs, &mut slot),
            Category::Brew => core::mem::swap(&mut self.brew, &mut slot),
            Category::Docker => core::mem::swap(&mut self.docker, &mut slot),
        }
        let mut rep = match slot {
            Some(r) => r,
            None => CategoryReport::new(category),
        };
        rep.items.append(&mut items);
        let filled = Some(rep);
        match category {
            Category::Xcode => self.xcode = filled,
            Category::Python => self.python = filled,
            Category::Rust => self.rust = filled,
            Category::Nodejs => self.nodejs = filled,
            Category::Brew => self.brew = filled,
            Category::Docker => self.docker = filled,
        }
    }

    /// Total size of the whole report, saturating at `u64::MAX`.
    pub fn total_size(&self) -> (r: u64)
        ensures
            r == sat_sum_sizes(self.all_items()),
    {
        let mut total: u64 = 0;
        proof {
            assert(sat_sum_sizes(Seq::<ScanItem>::empty()) == 0);
        }
        let r0 = match &self.xcode {
            Some(rep) => rep.total_size(),
            None => 0,
        };
        proof {
            lemma_sat_sum_concat(Seq::<ScanItem>::empty(), self.items_of(Category::Xcode));
            assert(Seq::<ScanItem>::empty() + self.items_of(Category::Xcode) =~= self.items_of(
                Category::Xcode,
            ));
        }
        total = if total <= u64::MAX - r0 {
            total + r0
        } else {
            u64::MAX
        };
        let r1 = match &self.python {
            Some(rep) => rep.total_size(),
            None => 0,
        };
        proof {
            lemma_sat_sum_concat(
                self.items_of(Category::Xcode),
                self.items_of(Category::Python),
            );
        }
        total = if total <= u64::MAX - r1 {
            total + r1
        } else {
            u64::MAX
        };
        let r2 = match &self.rust {
            Some(rep) => rep.total_size(),
            None => 0,
        };
        proof {
            lemma_sat_sum_concat(
                self.items_of(Category::Xcode) + self.items_of(Category::Python),
                self.items_of(Category::Rust),
            );
        }
        total = if total <= u64::MAX - r2 {
            total + r2
        } else {
            u64::MAX
        };
        let r3 = match &self.nodejs {
            Some(rep) => rep.total_size(),
            None => 0,
        };
        proof {
            lemma_sat_sum_concat(
                self.items_of(Category::Xcode) + self.items_of(Category::Python) + self.items_of(
                    Category::Rust,
                ),
                self.items_of(Category::Nodejs),
            );
        }
        total = if total <= u64::MAX - r3 {
            total + r3
        } else {
            u64::MAX
        };
        let r4 = match &self.brew {
            Some(rep) => rep.total_size(),
            None => 0,
        };
        proof {
            lemma_sat_sum_concat(
                self.items_of(Category::Xcode) + self.items_of(Category::Python) + self.items_of(
                    Category::Rust,
                ) + self.items_of(Category::Nodejs),
                self.items_of(Category::Brew),
            );
        }
        total = if total <= u64::MAX - r4 {
            total + r4
        } else {
            u64::MAX
        };
        let r5 = match &self.docker {
            Some(rep) => rep.total_size(),
            None => 0,
        };
        proof {
            lemma_sat_sum_concat(
                self.items_of(Category::Xcode) + self.items_of(Category::Python) + self.items_of(
                    Category::Rust,
                ) + self.items_of(Category::Nodejs) + self.items_of(Category::Brew),
                self.items_of(Category::Docker),
            );
        }
        total = if total <= u64::MAX - r5 {
            total + r5
        } else {
            u64::MAX
        };
        total
    }

    /// The categories present in the report, in canonical order.
    pub fn categories(&self) -> (v: Vec<Category>)
        ensures
            forall|c: Category| v@.contains(c) <==> self.present(c),
            forall|i: int, j: int|
                0 <= i < j < v@.len() ==> (#[trigger] v@[i]).rank() < (#[trigger] v@[j]).rank(),
    {
        let mut v: Vec<Category> = Vec::new();
        if self.xcode.is_some() {
            v.push(Category::Xcode);
            proof {
                assert(forall|j: int| 0 <= j < v@.len() ==> self.present(#[trigger] v@[j]));
            }
        }
        if self.python.is_some() {
            v.push(Category::Python);
            proof {
                assert(forall|j: int| 0 <= j < v@.len() ==> self.present(#[trigger] v@[j]));
            }
        }
        if self.rust.is_some() {
            v.push(Category::Rust);
            proof {
                assert(forall|j: int| 0 <= j < v@.len() ==> self.present(#[trigger] v@[j]));
            }
        }
        if self.nodejs.is_some() {
            v.push(Category::Nodejs);
            proof {
                assert(forall|j: int| 0 <= j < v@.len() ==> self.present(#[trigger] v@[j]));
            }
        }
        if self.brew.is_some() {
            v.push(Category::Brew);
            proof {
                assert(forall|j: int| 0 <= j < v@.len() ==> self.present(#[trigger] v@[j]));
            }
        }
        if self.docker.is_some() {
            v.push(Category::Docker);
            proof {
                assert(forall|j: int| 0 <= j < v@.len() ==> self.present(#[trigger] v@[j]));
            }
        }
        proof {
            assert forall|c: Category| v@.contains(c) implies self.present(c) by {
                let j = choose|j: int| 0 <= j < v@.len() && v@[j] == c;
                assert(self.present(v@[j]));
            }
            assert forall|c: Category| self.present(c) implies v@.contains(c) by {
                match c {
                    Category::Xcode => assert(v@[0] == Category::Xcode),
                    Category::Python => {
                        let idx: int = if self.xcode is Some {
                            1
                        } else {
                            0
                        };
                        assert(v@[idx] == Category::Python);
                    },
                    Category::Rust => {
                        let idx: int = (if self.xcode is Some {
                            1int
                        } else {
                            0int
                        }) + (if self.python is Some {
                            1int
                        } else {
                            0int
                        });
                        assert(v@[idx] == Category::Rust);
                    },
                    Category::Nodejs => {
                        let idx: int = (if self.xcode is Some {
                            1int
                        } else {
                            0int
                        }) + (if self.python is Some {
                            1int
                        } else {
                            0int
                        }) + (if self.rust is Some {
                            1int
                        } else {
                            0int
                        });
                        assert(v@[idx] == Category::Nodejs);
                    },
                    Category::Brew => {
                        let idx: int = (if self.xcode is Some {
                            1int
                        } else {
                            0int
                        }) + (if self.python is Some {
                            1int
                        } else {
                            0int
                        }) + (if self.rust is Some {
                            1int
                        } else {
                            0int
                        }) + (if self.nodejs is Some {
                            1int
                        } else {
                            0int
                        });
                        assert(v@[idx] == Category::Brew);
                    },
                    Category::Docker => {
                        assert(v@[v@.len() - 1] == Category::Docker);
                    },
                }
            }
        }
        v
    }

    /// The report for one category, if that category is present.
    pub fn report_for(&self, category: Category) -> (r: Option<&CategoryReport>)
        ensures
            match r {
                Some(rep) => self.slot(category) == Some(*rep),
                None => self.slot(category) is None,
            },
    {
        let slot = match category {
            Category::Xcode => &self.xcode,
            Category::Python => &self.python,
            Category::Rust => &self.rust,
            Category::Nodejs => &self.nodejs,
            Category::Brew => &self.brew,
            Category::Docker => &self.docker,
        };
        match slot {
            Some(rep) => Some(rep),
            None => None,
        }
    }

    /// The sub-report restricted to the chosen categories: a slot survives
    /// exactly when its category was requested, with its items unchanged.
    pub fn subset(&self, categories: &Vec<Category>) -> (r: ScanReport)
        requires
            self.wf(),
        ensures
            r.wf(),
            forall|c: Category|
                #[trigger] r.present(c) == (self.present(c) && categories@.contains(c)),
            forall|c: Category| #[trigger] r.items_of(c) =~= if categories@.contains(c) {
                self.items_of(c)
            } else {
                Seq::<ScanItem>::empty()
            },
    {
        let r = ScanReport {
            xcode: subset_slot(&self.xcode, contains_category(categories, Category::Xcode)),
            python: subset_slot(&self.python, contains_category(categories, Category::Python)),
            rust: subset_slot(&self.rust, contains_category(categories, Category::Rust)),
            nodejs: subset_slot(&self.nodejs, contains_category(categories, Category::Nodejs)),
            brew: subset_slot(&self.brew, contains_category(categories, Category::Brew)),
            docker: subset_slot(&self.docker, contains_category(categories, Category::Docker)),
        };
        r
    }

    /// Whether every present category is empty of items.
    pub fn is_empty(&self) -> (r: bool)
        ensures
            r == (self.all_items().len() == 0),
    {
        let e0 = match &self.xcode {
            Some(rep) => rep.is_empty(),
            None => true,
        };
        let e1 = match &self.python {
            Some(rep) => rep.is_empty(),
            None => true,
        };
        let e2 = match &self.rust {
            Some(rep) => rep.is_empty(),
            None => true,
        };
        let e3 = match &self.nodejs {
            Some(rep) => rep.is_empty(),
            None => true,
        };
        let e4 = match &self.brew {
            Some(rep) => rep.is_empty(),
            None => true,
        };
        let e5 = match &self.docker {
            Some(rep) => rep.is_empty(),
            None => true,
        };
        e0 && e1 && e2 && e3 && e4 && e5
    }
}

impl Default for ScanReport {
    fn default() -> (r: ScanReport)
        ensures
            forall|c: Category| (#[trigger] r.slot(c)) is None,
            forall|c: Category| !(#[trigger] r.present(c)),
            r.wf(),
    {
        ScanReport::new()
    }
}

/// Whether a category occurs in a list of categories.
pub fn contains_category(v: &Vec<Category>, c: Category) -> (r: bool)
    ensures
        r == v@.contains(c),
{
    let mut i: usize = 0;
    while i < v.len()
        invariant
            i <= v@.len(),
            forall|j: int| 0 <= j < i ==> v@[j] != c,
        decreases v@.len() - i,
    {
        if v[i] == c {
            return true;
        }
        i = i + 1;
    }
    false
}

} // verus!
