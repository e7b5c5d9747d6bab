//! Validation of the loaded configuration: a flat list of keyboard-layout
//! records, rejected when it holds the same record twice.
//!
//! Reading the configuration file from disk and decoding it are stateless
//! I/O concerns and stay with the surrounding program; this core receives
//! the decoded records as plain values and checks them.

use vstd::prelude::*;

verus! {

/// One keyboard-layout record of the configuration file, as plain values.
#[derive(Debug)]
pub struct KeyboardLayout {
    pub layout: String,
    pub variant: String,
}

/// Two records describe the same keyboard layout.
pub open spec fn layouts_equal(a: KeyboardLayout, b: KeyboardLayout) -> bool {
    a.layout@ == b.layout@ && a.variant@ == b.variant@
}

/// No two entries at distinct positions describe the same layout.
pub open spec fn no_duplicate_layouts(l: Seq<KeyboardLayout>) -> bool {
    forall|i: int, j: int| 0 <= i < j < l.len() ==> !layouts_equal(l[i], l[j])
}

/// The positions of the first duplicated pair found by the validation scan.
#[derive(Clone, Copy, PartialEq, Eq, Structural, Debug)]
pub struct DuplicateLayout {
    pub first: usize,
    pub second: usize,
}

impl KeyboardLayout {
    /// Whether two records describe the same layout.
    pub fn matches(&self, other: &KeyboardLayout) -> (r: bool)
        ensures
            r == layouts_equal(*self, *other),
    {
        self.layout == other.layout && self.variant == other.variant
    }
}

/// The validated configuration: a flat list of keyboard-layout records.
#[derive(Debug)]
pub struct Config {
    pub keyboard_layouts: Vec<KeyboardLayout>,
}

impl Config {
    /// Rejects a configuration that lists the same keyboard layout twice.
    /// Success means exactly that no two entries are equal; the error names
    /// the first duplicated pair in scan order: the smallest first index,
    /// with the smallest matching second index.
    pub fn validate(&self) -> (r: Result<(), DuplicateLayout>)
        ensures
            match r {
                Ok(()) => no_duplicate_layouts(self.keyboard_layouts@),
                Err(d) => {
                    &&& d.first < d.second < self.keyboard_layouts@.len()
                    &&& layouts_equal(
                        self.keyboard_layouts@[d.first as int],
                        self.keyboard_layouts@[d.second as int],
                    )
                    &&& forall|p: int, q: int|
                        0 <= p < q < self.keyboard_layouts@.len() && p < d.first
                            ==> !layouts_equal(
                            self.keyboard_layouts@[p],
                            self.keyboard_layouts@[q],
                        )
                    &&& forall|q: int|
                        d.first < q < d.second ==> !layouts_equal(
                            self.keyboard_layouts@[d.first as int],
                            self.keyboard_layouts@[q],
                        )
                },
            },
    {
        let n = self.keyboard_layouts.len();
        let mut i: usize = 0;
        while i < n
            invariant
                i <= n,
                n == self.keyboard_layouts@.len(),
                forall|p: int, q: int|
                    0 <= p < q < n && p < i ==> !layouts_equal(
                        self.keyboard_layouts@[p],
                        self.keyboard_layouts@[q],
                    ),
            decreases n - i,
        {
            let mut j: usize = i + 1;
            while j < n
                invariant
                    i < j <= n || (i + 1 > n && j == i + 1),
                    i < n,
                    n == self.keyboard_layouts@.len(),
                    forall|p: int, q: int|
                        0 <= p < q < n && p < i ==> !layouts_equal(
                            self.keyboard_layouts@[p],
                            self.keyboard_layouts@[q],
                        ),
                    forall|q: int|
                        i < q < j ==> !layouts_equal(
                            self.keyboard_layouts@[i as int],
                            self.keyboard_layouts@[q],
                        ),
                decreases n - j,
            {
                if self.keyboard_layouts[i].matches(&self.keyboard_layouts[j]) {
                    return Err(DuplicateLayout { first: i, second: j });
                }
                j += 1;
            }
            i += 1;
        }
        Ok(())
    }
}

} // verus!
