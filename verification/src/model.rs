//! The data that requests, plans and progress reports are made of.

use vstd::prelude::*;

verus! {

/// A request to split one document.
///
/// Page numbers are 1-based and inclusive. `parts` must be at least 1 and the
/// intro range, where present, must lie within the source; both are checked
/// when a run is started, not when the value is built.
#[derive(Debug, Clone, PartialEq, Eq)]
pub struct SplitArgs {
    pub file_path: String,
    pub parts: usize,
    pub intro_range: Option<(usize, usize)>,
    pub output_dir: Option<String>,
    pub output_basename: Option<String>,
    pub verbose: bool,
    pub dry_run: bool,
}

/// The pages that make up one output part.
///
/// `start_page..=end_page` is the part's own slice of the body. A part that
/// receives no body page has `end_page == start_page - 1`.
#[derive(Debug, Clone, Copy, PartialEq, Eq)]
pub struct PageRange {
    pub part_index: usize,
    pub start_page: usize,
    pub end_page: usize,
    pub intro_start_page: Option<usize>,
    pub intro_end_page: Option<usize>,
    pub with_intro: bool,
}

/// The plan for a whole document: one `PageRange` per part, in part order.
#[derive(Debug, Clone, PartialEq, Eq)]
pub struct SplitResult {
    pub total_pages_in_source: usize,
    pub intro_pages_count: usize,
    pub body_pages_count: usize,
    pub parts_to_create: usize,
    pub ranges: Vec<PageRange>,
}

/// What a run reports while it works.
#[derive(Debug, Clone, PartialEq, Eq)]
pub enum Event {
    /// `page` of the `total` pages of the current part have been copied.
    Progress { page: usize, total: usize },
    /// Part `index` has been written to `path`.
    PartComplete { index: usize, path: String },
    /// All `output_count` parts have been written.
    Complete { output_count: usize },
}

/// A `PageRange` over the mathematical integers.
pub struct PartPlan {
    pub part_index: int,
    pub start_page: int,
    pub end_page: int,
    pub intro_start_page: Option<int>,
    pub intro_end_page: Option<int>,
    pub with_intro: bool,
}

/// A `SplitResult` over the mathematical integers.
pub struct SplitPlan {
    pub total_pages_in_source: int,
    pub intro_pages_count: int,
    pub body_pages_count: int,
    pub parts_to_create: int,
    pub ranges: Seq<PartPlan>,
}

/// An optional page number as an optional integer.
pub open spec fn page_view(page: Option<usize>) -> Option<int> {
    match page {
        Some(p) => Some(p as int),
        None => None,
    }
}

/// An optional intro range as an optional pair of integers.
pub open spec fn intro_view(intro: Option<(usize, usize)>) -> Option<(int, int)> {
    match intro {
        Some((start, end)) => Some((start as int, end as int)),
        None => None,
    }
}

impl View for PageRange {
    type V = PartPlan;

    open spec fn view(&self) -> PartPlan {
        PartPlan {
            part_index: self.part_index as int,
            start_page: self.start_page as int,
            end_page: self.end_page as int,
            intro_start_page: page_view(self.intro_start_page),
            intro_end_page: page_view(self.intro_end_page),
            with_intro: self.with_intro,
        }
    }
}

impl View for SplitResult {
    type V = SplitPlan;

    open spec fn view(&self) -> SplitPlan {
        SplitPlan {
            total_pages_in_source: self.total_pages_in_source as int,
            intro_pages_count: self.intro_pages_count as int,
            body_pages_count: self.body_pages_count as int,
            parts_to_create: self.parts_to_create as int,
            ranges: self.ranges@.map_values(|r: PageRange| r@),
        }
    }
}

impl PartPlan {
    /// The number of body pages of the part.
    pub open spec fn body_len(self) -> int {
        self.end_page - self.start_page + 1
    }

    /// The number of intro pages that open the part.
    pub open spec fn intro_len(self) -> int {
        match (self.intro_start_page, self.intro_end_page) {
            (Some(start), Some(end)) => end - start + 1,
            _ => 0,
        }
    }

    /// Whether source page `page` is one of the part's body pages.
    pub open spec fn holds(self, page: int) -> bool {
        self.start_page <= page <= self.end_page
    }

    /// The number of pages of the part's output: its intro and its body.
    pub open spec fn page_count(self) -> int {
        self.intro_len() + self.body_len()
    }

    /// The source page, 1-based, that becomes page `k` (0-based) of the
    /// part's output: the intro pages come first, in ascending order, then
    /// the body pages, in ascending order.
    pub open spec fn source_page(self, k: int) -> int {
        if k < self.intro_len() {
            self.intro_start_page->0 + k
        } else {
            self.start_page + (k - self.intro_len())
        }
    }

    /// What holds of every part of a plan: pages are numbered from 1, the
    /// body range is not reversed, and the three intro fields agree with one
    /// another.
    pub open spec fn well_formed(self) -> bool {
        &&& 1 <= self.part_index
        &&& 1 <= self.start_page <= self.end_page + 1
        &&& self.with_intro <==> self.intro_start_page is Some
        &&& self.with_intro <==> self.intro_end_page is Some
        &&& self.with_intro ==> 1 <= self.intro_start_page->0 <= self.intro_end_page->0
    }

    /// Whether the part's page numbers and page count can be held in `usize`.
    pub open spec fn fits(self) -> bool {
        &&& self.part_index <= usize::MAX
        &&& self.end_page < usize::MAX
        &&& self.with_intro ==> self.intro_end_page->0 < usize::MAX
        &&& self.page_count() <= usize::MAX
    }
}

} // verus!
