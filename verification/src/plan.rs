//! The partition planner: which body pages go to which part.

use vstd::prelude::*;
use crate::error::SplitError;
use crate::model::{intro_view, PageRange, PartPlan, SplitPlan, SplitResult};

verus! {

/// Whether an intro range lies within a document of `total` pages.
pub open spec fn valid_intro(total: int, intro: Option<(int, int)>) -> bool {
    match intro {
        Some((start, end)) => 1 <= start <= end <= total,
        None => true,
    }
}

/// The number of pages in an intro range; 0 where there is none.
pub open spec fn intro_len(intro: Option<(int, int)>) -> int {
    match intro {
        Some((start, end)) => end - start + 1,
        None => 0,
    }
}

/// The first page after the intro range; page 1 where there is none.
pub open spec fn first_body_page(intro: Option<(int, int)>) -> int {
    match intro {
        Some((_, end)) => end + 1,
        None => 1,
    }
}

/// The last page that a plan assigns to a part: the body pages are counted on
/// from the first page after the intro. Where the intro starts at page 1, or
/// there is none, this is the last page of the document.
pub open spec fn last_planned_page(total: int, intro: Option<(int, int)>) -> int {
    first_body_page(intro) + (total - intro_len(intro)) - 1
}

/// The number of body pages that part `i` (0-based) receives when `body`
/// pages are divided among `parts` parts: the quotient, and one more for each
/// of the first `body % parts` parts.
pub open spec fn part_len(body: int, parts: int, i: int) -> int {
    body / parts + if i < body % parts { 1int } else { 0int }
}

/// The number of body pages that the parts before part `i` receive together.
pub open spec fn pages_before(body: int, parts: int, i: int) -> int {
    i * (body / parts) + if i < body % parts { i } else { body % parts }
}

/// Part `i` (0-based) of the plan for `total` pages in `parts` parts.
pub open spec fn planned_range(total: int, parts: int, intro: Option<(int, int)>, i: int) -> PartPlan {
    let body: int = total - intro_len(intro);
    let start: int = first_body_page(intro) + pages_before(body, parts, i);
    PartPlan {
        part_index: i + 1,
        start_page: start,
        end_page: start + part_len(body, parts, i) - 1,
        intro_start_page: match intro {
            Some((s, _)) => Some(s),
            None => None,
        },
        intro_end_page: match intro {
            Some((_, e)) => Some(e),
            None => None,
        },
        with_intro: intro is Some,
    }
}

/// The plan for a document of `total` pages split into `parts` parts, each
/// opening with `intro` where that is present.
pub open spec fn plan_of(total: int, parts: int, intro: Option<(int, int)>) -> SplitPlan {
    SplitPlan {
        total_pages_in_source: total,
        intro_pages_count: intro_len(intro),
        body_pages_count: total - intro_len(intro),
        parts_to_create: parts,
        ranges: Seq::new(parts as nat, |i: int| planned_range(total, parts, intro, i)),
    }
}

/// Each part starts where the one before it ended.
pub proof fn lemma_pages_before_step(body: int, parts: int, i: int)
    ensures
        pages_before(body, parts, i + 1) == pages_before(body, parts, i) + part_len(body, parts, i),
{
    let base: int = body / parts;
    assert((i + 1) * base == i * base + base) by (nonlinear_arith);
}

/// The parts before part `i` never hold more than the body, and all parts
/// together hold exactly the body.
pub proof fn lemma_pages_before_bounds(body: int, parts: int, i: int)
    requires
        0 <= body,
        1 <= parts,
        0 <= i <= parts,
    ensures
        0 <= pages_before(body, parts, i) <= body,
        pages_before(body, parts, parts) == body,
        0 <= body / parts,
        0 <= body % parts < parts,
{
    let base: int = body / parts;
    let rem: int = body % parts;
    vstd::arithmetic::div_mod::lemma_fundamental_div_mod(body, parts);
    vstd::arithmetic::div_mod::lemma_div_pos_is_pos(body, parts);
    vstd::arithmetic::div_mod::lemma_mod_bound(body, parts);
    assert(parts * base == base * parts) by (nonlinear_arith);
    assert(0 <= i * base <= parts * base) by (nonlinear_arith)
        requires
            0 <= i <= parts,
            0 <= base,
    ;
}

/// Every part of a plan for a valid request is well formed, lies between the
/// first body page and the last planned page, and has as many pages as the
/// intro and its share of the body together.
pub proof fn lemma_planned_range(total: int, parts: int, intro: Option<(int, int)>, i: int)
    requires
        0 <= total,
        1 <= parts,
        valid_intro(total, intro),
        0 <= i < parts,
    ensures
        ({
            let part = planned_range(total, parts, intro, i);
            &&& part.well_formed()
            &&& first_body_page(intro) <= part.start_page
            &&& part.end_page <= last_planned_page(total, intro)
            &&& part.intro_len() == intro_len(intro)
            &&& part.body_len() == part_len(total - intro_len(intro), parts, i)
            &&& 0 <= part.body_len()
            &&& part.page_count() <= total
        }),
{
    let body: int = total - intro_len(intro);
    lemma_pages_before_step(body, parts, i);
    lemma_pages_before_bounds(body, parts, i);
    lemma_pages_before_bounds(body, parts, i + 1);
}

/// Divides `total_pages` pages among `parts` parts.
///
/// The body is what remains after the intro range. Every part receives the
/// quotient of the body by `parts`; the remainder goes, one page each, to the
/// earliest parts. Body ranges follow one another in source order, starting
/// right after the intro, and every part carries the same intro range.
pub fn calculate_ranges(total_pages: usize, parts: usize, intro_range: Option<(usize, usize)>) -> (result: SplitResult)
    requires
        parts >= 1,
        valid_intro(total_pages as int, intro_view(intro_range)),
        last_planned_page(total_pages as int, intro_view(intro_range)) < usize::MAX,
    ensures
        result@ == plan_of(total_pages as int, parts as int, intro_view(intro_range)),
        result.ranges@.len() == parts,
        forall|i: int| 0 <= i < parts ==> (#[trigger] result.ranges@[i])@ == planned_range(
            total_pages as int,
            parts as int,
            intro_view(intro_range),
            i,
        ),
{
    let ghost intro = intro_view(intro_range);
    let intro_pages_count: usize = match intro_range {
        Some((start, end)) => end - start + 1,
        None => 0,
    };
    let body_pages_count: usize = total_pages - intro_pages_count;
    let base_page_count: usize = body_pages_count / parts;
    let remainder: usize = body_pages_count % parts;
    let intro_start_page: Option<usize> = match intro_range {
        Some((start, _)) => Some(start),
        None => None,
    };
    let intro_end_page: Option<usize> = match intro_range {
        Some((_, end)) => Some(end),
        None => None,
    };

    let mut ranges: Vec<PageRange> = Vec::new();
    let mut start_page: usize = match intro_range {
        Some((_, end)) => end + 1,
        None => 1,
    };
    let mut i: usize = 0;
    while i < parts
        invariant
            0 <= i <= parts,
            1 <= parts,
            last_planned_page(total_pages as int, intro) < usize::MAX,
            valid_intro(total_pages as int, intro),
            intro == intro_view(intro_range),
            body_pages_count == total_pages - intro_len(intro),
            base_page_count == body_pages_count as int / parts as int,
            remainder == body_pages_count as int % parts as int,
            intro_start_page == match intro_range {
                Some((start, _)) => Some(start),
                None => None,
            },
            intro_end_page == match intro_range {
                Some((_, end)) => Some(end),
                None => None,
            },
            start_page == first_body_page(intro) + pages_before(body_pages_count as int, parts as int, i as int),
            ranges@.len() == i,
            forall|j: int| 0 <= j < i ==> (#[trigger] ranges@[j])@ == planned_range(total_pages as int, parts as int, intro, j),
        decreases parts - i,
    {
        proof {
            lemma_pages_before_step(body_pages_count as int, parts as int, i as int);
            lemma_pages_before_bounds(body_pages_count as int, parts as int, i as int);
            lemma_pages_before_bounds(body_pages_count as int, parts as int, i as int + 1);
        }
        let part_page_count: usize = if i < remainder { base_page_count + 1 } else { base_page_count };
        let end_page: usize = start_page + part_page_count - 1;
        ranges.push(PageRange {
            part_index: i + 1,
            start_page,
            end_page,
            intro_start_page,
            intro_end_page,
            with_intro: intro_range.is_some(),
        });
        start_page = end_page + 1;
        i = i + 1;
    }

    let result = SplitResult {
        total_pages_in_source: total_pages,
        intro_pages_count,
        body_pages_count,
        parts_to_create: parts,
        ranges,
    };
    assert(result@.ranges =~= plan_of(total_pages as int, parts as int, intro).ranges);
    result
}

/// Why a request for a plan is refused, `None` where it is accepted: for a
/// request for no parts, and for an intro range that does not lie within the
/// `total_pages` pages of the source.
pub open spec fn refusal(total_pages: usize, parts: usize, intro_range: Option<(usize, usize)>) -> Option<SplitError> {
    if parts == 0 {
        Some(SplitError::ZeroParts)
    } else {
        match intro_range {
            Some((start, end)) => {
                if start < 1 || start > total_pages {
                    Some(SplitError::IntroStartOutOfRange { start })
                } else if end < start || end > total_pages {
                    Some(SplitError::IntroEndOutOfRange { end })
                } else {
                    None
                }
            },
            None => None,
        }
    }
}

/// A request is refused exactly when it asks for no parts or its intro range
/// is not valid, and every refusal is an invalid argument.
pub proof fn lemma_refusal(total_pages: usize, parts: usize, intro_range: Option<(usize, usize)>)
    ensures
        refusal(total_pages, parts, intro_range) is None <==> parts >= 1 && valid_intro(
            total_pages as int,
            intro_view(intro_range),
        ),
        refusal(total_pages, parts, intro_range) matches Some(e) ==> e.kind_of()
            == crate::error::ErrorKind::InvalidArgument,
{
}

/// Plans the split of a document of `total_pages` pages, or refuses the
/// request as an invalid argument.
pub fn plan_split(total_pages: usize, parts: usize, intro_range: Option<(usize, usize)>) -> (result: Result<
    SplitResult,
    SplitError,
>)
    requires
        refusal(total_pages, parts, intro_range) is None ==> last_planned_page(
            total_pages as int,
            intro_view(intro_range),
        ) < usize::MAX,
    ensures
        match result {
            Ok(plan) => {
                &&& refusal(total_pages, parts, intro_range) is None
                &&& plan@ == plan_of(total_pages as int, parts as int, intro_view(intro_range))
                &&& plan.ranges@.len() == parts
                &&& forall|i: int| 0 <= i < parts ==> (#[trigger] plan.ranges@[i])@ == planned_range(
                    total_pages as int,
                    parts as int,
                    intro_view(intro_range),
                    i,
                )
            },
            Err(e) => refusal(total_pages, parts, intro_range) == Some(e),
        },
        result is Err <==> parts == 0 || !valid_intro(total_pages as int, intro_view(intro_range)),
{
    if parts == 0 {
        return Err(SplitError::ZeroParts);
    }
    match intro_range {
        Some((start, end)) => {
            if start < 1 || start > total_pages {
                return Err(SplitError::IntroStartOutOfRange { start });
            }
            if end < start || end > total_pages {
                return Err(SplitError::IntroEndOutOfRange { end });
            }
        },
        None => {},
    }
    Ok(calculate_ranges(total_pages, parts, intro_range))
}

/// Whether `page` is one of the pages that a plan hands out as body pages.
pub open spec fn is_planned_page(total: int, intro: Option<(int, int)>, page: int) -> bool {
    first_body_page(intro) <= page <= last_planned_page(total, intro)
}

/// Whether `page` is a body page of one of the parts in `ranges`.
pub open spec fn some_part_holds(ranges: Seq<PartPlan>, page: int) -> bool {
    exists|i: int| 0 <= i < ranges.len() && #[trigger] ranges[i].holds(page)
}

/// The body pages of all the parts in `ranges`, counted together.
pub open spec fn total_body_len(ranges: Seq<PartPlan>) -> int
    decreases ranges.len(),
{
    if ranges.len() == 0 {
        0
    } else {
        total_body_len(ranges.drop_last()) + ranges.last().body_len()
    }
}

proof fn lemma_prefix_body_len(total: int, parts: int, intro: Option<(int, int)>, k: int)
    requires
        1 <= parts,
        0 <= k <= parts,
    ensures
        total_body_len(plan_of(total, parts, intro).ranges.take(k)) == pages_before(
            total - intro_len(intro),
            parts,
            k,
        ),
    decreases k,
{
    let ranges = plan_of(total, parts, intro).ranges;
    let body: int = total - intro_len(intro);
    if k == 0 {
        assert(0 * (body / parts) == 0) by (nonlinear_arith);
    } else {
        lemma_prefix_body_len(total, parts, intro, k - 1);
        lemma_pages_before_step(body, parts, k - 1);
        assert(ranges.take(k).drop_last() =~= ranges.take(k - 1));
        assert(ranges.take(k).last() == ranges[k - 1]);
    }
}

proof fn lemma_pages_before_monotone(body: int, parts: int, i: int, j: int)
    requires
        0 <= body,
        1 <= parts,
        0 <= i <= j,
    ensures
        pages_before(body, parts, i) <= pages_before(body, parts, j),
{
    let base: int = body / parts;
    vstd::arithmetic::div_mod::lemma_div_pos_is_pos(body, parts);
    vstd::arithmetic::div_mod::lemma_mod_bound(body, parts);
    assert(i * base <= j * base) by (nonlinear_arith)
        requires
            0 <= i <= j,
            0 <= base,
    ;
}

proof fn lemma_find_part(total: int, parts: int, intro: Option<(int, int)>, page: int, k: int) -> (i: int)
    requires
        1 <= parts,
        valid_intro(total, intro),
        0 < k <= parts,
        first_body_page(intro) <= page < first_body_page(intro) + pages_before(total - intro_len(intro), parts, k),
    ensures
        0 <= i < k,
        planned_range(total, parts, intro, i).holds(page),
    decreases k,
{
    let body: int = total - intro_len(intro);
    lemma_pages_before_step(body, parts, k - 1);
    if first_body_page(intro) + pages_before(body, parts, k - 1) <= page {
        k - 1
    } else {
        assert(0 * (body / parts) == 0) by (nonlinear_arith);
        lemma_find_part(total, parts, intro, page, k - 1)
    }
}

/// The body lengths of all parts add up to the number of body pages: what
/// remains of the document once the intro pages are taken off.
pub proof fn plan_covers_body(total: int, parts: int, intro: Option<(int, int)>)
    requires
        0 <= total,
        1 <= parts,
        valid_intro(total, intro),
    ensures
        total_body_len(plan_of(total, parts, intro).ranges) == total - intro_len(intro),
        plan_of(total, parts, intro).body_pages_count == total - intro_len(intro),
{
    let ranges = plan_of(total, parts, intro).ranges;
    lemma_prefix_body_len(total, parts, intro, parts);
    lemma_pages_before_bounds(total - intro_len(intro), parts, parts);
    assert(ranges.take(parts) =~= ranges);
}

/// The body ranges partition the planned pages. They follow one another
/// without a gap, the first starting right after the intro; no page belongs
/// to two of them; and the pages that belong to one of them are exactly those
/// from the first body page to the last planned page. Where the intro starts
/// at page 1, or there is none, that last page is the last page of the
/// document.
pub proof fn plan_partitions_body(total: int, parts: int, intro: Option<(int, int)>)
    requires
        0 <= total,
        1 <= parts,
        valid_intro(total, intro),
    ensures
        ({
            let ranges = plan_of(total, parts, intro).ranges;
            &&& ranges.len() == parts
            &&& ranges[0].start_page == first_body_page(intro)
            &&& ranges[parts - 1].end_page == last_planned_page(total, intro)
            &&& forall|i: int| 0 <= i < parts ==> (#[trigger] ranges[i]).start_page <= ranges[i].end_page + 1
            &&& forall|i: int|
                0 <= i < parts - 1 ==> (#[trigger] ranges[i + 1]).start_page == ranges[i].end_page + 1
            &&& forall|i: int, j: int, page: int|
                0 <= i < j < parts && #[trigger] ranges[i].holds(page) ==> !#[trigger] ranges[j].holds(page)
            &&& forall|page: int| #[trigger] is_planned_page(total, intro, page) <==> some_part_holds(ranges, page)
        }),
        (intro matches Some((start, _)) ==> start == 1) ==> last_planned_page(total, intro) == total,
{
    let ranges = plan_of(total, parts, intro).ranges;
    let body: int = total - intro_len(intro);
    let first: int = first_body_page(intro);
    lemma_pages_before_bounds(body, parts, parts);
    lemma_pages_before_step(body, parts, parts - 1);
    assert(0 * (body / parts) == 0) by (nonlinear_arith);
    assert forall|i: int| 0 <= i < parts implies (#[trigger] ranges[i]).start_page <= ranges[i].end_page + 1 by {
        lemma_pages_before_bounds(body, parts, i);
    }
    assert forall|i: int| 0 <= i < parts - 1 implies (#[trigger] ranges[i + 1]).start_page == ranges[i].end_page
        + 1 by {
        lemma_pages_before_step(body, parts, i);
    }
    assert forall|i: int, j: int, page: int|
        0 <= i < j < parts && #[trigger] ranges[i].holds(page) implies !#[trigger] ranges[j].holds(page) by {
        lemma_pages_before_step(body, parts, i);
        lemma_pages_before_monotone(body, parts, i + 1, j);
    }
    assert forall|page: int| #[trigger] is_planned_page(total, intro, page) <==> some_part_holds(ranges, page) by {
        if is_planned_page(total, intro, page) {
            let i = lemma_find_part(total, parts, intro, page, parts);
            assert(ranges[i].holds(page));
        }
        if some_part_holds(ranges, page) {
            let i = choose|i: int| 0 <= i < ranges.len() && #[trigger] ranges[i].holds(page);
            lemma_pages_before_bounds(body, parts, i);
            lemma_pages_before_bounds(body, parts, i + 1);
            lemma_pages_before_step(body, parts, i);
        }
    }
}

/// The remainder is handed out from the front: with `r` the remainder of the
/// body pages by the number of parts, the first `r` parts hold one page more
/// than the quotient and all later parts hold the quotient.
pub proof fn plan_front_loads_remainder(total: int, parts: int, intro: Option<(int, int)>)
    requires
        0 <= total,
        1 <= parts,
        valid_intro(total, intro),
    ensures
        ({
            let ranges = plan_of(total, parts, intro).ranges;
            let body: int = total - intro_len(intro);
            forall|i: int|
                0 <= i < parts ==> (#[trigger] ranges[i]).body_len() == if i < body % parts {
                    body / parts + 1
                } else {
                    body / parts
                }
        }),
{
}

/// Planning is a function of its inputs: two plans made for the same
/// document, number of parts and intro range agree in every field.
pub proof fn plan_is_deterministic(
    total_pages: usize,
    parts: usize,
    intro_range: Option<(usize, usize)>,
    one: SplitResult,
    other: SplitResult,
)
    requires
        one@ == plan_of(total_pages as int, parts as int, intro_view(intro_range)),
        other@ == plan_of(total_pages as int, parts as int, intro_view(intro_range)),
    ensures
        one@ == other@,
        one.total_pages_in_source == other.total_pages_in_source,
        one.intro_pages_count == other.intro_pages_count,
        one.body_pages_count == other.body_pages_count,
        one.parts_to_create == other.parts_to_create,
        one.ranges@ == other.ranges@,
{
    assert(one.ranges@.len() == one@.ranges.len());
    assert(other.ranges@.len() == other@.ranges.len());
    assert forall|i: int| 0 <= i < one.ranges@.len() implies one.ranges@[i] == other.ranges@[i] by {
        assert(one@.ranges[i] == one.ranges@[i]@);
        assert(other@.ranges[i] == other.ranges@[i]@);
    }
    assert(one.ranges@ =~= other.ranges@);
}

} // verus!
