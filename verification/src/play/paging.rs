//! Lists shown page by page: how many pages a list has, which of its items
//! stand on a page, and the moves from page to page.

use vstd::prelude::*;

verus! {

/// The number of items on a page of games or of records.
pub const REPLAYS_PER_PAGE: u32 = 6;

/// A range of items whose first item stands behind its last.
#[derive(PartialEq, Eq, Debug, Copy, Clone, Structural)]
pub struct RangeError;

/// Where a viewer stands in a list of pages.
#[derive(PartialEq, Eq, Debug, Copy, Clone, Structural)]
pub struct Pager {
    pub current_page_number: u32,
    pub total_pages: u32,
}

/// The number of pages that `items` items fill: the least number of pages
/// of `per_page` items that hold them all.
pub open spec fn spec_page_count(items: nat, per_page: nat) -> nat
    recommends
        per_page > 0,
{
    if items % per_page == 0 {
        items / per_page
    } else {
        items / per_page + 1
    }
}

/// The items of a list of `total` items that stand at the places `from` to
/// `to`, both counted from 0 and both included: where the range begins and
/// where it ends in the list, the end not included.
pub open spec fn spec_page_slice(total: nat, from: nat, to: nat) -> Result<(nat, nat), RangeError> {
    if from > to {
        Err(RangeError)
    } else if from >= total {
        Ok((total, total))
    } else if to >= total {
        Ok((from, total))
    } else {
        Ok((from, (to + 1) as nat))
    }
}

/// The number of pages that `items` items fill.
pub fn page_count(items: usize, per_page: u32) -> (pages: usize)
    requires
        per_page > 0,
    ensures
        pages == spec_page_count(items as nat, per_page as nat),
{
    let per: usize = per_page as usize;
    if items % per == 0 {
        items / per
    } else {
        proof {
            assert(per >= 2);
            vstd::arithmetic::div_mod::lemma_div_is_ordered_by_denominator(
                items as int,
                2,
                per as int,
            );
        }
        items / per + 1
    }
}

/// The part of a list of `total` items that the places `from` to `to`
/// cover. Fails where `from` is greater than `to`.
pub fn page_slice(total: usize, from: usize, to: usize) -> (r: Result<(usize, usize), RangeError>)
    ensures
        match spec_page_slice(total as nat, from as nat, to as nat) {
            Ok((start, end)) => r == Ok::<(usize, usize), RangeError>(
                (start as usize, end as usize),
            ) && start <= end <= total,
            Err(e) => r == Err::<(usize, usize), RangeError>(e),
        },
{
    if from > to {
        Err(RangeError)
    } else if from >= total {
        Ok((total, total))
    } else if to >= total {
        Ok((from, total))
    } else {
        Ok((from, to + 1))
    }
}

impl Pager {
    /// Whether the pager stands on one of its pages.
    pub open spec fn well_formed(self) -> bool {
        self.current_page_number < self.total_pages
    }

    /// The pager one page on, or where it is on the last page.
    pub open spec fn spec_next(self) -> Pager {
        if self.current_page_number + 1 < self.total_pages {
            Pager { current_page_number: (self.current_page_number + 1) as u32, ..self }
        } else {
            self
        }
    }

    /// The pager one page back, or where it is on the first page.
    pub open spec fn spec_prev(self) -> Pager {
        if self.current_page_number != 0 {
            Pager { current_page_number: (self.current_page_number - 1) as u32, ..self }
        } else {
            self
        }
    }

    /// A pager on the first of `total_pages` pages. A list without a page
    /// is shown as one empty page.
    pub fn new(total_pages: u32) -> (pager: Pager)
        ensures
            pager.current_page_number == 0,
            pager.total_pages == if total_pages == 0 {
                1u32
            } else {
                total_pages
            },
            pager.well_formed(),
    {
        Pager {
            current_page_number: 0,
            total_pages: if total_pages == 0 {
                1
            } else {
                total_pages
            },
        }
    }

    /// Goes one page on, and tells whether there was a page to go to.
    pub fn go_to_next_page(&mut self) -> (moved: bool)
        ensures
            *final(self) == old(self).spec_next(),
            moved == (old(self).current_page_number + 1 < old(self).total_pages),
            old(self).well_formed() ==> final(self).well_formed(),
    {
        if self.current_page_number < u32::MAX && self.current_page_number + 1 < self.total_pages {
            self.current_page_number = self.current_page_number + 1;
            true
        } else {
            false
        }
    }

    /// Goes one page back, and tells whether there was a page to go to.
    pub fn go_to_prev_page(&mut self) -> (moved: bool)
        ensures
            *final(self) == old(self).spec_prev(),
            moved == (old(self).current_page_number != 0),
            old(self).well_formed() ==> final(self).well_formed(),
    {
        if self.current_page_number != 0 {
            self.current_page_number = self.current_page_number - 1;
            true
        } else {
            false
        }
    }

    /// Goes to the first page.
    pub fn go_to_first_page(&mut self)
        ensures
            final(self).current_page_number == 0,
            final(self).total_pages == old(self).total_pages,
    {
        self.current_page_number = 0;
    }

    /// The place in the list of the first item on the current page.
    pub fn index_of_first_item(&self) -> (index: u64)
        ensures
            index == self.current_page_number * REPLAYS_PER_PAGE,
    {
        (self.current_page_number as u64) * (REPLAYS_PER_PAGE as u64)
    }
}

/// The pages hold all the items and none is left empty but the only page
/// of an empty list: the pages before the last are full, and the last holds
/// at least one item.
pub proof fn lemma_page_count_is_least(items: nat, per_page: nat)
    requires
        per_page > 0,
    ensures
        spec_page_count(items, per_page) * per_page >= items,
        items > 0 ==> (spec_page_count(items, per_page) - 1) * per_page < items,
        items == 0 ==> spec_page_count(items, per_page) == 0,
{
    let pages = spec_page_count(items, per_page);
    assert(items == per_page * (items / per_page) + items % per_page) by {
        vstd::arithmetic::div_mod::lemma_fundamental_div_mod(items as int, per_page as int);
    }
    assert(0 <= items % per_page < per_page) by {
        vstd::arithmetic::div_mod::lemma_mod_pos_bound(items as int, per_page as int);
    }
    let q = items / per_page;
    assert(pages * per_page >= items) by (nonlinear_arith)
        requires
            items == per_page * q + items % per_page,
            0 <= items % per_page < per_page,
            pages == if items % per_page == 0 {
                q
            } else {
                q + 1
            },
    ;
    if items > 0 {
        assert((pages - 1) * per_page < items) by (nonlinear_arith)
            requires
                items == per_page * q + items % per_page,
                0 <= items % per_page < per_page,
                items > 0,
                per_page > 0,
                pages == if items % per_page == 0 {
                    q
                } else {
                    q + 1
                },
        ;
    } else {
        assert(q == 0) by (nonlinear_arith)
            requires
                0 == per_page * q + items % per_page,
                0 <= items % per_page,
                per_page > 0,
                q >= 0,
        ;
    }
}

/// Going on and then back, from a page that is not the last, leads to the
/// page where one was; and so does going back and then on, from a page that
/// is not the first.
pub proof fn lemma_next_and_prev_cancel(pager: Pager)
    requires
        pager.well_formed(),
    ensures
        pager.current_page_number + 1 < pager.total_pages ==> pager.spec_next().spec_prev()
            == pager,
        pager.current_page_number != 0 ==> pager.spec_prev().spec_next() == pager,
        pager.spec_next().well_formed(),
        pager.spec_prev().well_formed(),
{
}

} // verus!
