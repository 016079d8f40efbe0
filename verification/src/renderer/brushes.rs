//! Brushes that are kept by their colour.

use vstd::prelude::*;

use crate::error::{AppError, AppResult};

verus! {

pub const TOO_MANY_BRUSHES: &'static str = "too many brushes to cache";

/// A brush with its colour.
#[derive(Debug)]
pub struct CachedBrush<B> {
    pub color: u32,
    pub brush: B,
}

/// Brushes, one for each colour that was used; `B` is the brush itself.
#[derive(Debug)]
pub struct SolidBrushCache<B> {
    pub brushes: Vec<CachedBrush<B>>,
}

impl<B> SolidBrushCache<B> {
    /// No colour has two brushes.
    pub open spec fn wf(&self) -> bool {
        forall|i: int, j: int|
            0 <= i < j < self.brushes@.len() ==> (#[trigger] self.brushes@[i]).color != (
            #[trigger] self.brushes@[j]).color
    }

    /// Whether there is a brush of a colour.
    pub open spec fn has(&self, color: u32) -> bool {
        exists|i: int| 0 <= i < self.brushes@.len() && (#[trigger] self.brushes@[i]).color == color
    }

    pub fn new() -> (cache: Self)
        ensures
            cache.wf(),
            cache.brushes@.len() == 0,
    {
        SolidBrushCache { brushes: Vec::new() }
    }

    /// The place of the brush of a colour, where there is one.
    pub fn find(&self, color: u32) -> (place: Option<usize>)
        ensures
            place is Some == self.has(color),
            place matches Some(at) ==> at < self.brushes@.len() && self.brushes@[at as int].color
                == color && forall|i: int|
                0 <= i < at ==> (#[trigger] self.brushes@[i]).color != color,
    {
        let mut index: usize = 0;
        while index < self.brushes.len()
            invariant
                index <= self.brushes@.len(),
                forall|i: int| 0 <= i < index ==> (#[trigger] self.brushes@[i]).color != color,
            decreases self.brushes@.len() - index,
        {
            if self.brushes[index].color == color {
                return Some(index);
            }
            index += 1;
        }
        None
    }

    /// Keeps a brush that was made because there was none of its colour. `reserved` says
    /// whether there is room for it, and `made` how making it went. Gives its place.
    pub fn keep_in_room(&mut self, color: u32, reserved: bool, made: AppResult<B>) -> (place:
        AppResult<usize>)
        requires
            old(self).wf(),
            !old(self).has(color),
        ensures
            final(self).wf(),
            !reserved ==> {
                &&& place == Err::<usize, AppError>(AppError::InvalidInput(TOO_MANY_BRUSHES))
                &&& final(self).brushes@ == old(self).brushes@
            },
            reserved ==> match made {
                Err(failure) => {
                    &&& place == Err::<usize, AppError>(failure)
                    &&& final(self).brushes@ == old(self).brushes@
                },
                Ok(brush) => {
                    &&& place is Ok
                    &&& place->Ok_0 == old(self).brushes@.len()
                    &&& final(self).brushes@ == old(self).brushes@.push(CachedBrush { color, brush })
                },
            },
    {
        if !reserved {
            return Err(AppError::InvalidInput(TOO_MANY_BRUSHES));
        }
        match made {
            Err(error) => Err(error),
            Ok(brush) => {
                let place = self.brushes.len();
                let ghost before = *self;
                self.brushes.push(CachedBrush { color, brush });
                assert forall|i: int, j: int| 0 <= i < j < self.brushes@.len() implies (
                #[trigger] self.brushes@[i]).color != (#[trigger] self.brushes@[j]).color by {
                    assert(before.brushes@[i] == self.brushes@[i]);
                }
                Ok(place)
            },
        }
    }

    /// Keeps a brush as `keep_in_room` does, where there is room for it. Whether there is
    /// memory for one brush more is up to the allocator.
    pub fn keep(&mut self, color: u32, made: AppResult<B>) -> (place: AppResult<usize>)
        requires
            old(self).wf(),
            !old(self).has(color),
        ensures
            final(self).wf(),
            place matches Ok(at) ==> {
                &&& made matches Ok(brush) && final(self).brushes@ == old(self).brushes@.push(
                    CachedBrush { color, brush },
                )
                &&& at == old(self).brushes@.len()
            },
            place matches Err(error) ==> {
                &&& final(self).brushes@ == old(self).brushes@
                &&& error == AppError::InvalidInput(TOO_MANY_BRUSHES) || (made matches Err(
                    failure,
                ) && error == failure)
            },
    {
        let reserved = self.brushes.try_reserve(1).is_ok();
        self.keep_in_room(color, reserved, made)
    }
}

} // verus!
