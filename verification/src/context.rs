//! Utilities to track the location within a JSON document.

use vstd::prelude::*;
use crate::json::{json_views, Json, JsonValue};

verus! {

/// One frame of an immutable stack of documents: a value and the frame below it.
#[derive(Clone, Copy)]
pub struct Context<'a> {
    pub x: &'a Json,
    pub parent: Option<&'a Context<'a>>,
}

impl<'a> View for Context<'a> {
    type V = Seq<JsonValue>;

    /// The values on the stack, from the root frame to this one.
    open spec fn view(&self) -> Seq<JsonValue>
        decreases self,
    {
        match self.parent {
            Some(parent) => parent@.push(self.x@),
            None => seq![self.x@],
        }
    }
}

/// The values that are not null, in their order.
pub open spec fn without_nulls(frames: Seq<JsonValue>) -> Seq<JsonValue>
    decreases frames.len(),
{
    if frames.len() == 0 {
        Seq::empty()
    } else if frames.last() is Null {
        without_nulls(frames.drop_last())
    } else {
        without_nulls(frames.drop_last()).push(frames.last())
    }
}

impl<'a> Context<'a> {
    /// A stack of one frame that holds null.
    pub fn new() -> (r: Context<'static>)
        ensures
            r@ == seq![JsonValue::Null],
    {
        Context { x: &Json::Null, parent: None }
    }

    /// A stack of one frame that holds `x`.
    pub fn new_from(x: &'a Json) -> (r: Context<'a>)
        ensures
            r@ == seq![x@],
    {
        Context { x, parent: None }
    }

    /// The stack with `x` on top.
    pub fn push(&'a self, x: &'a Json) -> (r: Context<'a>)
        ensures
            r@ == self@.push(x@),
    {
        Context { x, parent: Some(self) }
    }

    /// The stack with its top value swapped for `x`.
    pub fn replace(&'a self, x: &'a Json) -> (r: Context<'a>)
        ensures
            r@ == self@.drop_last().push(x@),
    {
        let r = Context { x, parent: self.parent };
        proof {
            match self.parent {
                Some(parent) => {
                    assert(self@.drop_last() =~= parent@);
                },
                None => {
                    assert(self@.drop_last() =~= Seq::<JsonValue>::empty());
                    assert(r@ =~= self@.drop_last().push(x@));
                },
            }
        }
        r
    }

    /// The values on the stack that are not null, copied, from the root to the top.
    pub fn flatten(&'a self) -> (r: Vec<Json>)
        ensures
            json_views(r@) == without_nulls(self@),
        decreases self,
    {
        let mut result: Vec<Json> = match self.parent {
            Some(parent) => parent.flatten(),
            None => Vec::new(),
        };
        let ghost below = result@;
        proof {
            match self.parent {
                Some(parent) => {
                    assert(self@.drop_last() =~= parent@);
                },
                None => {
                    assert(self@.drop_last() =~= Seq::<JsonValue>::empty());
                    assert(json_views(below) =~= without_nulls(self@.drop_last()));
                },
            }
        }
        if !self.x.is_null() {
            result.push(self.x.clone());
            assert(json_views(result@) =~= json_views(below).push(self.x@));
        }
        result
    }
}

impl<'a> Default for Context<'a> {
    /// A stack of one frame that holds null.
    fn default() -> (r: Context<'a>)
        ensures
            r@ == seq![JsonValue::Null],
    {
        Context { x: &Json::Null, parent: None }
    }
}

} // verus!
