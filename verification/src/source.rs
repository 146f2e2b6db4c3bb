//! Stages that are pulled: each hands out its next item on demand, or says
//! that it has ended.
use crate::text::chars_of;
use vstd::prelude::*;

verus! {

/// A finite, single-pass sequence of items, produced one at a time.
pub trait Source: Sized {
    type Item: View;

    /// What every method needs of the source and keeps.
    open spec fn wf(&self) -> bool {
        arbitrary()
    }

    /// The views of the items still to come, in order.
    open spec fn remaining(&self) -> Seq<<Self::Item as View>::V> {
        arbitrary()
    }

    /// The next item, or `None` at the end; after the end it stays `None`.
    fn next(&mut self) -> (r: Option<Self::Item>)
        requires
            old(self).wf(),
        ensures
            final(self).wf(),
            match r {
                Some(item) => {
                    &&& old(self).remaining().len() > 0
                    &&& item@ == old(self).remaining()[0]
                    &&& final(self).remaining() == old(self).remaining().drop_first()
                },
                None => old(self).remaining().len() == 0 && final(self).remaining().len() == 0,
            },
    ;
}

/// The views of the items of `items`, in order.
pub open spec fn views<T: View>(items: Seq<T>) -> Seq<T::V> {
    items.map_values(|item: T| item@)
}

/// The views of a sequence with one more item.
pub proof fn lemma_views_push<T: View>(items: Seq<T>, item: T)
    ensures
        views(items.push(item)) == views(items).push(item@),
{
}

/// The views of a sequence without its first item.
pub proof fn lemma_views_drop_first<T: View>(items: Seq<T>)
    requires
        items.len() > 0,
    ensures
        views(items.drop_first()) == views(items).drop_first(),
        views(items)[0] == items[0]@,
{
}

/// All the items of `source` that are still to come.
pub fn collect<S: Source>(source: S) -> (items: Vec<S::Item>)
    requires
        source.wf(),
    ensures
        views(items@) == source.remaining(),
{
    let mut source = source;
    let mut items: Vec<S::Item> = Vec::new();
    let ghost all = source.remaining();
    loop
        invariant
            source.wf(),
            views(items@) + source.remaining() == all,
        ensures
            views(items@) == all,
        decreases source.remaining().len(),
    {
        match source.next() {
            Some(item) => {
                proof {
                    lemma_views_push(items@, item);
                }
                items.push(item);
            },
            None => {
                break;
            },
        }
    }
    items
}

/// The characters of a text, one at a time.
pub struct Characters {
    chars: Vec<char>,
    position: usize,
}

impl Characters {
    /// The characters of `text`, from the first.
    pub fn new(text: &str) -> (r: Self)
        ensures
            r.wf(),
            r.remaining() == text@,
    {
        Characters { chars: chars_of(text), position: 0 }
    }
}

impl Source for Characters {
    type Item = char;

    closed spec fn wf(&self) -> bool {
        self.position <= self.chars.len()
    }

    closed spec fn remaining(&self) -> Seq<char> {
        self.chars@.skip(self.position as int)
    }

    fn next(&mut self) -> (r: Option<char>) {
        if self.position < self.chars.len() {
            let c = self.chars[self.position];
            self.position = self.position + 1;
            Some(c)
        } else {
            None
        }
    }
}

} // verus!
