//! The texts of a note, in order.

use crate::project::Text;
use crate::project::TextModel;
use std::collections::VecDeque;
use vstd::prelude::*;

verus! {

/// A run of texts that can grow at both ends.
#[derive(Debug)]
pub struct Texts(VecDeque<Text>);

impl DeepView for Texts {
    type V = Seq<TextModel>;

    closed spec fn deep_view(&self) -> Seq<TextModel> {
        self.0.deep_view()
    }
}

impl Texts {
    /// No texts.
    pub fn new() -> (texts: Texts)
        ensures
            texts.deep_view() == Seq::<TextModel>::empty(),
    {
        let texts = Texts(VecDeque::new());
        assert(texts.deep_view() =~= Seq::<TextModel>::empty());
        texts
    }

    /// Puts a text before all others.
    pub fn push_front(&mut self, text: Text)
        ensures
            final(self).deep_view() == seq![text.deep_view()] + old(self).deep_view(),
    {
        self.0.push_front(text);
        assert(self.deep_view() =~= seq![text.deep_view()] + old(self).deep_view());
    }

    /// Puts a text behind all others.
    pub fn push_back(&mut self, text: Text)
        ensures
            final(self).deep_view() == old(self).deep_view().push(text.deep_view()),
    {
        self.0.push_back(text);
        assert(self.deep_view() =~= old(self).deep_view().push(text.deep_view()));
    }

    /// Puts a text at `index`, before the text that stood there.
    pub fn insert(&mut self, index: usize, text: Text)
        requires
            index <= old(self).deep_view().len(),
        ensures
            final(self).deep_view() == old(self).deep_view().insert(
                index as int,
                text.deep_view(),
            ),
    {
        self.0.insert(index, text);
        assert(self.deep_view() =~= old(self).deep_view().insert(index as int, text.deep_view()));
    }

    /// Takes the text at `index` out; an index past the end changes nothing.
    pub fn remove(&mut self, index: usize)
        ensures
            final(self).deep_view() == if index < old(self).deep_view().len() {
                old(self).deep_view().remove(index as int)
            } else {
                old(self).deep_view()
            },
    {
        if index < self.0.len() {
            let _ = self.0.remove(index);
            assert(self.deep_view() =~= old(self).deep_view().remove(index as int));
        }
    }

    /// The text at `index`, if there is one.
    pub fn get(&self, index: usize) -> (text: Option<&Text>)
        ensures
            match text {
                Some(found) => index < self.deep_view().len() && found.deep_view()
                    == self.deep_view()[index as int],
                None => index >= self.deep_view().len(),
            },
    {
        if index < self.0.len() {
            Some(&self.0[index])
        } else {
            None
        }
    }

    /// Whether there is no text.
    pub fn is_empty(&self) -> (empty: bool)
        ensures
            empty == (self.deep_view().len() == 0),
    {
        self.0.len() == 0
    }

    /// The number of texts.
    pub fn len(&self) -> (count: usize)
        ensures
            count == self.deep_view().len(),
    {
        self.0.len()
    }

    /// The texts, to be changed in place.
    pub fn inner_mut(&mut self) -> (texts: &mut VecDeque<Text>)
        ensures
            texts.deep_view() == old(self).deep_view(),
            final(self).deep_view() == final(texts).deep_view(),
    {
        &mut self.0
    }

    /// The texts.
    pub fn inner(&self) -> (texts: &VecDeque<Text>)
        ensures
            texts.deep_view() == self.deep_view(),
    {
        &self.0
    }
}

impl Default for Texts {
    fn default() -> (texts: Texts)
        ensures
            texts.deep_view() == Seq::<TextModel>::empty(),
    {
        Texts::new()
    }
}

} // verus!
